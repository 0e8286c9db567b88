use crate::compress::{select_content, stored, GzipStrategy};
use crate::perfect_hash::{generate_layout, phf_hashes_of, slot_for, slot_of, PhfLayout};
use vstd::prelude::*;
use vstd::slice::slice_subrange;
use vstd::string::StringExecFns;

verus! {

/// One file of the source tree: its path relative to the root, and its content.
pub struct SourceFile {
    pub path: String,
    pub content: Vec<u8>,
}

/// Where one file's stored bytes lie in the archive's buffer (`start..end`), and
/// whether they are gzip-compressed.
#[derive(Debug)]
pub struct ArchiveEntry {
    pub path: String,
    pub start: usize,
    pub end: usize,
    pub is_compressed: bool,
}

/// One buffer holding the stored bytes of every file, and a perfect-hash index over
/// the relative paths: `entries[slot]` describes the file whose path hashes to `slot`.
#[derive(Debug)]
pub struct Archive {
    pub policy: GzipStrategy,
    pub buffer: Vec<u8>,
    pub key: u64,
    pub disps: Vec<(u32, u32)>,
    pub entries: Vec<ArchiveEntry>,
}

/// Why an archive could not be built.
#[derive(Clone, Copy, Debug, PartialEq, Eq, Structural)]
pub enum BuildError {
    /// Two files of the tree have the same relative path.
    DuplicatePath,
}

/// No two files share a relative path.
pub open spec fn unique_paths(files: Seq<SourceFile>) -> bool {
    forall|i: int, j: int|
        0 <= i < files.len() && 0 <= j < files.len() && i != j ==> files[i].path@ != files[j].path@
}

/// The buffer after the stored bytes of the first `k` files were appended in order.
pub open spec fn packed(files: Seq<SourceFile>, policy: GzipStrategy, k: nat) -> Seq<u8>
    decreases k,
{
    if k == 0 || k > files.len() {
        Seq::empty()
    } else {
        packed(files, policy, (k - 1) as nat) + stored(policy, files[k - 1].content@).0
    }
}

/// `e` records file `k`: its path, its range in the packed buffer and its flag.
pub open spec fn records_file(e: ArchiveEntry, files: Seq<SourceFile>, policy: GzipStrategy, k: int) -> bool {
    &&& e.path@ == files[k].path@
    &&& e.start == packed(files, policy, k as nat).len()
    &&& e.end == packed(files, policy, (k + 1) as nat).len()
    &&& e.is_compressed == stored(policy, files[k].content@).1
}

/// The buffer only grows as files are appended.
pub proof fn lemma_packed_grows(files: Seq<SourceFile>, policy: GzipStrategy, j: nat, k: nat)
    requires
        j <= k <= files.len(),
    ensures
        packed(files, policy, j).len() <= packed(files, policy, k).len(),
        packed(files, policy, k).subrange(0, packed(files, policy, j).len() as int)
            == packed(files, policy, j),
    decreases k - j,
{
    if j < k {
        lemma_packed_grows(files, policy, j, (k - 1) as nat);
        let a = packed(files, policy, (k - 1) as nat);
        let b = stored(policy, files[k - 1].content@).0;
        assert((a + b).subrange(0, a.len() as int) == a);
        assert((a + b).subrange(0, packed(files, policy, j).len() as int)
            == a.subrange(0, packed(files, policy, j).len() as int));
    }
}

/// File `k`'s stored bytes are the range `packed(k)..packed(k + 1)` of the whole buffer.
pub proof fn lemma_packed_range(files: Seq<SourceFile>, policy: GzipStrategy, k: int)
    requires
        0 <= k < files.len(),
    ensures
        packed(files, policy, files.len()).subrange(
            packed(files, policy, k as nat).len() as int,
            packed(files, policy, (k + 1) as nat).len() as int,
        ) == stored(policy, files[k].content@).0,
{
    let a = packed(files, policy, k as nat);
    let b = stored(policy, files[k].content@).0;
    let whole = packed(files, policy, files.len());
    lemma_packed_grows(files, policy, (k + 1) as nat, files.len());
    assert(packed(files, policy, (k + 1) as nat) == a + b);
    assert(whole.subrange(0, (a + b).len() as int) == a + b);
    assert(whole.subrange(a.len() as int, (a + b).len() as int)
        == (a + b).subrange(a.len() as int, (a + b).len() as int));
    assert((a + b).subrange(a.len() as int, (a + b).len() as int) == b);
}

impl Archive {
    /// Ranges lie in the buffer, paths are unique, and every entry sits at the slot
    /// that its path hashes to.
    pub open spec fn wf(&self) -> bool {
        let n = self.entries@.len();
        &&& n <= u32::MAX
        &&& n > 0 ==> 0 < self.disps@.len() <= u32::MAX
        &&& forall|s: int|
            #![trigger self.entries@[s]]
            0 <= s < n ==> self.entries@[s].start <= self.entries@[s].end <= self.buffer@.len()
        &&& forall|s: int, t: int|
            0 <= s < n && 0 <= t < n && s != t ==> self.entries@[s].path@ != self.entries@[t].path@
        &&& forall|s: int|
            0 <= s < n ==> slot_of(
                phf_hashes_of(#[trigger] self.entries@[s].path@, self.key),
                self.disps@,
                n,
            ) == s
    }

    /// The stored bytes of the entry at slot `s`.
    pub open spec fn bytes_at(&self, s: int) -> Seq<u8> {
        self.buffer@.subrange(self.entries@[s].start as int, self.entries@[s].end as int)
    }

    /// Some entry has path `p`.
    pub open spec fn contains(&self, p: Seq<char>) -> bool {
        exists|s: int| 0 <= s < self.entries@.len() && #[trigger] self.entries@[s].path@ == p
    }

    /// The stored bytes and flag of the file with path `p`, if there is one.
    pub open spec fn lookup(&self, p: Seq<char>) -> Option<(Seq<u8>, bool)> {
        if self.contains(p) {
            let s = choose|s: int| 0 <= s < self.entries@.len() && #[trigger] self.entries@[s].path@ == p;
            Some((self.bytes_at(s), self.entries@[s].is_compressed))
        } else {
            None
        }
    }

    /// The relative paths in slot order.
    pub open spec fn paths(&self) -> Seq<Seq<char>> {
        self.entries@.map_values(|e: ArchiveEntry| e.path@)
    }

    /// The entry at slot `s` records one of the files.
    pub open spec fn slot_records_some_file(&self, files: Seq<SourceFile>, policy: GzipStrategy, s: int) -> bool {
        exists|k: int| 0 <= k < files.len() && records_file(self.entries@[s], files, policy, k)
    }

    /// Some entry records file `k`.
    pub open spec fn file_recorded(&self, files: Seq<SourceFile>, policy: GzipStrategy, k: int) -> bool {
        exists|s: int| 0 <= s < self.entries@.len() && records_file(self.entries@[s], files, policy, k)
    }

    /// This archive is what `build` makes of `files` under `policy`: the buffer is
    /// the stored bytes of the files in their order, and the entries record each file
    /// once, in some slot order.
    pub open spec fn built_from(&self, files: Seq<SourceFile>, policy: GzipStrategy) -> bool {
        let n = files.len();
        &&& self.wf()
        &&& unique_paths(files)
        &&& self.policy == policy
        &&& self.entries@.len() == n
        &&& self.buffer@ == packed(files, policy, n)
        &&& forall|s: int| 0 <= s < n ==> #[trigger] self.slot_records_some_file(files, policy, s)
        &&& forall|k: int| 0 <= k < n ==> #[trigger] self.file_recorded(files, policy, k)
    }

    /// Packs `files` in order into one buffer under `policy` and indexes them by a
    /// perfect hash over their paths. Fails exactly when two files share a path.
    pub fn build(files: &Vec<SourceFile>, policy: GzipStrategy) -> (r: Result<Archive, BuildError>)
        requires
            files@.len() <= u32::MAX,
        ensures
            r is Err <==> !unique_paths(files@),
            r matches Err(e) ==> e == BuildError::DuplicatePath,
            r matches Ok(a) ==> a.built_from(files@, policy),
    {
        if !has_unique_paths(files) {
            return Err(BuildError::DuplicatePath);
        }
        let n = files.len();
        let mut buffer: Vec<u8> = Vec::new();
        let mut records: Vec<ArchiveEntry> = Vec::new();
        let mut keys: Vec<String> = Vec::new();
        let mut k: usize = 0;
        while k < n
            invariant
                n == files@.len(),
                k <= n,
                buffer@ == packed(files@, policy, k as nat),
                records@.len() == k,
                keys@.len() == k,
                forall|j: int| 0 <= j < k ==> #[trigger] records_file(records@[j], files@, policy, j),
                forall|j: int| 0 <= j < k ==> #[trigger] keys@[j]@ == files@[j].path@,
            decreases n - k,
        {
            let (mut bytes, flag) = select_content(policy, files[k].content.as_slice());
            let start = buffer.len();
            buffer.append(&mut bytes);
            let end = buffer.len();
            records.push(ArchiveEntry { path: files[k].path.clone(), start, end, is_compressed: flag });
            keys.push(files[k].path.clone());
            k = k + 1;
        }
        proof {
            assert forall|i: int, j: int| 0 <= i < keys@.len() && 0 <= j < keys@.len() && i != j
                implies keys@[i]@ != keys@[j]@ by {
                assert(keys@[i]@ == files@[i].path@);
                assert(keys@[j]@ == files@[j].path@);
            }
        }
        let layout = generate_layout(&keys);
        let entries = place_entries(&records, &layout, Ghost(keys@));
        let archive = Archive { policy, buffer, key: layout.key, disps: layout.disps, entries };
        proof {
            lemma_placed_archive(files@, policy, records@, keys@, &layout, &archive);
        }
        Ok(archive)
    }
}

impl Archive {
    /// The slot whose entry has path `p`, if any: the only one, since paths are unique.
    fn find(&self, path: &str) -> (r: Option<usize>)
        requires
            self.wf(),
        ensures
            r matches Some(s) ==> s < self.entries@.len() && self.entries@[s as int].path@ == path@,
            r is None ==> !self.contains(path@),
    {
        let n = self.entries.len();
        if n == 0 {
            return None;
        }
        let s = slot_for(path, self.key, &self.disps, n);
        let query = String::from_str(path);
        if self.entries[s].path == query {
            Some(s)
        } else {
            proof {
                if self.contains(path@) {
                    let t = choose|t: int| 0 <= t < n && #[trigger] self.entries@[t].path@ == path@;
                    assert(slot_of(phf_hashes_of(self.entries@[t].path@, self.key), self.disps@, n as nat) == t);
                }
            }
            None
        }
    }

    /// The lookup spec picks the slot that holds `p`.
    pub proof fn lemma_lookup_at(&self, p: Seq<char>, s: int)
        requires
            self.wf(),
            0 <= s < self.entries@.len(),
            self.entries@[s].path@ == p,
        ensures
            self.lookup(p) == Some((self.bytes_at(s), self.entries@[s].is_compressed)),
    {
        assert(self.contains(p));
        let t = choose|t: int| 0 <= t < self.entries@.len() && #[trigger] self.entries@[t].path@ == p;
        assert(t == s);
    }

    /// The stored bytes of the file with relative path `path` and whether they are
    /// compressed, or `None` when no file has that path.
    pub fn get(&self, path: &str) -> (r: Option<(&[u8], bool)>)
        requires
            self.wf(),
        ensures
            r is None ==> self.lookup(path@) is None,
            r matches Some((b, f)) ==> self.lookup(path@) == Some((b@, f)),
    {
        match self.find(path) {
            None => None,
            Some(s) => {
                let e = &self.entries[s];
                proof {
                    self.lemma_lookup_at(path@, s as int);
                }
                Some((slice_subrange(self.buffer.as_slice(), e.start, e.end), e.is_compressed))
            },
        }
    }

    /// The stored bytes of the file with relative path `path`, without the flag: for
    /// archives whose policy makes it the same for every file.
    pub fn get_bytes(&self, path: &str) -> (r: Option<&[u8]>)
        requires
            self.wf(),
        ensures
            r is None ==> self.lookup(path@) is None,
            r matches Some(b) ==> self.lookup(path@) matches Some((c, _)) && b@ == c,
    {
        match self.get(path) {
            None => None,
            Some((b, _)) => Some(b),
        }
    }

    /// The relative paths of all files, in slot order.
    pub fn list(&self) -> (r: Vec<String>)
        ensures
            r@.len() == self.entries@.len(),
            forall|s: int| 0 <= s < r@.len() ==> #[trigger] r@[s]@ == self.paths()[s],
    {
        let n = self.entries.len();
        let mut out: Vec<String> = Vec::new();
        let mut s: usize = 0;
        while s < n
            invariant
                n == self.entries@.len(),
                s <= n,
                out@.len() == s,
                forall|t: int| 0 <= t < s ==> #[trigger] out@[t]@ == self.paths()[t],
            decreases n - s,
        {
            out.push(self.entries[s].path.clone());
            s = s + 1;
        }
        out
    }
}

/// The archive assembled from the records of `files` (in file order) placed by a
/// perfect hash over their paths is the one that `build` promises.
proof fn lemma_placed_archive(
    fs: Seq<SourceFile>,
    policy: GzipStrategy,
    records: Seq<ArchiveEntry>,
    keys: Seq<String>,
    layout: &PhfLayout,
    archive: &Archive,
)
    requires
        fs.len() <= u32::MAX,
        unique_paths(fs),
        records.len() == fs.len(),
        keys.len() == fs.len(),
        forall|j: int| 0 <= j < fs.len() ==> #[trigger] records_file(records[j], fs, policy, j),
        forall|j: int| 0 <= j < fs.len() ==> #[trigger] keys[j]@ == fs[j].path@,
        layout.places(keys),
        archive.policy == policy,
        archive.buffer@ == packed(fs, policy, fs.len()),
        archive.key == layout.key,
        archive.disps@ == layout.disps@,
        archive.entries@.len() == fs.len(),
        forall|s: int|
            0 <= s < fs.len() ==> {
                let e = #[trigger] archive.entries@[s];
                let o = records[layout.map@[s] as int];
                e.path@ == o.path@ && e.start == o.start && e.end == o.end
                    && e.is_compressed == o.is_compressed
            },
    ensures
        archive.built_from(fs, policy),
{
    let n = fs.len();
    let es = archive.entries@;
    assert forall|s: int| #![trigger es[s]] 0 <= s < n implies es[s].start <= es[s].end <= archive.buffer@.len() by {
        let k = layout.map@[s] as int;
        assert(records_file(records[k], fs, policy, k));
        lemma_packed_grows(fs, policy, k as nat, (k + 1) as nat);
        lemma_packed_grows(fs, policy, (k + 1) as nat, n);
    }
    assert forall|s: int, t: int| 0 <= s < n && 0 <= t < n && s != t
        implies es[s].path@ != es[t].path@ by {
        let i = layout.map@[s] as int;
        let j = layout.map@[t] as int;
        assert(records_file(records[i], fs, policy, i));
        assert(records_file(records[j], fs, policy, j));
    }
    assert forall|s: int| 0 <= s < n implies slot_of(
        phf_hashes_of(#[trigger] es[s].path@, archive.key),
        archive.disps@,
        n,
    ) == s by {
        let i = layout.map@[s] as int;
        assert(keys[i]@ == fs[i].path@);
        assert(records_file(records[i], fs, policy, i));
    }
    assert(archive.wf());
    assert forall|s: int| 0 <= s < n implies #[trigger] archive.slot_records_some_file(fs, policy, s) by {
        let i = layout.map@[s] as int;
        assert(records_file(records[i], fs, policy, i));
        assert(records_file(es[s], fs, policy, i));
    }
    assert forall|k: int| 0 <= k < n implies #[trigger] archive.file_recorded(fs, policy, k) by {
        assert(layout.covers(k));
        let s = choose|s: int| 0 <= s < n && layout.map@[s] == k;
        assert(records_file(records[k], fs, policy, k));
        assert(records_file(es[s], fs, policy, k));
    }
}

/// Whether no two files share a relative path.
fn has_unique_paths(files: &Vec<SourceFile>) -> (r: bool)
    ensures
        r == unique_paths(files@),
{
    let n = files.len();
    let mut i: usize = 0;
    while i < n
        invariant
            n == files@.len(),
            i <= n,
            forall|a: int, b: int|
                0 <= a < i && 0 <= b < n && a != b ==> files@[a].path@ != files@[b].path@,
        decreases n - i,
    {
        let mut j: usize = 0;
        while j < n
            invariant
                n == files@.len(),
                i < n,
                j <= n,
                forall|a: int, b: int|
                    0 <= a < i && 0 <= b < n && a != b ==> files@[a].path@ != files@[b].path@,
                forall|b: int| 0 <= b < j && b != i ==> files@[i as int].path@ != files@[b].path@,
            decreases n - j,
        {
            if i != j && files[i].path == files[j].path {
                return false;
            }
            j = j + 1;
        }
        i = i + 1;
    }
    true
}

/// A copy of an entry.
fn copy_entry(e: &ArchiveEntry) -> (r: ArchiveEntry)
    ensures
        r.path@ == e.path@,
        r.start == e.start,
        r.end == e.end,
        r.is_compressed == e.is_compressed,
{
    ArchiveEntry { path: e.path.clone(), start: e.start, end: e.end, is_compressed: e.is_compressed }
}

/// Puts the records in slot order: slot `s` gets the record of key `map[s]`.
fn place_entries(records: &Vec<ArchiveEntry>, layout: &PhfLayout, keys: Ghost<Seq<String>>) -> (r: Vec<ArchiveEntry>)
    requires
        layout.places(keys@),
        records@.len() == keys@.len(),
    ensures
        r@.len() == records@.len(),
        forall|s: int|
            0 <= s < r@.len() ==> {
                let e = #[trigger] r@[s];
                let o = records@[layout.map@[s] as int];
                e.path@ == o.path@ && e.start == o.start && e.end == o.end
                    && e.is_compressed == o.is_compressed
            },
{
    let n = layout.map.len();
    let mut out: Vec<ArchiveEntry> = Vec::new();
    let mut s: usize = 0;
    while s < n
        invariant
            n == layout.map@.len(),
            n == records@.len(),
            layout.places(keys@),
            s <= n,
            out@.len() == s,
            forall|t: int|
                0 <= t < s ==> {
                    let e = #[trigger] out@[t];
                    let o = records@[layout.map@[t] as int];
                    e.path@ == o.path@ && e.start == o.start && e.end == o.end
                        && e.is_compressed == o.is_compressed
                },
        decreases n - s,
    {
        out.push(copy_entry(&records[layout.map[s]]));
        s = s + 1;
    }
    out
}

} // verus!
