use crate::archive::{lemma_packed_range, packed, records_file, unique_paths, Archive, SourceFile};
use crate::compress::{gzip_of, stored, GzipStrategy};
use crate::perfect_hash::{phf_hashes_of, slot_of};
use vstd::prelude::*;

verus! {

/// The relative paths of the files, in order.
pub open spec fn file_paths(files: Seq<SourceFile>) -> Seq<Seq<char>> {
    files.map_values(|f: SourceFile| f.path@)
}

/// Every file of a built archive is found by its path, with exactly the bytes and
/// the flag that its policy stores for it.
pub proof fn lemma_file_found(a: &Archive, files: Seq<SourceFile>, policy: GzipStrategy, k: int)
    requires
        a.built_from(files, policy),
        0 <= k < files.len(),
    ensures
        a.lookup(files[k].path@) == Some(stored(policy, files[k].content@)),
{
    assert(a.file_recorded(files, policy, k));
    let s = choose|s: int| 0 <= s < a.entries@.len() && records_file(a.entries@[s], files, policy, k);
    a.lemma_lookup_at(files[k].path@, s);
    lemma_packed_range(files, policy, k);
}

/// Under `Never`, every file is found uncompressed, with its raw bytes.
pub proof fn lemma_never_stores_raw(a: &Archive, files: Seq<SourceFile>, k: int)
    requires
        a.built_from(files, GzipStrategy::Never),
        0 <= k < files.len(),
    ensures
        a.lookup(files[k].path@) == Some((files[k].content@, false)),
{
    lemma_file_found(a, files, GzipStrategy::Never, k);
}

/// Under `All`, every file is found compressed, as the gzip container of its raw
/// bytes, whatever its size.
pub proof fn lemma_all_stores_gzip(a: &Archive, files: Seq<SourceFile>, k: int)
    requires
        a.built_from(files, GzipStrategy::All),
        0 <= k < files.len(),
    ensures
        a.lookup(files[k].path@) == Some((gzip_of(files[k].content@), true)),
{
    lemma_file_found(a, files, GzipStrategy::All, k);
}

/// Under `Auto`, a file is stored as its gzip container exactly when that is
/// strictly shorter than its raw bytes, and raw otherwise.
pub proof fn lemma_auto_stores_smaller(a: &Archive, files: Seq<SourceFile>, k: int)
    requires
        a.built_from(files, GzipStrategy::Auto),
        0 <= k < files.len(),
    ensures
        gzip_of(files[k].content@).len() < files[k].content@.len() ==> a.lookup(files[k].path@)
            == Some((gzip_of(files[k].content@), true)),
        gzip_of(files[k].content@).len() >= files[k].content@.len() ==> a.lookup(files[k].path@)
            == Some((files[k].content@, false)),
{
    lemma_file_found(a, files, GzipStrategy::Auto, k);
}

/// The paths of a built archive are the paths of its files, each once.
pub proof fn lemma_paths_are_file_paths(a: &Archive, files: Seq<SourceFile>, policy: GzipStrategy)
    requires
        a.built_from(files, policy),
    ensures
        a.paths().len() == files.len(),
        a.paths().no_duplicates(),
        a.paths().to_set() == file_paths(files).to_set(),
{
    let ps = a.paths();
    let fps = file_paths(files);
    assert forall|x: Seq<char>| ps.to_set().contains(x) implies fps.to_set().contains(x) by {
        let s = choose|s: int| 0 <= s < ps.len() && ps[s] == x;
        assert(a.slot_records_some_file(files, policy, s));
        let k = choose|k: int| 0 <= k < files.len() && records_file(a.entries@[s], files, policy, k);
        assert(fps[k] == x);
    }
    assert forall|x: Seq<char>| fps.to_set().contains(x) implies ps.to_set().contains(x) by {
        let k = choose|k: int| 0 <= k < fps.len() && fps[k] == x;
        assert(a.file_recorded(files, policy, k));
        let s = choose|s: int| 0 <= s < a.entries@.len() && records_file(a.entries@[s], files, policy, k);
        assert(ps[s] == x);
    }
    assert(ps.to_set() =~= fps.to_set());
}

/// A path that no file has is not found.
pub proof fn lemma_absent_not_found(a: &Archive, files: Seq<SourceFile>, policy: GzipStrategy, p: Seq<char>)
    requires
        a.built_from(files, policy),
        forall|k: int| 0 <= k < files.len() ==> files[k].path@ != p,
    ensures
        a.lookup(p) is None,
{
    if a.contains(p) {
        let s = choose|s: int| 0 <= s < a.entries@.len() && a.entries@[s].path@ == p;
        assert(a.slot_records_some_file(files, policy, s));
    }
}

/// The index's hash sends the paths of the files one to one onto the slots
/// `0..n`: each lands on the slot that holds it, and distinct files on distinct slots.
pub proof fn lemma_hash_is_bijection(a: &Archive, files: Seq<SourceFile>, policy: GzipStrategy, i: int, j: int)
    requires
        a.built_from(files, policy),
        0 <= i < files.len(),
        0 <= j < files.len(),
    ensures
        ({
            let si = slot_of(phf_hashes_of(files[i].path@, a.key), a.disps@, files.len());
            let sj = slot_of(phf_hashes_of(files[j].path@, a.key), a.disps@, files.len());
            &&& 0 <= si < files.len()
            &&& a.entries@[si].path@ == files[i].path@
            &&& i != j ==> si != sj
        }),
{
    assert(a.file_recorded(files, policy, i));
    assert(a.file_recorded(files, policy, j));
    let s = choose|s: int| 0 <= s < a.entries@.len() && records_file(a.entries@[s], files, policy, i);
    let t = choose|t: int| 0 <= t < a.entries@.len() && records_file(a.entries@[t], files, policy, j);
    assert(slot_of(phf_hashes_of(a.entries@[s].path@, a.key), a.disps@, files.len()) == s);
    assert(slot_of(phf_hashes_of(a.entries@[t].path@, a.key), a.disps@, files.len()) == t);
    if i != j {
        assert(files[i].path@ != files[j].path@);
    }
}

} // verus!
