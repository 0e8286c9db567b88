use vstd::prelude::*;

verus! {

/// The three hash words `(g, f1, f2)` that phf's SipHash-1-3 gives a key's UTF-8
/// bytes under a seed.
pub uninterp spec fn phf_hashes_of(s: Seq<char>, key: u64) -> (u32, u32, u32);

/// `d2 + f1 * d1 + f2`, wrapping at 32 bits.
pub open spec fn displace(f1: u32, f2: u32, d1: u32, d2: u32) -> int {
    (d2 as int + f1 as int * d1 as int + f2 as int) % 0x1_0000_0000
}

/// The slot of a key with hash words `h` in a table of `len` slots whose buckets
/// have the displacements `disps`: the bucket is `g mod B`, the slot is the
/// displaced value mod `len`.
pub open spec fn slot_of(h: (u32, u32, u32), disps: Seq<(u32, u32)>, len: nat) -> int {
    let d = disps[h.0 as int % disps.len() as int];
    displace(h.1, h.2, d.0, d.1) % len as int
}

/// No two keys of `keys` are equal.
pub open spec fn distinct_keys(keys: Seq<String>) -> bool {
    forall|i: int, j: int|
        0 <= i < keys.len() && 0 <= j < keys.len() && i != j ==> keys[i]@ != keys[j]@
}

/// A perfect hash over a set of keys: the seed, one displacement pair per bucket,
/// and, for each slot, the index of the key placed there.
pub struct PhfLayout {
    pub key: u64,
    pub disps: Vec<(u32, u32)>,
    pub map: Vec<usize>,
}

impl PhfLayout {
    /// Some slot holds key `k`.
    pub open spec fn covers(&self, k: int) -> bool {
        exists|s: int| 0 <= s < self.map@.len() && self.map@[s] == k
    }

    /// `map` is a bijection from slots onto key indices, and every key hashes to the
    /// slot that holds it.
    pub open spec fn places(&self, keys: Seq<String>) -> bool {
        &&& self.map@.len() == keys.len()
        &&& keys.len() > 0 ==> self.disps@.len() > 0
        &&& self.disps@.len() <= keys.len()
        &&& forall|s: int| 0 <= s < keys.len() ==> (#[trigger] self.map@[s]) < keys.len()
        &&& forall|s: int, t: int|
            0 <= s < keys.len() && 0 <= t < keys.len() && s != t ==> self.map@[s] != self.map@[t]
        &&& forall|k: int| 0 <= k < keys.len() ==> #[trigger] self.covers(k)
        &&& forall|s: int|
            #![trigger self.map@[s]]
            0 <= s < keys.len() ==> slot_of(
                phf_hashes_of(keys[self.map@[s] as int]@, self.key),
                self.disps@,
                keys.len(),
            ) == s
    }
}

/// Relies on phf_shared::hash: SipHash-1-3 keyed by `(0, key)` over the string's
/// UTF-8 bytes, split into the words `(g, f1, f2)`.
#[verifier::external_body]
fn phf_hash(s: &str, key: u64) -> (r: (u32, u32, u32))
    ensures
        r == phf_hashes_of(s@, key),
{
    let h = phf_shared::hash(s, &key);
    (h.g, h.f1, h.f2)
}

/// Relies on phf_generator::generate_hash. It draws seeds from a fixed-seed
/// generator until every bucket (there are `ceil(n / 5)`, keyed by `g`) finds a
/// displacement pair that puts its keys on free, mutually distinct slots
/// `displace(f1, f2, d1, d2) % n`; `map[slot]` is then the index of the key placed
/// there, each key exactly once. Two equal keys never separate, so the search would
/// not end: the keys must be distinct. Slots are computed in `u32`.
#[verifier::external_body]
pub(crate) fn generate_layout(keys: &Vec<String>) -> (r: PhfLayout)
    requires
        distinct_keys(keys@),
        keys@.len() <= u32::MAX,
    ensures
        r.places(keys@),
{
    let state = phf_generator::generate_hash(keys);
    PhfLayout { key: state.key, disps: state.disps, map: state.map }
}

/// The slot that the perfect hash `(key, disps)` of a table of `len` slots gives `s`.
pub fn slot_for(s: &str, key: u64, disps: &Vec<(u32, u32)>, len: usize) -> (r: usize)
    requires
        0 < len <= u32::MAX,
        0 < disps@.len() <= u32::MAX,
    ensures
        r == slot_of(phf_hashes_of(s@, key), disps@, len as nat),
        r < len,
{
    let h = phf_hash(s, key);
    let b: usize = (h.0 % (disps.len() as u32)) as usize;
    let d = disps[b];
    let f1: u64 = h.1 as u64;
    let d1: u64 = d.0 as u64;
    assert(f1 * d1 <= 0xffff_ffff * 0xffff_ffff) by (nonlinear_arith)
        requires
            f1 <= 0xffff_ffff,
            d1 <= 0xffff_ffff,
    ;
    let p: u64 = f1 * d1 % 0x1_0000_0000;
    let x: u64 = (d.1 as u64 + p + h.2 as u64) % 0x1_0000_0000;
    let r: usize = (x % (len as u64)) as usize;
    assert(x == displace(h.1, h.2, d.0, d.1)) by (nonlinear_arith)
        requires
            p == (h.1 as int * d.0 as int) % 0x1_0000_0000,
            x == (d.1 as int + p + h.2 as int) % 0x1_0000_0000,
    ;
    r
}

} // verus!
