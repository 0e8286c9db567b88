use std::io::Write;
use vstd::prelude::*;

verus! {

/// What gzip with flate2's default level makes of a byte sequence.
pub uninterp spec fn gzip_of(raw: Seq<u8>) -> Seq<u8>;

/// Relies on flate2's `GzEncoder` at `Compression::default()`: writing `raw` into
/// an in-memory encoder and finishing it yields the gzip container of `raw`.
/// Writing into a `Vec` never fails, so neither call returns an error.
#[verifier::external_body]
fn gzip(raw: &[u8]) -> (r: Vec<u8>)
    ensures
        r@ == gzip_of(raw@),
{
    let mut encoder = flate2::write::GzEncoder::new(Vec::new(), flate2::Compression::default());
    encoder.write_all(raw).unwrap();
    encoder.finish().unwrap()
}

/// When the bytes of a file are stored compressed.
#[derive(Clone, Copy, Debug, PartialEq, Eq, Structural)]
pub enum GzipStrategy {
    /// Always store the raw bytes.
    Never,
    /// Store the gzip container when it is strictly shorter than the raw bytes.
    Auto,
    /// Always store the gzip container, even when it is longer.
    All,
}

/// The bytes stored for a file with content `raw` under `policy`, and whether
/// they are compressed.
pub open spec fn stored(policy: GzipStrategy, raw: Seq<u8>) -> (Seq<u8>, bool) {
    match policy {
        GzipStrategy::Never => (raw, false),
        GzipStrategy::All => (gzip_of(raw), true),
        GzipStrategy::Auto => if gzip_of(raw).len() < raw.len() {
            (gzip_of(raw), true)
        } else {
            (raw, false)
        },
    }
}

/// Decides, for one file, which bytes are stored and whether they are compressed.
pub fn select_content(policy: GzipStrategy, raw: &[u8]) -> (r: (Vec<u8>, bool))
    ensures
        (r.0@, r.1) == stored(policy, raw@),
{
    match policy {
        GzipStrategy::Never => (vstd::slice::slice_to_vec(raw), false),
        GzipStrategy::All => (gzip(raw), true),
        GzipStrategy::Auto => {
            let packed = gzip(raw);
            if packed.len() < raw.len() {
                (packed, true)
            } else {
                (vstd::slice::slice_to_vec(raw), false)
            }
        },
    }
}

} // verus!
