//! Compression in the zstd frame format.

use vstd::prelude::*;

verus! {

/// What `encode_all` of the zstd crate makes of `data` at the compression
/// level `level`: the bytes of a zstd frame, or nothing where the encoder
/// fails.
pub uninterp spec fn zstd_frame(data: Seq<u8>, level: int) -> Option<Seq<u8>>;

/// The bytes of an optional list.
pub open spec fn optional_bytes(v: Option<Vec<u8>>) -> Option<Seq<u8>> {
    match v {
        Some(v) => Some(v@),
        None => None,
    }
}

/// Compresses `data` into one zstd frame with `encode_all` of the zstd
/// crate. Level 0 stands for the default level of zstd. The frame depends
/// on the data and the level alone.
#[verifier::external_body]
pub fn zstd_compress(data: &[u8], level: i32) -> (r: Option<Vec<u8>>)
    ensures
        optional_bytes(r) == zstd_frame(data@, level as int),
{
    zstd::encode_all(data, level).ok()
}

} // verus!
