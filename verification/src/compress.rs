//! The archive's compression primitive: zlib-wrapped DEFLATE, supplied by an
//! outside implementation and taken on trust at this boundary.
//!
//! Both directions are deterministic functions of their input bytes, so each
//! is given a name; what the library relies on is that decompressing a
//! compressed payload gives the payload back, which is the documented,
//! defining property of lossless compression.

use vstd::prelude::*;

verus! {

/// What zlib-wrapped DEFLATE compression at the archive's fixed level
/// produces for the given bytes.
pub uninterp spec fn deflate_of(data: Seq<u8>) -> Seq<u8>;

/// What zlib-wrapped DEFLATE decompression yields for the given bytes:
/// the decompressed payload, or nothing when the stream is not a valid
/// zlib stream.
pub uninterp spec fn inflate_of(data: Seq<u8>) -> Option<Seq<u8>>;

/// Relies on miniz_oxide::deflate::compress_to_vec_zlib: the output depends
/// on the input bytes alone, and miniz_oxide::inflate::decompress_to_vec_zlib
/// decompresses it back to exactly the input.
#[verifier::external_body]
pub(crate) fn deflate_bytes(data: &[u8]) -> (r: Vec<u8>)
    ensures
        r@ == deflate_of(data@),
        inflate_of(r@) == Some(data@),
{
    miniz_oxide::deflate::compress_to_vec_zlib(data, 1)
}

/// Relies on miniz_oxide::inflate::decompress_to_vec_zlib: the result depends
/// on the input bytes alone, and it fails exactly on input it cannot
/// decompress.
#[verifier::external_body]
pub(crate) fn inflate_bytes(data: &[u8]) -> (r: Option<Vec<u8>>)
    ensures
        r matches Some(v) ==> inflate_of(data@) == Some(v@),
        r is None ==> inflate_of(data@) is None,
{
    miniz_oxide::inflate::decompress_to_vec_zlib(data).ok()
}

} // verus!
