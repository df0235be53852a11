//! Optional lossless compression of the payload, done by an outside
//! DEFLATE implementation behind two trusted wrappers.
//!
//! What inflating a byte sequence yields is named by the uninterpreted
//! [`inflate_of`]; nothing in this crate states what that result is on any
//! given bytes, only that compressing and then inflating returns the
//! original payload.

use vstd::prelude::*;

verus! {

/// What DEFLATE decompression yields on the given bytes: the decompressed
/// stream, or nothing when the bytes are not a valid DEFLATE stream. The
/// result depends on the bytes alone.
pub uninterp spec fn inflate_of(data: Seq<u8>) -> Option<Seq<u8>>;

/// Relies on miniz_oxide::deflate::compress_to_vec: DEFLATE is lossless, so
/// miniz_oxide::inflate::decompress_to_vec returns exactly the input bytes.
#[verifier::external_body]
pub fn deflate_bytes(data: &Vec<u8>) -> (r: Vec<u8>)
    ensures
        inflate_of(r@) == Some(data@),
{
    miniz_oxide::deflate::compress_to_vec(data.as_slice(), 6)
}

/// Relies on miniz_oxide::inflate::decompress_to_vec: the result is a
/// function of the input bytes alone, and an error means the input is not a
/// valid DEFLATE stream.
#[verifier::external_body]
pub fn inflate_bytes(data: &Vec<u8>) -> (r: Option<Vec<u8>>)
    ensures
        r matches Some(v) ==> inflate_of(data@) == Some(v@),
        r is None ==> inflate_of(data@) is None,
{
    match miniz_oxide::inflate::decompress_to_vec(data.as_slice()) {
        Ok(v) => Some(v),
        Err(_) => None,
    }
}

} // verus!
