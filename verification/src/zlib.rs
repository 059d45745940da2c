//! The one decompression primitive the codec rests on.

use vstd::prelude::*;

verus! {

/// The byte sequence that a zlib-framed DEFLATE stream inflates to, or `None`
/// when the stream is malformed. Inflation is a pure function of the compressed
/// bytes, so every contract that speaks about decompression shares this name.
pub uninterp spec fn zlib_inflate(compressed: Seq<u8>) -> Option<Seq<u8>>;

/// Relies on flate2's `ZlibDecoder`, read through `std::io::Read::read_to_end`:
/// inflating a buffer is deterministic, yields the bytes named by
/// `zlib_inflate`, and fails exactly when the stream is malformed.
#[verifier::external_body]
pub(crate) fn zlib_decompress(compressed: &[u8]) -> (r: Result<Vec<u8>, String>)
    ensures
        (r matches Ok(v) ==> zlib_inflate(compressed@) == Some(v@)),
        (r is Err ==> zlib_inflate(compressed@) is None),
{
    let mut decoder = flate2::read::ZlibDecoder::new(compressed);
    let mut out: Vec<u8> = Vec::new();
    match std::io::Read::read_to_end(&mut decoder, &mut out) {
        Ok(_) => Ok(out),
        Err(e) => Err(format!("{}", e)),
    }
}

} // verus!
