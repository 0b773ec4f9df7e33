//! The one outside computation the codec leans on: zlib compression.
//! Nothing here is re-implemented; the two wrappers call flate2 and the
//! contracts name its results, so that the codec's own proofs can speak
//! of them exactly.

use vstd::prelude::*;

verus! {

/// The byte sequence flate2's zlib compressor produces for `b` (one fixed
/// compression level; the result depends on the input alone).
pub uninterp spec fn deflate_of(b: Seq<u8>) -> Seq<u8>;

/// What flate2's zlib decompressor makes of `s`: the decoded bytes of the
/// stream at the front of `s`, or `None` when no complete, well-formed
/// stream is there.
pub uninterp spec fn inflate_of(s: Seq<u8>) -> Option<Seq<u8>>;

/// Relies on flate2's `ZlibEncoder` (level 6): compressing never fails on
/// in-memory data, and its documentation promises that `ZlibDecoder`
/// restores exactly the bytes that were compressed.
#[verifier::external_body]
pub fn zlib_deflate(data: &Vec<u8>) -> (r: Vec<u8>)
    ensures
        r@ == deflate_of(data@),
        inflate_of(r@) == Some(data@),
{
    let mut z = flate2::read::ZlibEncoder::new(&data[..], flate2::Compression::new(6));
    let mut out: Vec<u8> = Vec::new();
    std::io::Read::read_to_end(&mut z, &mut out).expect("in-memory compression cannot fail");
    out
}

/// Relies on flate2's `Decompress::decompress_vec`: with the whole input
/// at hand and room for at least `cap` bytes, one `Finish` call reaches
/// `StreamEnd` exactly when the stream is well formed and its decoded
/// form fits the room given (which may exceed `cap`: the caller checks
/// the exact length itself).
#[verifier::external_body]
pub fn zlib_inflate_upto(data: &Vec<u8>, cap: usize) -> (r: Option<Vec<u8>>)
    ensures
        match r {
            Some(v) => inflate_of(data@) == Some(v@),
            None => inflate_of(data@) is None || inflate_of(data@).unwrap().len() > cap,
        },
{
    let mut d = flate2::Decompress::new(true);
    let mut out: Vec<u8> = Vec::with_capacity(cap);
    match d.decompress_vec(&data[..], &mut out, flate2::FlushDecompress::Finish) {
        Ok(flate2::Status::StreamEnd) => Some(out),
        _ => None,
    }
}

} // verus!
