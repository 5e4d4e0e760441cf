//! The trusted boundary to the outside crates: the byte compressor
//! used for the replay artifact, and the uniform random source used
//! for apple placement. Each item's contract states only what the
//! outside crate's source and documentation show.

use vstd::prelude::*;
use std::io::Write;

verus! {

/// The brotli stream (buffer 4096, quality 9, window 22) of a byte
/// sequence. The stream is a deterministic function of the input
/// bytes alone; its exact shape is left unstated.
pub uninterp spec fn brotli_compressed(b: Seq<u8>) -> Seq<u8>;

/// Relies on brotli::CompressorWriter: writing all the input through
/// it into a growable buffer, then dropping it, leaves the buffer
/// holding the complete brotli stream of the input. Writing into a
/// `Vec` cannot fail.
#[verifier::external_body]
pub(crate) fn brotli_compress(data: &Vec<u8>) -> (r: Vec<u8>)
    ensures
        r@ == brotli_compressed(data@),
{
    let mut out: Vec<u8> = Vec::new();
    {
        let mut writer = brotli::CompressorWriter::new(&mut out, 4096, 9, 22);
        writer.write_all(data.as_slice()).expect("failure while compressing game replay");
    }
    out
}

/// Relies on brotli::BrotliDecompress: brotli compression is lossless,
/// so a stream produced by `brotli_compress` decompresses to exactly
/// the bytes that were compressed; a stream it rejects yields nothing.
#[verifier::external_body]
pub(crate) fn brotli_decompress(data: &Vec<u8>) -> (r: Option<Vec<u8>>)
    ensures
        forall|orig: Seq<u8>|
            data@ == brotli_compressed(orig) ==> r is Some && r->0@ == orig,
{
    let mut input: &[u8] = data.as_slice();
    let mut out: Vec<u8> = Vec::new();
    match brotli::BrotliDecompress(&mut input, &mut out) {
        Ok(()) => Some(out),
        Err(_) => None,
    }
}

/// Relies on rand::random_range: a uniform draw from `[0, bound)`,
/// which panics only on an empty range; the precondition rules that
/// out. Nothing beyond the range is promised of the draw.
#[verifier::external_body]
pub(crate) fn random_below(bound: u32) -> (r: u32)
    requires
        1 <= bound,
    ensures
        r < bound,
{
    rand::random_range(0..bound)
}

} // verus!
