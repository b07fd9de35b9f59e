//! The xz backend, wrapping xz2's xz-container streaming codec at level 9.

use vstd::prelude::*;

use std::io::Read;
use std::io::Write;

use crate::com::{ByteCount, Compressor};
use crate::de::Decompressor;
use crate::error::CodecError;

verus! {

/// A compressed map over the xz backend.
pub type XzHashMap<V> = crate::hash_map::CompressedHashMap<V, XzCompressor, XzDecompressor>;

/// What xz decompression recovers from a byte sequence: the decoded stream
/// when the bytes form a valid xz container, nothing when they are
/// malformed.  The outcome depends on the bytes alone.
pub uninterp spec fn xz_inverse(compressed: Seq<u8>) -> Option<Seq<u8>>;

/// Relies on xz2's `write::XzEncoder` at level 9: the container it emits
/// decompresses, through xz2's `read::XzDecoder`, back to its input.
#[verifier::external_body]
pub(crate) fn xz_compress_bytes(data: &[u8]) -> (r: Result<Vec<u8>, CodecError>)
    ensures
        r matches Ok(out) ==> xz_inverse(out@) == Some(data@),
{
    let mut encoder = ::xz2::write::XzEncoder::new(Vec::new(), 9);
    if encoder.write_all(data).is_err() {
        return Err(CodecError::Codec);
    }
    encoder.finish().map_err(|_| CodecError::Codec)
}

/// Relies on xz2's `read::XzDecoder`: what it recovers, and whether it
/// fails, depend on the compressed bytes alone.
#[verifier::external_body]
pub(crate) fn xz_decompress_bytes(source: &[u8]) -> (r: Result<Vec<u8>, CodecError>)
    ensures
        r matches Ok(out) ==> xz_inverse(source@) == Some(out@),
        r is Err ==> xz_inverse(source@) is None,
{
    let mut decoder = ::xz2::read::XzDecoder::new(source);
    let mut out = Vec::new();
    match decoder.read_to_end(&mut out) {
        Ok(_) => Ok(out),
        Err(_) => Err(CodecError::Codec),
    }
}

/// The decompressing side of the xz backend.
#[derive(Debug, Copy, Clone)]
pub struct XzDecompressor;

impl Decompressor for XzDecompressor {
    open spec fn spec_inverse(compressed: Seq<u8>) -> Option<Seq<u8>> {
        xz_inverse(compressed)
    }

    fn new() -> Self {
        XzDecompressor
    }

    fn copy(&self, source: &[u8]) -> (r: Result<Vec<u8>, CodecError>) {
        xz_decompress_bytes(source)
    }
}

/// The compressing side of the xz backend, at level 9.
#[derive(Debug, Copy, Clone)]
pub struct XzCompressor;

impl Compressor for XzCompressor {
    open spec fn spec_inverse(compressed: Seq<u8>) -> Option<Seq<u8>> {
        xz_inverse(compressed)
    }

    open spec fn spec_infallible() -> bool {
        false
    }

    fn new() -> Self {
        XzCompressor
    }

    fn compress(&self, data: &[u8]) -> (r: Result<(Vec<u8>, ByteCount), CodecError>) {
        match xz_compress_bytes(data) {
            Ok(out) => {
                let count = ByteCount { read: data.len() as u64, write: out.len() as u64 };
                Ok((out, count))
            },
            Err(e) => Err(e),
        }
    }
}

} // verus!
