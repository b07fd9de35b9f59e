//! The deflate backend, wrapping flate2's raw-deflate streaming codec.

use vstd::prelude::*;

use std::io::Read;
use std::io::Write;

use crate::com::{ByteCount, Compressor};
use crate::de::Decompressor;
use crate::error::CodecError;

verus! {

/// A compressed map over the deflate backend.
pub type DeflateHashMap<V> = crate::hash_map::CompressedHashMap<V, DeflateCompressor, DeflateDecompressor>;

/// What deflate decompression recovers from a byte sequence: the decoded
/// stream when the bytes form a valid raw deflate stream, nothing when they
/// are malformed.  The outcome depends on the bytes alone.
pub uninterp spec fn deflate_inverse(compressed: Seq<u8>) -> Option<Seq<u8>>;

/// Relies on flate2's `DeflateEncoder` (default level): the stream it emits
/// decompresses, through flate2's `DeflateDecoder`, back to its input, and
/// writing into an owned buffer gives the encoder nowhere to fail.
#[verifier::external_body]
fn deflate_compress_bytes(data: &[u8]) -> (r: Result<Vec<u8>, CodecError>)
    ensures
        r is Ok,
        r matches Ok(out) ==> deflate_inverse(out@) == Some(data@),
{
    let mut encoder =
        flate2::write::DeflateEncoder::new(Vec::new(), flate2::Compression::default());
    if encoder.write_all(data).is_err() {
        return Err(CodecError::Codec);
    }
    encoder.finish().map_err(|_| CodecError::Codec)
}

/// Relies on flate2's `DeflateDecoder`: what it recovers, and whether it
/// fails, depend on the compressed bytes alone.
#[verifier::external_body]
fn deflate_decompress_bytes(source: &[u8]) -> (r: Result<Vec<u8>, CodecError>)
    ensures
        r matches Ok(out) ==> deflate_inverse(source@) == Some(out@),
        r is Err ==> deflate_inverse(source@) is None,
{
    let mut decoder = flate2::read::DeflateDecoder::new(source);
    let mut out = Vec::new();
    match decoder.read_to_end(&mut out) {
        Ok(_) => Ok(out),
        Err(_) => Err(CodecError::Codec),
    }
}

/// The decompressing side of the deflate backend.
#[derive(Debug, Copy, Clone)]
pub struct DeflateDecompressor;

impl Decompressor for DeflateDecompressor {
    open spec fn spec_inverse(compressed: Seq<u8>) -> Option<Seq<u8>> {
        deflate_inverse(compressed)
    }

    fn new() -> Self {
        DeflateDecompressor
    }

    fn copy(&self, source: &[u8]) -> (r: Result<Vec<u8>, CodecError>) {
        deflate_decompress_bytes(source)
    }
}

/// The compressing side of the deflate backend, at flate2's default level.
#[derive(Debug, Copy, Clone)]
pub struct DeflateCompressor;

impl Compressor for DeflateCompressor {
    open spec fn spec_inverse(compressed: Seq<u8>) -> Option<Seq<u8>> {
        deflate_inverse(compressed)
    }

    open spec fn spec_infallible() -> bool {
        true
    }

    fn new() -> Self {
        DeflateCompressor
    }

    fn compress(&self, data: &[u8]) -> (r: Result<(Vec<u8>, ByteCount), CodecError>) {
        match deflate_compress_bytes(data) {
            Ok(out) => {
                let count = ByteCount { read: data.len() as u64, write: out.len() as u64 };
                Ok((out, count))
            },
            Err(e) => Err(e),
        }
    }
}

} // verus!
