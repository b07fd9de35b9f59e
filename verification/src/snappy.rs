//! The snappy backend, wrapping snap's frame-format streaming codec.

use vstd::prelude::*;

use std::io::Read;
use std::io::Write;

use crate::com::{ByteCount, Compressor};
use crate::de::Decompressor;
use crate::error::CodecError;

verus! {

/// A compressed map over the snappy backend.
pub type SnappyHashMap<V> = crate::hash_map::CompressedHashMap<V, SnappyCompressor, SnappyDecompressor>;

/// What snappy decompression recovers from a byte sequence: the decoded
/// stream when the bytes form a valid snappy frame stream, nothing when they
/// are malformed.  The outcome depends on the bytes alone.
pub uninterp spec fn snappy_inverse(compressed: Seq<u8>) -> Option<Seq<u8>>;

/// Relies on snap's `write::FrameEncoder`: the stream it emits decompresses,
/// through snap's `read::FrameDecoder`, back to its input, and writing into
/// an owned buffer gives the encoder nowhere to fail.
#[verifier::external_body]
fn snappy_compress_bytes(data: &[u8]) -> (r: Result<Vec<u8>, CodecError>)
    ensures
        r is Ok,
        r matches Ok(out) ==> snappy_inverse(out@) == Some(data@),
{
    let mut encoder = snap::write::FrameEncoder::new(Vec::new());
    if encoder.write_all(data).is_err() {
        return Err(CodecError::Codec);
    }
    encoder.into_inner().map_err(|_| CodecError::Codec)
}

/// Relies on snap's `read::FrameDecoder`: what it recovers, and whether it
/// fails, depend on the compressed bytes alone.
#[verifier::external_body]
fn snappy_decompress_bytes(source: &[u8]) -> (r: Result<Vec<u8>, CodecError>)
    ensures
        r matches Ok(out) ==> snappy_inverse(source@) == Some(out@),
        r is Err ==> snappy_inverse(source@) is None,
{
    let mut decoder = snap::read::FrameDecoder::new(source);
    let mut out = Vec::new();
    match decoder.read_to_end(&mut out) {
        Ok(_) => Ok(out),
        Err(_) => Err(CodecError::Codec),
    }
}

/// The decompressing side of the snappy backend.
#[derive(Debug, Copy, Clone)]
pub struct SnappyDecompressor;

impl Decompressor for SnappyDecompressor {
    open spec fn spec_inverse(compressed: Seq<u8>) -> Option<Seq<u8>> {
        snappy_inverse(compressed)
    }

    fn new() -> Self {
        SnappyDecompressor
    }

    fn copy(&self, source: &[u8]) -> (r: Result<Vec<u8>, CodecError>) {
        snappy_decompress_bytes(source)
    }
}

/// The compressing side of the snappy backend.
#[derive(Debug, Copy, Clone)]
pub struct SnappyCompressor;

impl Compressor for SnappyCompressor {
    open spec fn spec_inverse(compressed: Seq<u8>) -> Option<Seq<u8>> {
        snappy_inverse(compressed)
    }

    open spec fn spec_infallible() -> bool {
        true
    }

    fn new() -> Self {
        SnappyCompressor
    }

    fn compress(&self, data: &[u8]) -> (r: Result<(Vec<u8>, ByteCount), CodecError>) {
        match snappy_compress_bytes(data) {
            Ok(out) => {
                let count = ByteCount { read: data.len() as u64, write: out.len() as u64 };
                Ok((out, count))
            },
            Err(e) => Err(e),
        }
    }
}

} // verus!
