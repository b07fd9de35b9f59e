//! The brotli backend, wrapping the brotli crate's streaming codec.

use vstd::prelude::*;

use std::io::Read;
use std::io::Write;

use crate::com::{ByteCount, Compressor};
use crate::de::Decompressor;
use crate::error::CodecError;

verus! {

/// What brotli decompression recovers from a byte sequence: the decoded
/// stream when the bytes form a valid brotli stream, nothing when they are
/// malformed.  The outcome depends on the bytes alone.
pub uninterp spec fn brotli_inverse(compressed: Seq<u8>) -> Option<Seq<u8>>;

/// Relies on brotli's `CompressorWriter` (4096-byte buffer, quality 11,
/// window 22): the stream it emits decompresses, through brotli's
/// `Decompressor` reader, back to its input, and writing into an owned
/// buffer gives the encoder nowhere to fail.
#[verifier::external_body]
fn brotli_compress_bytes(data: &[u8]) -> (r: Result<Vec<u8>, CodecError>)
    ensures
        r is Ok,
        r matches Ok(out) ==> brotli_inverse(out@) == Some(data@),
{
    let mut out = Vec::new();
    let mut encoder = ::brotli::enc::writer::CompressorWriter::new(&mut out, 4096, 11, 22);
    if encoder.write_all(data).is_err() || encoder.flush().is_err() {
        return Err(CodecError::Codec);
    }
    drop(encoder);
    Ok(out)
}

/// Relies on brotli's `Decompressor` reader (4096-byte buffer): what it
/// recovers, and whether it fails, depend on the compressed bytes alone.
#[verifier::external_body]
fn brotli_decompress_bytes(source: &[u8]) -> (r: Result<Vec<u8>, CodecError>)
    ensures
        r matches Ok(out) ==> brotli_inverse(source@) == Some(out@),
        r is Err ==> brotli_inverse(source@) is None,
{
    let mut decoder = ::brotli::Decompressor::new(source, 4096);
    let mut out = Vec::new();
    match decoder.read_to_end(&mut out) {
        Ok(_) => Ok(out),
        Err(_) => Err(CodecError::Codec),
    }
}

/// The decompressing side of the brotli backend.
#[derive(Debug, Copy, Clone)]
pub struct BrotliDecompressor;

impl Decompressor for BrotliDecompressor {
    open spec fn spec_inverse(compressed: Seq<u8>) -> Option<Seq<u8>> {
        brotli_inverse(compressed)
    }

    fn new() -> Self {
        BrotliDecompressor
    }

    fn copy(&self, source: &[u8]) -> (r: Result<Vec<u8>, CodecError>) {
        brotli_decompress_bytes(source)
    }
}

/// The compressing side of the brotli backend, at quality 11 and window 22.
#[derive(Debug, Copy, Clone)]
pub struct BrotliCompressor;

impl Compressor for BrotliCompressor {
    open spec fn spec_inverse(compressed: Seq<u8>) -> Option<Seq<u8>> {
        brotli_inverse(compressed)
    }

    open spec fn spec_infallible() -> bool {
        true
    }

    fn new() -> Self {
        BrotliCompressor
    }

    fn compress(&self, data: &[u8]) -> (r: Result<(Vec<u8>, ByteCount), CodecError>) {
        match brotli_compress_bytes(data) {
            Ok(out) => {
                let count = ByteCount { read: data.len() as u64, write: out.len() as u64 };
                Ok((out, count))
            },
            Err(e) => Err(e),
        }
    }
}

} // verus!
