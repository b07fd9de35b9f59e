//! The zstandard backend, wrapping zstd's streaming codec at level 21.

use vstd::prelude::*;

use crate::com::{ByteCount, Compressor};
use crate::de::Decompressor;
use crate::error::CodecError;

verus! {

/// A compressed map over the zstandard backend.
pub type ZstdHashMap<V> = crate::hash_map::CompressedHashMap<V, ZstdCompressor, ZstdDecompressor>;

/// What zstandard decompression recovers from a byte sequence: the decoded
/// stream when the bytes form a valid zstandard frame, nothing when they are
/// malformed.  The outcome depends on the bytes alone.
pub uninterp spec fn zstd_inverse(compressed: Seq<u8>) -> Option<Seq<u8>>;

/// Relies on zstd's `stream::encode_all` at level 21: the frame it emits
/// decompresses, through zstd's `stream::decode_all`, back to its input.
#[verifier::external_body]
fn zstd_compress_bytes(data: &[u8]) -> (r: Result<Vec<u8>, CodecError>)
    ensures
        r matches Ok(out) ==> zstd_inverse(out@) == Some(data@),
{
    ::zstd::stream::encode_all(data, 21).map_err(|_| CodecError::Codec)
}

/// Relies on zstd's `stream::decode_all`: what it recovers, and whether it
/// fails, depend on the compressed bytes alone.
#[verifier::external_body]
fn zstd_decompress_bytes(source: &[u8]) -> (r: Result<Vec<u8>, CodecError>)
    ensures
        r matches Ok(out) ==> zstd_inverse(source@) == Some(out@),
        r is Err ==> zstd_inverse(source@) is None,
{
    ::zstd::stream::decode_all(source).map_err(|_| CodecError::Codec)
}

/// The decompressing side of the zstandard backend.
#[derive(Debug, Copy, Clone)]
pub struct ZstdDecompressor;

impl Decompressor for ZstdDecompressor {
    open spec fn spec_inverse(compressed: Seq<u8>) -> Option<Seq<u8>> {
        zstd_inverse(compressed)
    }

    fn new() -> Self {
        ZstdDecompressor
    }

    fn copy(&self, source: &[u8]) -> (r: Result<Vec<u8>, CodecError>) {
        zstd_decompress_bytes(source)
    }
}

/// The compressing side of the zstandard backend, at level 21.
#[derive(Debug, Copy, Clone)]
pub struct ZstdCompressor;

impl Compressor for ZstdCompressor {
    open spec fn spec_inverse(compressed: Seq<u8>) -> Option<Seq<u8>> {
        zstd_inverse(compressed)
    }

    open spec fn spec_infallible() -> bool {
        false
    }

    fn new() -> Self {
        ZstdCompressor
    }

    fn compress(&self, data: &[u8]) -> (r: Result<(Vec<u8>, ByteCount), CodecError>) {
        match zstd_compress_bytes(data) {
            Ok(out) => {
                let count = ByteCount { read: data.len() as u64, write: out.len() as u64 };
                Ok((out, count))
            },
            Err(e) => Err(e),
        }
    }
}

} // verus!
