//! The passthrough backend: "compression" that stores the bytes unchanged.
//! It wraps no external codec, so both directions are verified in full.

use vstd::prelude::*;
use vstd::slice::slice_to_vec;

use crate::com::{ByteCount, Compressor};
use crate::de::Decompressor;
use crate::error::CodecError;

verus! {

/// The decompressing side of the passthrough backend.
#[derive(Debug, Copy, Clone)]
pub struct StoredDecompressor;

impl Decompressor for StoredDecompressor {
    open spec fn spec_inverse(compressed: Seq<u8>) -> Option<Seq<u8>> {
        Some(compressed)
    }

    fn new() -> Self {
        StoredDecompressor
    }

    fn copy(&self, source: &[u8]) -> (r: Result<Vec<u8>, CodecError>) {
        Ok(slice_to_vec(source))
    }
}

/// The compressing side of the passthrough backend.
#[derive(Debug, Copy, Clone)]
pub struct StoredCompressor;

impl Compressor for StoredCompressor {
    open spec fn spec_inverse(compressed: Seq<u8>) -> Option<Seq<u8>> {
        Some(compressed)
    }

    open spec fn spec_infallible() -> bool {
        true
    }

    fn new() -> Self {
        StoredCompressor
    }

    fn compress(&self, data: &[u8]) -> (r: Result<(Vec<u8>, ByteCount), CodecError>) {
        let out = slice_to_vec(data);
        let read = out.len() as u64;
        Ok((out, ByteCount { read, write: read }))
    }
}

} // verus!
