//! An earlier pair of marker types for the xz backend, kept for
//! compatibility.  They implement the same contracts over the same xz
//! codec, at the same level, as [`crate::xz`].

use vstd::prelude::*;

use crate::com::{ByteCount, Compressor};
use crate::de::Decompressor;
use crate::error::CodecError;
use crate::xz::{xz_compress_bytes, xz_decompress_bytes, xz_inverse};

verus! {

/// A compressed map over the earlier xz pair.
pub type Xz2HashMap<V> = crate::hash_map::CompressedHashMap<V, Xz2Compressor, Xz2Decompressor>;

/// The decompressing side of the earlier xz pair.
#[derive(Debug, Copy, Clone)]
pub struct Xz2Decompressor;

impl Decompressor for Xz2Decompressor {
    open spec fn spec_inverse(compressed: Seq<u8>) -> Option<Seq<u8>> {
        xz_inverse(compressed)
    }

    fn new() -> Self {
        Xz2Decompressor
    }

    fn copy(&self, source: &[u8]) -> (r: Result<Vec<u8>, CodecError>) {
        xz_decompress_bytes(source)
    }
}

/// The compressing side of the earlier xz pair, at level 9.
#[derive(Debug, Copy, Clone)]
pub struct Xz2Compressor;

impl Compressor for Xz2Compressor {
    open spec fn spec_inverse(compressed: Seq<u8>) -> Option<Seq<u8>> {
        xz_inverse(compressed)
    }

    open spec fn spec_infallible() -> bool {
        false
    }

    fn new() -> Self {
        Xz2Compressor
    }

    fn compress(&self, data: &[u8]) -> (r: Result<(Vec<u8>, ByteCount), CodecError>) {
        match xz_compress_bytes(data) {
            Ok(out) => {
                let count = ByteCount { read: data.len() as u64, write: out.len() as u64 };
                Ok((out, count))
            },
            Err(e) => Err(e),
        }
    }
}

} // verus!
