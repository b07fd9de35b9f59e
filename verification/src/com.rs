//! The compression half of the framework: the contract a value satisfies to
//! become a byte stream, and the contract a compression backend satisfies.

use vstd::prelude::*;
use vstd::string::StrSliceExecFns;
use vstd::slice::slice_to_vec;
use vstd::utf8::encode_utf8;

use crate::error::CodecError;

verus! {

/// Bytes consumed and produced by one compress operation.  Immutable once
/// returned.
#[derive(Debug, Clone, Copy, PartialEq, Eq, Structural)]
pub struct ByteCount {
    /// Bytes read from the reader, before being compressed.
    pub read: u64,

    /// Bytes written to the writer, after being compressed.
    pub write: u64,
}

/// A value that can be turned into the byte sequence that represents it.
/// Strings are the canonical example: their representation is their UTF-8
/// encoding.
pub trait Compress: Sized {
    /// The byte sequence this value serialises to.
    spec fn byte_repr(&self) -> Seq<u8>;

    /// Consume the value and produce exactly its byte representation.
    fn to_bytes(self) -> (r: Vec<u8>)
        ensures
            r@ == self.byte_repr(),
    ;
}

impl Compress for String {
    open spec fn byte_repr(&self) -> Seq<u8> {
        encode_utf8(self@)
    }

    fn to_bytes(self) -> (r: Vec<u8>) {
        self.as_str().as_bytes_vec()
    }
}

impl<'a> Compress for &'a str {
    open spec fn byte_repr(&self) -> Seq<u8> {
        encode_utf8((*self)@)
    }

    fn to_bytes(self) -> (r: Vec<u8>) {
        self.as_bytes_vec()
    }
}

impl<'a> Compress for &'a Vec<u8> {
    open spec fn byte_repr(&self) -> Seq<u8> {
        (*self)@
    }

    fn to_bytes(self) -> (r: Vec<u8>) {
        slice_to_vec(self.as_slice())
    }
}

/// A stateless compression backend.  Instances carry no state between calls;
/// many may exist concurrently without interaction.
///
/// Each backend is described by the partial inverse `spec_inverse`: what the
/// paired decompressor recovers from a compressed byte sequence.  `compress`
/// promises that its output decompresses back to its input — the round-trip
/// law — and reports exact byte counts.
pub trait Compressor: Sized {
    /// What decompression recovers from `compressed`: `Some(plain)` when the
    /// bytes are a valid stream of this backend's format that decodes to
    /// `plain`, `None` when they are malformed for it.
    spec fn spec_inverse(compressed: Seq<u8>) -> Option<Seq<u8>>;

    /// Whether this backend's compressor succeeds on every input.  The pure
    /// in-memory encoders have nowhere to fail and say `true`, and callers
    /// of such a backend are owed success; a backend whose codec can report
    /// a failure of its own says `false`.
    spec fn spec_infallible() -> bool;

    /// Stateless construction.
    fn new() -> Self;

    /// Compress all of `data`, returning the compressed bytes together with
    /// an exact account of bytes read and bytes written.
    fn compress(&self, data: &[u8]) -> (r: Result<(Vec<u8>, ByteCount), CodecError>)
        ensures
            r matches Ok(p) ==> Self::spec_inverse(p.0@) == Some(data@),
            r matches Ok(p) ==> p.1.read == data@.len(),
            r matches Ok(p) ==> p.1.write == p.0@.len(),
            Self::spec_infallible() ==> r is Ok,
    ;

    /// Compress a value straight into an owned byte buffer.
    fn to_vec<V: Compress>(&self, data: V) -> (r: Result<Vec<u8>, CodecError>)
        ensures
            r matches Ok(out) ==> Self::spec_inverse(out@) == Some(data.byte_repr()),
            Self::spec_infallible() ==> r is Ok,
    {
        let repr = data.to_bytes();
        match self.compress(repr.as_slice()) {
            Ok(p) => Ok(p.0),
            Err(e) => Err(e),
        }
    }
}

} // verus!
