//! The decompression half of the framework: the contract for rebuilding a
//! value from its bytes, and the contract a decompression backend satisfies.

use vstd::prelude::*;
use vstd::utf8::{decode_utf8, decode_utf8_encode_utf8, encode_utf8_valid_utf8, valid_utf8};

use crate::com::{Compress, Compressor};
use crate::error::CodecError;

verus! {

/// A value that can be rebuilt from the byte sequence that represents it.
/// Rebuilding inverts `Compress::to_bytes`: on exactly the byte sequences
/// that are the representation of some value it succeeds and returns that
/// value; on all others it fails with a decode error.
pub trait Decompress: Compress {
    /// Rebuild a value from its byte representation.
    fn from_vec(bytes: Vec<u8>) -> (r: Result<Self, CodecError>)
        ensures
            r matches Ok(v) ==> v.byte_repr() == bytes@,
            (exists|v: Self| bytes@ == v.byte_repr()) ==> r is Ok,
    ;
}

/// Relies on `String::from_utf8`: it succeeds exactly on valid UTF-8 input
/// and returns the string those bytes encode.
#[verifier::external_body]
fn string_from_utf8(bytes: Vec<u8>) -> (r: Result<String, CodecError>)
    ensures
        r matches Ok(s) ==> valid_utf8(bytes@) && s@ == decode_utf8(bytes@),
        r is Err ==> !valid_utf8(bytes@),
{
    match String::from_utf8(bytes) {
        Ok(s) => Ok(s),
        Err(_) => Err(CodecError::Decode),
    }
}

impl Decompress for String {
    /// Rebuilding succeeds exactly on valid UTF-8 and returns the string
    /// those bytes encode.
    fn from_vec(bytes: Vec<u8>) -> (r: Result<Self, CodecError>)
        ensures
            r is Ok <==> valid_utf8(bytes@),
            r matches Ok(s) ==> s@ == decode_utf8(bytes@),
    {
        let ghost b = bytes@;
        proof {
            if exists|v: String| b == v.byte_repr() {
                let v = choose|v: String| b == v.byte_repr();
                encode_utf8_valid_utf8(v@);
            }
        }
        let r = string_from_utf8(bytes);
        proof {
            if r is Ok {
                decode_utf8_encode_utf8(b);
            }
        }
        r
    }
}

/// A stateless decompression backend, the inverse of a [`Compressor`] for the
/// same algorithm.  `spec_inverse` is the same partial function as on the
/// compressor side: decompression recovers exactly what it maps the
/// compressed bytes to, and fails exactly where it is undefined.
pub trait Decompressor: Sized {
    /// What decompression recovers from `compressed`: `Some(plain)` when the
    /// bytes are a valid stream of this backend's format that decodes to
    /// `plain`, `None` when they are malformed for it.
    spec fn spec_inverse(compressed: Seq<u8>) -> Option<Seq<u8>>;

    /// Stateless construction.
    fn new() -> Self;

    /// Stream the decompressed form of `source` into an owned buffer.
    fn copy(&self, source: &[u8]) -> (r: Result<Vec<u8>, CodecError>)
        ensures
            r matches Ok(out) ==> Self::spec_inverse(source@) == Some(out@),
            r is Err ==> Self::spec_inverse(source@) is None,
    ;

    /// Decompress `bytes` and rebuild a value from the result in one step.
    fn from_vec<V: Decompress>(&self, bytes: &[u8]) -> (r: Result<V, CodecError>)
        ensures
            r matches Ok(v) ==> (Self::spec_inverse(bytes@) matches Some(p) && v.byte_repr()
                == p),
            (Self::spec_inverse(bytes@) matches Some(p) && (exists|v: V| p == v.byte_repr()))
                ==> r is Ok,
    {
        match self.copy(bytes) {
            Ok(plain) => V::from_vec(plain),
            Err(e) => Err(e),
        }
    }
}

/// Holds when a compressor and a decompressor implement the same algorithm:
/// the two sides agree, byte sequence for byte sequence, on what
/// decompression recovers.  The matched pairs of this crate (stored with
/// stored, deflate with deflate, and so on) satisfy it by definition.
pub open spec fn compatible<C: Compressor, D: Decompressor>() -> bool {
    forall|s: Seq<u8>| C::spec_inverse(s) == D::spec_inverse(s)
}

} // verus!
