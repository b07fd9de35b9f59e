use vstd::prelude::*;

verus! {

/// The failures surfaced by compression backends and the containers built on
/// them.  Nothing is retried or recovered locally: every fallible operation
/// hands one of these back to its caller.
#[derive(Debug, Clone, Copy, PartialEq, Eq, Structural)]
pub enum CodecError {
    /// The underlying codec rejected its input: a malformed or truncated
    /// compressed stream, or an internal failure of the wrapped algorithm.
    Codec,
    /// The decompressed bytes are not a valid encoding of the requested
    /// value type.
    Decode,
    /// Two entries with the same key were handed to the table builder.
    DuplicateKey,
}

} // verus!
