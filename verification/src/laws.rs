//! The laws binding a backend's two halves together, stated over any
//! compressor/decompressor pair of the same algorithm.

use vstd::prelude::*;

use crate::com::Compressor;
use crate::de::{compatible, Decompressor};

verus! {

/// Round-trip: whatever bytes a backend's compressor produces, the paired
/// decompressor recovers the original input from them, exactly.  The result
/// is empty only when the compressor itself declined — never for an
/// infallible one — and the branch in which decompression of a successful
/// compression fails is proven unreachable.
pub fn round_trip<C: Compressor, D: Decompressor>(
    compressor: &C,
    decompressor: &D,
    data: &[u8],
) -> (r: Option<Vec<u8>>)
    requires
        compatible::<C, D>(),
    ensures
        r matches Some(out) ==> out@ == data@,
        C::spec_infallible() ==> r is Some,
{
    match compressor.compress(data) {
        Ok(p) => match decompressor.copy(p.0.as_slice()) {
            Ok(out) => Some(out),
            Err(_) => {
                proof {
                    assert(false);
                }
                None
            },
        },
        Err(_) => None,
    }
}

/// Cross-backend equivalence: one input pushed through any two backend
/// pairs is reconstructed identically by both, however different the
/// compressed bytes in between may be.
pub fn cross_backend<C1: Compressor, D1: Decompressor, C2: Compressor, D2: Decompressor>(
    c1: &C1,
    d1: &D1,
    c2: &C2,
    d2: &D2,
    data: &[u8],
) -> (r: Option<(Vec<u8>, Vec<u8>)>)
    requires
        compatible::<C1, D1>(),
        compatible::<C2, D2>(),
    ensures
        r matches Some(p) ==> p.0@ == data@ && p.1@ == data@ && p.0@ == p.1@,
        C1::spec_infallible() && C2::spec_infallible() ==> r is Some,
{
    match round_trip(c1, d1, data) {
        Some(a) => match round_trip(c2, d2, data) {
            Some(b) => Some((a, b)),
            None => None,
        },
        None => None,
    }
}

} // verus!
