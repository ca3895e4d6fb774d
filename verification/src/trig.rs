//! Trusted boundary to the `cordic` crate for integer trigonometry.
//!
//! Angles are handed over in the Q16.16 format of `fixed::types::I16F16`,
//! the widest signed format the CORDIC tables serve. The library stores
//! angles in Q32.32 and drops the lowest 16 bits at this boundary.

use vstd::prelude::*;

verus! {

/// What `cordic::sin_cos` returns for a Q16.16 angle: the pair
/// (sine, cosine), a pure function of its argument.
pub uninterp spec fn sin_cos_q16(angle: i32) -> (i32, i32);

/// Relies on cordic's `sin_cos` over `fixed::types::I16F16`: a
/// deterministic table-driven computation of (sine, cosine). The CORDIC
/// rotation keeps the result vector's coordinates well inside twice the
/// unit magnitude, so both components fit in `[-2.0, 2.0]` (Q16.16).
#[verifier::external_body]
pub fn fx_sin_cos(angle: i32) -> (r: (i32, i32))
    ensures
        r == sin_cos_q16(angle),
        -0x2_0000 <= r.0 <= 0x2_0000,
        -0x2_0000 <= r.1 <= 0x2_0000,
{
    let (s, c) = cordic::sin_cos(fixed::types::I16F16::from_bits(angle));
    (s.to_bits(), c.to_bits())
}

} // verus!
