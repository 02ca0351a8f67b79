//! Curve arithmetic: the constant-product curve (`cpmm`) used by the pool and
//! a second curve that recomputes the output reserve as a quotient (`cmm`).

pub mod cmm;
pub mod cpmm;

use anchor_spl::token_2022::spl_token_2022::extension::transfer_fee::MAX_FEE_BASIS_POINTS;
use vstd::prelude::*;

verus! {

/// One hundred percent, in basis points.
pub open spec fn basis_points_denominator() -> int {
    10_000
}

/// Bounds on a product of bounded non-negative integers.
pub proof fn lemma_mul_le(x: int, y: int, xb: int, yb: int)
    requires
        0 <= x <= xb,
        0 <= y <= yb,
    ensures
        0 <= x * y <= xb * yb,
{
    assert(0 <= x * y <= xb * yb) by (nonlinear_arith)
        requires
            0 <= x <= xb,
            0 <= y <= yb,
    ;
}

/// Reads `MAX_FEE_BASIS_POINTS` of spl-token-2022 (module
/// `extension::transfer_fee`), which that crate declares as `10_000`.
#[verifier::external_body]
pub(crate) fn max_fee_basis_points() -> (r: u16)
    ensures
        r == basis_points_denominator(),
{
    MAX_FEE_BASIS_POINTS
}

} // verus!
