//! Constants of the pool's rules.

use vstd::prelude::*;

verus! {

/// Fixed-point precision of the liquidity ratios in deposits and withdrawals.
pub const PRECISION: u32 = 1_000_000;

/// Pool fees are in basis points and must stay below this bound (100%).
pub const MAX_FEE_BPS: u16 = 10_000;

} // verus!
