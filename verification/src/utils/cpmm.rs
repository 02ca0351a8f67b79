//! The constant-product curve (`x * y = k`) with an input-side fee, the
//! proportional deposit and withdrawal of both reserves, and the fixed-point
//! fee-growth accumulators that credit liquidity providers.

use vstd::prelude::*;

use super::{basis_points_denominator, lemma_mul_le, max_fee_basis_points};

verus! {

/// Scale of the fee-growth accumulators: 2^64.
pub const FEE_GROWTH_SCALE: u128 = 0x1_0000_0000_0000_0000u128;

/// 2^128: the modulus of the wrapping fee-growth accumulators.
pub open spec fn growth_modulus() -> int {
    0x1_0000_0000_0000_0000_0000_0000_0000_0000int
}

#[derive(Debug, PartialEq, Eq, Structural)]
pub enum LiquidityPair {
    X,
    Y,
}

#[derive(Debug, PartialEq, Eq, Structural)]
pub struct XYAmounts {
    pub x: u64,
    pub y: u64,
}

#[derive(Debug, PartialEq, Eq, Structural)]
pub struct SwapResult {
    pub deposit: u64,
    pub withdraw: u64,
    pub fee: u64,
}

#[derive(Debug, PartialEq, Eq, Structural)]
pub enum CurveError {
    InvalidPrecision,
    Overflow,
    Underflow,
    InvalidFeeAmount,
    InsufficientBalance,
    ZeroBalance,
    SlippageLimitExceeded,
}

#[derive(Debug)]
pub struct CMM {
    pub a: u64,
    pub b: u64,
    pub fee: u16,
}

// ---------------------------------------------------------------------------
// Mathematical model
// ---------------------------------------------------------------------------

/// A 128-bit intermediate narrowed to 64 bits, or `Overflow`.
pub open spec fn spec_narrow_u64(n: int) -> Result<u64, CurveError> {
    if 0 <= n <= u64::MAX {
        Ok(n as u64)
    } else {
        Err(CurveError::Overflow)
    }
}

/// Growth of the accumulator per unit of liquidity for `fee` tokens shared
/// over `total_liquidity` units.
pub open spec fn spec_fee_growth_delta(fee: u64, total_liquidity: u64) -> Result<u128, CurveError> {
    if total_liquidity == 0 {
        Err(CurveError::ZeroBalance)
    } else {
        Ok(((fee * FEE_GROWTH_SCALE) / (total_liquidity as int)) as u128)
    }
}

/// How far a wrapping accumulator moved from `snapshot` to `growth`
/// (taken modulo 2^128).
pub open spec fn growth_since(growth: u128, snapshot: u128) -> int {
    if growth >= snapshot {
        growth - snapshot
    } else {
        growth - snapshot + growth_modulus()
    }
}

/// Fees owed to `liquidity` units since the accumulator stood at `snapshot`.
pub open spec fn spec_fee_owed(liquidity: u64, growth: u128, snapshot: u128) -> Result<u64, CurveError> {
    let product = liquidity * growth_since(growth, snapshot);
    if product > u128::MAX {
        Err(CurveError::Overflow)
    } else {
        spec_narrow_u64(product / (FEE_GROWTH_SCALE as int))
    }
}

pub open spec fn spec_initialize_cmm(a: u64, b: u64, fee: u16) -> Result<CMM, CurveError> {
    if a == 0 || b == 0 {
        Err(CurveError::ZeroBalance)
    } else if fee >= basis_points_denominator() {
        Err(CurveError::InvalidFeeAmount)
    } else {
        Ok(CMM { a, b, fee })
    }
}

/// Ratio `(lp + amount) / lp`, in units of `1 / precision`, rounded down.
pub open spec fn deposit_ratio(lp: u64, amount: u64, precision: u32) -> int {
    ((lp + amount) * precision) / (lp as int)
}

/// What one reserve must grow by when the ratio of the liquidity grows by `ratio`.
pub open spec fn deposit_side(reserve: u64, ratio: int, precision: u32) -> Result<u64, CurveError> {
    let scaled = reserve * ratio;
    if scaled > u128::MAX || precision == 0 {
        Err(CurveError::Overflow)
    } else if scaled / (precision as int) < reserve {
        Err(CurveError::Overflow)
    } else {
        spec_narrow_u64(scaled / (precision as int) - reserve)
    }
}

pub open spec fn spec_deposit(a: u64, b: u64, lp: u64, amount: u64, precision: u32) -> Result<
    XYAmounts,
    CurveError,
> {
    if lp == 0 {
        Err(CurveError::ZeroBalance)
    } else {
        let ratio = deposit_ratio(lp, amount, precision);
        match deposit_side(a, ratio, precision) {
            Err(e) => Err(e),
            Ok(x) => match deposit_side(b, ratio, precision) {
                Err(e) => Err(e),
                Ok(y) => Ok(XYAmounts { x, y }),
            },
        }
    }
}

/// Ratio `(lp - amount) / lp`, in units of `1 / precision`, rounded down.
pub open spec fn withdraw_ratio(lp: u64, amount: u64, precision: u32) -> int {
    ((lp - amount) * precision) / (lp as int)
}

/// What one reserve pays out when the ratio of the liquidity that stays is `ratio`.
pub open spec fn withdraw_side(reserve: u64, ratio: int, precision: u32) -> Result<u64, CurveError> {
    let scaled = reserve * ratio;
    if scaled > u128::MAX || precision == 0 {
        Err(CurveError::Overflow)
    } else if scaled / (precision as int) > reserve {
        Err(CurveError::Overflow)
    } else {
        spec_narrow_u64(reserve - scaled / (precision as int))
    }
}

pub open spec fn spec_withdraw(a: u64, b: u64, lp: u64, amount: u64, precision: u32) -> Result<
    XYAmounts,
    CurveError,
> {
    if lp == 0 {
        Err(CurveError::ZeroBalance)
    } else if amount > lp {
        Err(CurveError::InsufficientBalance)
    } else {
        let ratio = withdraw_ratio(lp, amount, precision);
        match withdraw_side(a, ratio, precision) {
            Err(e) => Err(e),
            Ok(x) => match withdraw_side(b, ratio, precision) {
                Err(e) => Err(e),
                Ok(y) => Ok(XYAmounts { x, y }),
            },
        }
    }
}

/// The part of `amount` that reaches the curve once the fee is taken.
pub open spec fn spec_after_fee(amount: u64, fee: u16) -> int {
    (amount * (basis_points_denominator() - fee)) / basis_points_denominator()
}

/// Output of the constant-product curve for `amount_in` put on `in_side`,
/// rounded down.
pub open spec fn spec_amount_out(in_side: u64, out_side: u64, amount_in: u64) -> Result<u64, CurveError> {
    if in_side == 0 || out_side == 0 {
        Err(CurveError::ZeroBalance)
    } else {
        Ok(((amount_in * out_side) / (in_side + amount_in)) as u64)
    }
}

/// The reserves after a swap and what it returns, or the error it fails with.
pub open spec fn spec_swap(a: u64, b: u64, fee: u16, pair: LiquidityPair, amount: u64, min: u64) -> Result<
    (u64, u64, SwapResult),
    CurveError,
> {
    if fee > basis_points_denominator() {
        Err(CurveError::Underflow)
    } else {
        let after_fee = spec_after_fee(amount, fee);
        let (into, out_of) = match pair {
            LiquidityPair::X => (a, b),
            LiquidityPair::Y => (b, a),
        };
        if into + after_fee > u64::MAX {
            Err(CurveError::Overflow)
        } else {
            match spec_amount_out(into, out_of, after_fee as u64) {
                Err(e) => Err(e),
                Ok(out) => {
                    if out < min {
                        Err(CurveError::SlippageLimitExceeded)
                    } else {
                        let new_into = (into + after_fee) as u64;
                        let new_out = (out_of - out) as u64;
                        let result = SwapResult {
                            deposit: amount,
                            withdraw: out,
                            fee: (amount - after_fee) as u64,
                        };
                        match pair {
                            LiquidityPair::X => Ok((new_into, new_out, result)),
                            LiquidityPair::Y => Ok((new_out, new_into, result)),
                        }
                    }
                },
            }
        }
    }
}

// ---------------------------------------------------------------------------
// Arithmetic facts
// ---------------------------------------------------------------------------

proof fn lemma_div_le(n: int, d: int, m: int)
    requires
        0 <= n <= m,
        d > 0,
    ensures
        0 <= n / d <= m / d,
{
    assert(0 <= n / d <= m / d) by (nonlinear_arith)
        requires
            0 <= n <= m,
            d > 0,
    ;
}

proof fn lemma_div_mul_le(n: int, d: int)
    requires
        n >= 0,
        d > 0,
    ensures
        (n / d) * d <= n,
        n < (n / d) * d + d,
{
    assert((n / d) * d <= n && n < (n / d) * d + d) by (nonlinear_arith)
        requires
            n >= 0,
            d > 0,
    ;
}

// ---------------------------------------------------------------------------
// Executable functions
// ---------------------------------------------------------------------------

pub fn narrow_u64(n: u128) -> (r: Result<u64, CurveError>)
    ensures
        r == spec_narrow_u64(n as int),
{
    if n <= u64::MAX as u128 {
        Ok(n as u64)
    } else {
        Err(CurveError::Overflow)
    }
}

pub fn fee_growth_delta(fee: u64, total_liquidity: u64) -> (r: Result<u128, CurveError>)
    ensures
        r == spec_fee_growth_delta(fee, total_liquidity),
{
    if total_liquidity == 0 {
        return Err(CurveError::ZeroBalance);
    }
    proof {
        lemma_mul_le(fee as int, FEE_GROWTH_SCALE as int, u64::MAX as int, FEE_GROWTH_SCALE as int);
    }
    let scaled = (fee as u128).checked_mul(FEE_GROWTH_SCALE).ok_or(CurveError::Overflow)?;
    scaled.checked_div(total_liquidity as u128).ok_or(CurveError::Overflow)
}

pub fn fee_owed(liquidity: u64, growth: u128, snapshot: u128) -> (r: Result<u64, CurveError>)
    ensures
        r == spec_fee_owed(liquidity, growth, snapshot),
{
    let diff = growth.wrapping_sub(snapshot);
    assert(diff == growth_since(growth, snapshot));
    let product = (liquidity as u128).checked_mul(diff).ok_or(CurveError::Overflow)?;
    narrow_u64(product / FEE_GROWTH_SCALE)
}

impl CMM {
    pub fn initialize_cmm(a: u64, b: u64, fee: u16) -> (r: Result<CMM, CurveError>)
        ensures
            r == spec_initialize_cmm(a, b, fee),
    {
        if a == 0 || b == 0 {
            return Err(CurveError::ZeroBalance);
        }
        if fee >= max_fee_basis_points() {
            return Err(CurveError::InvalidFeeAmount);
        }
        Ok(CMM { a, b, fee })
    }

    pub fn deposit(a: u64, b: u64, lp: u64, amount: u64, precision: u32) -> (r: Result<
        XYAmounts,
        CurveError,
    >)
        ensures
            r == spec_deposit(a, b, lp, amount, precision),
    {
        if lp == 0 {
            return Err(CurveError::ZeroBalance);
        }
        proof {
            lemma_mul_le(
                lp + amount,
                precision as int,
                2 * (u64::MAX as int),
                u32::MAX as int,
            );
        }
        let ratio = (lp as u128).checked_add(amount as u128).ok_or(CurveError::Overflow)?.checked_mul(
            precision as u128,
        ).ok_or(CurveError::Overflow)?.checked_div(lp as u128).ok_or(CurveError::Overflow)?;
        assert(ratio == deposit_ratio(lp, amount, precision));
        let deposit_x = Self::deposit_side(a, ratio, precision)?;
        let deposit_y = Self::deposit_side(b, ratio, precision)?;
        Ok(XYAmounts { x: deposit_x, y: deposit_y })
    }

    /// One side of `deposit`: how much `reserve` grows for the given ratio.
    fn deposit_side(reserve: u64, ratio: u128, precision: u32) -> (r: Result<u64, CurveError>)
        ensures
            r == deposit_side(reserve, ratio as int, precision),
    {
        narrow_u64(
            (reserve as u128).checked_mul(ratio).ok_or(CurveError::Overflow)?.checked_div(
                precision as u128,
            ).ok_or(CurveError::Overflow)?.checked_sub(reserve as u128).ok_or(
                CurveError::Overflow,
            )?,
        )
    }

    pub fn withdraw(a: u64, b: u64, lp: u64, amount: u64, precision: u32) -> (r: Result<
        XYAmounts,
        CurveError,
    >)
        ensures
            r == spec_withdraw(a, b, lp, amount, precision),
    {
        if lp == 0 {
            return Err(CurveError::ZeroBalance);
        }
        let remaining = lp.checked_sub(amount).ok_or(CurveError::InsufficientBalance)?;
        proof {
            lemma_mul_le(remaining as int, precision as int, u64::MAX as int, u32::MAX as int);
        }
        let ratio = (remaining as u128).checked_mul(precision as u128).ok_or(
            CurveError::Overflow,
        )?.checked_div(lp as u128).ok_or(CurveError::Overflow)?;
        assert(ratio == withdraw_ratio(lp, amount, precision));
        let withdraw_x = Self::withdraw_side(a, ratio, precision)?;
        let withdraw_y = Self::withdraw_side(b, ratio, precision)?;
        Ok(XYAmounts { x: withdraw_x, y: withdraw_y })
    }

    /// One side of `withdraw`: what `reserve` pays out for the given ratio.
    fn withdraw_side(reserve: u64, ratio: u128, precision: u32) -> (r: Result<u64, CurveError>)
        ensures
            r == withdraw_side(reserve, ratio as int, precision),
    {
        narrow_u64(
            (reserve as u128).checked_sub(
                (reserve as u128).checked_mul(ratio).ok_or(CurveError::Overflow)?.checked_div(
                    precision as u128,
                ).ok_or(CurveError::Overflow)?,
            ).ok_or(CurveError::Overflow)?,
        )
    }

    pub fn swap(&mut self, pair: LiquidityPair, amount: u64, min: u64) -> (r: Result<
        SwapResult,
        CurveError,
    >)
        ensures
            match spec_swap(old(self).a, old(self).b, old(self).fee, pair, amount, min) {
                Ok((a, b, result)) => {
                    &&& r == Ok::<SwapResult, CurveError>(result)
                    &&& final(self).a == a
                    &&& final(self).b == b
                    &&& final(self).fee == old(self).fee
                },
                Err(e) => {
                    &&& r == Err::<SwapResult, CurveError>(e)
                    &&& final(self).a == old(self).a
                    &&& final(self).b == old(self).b
                    &&& final(self).fee == old(self).fee
                },
            },
            // The product of the reserves never decreases.
            r is Ok ==> final(self).a * final(self).b >= old(self).a * old(self).b,
    {
        let denominator = max_fee_basis_points();
        let fee_factor = (denominator as u128).checked_sub(self.fee as u128).ok_or(
            CurveError::Underflow,
        )?;
        proof {
            lemma_mul_le(amount as int, fee_factor as int, u64::MAX as int, 10_000);
            lemma_mul_le(amount as int, fee_factor as int, amount as int, 10_000);
            lemma_div_le(amount * fee_factor, 10_000, amount * 10_000);
            assert((amount * 10_000) / 10_000 == amount) by (nonlinear_arith);
        }
        let after_fee = narrow_u64(
            (amount as u128).checked_mul(fee_factor).ok_or(CurveError::Overflow)?.checked_div(
                denominator as u128,
            ).ok_or(CurveError::Overflow)?,
        )?;
        assert(after_fee == spec_after_fee(amount, self.fee));
        assert(after_fee <= amount);
        let ghost old_a = self.a;
        let ghost old_b = self.b;
        let (new_a, new_b, withdraw) = match pair {
            LiquidityPair::X => {
                let new_a = self.a.checked_add(after_fee).ok_or(CurveError::Overflow)?;
                let delta_b = Self::amount_out(self.a, self.b, after_fee)?;
                let new_b = self.b.checked_sub(delta_b).ok_or(CurveError::Underflow)?;
                proof {
                    lemma_amount_out_bounded(old_a as int, old_b as int, after_fee as int);
                    assert(delta_b as int == (after_fee * old_b) / (old_a + after_fee));
                    lemma_constant_product_kept(old_a as int, old_b as int, after_fee as int);
                    assert(new_a * new_b >= old_a * old_b);
                }
                (new_a, new_b, delta_b)
            },
            LiquidityPair::Y => {
                let new_b = self.b.checked_add(after_fee).ok_or(CurveError::Overflow)?;
                let delta_a = Self::amount_out(self.b, self.a, after_fee)?;
                let new_a = self.a.checked_sub(delta_a).ok_or(CurveError::Underflow)?;
                proof {
                    lemma_amount_out_bounded(old_b as int, old_a as int, after_fee as int);
                    assert(delta_a as int == (after_fee * old_a) / (old_b + after_fee));
                    lemma_constant_product_kept(old_b as int, old_a as int, after_fee as int);
                    assert(new_b * new_a >= old_b * old_a);
                    assert(new_a * new_b == new_b * new_a) by (nonlinear_arith);
                    assert(old_a * old_b == old_b * old_a) by (nonlinear_arith);
                }
                (new_a, new_b, delta_a)
            },
        };
        if withdraw < min {
            return Err(CurveError::SlippageLimitExceeded);
        }
        let fee = amount.checked_sub(after_fee).ok_or(CurveError::Underflow)?;
        self.a = new_a;
        self.b = new_b;
        Ok(SwapResult { deposit: amount, fee, withdraw })
    }

    fn amount_out(in_side: u64, out_side: u64, amount_in: u64) -> (r: Result<u64, CurveError>)
        ensures
            r == spec_amount_out(in_side, out_side, amount_in),
            r matches Ok(out) ==> out <= out_side,
    {
        if in_side == 0 || out_side == 0 {
            return Err(CurveError::ZeroBalance);
        }
        let new_in = (in_side as u128).checked_add(amount_in as u128).ok_or(CurveError::Overflow)?;
        proof {
            lemma_mul_le(amount_in as int, out_side as int, u64::MAX as int, u64::MAX as int);
            lemma_amount_out_bounded(in_side as int, out_side as int, amount_in as int);
        }
        let numerator = (amount_in as u128).checked_mul(out_side as u128).ok_or(
            CurveError::Overflow,
        )?;
        narrow_u64(numerator.checked_div(new_in).ok_or(CurveError::Overflow)?)
    }
}

/// The curve's output never exceeds the reserve it is paid from.
pub proof fn lemma_amount_out_bounded(in_side: int, out_side: int, amount_in: int)
    requires
        in_side > 0,
        out_side >= 0,
        amount_in >= 0,
    ensures
        (amount_in * out_side) / (in_side + amount_in) <= out_side,
{
    lemma_mul_le(amount_in, out_side, in_side + amount_in, out_side);
    assert((amount_in * out_side) / (in_side + amount_in) <= ((in_side + amount_in) * out_side) / (
    in_side + amount_in)) by {
        lemma_div_le(amount_in * out_side, in_side + amount_in, (in_side + amount_in) * out_side);
    }
    assert(((in_side + amount_in) * out_side) / (in_side + amount_in) == out_side) by (nonlinear_arith)
        requires
            in_side + amount_in > 0,
    ;
}

/// Putting `f` on one side and paying out the rounded-down curve output from
/// the other keeps the product of the reserves at least where it was.
pub proof fn lemma_constant_product_kept(into: int, out_of: int, f: int)
    requires
        into > 0,
        out_of >= 0,
        f >= 0,
    ensures
        (into + f) * (out_of - (f * out_of) / (into + f)) >= into * out_of,
{
    let q = (f * out_of) / (into + f);
    lemma_mul_le(f, out_of, f, out_of);
    lemma_div_mul_le(f * out_of, into + f);
    assert((into + f) * (out_of - q) == into * out_of + f * out_of - q * (into + f)) by (nonlinear_arith);
}

} // verus!
