//! The quotient-based curve: after a swap the output reserve is set to
//! `k / new_input_reserve`, rounded down. The deposit and withdrawal amounts
//! are cut to 64 bits without a check.

use vstd::prelude::*;

use super::{basis_points_denominator, lemma_mul_le, max_fee_basis_points};

verus! {

#[derive(Debug, PartialEq, Eq, Structural)]
pub enum LiquidityPair {
    X,
    Y,
}

#[derive(Debug, PartialEq, Eq, Structural)]
pub struct XYAmounts {
    pub x: u64,
    pub y: u64,
}

#[derive(Debug, PartialEq, Eq, Structural)]
pub struct SwapResult {
    pub deposit: u64,
    pub withdraw: u64,
    pub fee: u64,
}

#[derive(Debug, PartialEq, Eq, Structural)]
pub enum CurveError {
    InvalidPrecision,
    Overflow,
    Underflow,
    InvalidFeeAmount,
    InsufficientBalance,
    ZeroBalance,
    SlippageLimitExceeded,
}

#[derive(Debug)]
pub struct CMM {
    pub a: u64,
    pub b: u64,
    pub fee: u16,
}

// ---------------------------------------------------------------------------
// Mathematical model
// ---------------------------------------------------------------------------

/// The low 64 bits of a non-negative integer.
pub open spec fn low_u64(n: int) -> u64 {
    (n % 0x1_0000_0000_0000_0000int) as u64
}

pub open spec fn spec_initialize_cmm(a: u64, b: u64, fee: u16) -> Result<CMM, CurveError> {
    if a == 0 || b == 0 {
        Err(CurveError::ZeroBalance)
    } else if fee >= basis_points_denominator() {
        Err(CurveError::InvalidFeeAmount)
    } else {
        Ok(CMM { a, b, fee })
    }
}

pub open spec fn deposit_ratio(lp: u64, amount: u64, precision: u32) -> int {
    ((lp + amount) * precision) / (lp as int)
}

/// Growth of one reserve for the given ratio, cut to its low 64 bits.
pub open spec fn deposit_side(reserve: u64, ratio: int, precision: u32) -> Result<u64, CurveError> {
    let scaled = reserve * ratio;
    if scaled > u128::MAX || precision == 0 {
        Err(CurveError::Overflow)
    } else if scaled / (precision as int) < reserve {
        Err(CurveError::Overflow)
    } else {
        Ok(low_u64(scaled / (precision as int) - reserve))
    }
}

pub open spec fn spec_deposit(a: u64, b: u64, lp: u64, amount: u64, precision: u32) -> Result<
    XYAmounts,
    CurveError,
> {
    if lp == 0 {
        Err(CurveError::ZeroBalance)
    } else {
        let ratio = deposit_ratio(lp, amount, precision);
        match deposit_side(a, ratio, precision) {
            Err(e) => Err(e),
            Ok(x) => match deposit_side(b, ratio, precision) {
                Err(e) => Err(e),
                Ok(y) => Ok(XYAmounts { x, y }),
            },
        }
    }
}

pub open spec fn withdraw_ratio(lp: u64, amount: u64, precision: u32) -> int {
    ((lp - amount) * precision) / (lp as int)
}

pub open spec fn withdraw_side(reserve: u64, ratio: int, precision: u32) -> Result<u64, CurveError> {
    let scaled = reserve * ratio;
    if scaled > u128::MAX || precision == 0 {
        Err(CurveError::Overflow)
    } else if scaled / (precision as int) > reserve {
        Err(CurveError::Overflow)
    } else {
        Ok((reserve - scaled / (precision as int)) as u64)
    }
}

pub open spec fn spec_withdraw(a: u64, b: u64, lp: u64, amount: u64, precision: u32) -> Result<
    XYAmounts,
    CurveError,
> {
    if lp == 0 {
        Err(CurveError::ZeroBalance)
    } else if amount > lp {
        Err(CurveError::InsufficientBalance)
    } else {
        let ratio = withdraw_ratio(lp, amount, precision);
        match withdraw_side(a, ratio, precision) {
            Err(e) => Err(e),
            Ok(x) => match withdraw_side(b, ratio, precision) {
                Err(e) => Err(e),
                Ok(y) => Ok(XYAmounts { x, y }),
            },
        }
    }
}

pub open spec fn spec_after_fee(amount: u64, fee: u16) -> int {
    (amount * (basis_points_denominator() - fee)) / basis_points_denominator()
}

/// The new output reserve: the product of the old reserves over the new
/// input reserve, rounded down.
pub open spec fn spec_other_side(in_side: u64, out_side: u64, amount: u64) -> Result<u64, CurveError> {
    if in_side == 0 || out_side == 0 {
        Err(CurveError::ZeroBalance)
    } else {
        Ok(((in_side * out_side) / (in_side + amount)) as u64)
    }
}

pub open spec fn spec_swap(a: u64, b: u64, fee: u16, pair: LiquidityPair, amount: u64, min: u64) -> Result<
    (u64, u64, SwapResult),
    CurveError,
> {
    if fee > basis_points_denominator() {
        Err(CurveError::Underflow)
    } else {
        let after_fee = spec_after_fee(amount, fee);
        let (into, out_of) = match pair {
            LiquidityPair::X => (a, b),
            LiquidityPair::Y => (b, a),
        };
        if into + after_fee > u64::MAX {
            Err(CurveError::Overflow)
        } else {
            match spec_other_side(into, out_of, after_fee as u64) {
                Err(e) => Err(e),
                Ok(new_out) => {
                    let out = out_of - new_out;
                    if out < min {
                        Err(CurveError::SlippageLimitExceeded)
                    } else {
                        let new_into = (into + after_fee) as u64;
                        let result = SwapResult {
                            deposit: amount,
                            withdraw: out as u64,
                            fee: (amount - after_fee) as u64,
                        };
                        match pair {
                            LiquidityPair::X => Ok((new_into, new_out, result)),
                            LiquidityPair::Y => Ok((new_out, new_into, result)),
                        }
                    }
                },
            }
        }
    }
}

/// The new output reserve is never above the old one.
proof fn lemma_other_side_bounded(in_side: int, out_side: int, amount: int)
    requires
        in_side > 0,
        out_side >= 0,
        amount >= 0,
    ensures
        0 <= (in_side * out_side) / (in_side + amount) <= out_side,
{
    assert(0 <= (in_side * out_side) / (in_side + amount) <= out_side) by (nonlinear_arith)
        requires
            in_side > 0,
            out_side >= 0,
            amount >= 0,
    ;
}

impl CMM {
    pub fn initialize_cmm(a: u64, b: u64, fee: u16) -> (r: Result<CMM, CurveError>)
        ensures
            r == spec_initialize_cmm(a, b, fee),
    {
        if a == 0 || b == 0 {
            return Err(CurveError::ZeroBalance);
        }
        if fee >= max_fee_basis_points() {
            return Err(CurveError::InvalidFeeAmount);
        }
        Ok(CMM { a, b, fee })
    }

    pub fn deposit(a: u64, b: u64, lp: u64, amount: u64, precision: u32) -> (r: Result<
        XYAmounts,
        CurveError,
    >)
        ensures
            r == spec_deposit(a, b, lp, amount, precision),
    {
        if lp == 0 {
            return Err(CurveError::ZeroBalance);
        }
        proof {
            lemma_mul_le(
                lp + amount,
                precision as int,
                2 * (u64::MAX as int),
                u32::MAX as int,
            );
        }
        let ratio = (lp as u128).checked_add(amount as u128).ok_or(CurveError::Overflow)?.checked_mul(
            precision as u128,
        ).ok_or(CurveError::Overflow)?.checked_div(lp as u128).ok_or(CurveError::Overflow)?;
        let deposit_x = Self::deposit_side(a, ratio, precision)?;
        let deposit_y = Self::deposit_side(b, ratio, precision)?;
        Ok(XYAmounts { x: deposit_x, y: deposit_y })
    }

    /// One side of `deposit`, with the growth cut to 64 bits.
    fn deposit_side(reserve: u64, ratio: u128, precision: u32) -> (r: Result<u64, CurveError>)
        ensures
            r == deposit_side(reserve, ratio as int, precision),
    {
        let grown = (reserve as u128).checked_mul(ratio).ok_or(CurveError::Overflow)?.checked_div(
            precision as u128,
        ).ok_or(CurveError::Overflow)?.checked_sub(reserve as u128).ok_or(CurveError::Overflow)?;
        assert(grown as u64 == low_u64(grown as int)) by (bit_vector);
        Ok(grown as u64)
    }

    pub fn withdraw(a: u64, b: u64, lp: u64, amount: u64, precision: u32) -> (r: Result<
        XYAmounts,
        CurveError,
    >)
        ensures
            r == spec_withdraw(a, b, lp, amount, precision),
    {
        if lp == 0 {
            return Err(CurveError::ZeroBalance);
        }
        let remaining = lp.checked_sub(amount).ok_or(CurveError::InsufficientBalance)?;
        proof {
            lemma_mul_le(remaining as int, precision as int, u64::MAX as int, u32::MAX as int);
        }
        let ratio = (remaining as u128).checked_mul(precision as u128).ok_or(
            CurveError::Overflow,
        )?.checked_div(lp as u128).ok_or(CurveError::Overflow)?;
        let withdraw_x = Self::withdraw_side(a, ratio, precision)?;
        let withdraw_y = Self::withdraw_side(b, ratio, precision)?;
        Ok(XYAmounts { x: withdraw_x, y: withdraw_y })
    }

    /// One side of `withdraw`.
    fn withdraw_side(reserve: u64, ratio: u128, precision: u32) -> (r: Result<u64, CurveError>)
        ensures
            r == withdraw_side(reserve, ratio as int, precision),
    {
        let paid = (reserve as u128).checked_sub(
            (reserve as u128).checked_mul(ratio).ok_or(CurveError::Overflow)?.checked_div(
                precision as u128,
            ).ok_or(CurveError::Overflow)?,
        ).ok_or(CurveError::Overflow)?;
        Ok(paid as u64)
    }

    pub fn swap(&mut self, pair: LiquidityPair, amount: u64, min: u64) -> (r: Result<
        SwapResult,
        CurveError,
    >)
        ensures
            match spec_swap(old(self).a, old(self).b, old(self).fee, pair, amount, min) {
                Ok((a, b, result)) => {
                    &&& r == Ok::<SwapResult, CurveError>(result)
                    &&& final(self).a == a
                    &&& final(self).b == b
                    &&& final(self).fee == old(self).fee
                },
                Err(e) => {
                    &&& r == Err::<SwapResult, CurveError>(e)
                    &&& final(self).a == old(self).a
                    &&& final(self).b == old(self).b
                    &&& final(self).fee == old(self).fee
                },
            },
    {
        let denominator = max_fee_basis_points();
        let fee_factor = (denominator as u128).checked_sub(self.fee as u128).ok_or(
            CurveError::Underflow,
        )?;
        proof {
            lemma_mul_le(amount as int, fee_factor as int, u64::MAX as int, 10_000);
            lemma_mul_le(amount as int, fee_factor as int, amount as int, 10_000);
            assert((amount * fee_factor) / 10_000 <= amount) by (nonlinear_arith)
                requires
                    amount * fee_factor <= amount * 10_000,
            ;
        }
        let after_fee = (amount as u128).checked_mul(fee_factor).ok_or(
            CurveError::Overflow,
        )?.checked_div(denominator as u128).ok_or(CurveError::Overflow)? as u64;
        assert(after_fee == spec_after_fee(amount, self.fee));
        let (new_a, new_b, withdraw) = match pair {
            LiquidityPair::X => {
                let new_a = self.a.checked_add(after_fee).ok_or(CurveError::Overflow)?;
                let new_b = Self::other_side(self.a, self.b, after_fee)?;
                let delta_b = self.b.checked_sub(new_b).ok_or(CurveError::Overflow)?;
                (new_a, new_b, delta_b)
            },
            LiquidityPair::Y => {
                let new_b = self.b.checked_add(after_fee).ok_or(CurveError::Overflow)?;
                let new_a = Self::other_side(self.b, self.a, after_fee)?;
                let delta_a = self.a.checked_sub(new_a).ok_or(CurveError::Overflow)?;
                (new_a, new_b, delta_a)
            },
        };
        if withdraw < min {
            return Err(CurveError::SlippageLimitExceeded);
        }
        let fee = amount.checked_sub(after_fee).ok_or(CurveError::Underflow)?;
        self.a = new_a;
        self.b = new_b;
        Ok(SwapResult { deposit: amount, fee, withdraw })
    }

    fn other_side(in_side: u64, out_side: u64, amount: u64) -> (r: Result<u64, CurveError>)
        ensures
            r == spec_other_side(in_side, out_side, amount),
            r matches Ok(v) ==> v <= out_side,
    {
        let k = Self::k(in_side, out_side)?;
        let new_in = (in_side as u128).checked_add(amount as u128).ok_or(CurveError::Overflow)?;
        proof {
            lemma_mul_le(in_side as int, out_side as int, u64::MAX as int, u64::MAX as int);
            lemma_other_side_bounded(in_side as int, out_side as int, amount as int);
        }
        assert(k == in_side * out_side);
        let quotient = k.checked_div(new_in).ok_or(CurveError::Overflow)?;
        assert(quotient == (in_side * out_side) / (in_side + amount));
        Ok(quotient as u64)
    }

    fn k(a: u64, b: u64) -> (r: Result<u128, CurveError>)
        ensures
            r == (if a == 0 || b == 0 {
                Err(CurveError::ZeroBalance)
            } else {
                Ok((a * b) as u128)
            }),
    {
        if a == 0 || b == 0 {
            return Err(CurveError::ZeroBalance);
        }
        proof {
            lemma_mul_le(a as int, b as int, u64::MAX as int, u64::MAX as int);
        }
        (a as u128).checked_mul(b as u128).ok_or(CurveError::Overflow)
    }
}

} // verus!
