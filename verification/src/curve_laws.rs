//! Properties of the two curves on their own: what a trade, a deposit and a
//! withdrawal give, for every input, as arithmetic on the inputs.

use vstd::prelude::*;

use crate::utils::cmm;
use crate::utils::cpmm::{
    lemma_amount_out_bounded, spec_deposit, spec_initialize_cmm, spec_swap, spec_withdraw,
    CurveError, LiquidityPair, SwapResult, CMM,
};

verus! {

// ---------------------------------------------------------------------------
// Proportional shares of a reserve
// ---------------------------------------------------------------------------

/// Paying out `reserve` less its part for the liquidity that stays,
/// `floor(reserve * floor((lp - amount) * p / lp) / p)`, pays the share
/// `reserve * amount / lp`, rounded down by less than `reserve / p + 1`,
/// and every intermediate fits the widths the curves compute in.
pub(crate) proof fn lemma_withdraw_share(reserve: int, lp: int, amount: int, p: int)
    requires
        0 <= reserve <= u64::MAX,
        lp > 0,
        0 <= amount <= lp,
        0 < p <= u32::MAX,
    ensures
        ({
            let ratio = ((lp - amount) * p) / lp;
            let q = (reserve * ratio) / p;
            &&& 0 <= ratio <= p
            &&& 0 <= reserve * ratio <= u128::MAX
            &&& 0 <= q <= reserve
            &&& (reserve - q) * lp >= reserve * amount
            &&& (reserve - q) * lp * p < reserve * amount * p + reserve * lp + lp * p
        }),
{
    let n = (lp - amount) * p;
    let ratio = n / lp;
    assert(0 <= n <= lp * p) by (nonlinear_arith)
        requires
            n == (lp - amount) * p,
            0 <= amount <= lp,
            p > 0,
    ;
    assert(0 <= ratio <= p && ratio * lp <= n && ratio * lp > n - lp) by (nonlinear_arith)
        requires
            ratio == n / lp,
            0 <= n <= lp * p,
            lp > 0,
            p > 0,
    ;
    let scaled = reserve * ratio;
    assert(0 <= scaled <= reserve * p) by (nonlinear_arith)
        requires
            scaled == reserve * ratio,
            0 <= ratio <= p,
            reserve >= 0,
    ;
    assert(reserve * p <= u128::MAX) by (nonlinear_arith)
        requires
            0 <= reserve <= u64::MAX,
            0 < p <= u32::MAX,
    ;
    let q = scaled / p;
    assert(q * p <= scaled && q * p > scaled - p && 0 <= q <= reserve) by (nonlinear_arith)
        requires
            q == scaled / p,
            0 <= scaled <= reserve * p,
            p > 0,
    ;
    let x = reserve - q;
    assert(q * p * lp <= reserve * (lp - amount) * p) by (nonlinear_arith)
        requires
            q * p <= scaled,
            scaled == reserve * ratio,
            ratio * lp <= n,
            n == (lp - amount) * p,
            reserve >= 0,
            lp > 0,
    ;
    assert(q * lp <= reserve * (lp - amount)) by (nonlinear_arith)
        requires
            q * p * lp <= reserve * (lp - amount) * p,
            p > 0,
    ;
    assert(x * lp >= reserve * amount) by (nonlinear_arith)
        requires
            x == reserve - q,
            q * lp <= reserve * (lp - amount),
    ;
    assert(reserve * ratio * lp >= reserve * (n - lp)) by (nonlinear_arith)
        requires
            ratio * lp > n - lp,
            reserve >= 0,
    ;
    assert(q * p * lp > reserve * ratio * lp - p * lp) by (nonlinear_arith)
        requires
            q * p > scaled - p,
            scaled == reserve * ratio,
            lp > 0,
    ;
    assert(x * lp * p == reserve * lp * p - q * p * lp) by (nonlinear_arith)
        requires
            x == reserve - q,
    ;
    assert(reserve * (n - lp) == reserve * lp * p - reserve * amount * p - reserve * lp)
        by (nonlinear_arith)
        requires
            n == (lp - amount) * p,
    ;
    assert(p * lp == lp * p) by (nonlinear_arith);
}

/// Growing `reserve` to `floor(reserve * floor((lp + amount) * p / lp) / p)`
/// takes the share `reserve * amount / lp`, rounded down by less than
/// `reserve / p + 1`; where that share fits in 64 bits, so does every
/// intermediate.
pub(crate) proof fn lemma_deposit_share(reserve: int, lp: int, amount: int, p: int)
    requires
        0 <= reserve <= u64::MAX,
        lp > 0,
        amount >= 0,
        0 < p <= u32::MAX,
    ensures
        ({
            let ratio = ((lp + amount) * p) / lp;
            let q = (reserve * ratio) / p;
            &&& ratio >= p
            &&& reserve * ratio >= 0
            &&& q >= reserve
            &&& (q - reserve) * lp <= reserve * amount
            &&& (q - reserve) * lp * p > reserve * amount * p - reserve * lp - lp * p
            &&& reserve * amount <= u64::MAX * lp ==> reserve * ratio <= u128::MAX && q - reserve
                <= u64::MAX
        }),
{
    let n = (lp + amount) * p;
    let ratio = n / lp;
    assert(n >= lp * p) by (nonlinear_arith)
        requires
            n == (lp + amount) * p,
            amount >= 0,
            p > 0,
    ;
    assert(ratio >= p && ratio * lp <= n && ratio * lp > n - lp) by (nonlinear_arith)
        requires
            ratio == n / lp,
            n >= lp * p,
            lp > 0,
            p > 0,
    ;
    let scaled = reserve * ratio;
    assert(scaled >= reserve * p && reserve * p >= 0) by (nonlinear_arith)
        requires
            scaled == reserve * ratio,
            ratio >= p,
            p > 0,
            reserve >= 0,
    ;
    let q = scaled / p;
    assert(q * p <= scaled && q * p > scaled - p && q >= reserve) by (nonlinear_arith)
        requires
            q == scaled / p,
            scaled >= reserve * p,
            reserve >= 0,
            p > 0,
    ;
    let x = q - reserve;
    // Upper bound: q * lp <= reserve * (lp + amount).
    assert(q * p * lp <= reserve * (lp + amount) * p) by (nonlinear_arith)
        requires
            q * p <= scaled,
            scaled == reserve * ratio,
            ratio * lp <= n,
            n == (lp + amount) * p,
            reserve >= 0,
            lp > 0,
    ;
    assert(q * lp <= reserve * (lp + amount)) by (nonlinear_arith)
        requires
            q * p * lp <= reserve * (lp + amount) * p,
            p > 0,
    ;
    assert(x * lp <= reserve * amount) by (nonlinear_arith)
        requires
            x == q - reserve,
            q * lp <= reserve * (lp + amount),
    ;
    // Lower bound.
    assert(x * lp * p == q * p * lp - reserve * lp * p) by (nonlinear_arith)
        requires
            x == q - reserve,
    ;
    assert(q * p * lp > reserve * ratio * lp - p * lp) by (nonlinear_arith)
        requires
            q * p > scaled - p,
            scaled == reserve * ratio,
            lp > 0,
    ;
    assert(reserve * ratio * lp >= reserve * (n - lp)) by (nonlinear_arith)
        requires
            ratio * lp > n - lp,
            reserve >= 0,
    ;
    assert(reserve * (n - lp) == reserve * lp * p + reserve * amount * p - reserve * lp)
        by (nonlinear_arith)
        requires
            n == (lp + amount) * p,
    ;
    assert(p * lp == lp * p) by (nonlinear_arith);
    // Widths, where the share fits in 64 bits.
    if reserve * amount <= u64::MAX * lp {
        assert(x <= u64::MAX) by (nonlinear_arith)
            requires
                x * lp <= reserve * amount,
                reserve * amount <= u64::MAX * lp,
                lp > 0,
        ;
        assert(scaled * lp <= 2 * u64::MAX * p * lp) by (nonlinear_arith)
            requires
                scaled == reserve * ratio,
                ratio * lp <= n,
                n == (lp + amount) * p,
                0 <= reserve <= u64::MAX,
                reserve * amount <= u64::MAX * lp,
                lp > 0,
                p > 0,
        ;
        assert(scaled <= 2 * u64::MAX * p) by (nonlinear_arith)
            requires
                scaled * lp <= 2 * u64::MAX * p * lp,
                lp > 0,
        ;
        assert(2 * u64::MAX * p <= u128::MAX) by (nonlinear_arith)
            requires
                0 < p <= u32::MAX,
        ;
    }
}

// ---------------------------------------------------------------------------
// The constant-product curve
// ---------------------------------------------------------------------------

/// The constant-product trade in full. With both reserves positive and a
/// fee of at most 100%, a trade of `amount` puts
/// `after_fee = floor(amount * (10000 - fee) / 10000)` on the input reserve
/// and pays `floor(after_fee * out_reserve / (in_reserve + after_fee))` from
/// the output reserve, keeping the difference as the fee. It fails only when
/// the grown input reserve would not fit in 64 bits, or when the payout is
/// under `min`; the size of the trade against either reserve is no reason to
/// refuse it.
pub proof fn lemma_swap_exact(a: u64, b: u64, fee: u16, pair: LiquidityPair, amount: u64, min: u64)
    requires
        a > 0,
        b > 0,
        fee <= 10_000,
    ensures
        ({
            let after_fee = (amount * (10_000 - fee)) / 10_000;
            let into: int = if pair == LiquidityPair::X { a as int } else { b as int };
            let out_of: int = if pair == LiquidityPair::X { b as int } else { a as int };
            let out = (after_fee * out_of) / (into + after_fee);
            let r = spec_swap(a, b, fee, pair, amount, min);
            &&& 0 <= after_fee <= amount
            &&& 0 <= out <= out_of
            &&& into + after_fee > u64::MAX ==> r == Err::<(u64, u64, SwapResult), CurveError>(
                CurveError::Overflow,
            )
            &&& into + after_fee <= u64::MAX && out < min ==> r == Err::<
                (u64, u64, SwapResult),
                CurveError,
            >(CurveError::SlippageLimitExceeded)
            &&& into + after_fee <= u64::MAX && out >= min ==> {
                &&& r is Ok
                &&& r->Ok_0.2.deposit == amount
                &&& r->Ok_0.2.withdraw == out
                &&& r->Ok_0.2.fee == amount - after_fee
                &&& pair == LiquidityPair::X ==> r->Ok_0.0 == into + after_fee && r->Ok_0.1
                    == out_of - out
                &&& pair == LiquidityPair::Y ==> r->Ok_0.1 == into + after_fee && r->Ok_0.0
                    == out_of - out
            }
        }),
{
    let after_fee = (amount * (10_000 - fee)) / 10_000;
    assert(0 <= after_fee <= amount) by (nonlinear_arith)
        requires
            after_fee == (amount * (10_000 - fee)) / 10_000,
            0 <= fee <= 10_000,
            amount >= 0,
    ;
    let into: int = if pair == LiquidityPair::X { a as int } else { b as int };
    let out_of: int = if pair == LiquidityPair::X { b as int } else { a as int };
    lemma_amount_out_bounded(into, out_of, after_fee);
    assert(0 <= (after_fee * out_of) / (into + after_fee)) by (nonlinear_arith)
        requires
            after_fee >= 0,
            out_of >= 0,
            into > 0,
    ;
}

/// Withdrawing `amount` of `lp` units of liquidity pays from each reserve
/// its own proportional share, `reserve * amount / lp`, rounded in the pool's
/// favour by less than `reserve / precision + 1`: for every reserve, every
/// liquidity and every amount up to it, the withdrawal succeeds and
/// `reserve * amount <= paid * lp < reserve * amount + reserve * lp / precision + lp`.
pub proof fn lemma_withdraw_proportional(a: u64, b: u64, lp: u64, amount: u64, precision: u32)
    requires
        lp > 0,
        precision > 0,
        amount <= lp,
    ensures
        spec_withdraw(a, b, lp, amount, precision) is Ok,
        ({
            let xy = spec_withdraw(a, b, lp, amount, precision)->Ok_0;
            &&& xy.x <= a && xy.y <= b
            &&& xy.x * lp >= a * amount
            &&& xy.x * lp * precision < a * amount * precision + a * lp + lp * precision
            &&& xy.y * lp >= b * amount
            &&& xy.y * lp * precision < b * amount * precision + b * lp + lp * precision
        }),
{
    lemma_withdraw_share(a as int, lp as int, amount as int, precision as int);
    lemma_withdraw_share(b as int, lp as int, amount as int, precision as int);
}


/// Depositing `amount` units of liquidity on top of `lp` takes from each
/// reserve its own proportional share, `reserve * amount / lp`, never more
/// and less by under `reserve / precision + 1`. Wherever both shares fit in
/// 64 bits the deposit succeeds.
pub proof fn lemma_deposit_proportional(a: u64, b: u64, lp: u64, amount: u64, precision: u32)
    requires
        lp > 0,
        precision > 0,
        a * amount <= u64::MAX * lp,
        b * amount <= u64::MAX * lp,
    ensures
        spec_deposit(a, b, lp, amount, precision) is Ok,
        ({
            let xy = spec_deposit(a, b, lp, amount, precision)->Ok_0;
            &&& xy.x * lp <= a * amount
            &&& xy.x * lp * precision > a * amount * precision - a * lp - lp * precision
            &&& xy.y * lp <= b * amount
            &&& xy.y * lp * precision > b * amount * precision - b * lp - lp * precision
        }),
{
    lemma_deposit_share(a as int, lp as int, amount as int, precision as int);
    lemma_deposit_share(b as int, lp as int, amount as int, precision as int);
}

// ---------------------------------------------------------------------------
// The quotient curve
// ---------------------------------------------------------------------------

/// The quotient curve's trade in full. With both reserves positive and a
/// fee of at most 100%, a trade of `amount` puts
/// `after_fee = floor(amount * (10000 - fee) / 10000)` on the input reserve,
/// sets the output reserve to `floor(in_reserve * out_reserve / (in_reserve
/// + after_fee))` and pays the trader the difference. The product of the
/// reserves is kept, rounded down by less than the new input reserve. It
/// fails only when the grown input reserve would not fit in 64 bits, or when
/// the payout is under `min`.
pub proof fn lemma_quotient_swap_exact(
    a: u64,
    b: u64,
    fee: u16,
    pair: cmm::LiquidityPair,
    amount: u64,
    min: u64,
)
    requires
        a > 0,
        b > 0,
        fee <= 10_000,
    ensures
        ({
            let after_fee = (amount * (10_000 - fee)) / 10_000;
            let into: int = if pair == cmm::LiquidityPair::X { a as int } else { b as int };
            let out_of: int = if pair == cmm::LiquidityPair::X { b as int } else { a as int };
            let new_out = (into * out_of) / (into + after_fee);
            let r = cmm::spec_swap(a, b, fee, pair, amount, min);
            &&& 0 <= after_fee <= amount
            &&& 0 <= new_out <= out_of
            &&& (into + after_fee) * new_out <= into * out_of
            &&& into * out_of < (into + after_fee) * new_out + (into + after_fee)
            &&& into + after_fee > u64::MAX ==> r == Err::<
                (u64, u64, cmm::SwapResult),
                cmm::CurveError,
            >(cmm::CurveError::Overflow)
            &&& into + after_fee <= u64::MAX && out_of - new_out < min ==> r == Err::<
                (u64, u64, cmm::SwapResult),
                cmm::CurveError,
            >(cmm::CurveError::SlippageLimitExceeded)
            &&& into + after_fee <= u64::MAX && out_of - new_out >= min ==> {
                &&& r is Ok
                &&& r->Ok_0.2.deposit == amount
                &&& r->Ok_0.2.withdraw == out_of - new_out
                &&& r->Ok_0.2.fee == amount - after_fee
                &&& pair == cmm::LiquidityPair::X ==> r->Ok_0.0 == into + after_fee && r->Ok_0.1
                    == new_out
                &&& pair == cmm::LiquidityPair::Y ==> r->Ok_0.1 == into + after_fee && r->Ok_0.0
                    == new_out
            }
        }),
{
    let after_fee = (amount * (10_000 - fee)) / 10_000;
    assert(0 <= after_fee <= amount) by (nonlinear_arith)
        requires
            after_fee == (amount * (10_000 - fee)) / 10_000,
            0 <= fee <= 10_000,
            amount >= 0,
    ;
    let into: int = if pair == cmm::LiquidityPair::X { a as int } else { b as int };
    let out_of: int = if pair == cmm::LiquidityPair::X { b as int } else { a as int };
    let new_out = (into * out_of) / (into + after_fee);
    assert(0 <= new_out <= out_of) by (nonlinear_arith)
        requires
            new_out == (into * out_of) / (into + after_fee),
            into > 0,
            out_of >= 0,
            after_fee >= 0,
    ;
    assert((into + after_fee) * new_out <= into * out_of && into * out_of < (into + after_fee)
        * new_out + (into + after_fee)) by (nonlinear_arith)
        requires
            new_out == (into * out_of) / (into + after_fee),
            into > 0,
            out_of >= 0,
            after_fee >= 0,
    ;
}

/// The quotient curve's withdrawal pays each reserve's own proportional
/// share exactly as the constant-product curve's does: for every amount up
/// to `lp` it succeeds and
/// `reserve * amount <= paid * lp < reserve * amount + reserve * lp / precision + lp`.
pub proof fn lemma_quotient_withdraw_proportional(
    a: u64,
    b: u64,
    lp: u64,
    amount: u64,
    precision: u32,
)
    requires
        lp > 0,
        precision > 0,
        amount <= lp,
    ensures
        cmm::spec_withdraw(a, b, lp, amount, precision) is Ok,
        ({
            let xy = cmm::spec_withdraw(a, b, lp, amount, precision)->Ok_0;
            &&& xy.x <= a && xy.y <= b
            &&& xy.x * lp >= a * amount
            &&& xy.x * lp * precision < a * amount * precision + a * lp + lp * precision
            &&& xy.y * lp >= b * amount
            &&& xy.y * lp * precision < b * amount * precision + b * lp + lp * precision
        }),
{
    lemma_withdraw_share(a as int, lp as int, amount as int, precision as int);
    lemma_withdraw_share(b as int, lp as int, amount as int, precision as int);
}

/// The quotient curve's deposit takes each reserve's own proportional share,
/// as the constant-product curve's does, wherever both shares fit in 64 bits
/// (beyond that it keeps only the low 64 bits of the amount).
pub proof fn lemma_quotient_deposit_proportional(
    a: u64,
    b: u64,
    lp: u64,
    amount: u64,
    precision: u32,
)
    requires
        lp > 0,
        precision > 0,
        a * amount <= u64::MAX * lp,
        b * amount <= u64::MAX * lp,
    ensures
        cmm::spec_deposit(a, b, lp, amount, precision) is Ok,
        ({
            let xy = cmm::spec_deposit(a, b, lp, amount, precision)->Ok_0;
            &&& xy.x * lp <= a * amount
            &&& xy.x * lp * precision > a * amount * precision - a * lp - lp * precision
            &&& xy.y * lp <= b * amount
            &&& xy.y * lp * precision > b * amount * precision - b * lp - lp * precision
        }),
{
    lemma_deposit_share(a as int, lp as int, amount as int, precision as int);
    lemma_deposit_share(b as int, lp as int, amount as int, precision as int);
    let ratio = ((lp + amount) * precision) / (lp as int);
    let qa = (a * ratio) / (precision as int) - a;
    let qb = (b * ratio) / (precision as int) - b;
    assert(cmm::low_u64(qa) == qa) by {
        vstd::arithmetic::div_mod::lemma_small_mod(qa as nat, 0x1_0000_0000_0000_0000nat);
    }
    assert(cmm::low_u64(qb) == qb) by {
        vstd::arithmetic::div_mod::lemma_small_mod(qb as nat, 0x1_0000_0000_0000_0000nat);
    }
}

/// Either curve is opened on two positive reserves and a fee below 100%
/// (10000 basis points), keeping all three as given; an empty reserve is
/// refused first (`ZeroBalance`), then a fee of 100% or more
/// (`InvalidFeeAmount`).
pub proof fn lemma_initialize_curves(a: u64, b: u64, fee: u16)
    ensures
        a > 0 && b > 0 && fee < 10_000 ==> spec_initialize_cmm(a, b, fee) == Ok::<CMM, CurveError>(
            CMM { a, b, fee },
        ) && cmm::spec_initialize_cmm(a, b, fee) == Ok::<cmm::CMM, cmm::CurveError>(
            cmm::CMM { a, b, fee },
        ),
        a == 0 || b == 0 ==> spec_initialize_cmm(a, b, fee) == Err::<CMM, CurveError>(
            CurveError::ZeroBalance,
        ) && cmm::spec_initialize_cmm(a, b, fee) == Err::<cmm::CMM, cmm::CurveError>(
            cmm::CurveError::ZeroBalance,
        ),
        a > 0 && b > 0 && fee >= 10_000 ==> spec_initialize_cmm(a, b, fee) == Err::<
            CMM,
            CurveError,
        >(CurveError::InvalidFeeAmount) && cmm::spec_initialize_cmm(a, b, fee) == Err::<
            cmm::CMM,
            cmm::CurveError,
        >(cmm::CurveError::InvalidFeeAmount),
{
}

} // verus!
