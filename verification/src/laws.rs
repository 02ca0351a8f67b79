//! Properties of the pool that span its operations, stated over the same
//! models the instructions' contracts use, and proved.

use vstd::prelude::*;

use crate::constants::PRECISION;
use crate::curve_laws::{
    lemma_deposit_proportional, lemma_deposit_share, lemma_withdraw_proportional,
};
use crate::error::AmmError;
use crate::instructions::collect_fees::{collect_fees_outcome, CollectFees};
use crate::instructions::init::spec_check_extension_codes;
use crate::instructions::deposit::{deposit_lp_action, deposit_outcome, deposit_position, Deposit};
use crate::instructions::swap::{
    growth_plus, input_side, output_side, pair_of, swap_outcome, SwapDirection,
};
use crate::instructions::withdraw::{withdraw_lp_action, withdraw_outcome, Withdraw};
use crate::instructions::{lp_after, payout_transfers, Flow, TokenTransfer};
use crate::state::{
    address_lt, spec_require_authority, spec_settle, Address, Config, Position, Side,
};
use crate::utils::cpmm::{
    growth_since, lemma_constant_product_kept, spec_deposit, spec_fee_growth_delta, spec_fee_owed,
    spec_withdraw, SwapResult, XYAmounts, FEE_GROWTH_SCALE,
};

verus! {

/// Advancing a wrapping accumulator by `delta` and measuring how far it moved
/// gives back `delta`, wrap-around included.
pub proof fn lemma_growth_round_trip(growth: u128, delta: u128)
    ensures
        growth_since(growth_plus(growth, delta), growth) == delta,
{
}

/// An accumulator that has not moved owes nothing, to any liquidity.
pub proof fn lemma_no_growth_owes_nothing(liquidity: u64, growth: u128)
    ensures
        spec_fee_owed(liquidity, growth, growth) == Ok::<u64, crate::utils::cpmm::CurveError>(0),
{
    assert(liquidity * 0 == 0);
}

/// Fee sharing never pays out more than was paid in: after one swap's fee
/// `fee` is spread over `total` units of liquidity, a position of
/// `liquidity <= total` units is owed at most its proportional share of
/// `fee`, rounded down (so the whole pool is owed at most `fee`).
pub proof fn lemma_fee_share_bounded(fee: u64, total: u64, liquidity: u64, snapshot: u128)
    requires
        total > 0,
        liquidity <= total,
    ensures
        ({
            let delta = spec_fee_growth_delta(fee, total)->Ok_0;
            let owed = spec_fee_owed(liquidity, growth_plus(snapshot, delta), snapshot);
            owed is Ok && owed->Ok_0 * total <= fee * liquidity && owed->Ok_0 <= fee
        }),
{
    let s = FEE_GROWTH_SCALE as int;
    let scaled = fee * s;
    let delta = scaled / (total as int);
    assert(0 <= scaled <= (u64::MAX as int) * s) by (nonlinear_arith)
        requires
            scaled == fee * s,
            0 <= fee <= u64::MAX,
            s > 0,
    ;
    assert(0 <= delta <= scaled) by (nonlinear_arith)
        requires
            delta == scaled / (total as int),
            total >= 1,
            scaled >= 0,
    ;
    assert(delta * total <= scaled) by (nonlinear_arith)
        requires
            delta == scaled / (total as int),
            total >= 1,
            scaled >= 0,
    ;
    let d = spec_fee_growth_delta(fee, total)->Ok_0;
    assert(d as int == delta);
    lemma_growth_round_trip(snapshot, d);
    let product = liquidity * delta;
    assert(0 <= product <= total * delta) by (nonlinear_arith)
        requires
            product == liquidity * delta,
            0 <= liquidity <= total,
            delta >= 0,
    ;
    assert(total * delta == delta * total) by (nonlinear_arith);
    assert(product <= u128::MAX);
    let owed = product / s;
    // owed * s <= product = liquidity * delta, and delta * total <= fee * s.
    assert(owed * s <= product) by (nonlinear_arith)
        requires
            owed == product / s,
            s > 0,
            product >= 0,
    ;
    assert(owed * total * s <= fee * liquidity * s) by (nonlinear_arith)
        requires
            owed * s <= product,
            product == liquidity * delta,
            delta * total <= fee * s,
            total >= 0,
            liquidity >= 0,
            owed >= 0,
    ;
    assert(owed * total <= fee * liquidity) by (nonlinear_arith)
        requires
            owed * total * s <= fee * liquidity * s,
            s > 0,
    ;
    assert(owed <= fee) by (nonlinear_arith)
        requires
            owed * total <= fee * liquidity,
            0 <= liquidity <= total,
            total > 0,
            owed >= 0,
            fee >= 0,
    ;
    assert(0 <= owed <= u64::MAX);
}

/// The sum of a list of liquidity amounts.
pub open spec fn liquidity_sum(ls: Seq<u64>) -> int
    decreases ls.len(),
{
    if ls.len() == 0 {
        0
    } else {
        liquidity_sum(ls.drop_last()) + ls.last()
    }
}

/// The fees owed to each of a list of positions that all hold their
/// snapshot at `snapshot`, added up (an owed amount that fails counts as 0).
pub open spec fn owed_sum(ls: Seq<u64>, growth: u128, snapshot: u128) -> int
    decreases ls.len(),
{
    if ls.len() == 0 {
        0
    } else {
        owed_sum(ls.drop_last(), growth, snapshot) + match spec_fee_owed(ls.last(), growth, snapshot) {
            Ok(o) => o as int,
            Err(_) => 0,
        }
    }
}

/// However one swap's fee `fee` is spread over `total` units of liquidity,
/// positions holding at most `total` units between them are owed, together,
/// at most their proportional share of `fee`, and so never more than `fee`.
pub proof fn lemma_fee_shares_sum_bounded(fee: u64, total: u64, ls: Seq<u64>, snapshot: u128)
    requires
        total > 0,
        liquidity_sum(ls) <= total,
    ensures
        ({
            let growth = growth_plus(snapshot, spec_fee_growth_delta(fee, total)->Ok_0);
            &&& forall|i: int| 0 <= i < ls.len() ==> (#[trigger] spec_fee_owed(ls[i], growth, snapshot)) is Ok
            &&& owed_sum(ls, growth, snapshot) * total <= fee * liquidity_sum(ls)
            &&& owed_sum(ls, growth, snapshot) <= fee
        }),
    decreases ls.len(),
{
    let growth = growth_plus(snapshot, spec_fee_growth_delta(fee, total)->Ok_0);
    if ls.len() == 0 {
        assert(owed_sum(ls, growth, snapshot) == 0);
    } else {
        let init = ls.drop_last();
        let last = ls.last();
        lemma_liquidity_sum_nonneg(init);
        lemma_fee_shares_sum_bounded(fee, total, init, snapshot);
        lemma_fee_share_bounded(fee, total, last, snapshot);
        let o = spec_fee_owed(last, growth, snapshot)->Ok_0;
        let rest = owed_sum(init, growth, snapshot);
        assert forall|i: int| 0 <= i < ls.len() implies (#[trigger] spec_fee_owed(
            ls[i],
            growth,
            snapshot,
        )) is Ok by {
            if i < ls.len() - 1 {
                assert(ls[i] == init[i]);
            }
        }
        assert((rest + o) * total == rest * total + o * total) by (nonlinear_arith);
        assert(fee * (liquidity_sum(init) + last) == fee * liquidity_sum(init) + fee * last)
            by (nonlinear_arith);
        let sum = owed_sum(ls, growth, snapshot);
        assert(sum == rest + o);
        assert(sum <= fee) by (nonlinear_arith)
            requires
                sum * total <= fee * liquidity_sum(ls),
                liquidity_sum(ls) <= total,
                total > 0,
                fee >= 0,
        ;
    }
}

proof fn lemma_liquidity_sum_nonneg(ls: Seq<u64>)
    ensures
        liquidity_sum(ls) >= 0,
    decreases ls.len(),
{
    if ls.len() > 0 {
        lemma_liquidity_sum_nonneg(ls.drop_last());
    }
}

/// A provider holding all of the liquidity is owed the whole fee of a swap,
/// less at most one unit lost to rounding.
pub proof fn lemma_sole_provider_owed_whole_fee(fee: u64, total: u64, snapshot: u128)
    requires
        total > 0,
    ensures
        ({
            let growth = growth_plus(snapshot, spec_fee_growth_delta(fee, total)->Ok_0);
            let owed = spec_fee_owed(total, growth, snapshot);
            owed is Ok && fee - 1 <= owed->Ok_0 <= fee
        }),
{
    lemma_fee_share_bounded(fee, total, total, snapshot);
    let s = FEE_GROWTH_SCALE as int;
    let scaled = fee * s;
    let delta = scaled / (total as int);
    assert(delta * total > scaled - total) by (nonlinear_arith)
        requires
            delta == scaled / (total as int),
            total > 0,
            scaled >= 0,
    ;
    let d = spec_fee_growth_delta(fee, total)->Ok_0;
    assert(0 <= scaled <= (u64::MAX as int) * s) by (nonlinear_arith)
        requires
            scaled == fee * s,
            0 <= fee <= u64::MAX,
            s > 0,
    ;
    assert(0 <= delta <= scaled) by (nonlinear_arith)
        requires
            delta == scaled / (total as int),
            total >= 1,
            scaled >= 0,
    ;
    assert(d as int == delta);
    lemma_growth_round_trip(snapshot, d);
    let product = total * delta;
    assert(product == delta * total) by (nonlinear_arith)
        requires
            product == total * delta,
    ;
    let owed = product / s;
    assert(product >= (fee - 1) * s) by (nonlinear_arith)
        requires
            product > fee * s - total,
            total < s,
    ;
    assert(owed >= fee - 1) by (nonlinear_arith)
        requires
            owed == product / s,
            product >= (fee - 1) * s,
            s > 0,
    ;
}

/// The liquidity tokens follow the liquidity: where the token supply and the
/// depositor's token balance equal the pool's and the position's liquidity
/// before a deposit, they equal them after it.
pub proof fn lemma_lp_tokens_track_deposit(
    d: Deposit,
    amount: u64,
    max_a: u64,
    max_b: u64,
    bump: u8,
    supply: int,
    balance: int,
)
    requires
        deposit_outcome(d, amount, max_a, max_b, bump) is Ok,
        supply == d.config.total_liquidity,
        balance == d.position.liquidity,
    ensures
        ({
            let (c, p, x, y) = deposit_outcome(d, amount, max_a, max_b, bump)->Ok_0;
            &&& lp_after(supply, deposit_lp_action(amount)) == c.total_liquidity
            &&& lp_after(balance, deposit_lp_action(amount)) == p.liquidity
        }),
{
}

/// Likewise for a withdrawal: the burn takes the token supply and the
/// provider's token balance down with the pool's and the position's
/// liquidity.
pub proof fn lemma_lp_tokens_track_withdraw(
    w: Withdraw,
    amount: u64,
    min_a: u64,
    min_b: u64,
    supply: int,
    balance: int,
)
    requires
        withdraw_outcome(w, amount, min_a, min_b) is Ok,
        supply == w.config.total_liquidity,
        balance == w.position.liquidity,
    ensures
        ({
            let (c, p, pay_a, pay_b) = withdraw_outcome(w, amount, min_a, min_b)->Ok_0;
            &&& lp_after(supply, withdraw_lp_action(amount)) == c.total_liquidity
            &&& lp_after(balance, withdraw_lp_action(amount)) == p.liquidity
        }),
{
}

/// Settling twice at the same accumulators credits nothing the second time.
pub proof fn lemma_settle_idempotent(p: Position, growth_a: u128, growth_b: u128)
    requires
        spec_settle(p, growth_a, growth_b) is Ok,
    ensures
        ({
            let q = spec_settle(p, growth_a, growth_b)->Ok_0;
            spec_settle(q, growth_a, growth_b) == Ok::<Position, AmmError>(q)
        }),
{
    let q = spec_settle(p, growth_a, growth_b)->Ok_0;
    lemma_no_growth_owes_nothing(q.liquidity, growth_a);
    lemma_no_growth_owes_nothing(q.liquidity, growth_b);
}

/// A swap moves tokens only as its result says: the input reserve grows by
/// the input less the fee, the output reserve shrinks by exactly what the
/// trader receives (at least `min`), the fee is credited to the input token's
/// accumulator alone, and the product of the reserves does not decrease.
pub proof fn lemma_swap_accounting(config: Config, direction: SwapDirection, amount: u64, min: u64)
    requires
        swap_outcome(config, direction, amount, min) is Ok,
    ensures
        ({
            let (c, res) = swap_outcome(config, direction, amount, min)->Ok_0;
            let delta = (res.fee * FEE_GROWTH_SCALE) / (config.total_liquidity as int);
            &&& res.deposit == amount
            &&& res.fee <= amount
            &&& res.withdraw >= min
            &&& c.total_liquidity == config.total_liquidity
            &&& c.fee == config.fee
            &&& c.locked == config.locked
            &&& c.authority == config.authority
            &&& match direction {
                SwapDirection::AtoB => {
                    &&& c.reserve_a == config.reserve_a + (amount - res.fee)
                    &&& c.reserve_b == config.reserve_b - res.withdraw
                    &&& growth_since(c.fee_growth_a, config.fee_growth_a) == delta
                    &&& c.fee_growth_b == config.fee_growth_b
                },
                SwapDirection::BtoA => {
                    &&& c.reserve_b == config.reserve_b + (amount - res.fee)
                    &&& c.reserve_a == config.reserve_a - res.withdraw
                    &&& growth_since(c.fee_growth_b, config.fee_growth_b) == delta
                    &&& c.fee_growth_a == config.fee_growth_a
                },
            }
            &&& c.reserve_a * c.reserve_b >= config.reserve_a * config.reserve_b
        }),
{
    let (c, res) = swap_outcome(config, direction, amount, min)->Ok_0;
    let after_fee = crate::utils::cpmm::spec_after_fee(amount, config.fee);
    assert(0 <= after_fee <= amount) by (nonlinear_arith)
        requires
            after_fee == (amount * (10_000 - config.fee)) / 10_000,
            0 <= config.fee < 10_000,
            amount >= 0,
    ;
    assert(res.fee * FEE_GROWTH_SCALE <= u128::MAX) by (nonlinear_arith)
        requires
            0 <= res.fee <= u64::MAX,
    ;
    let delta_int = (res.fee * FEE_GROWTH_SCALE) / (config.total_liquidity as int);
    assert(0 <= delta_int <= res.fee * FEE_GROWTH_SCALE) by (nonlinear_arith)
        requires
            delta_int == (res.fee * FEE_GROWTH_SCALE) / (config.total_liquidity as int),
            config.total_liquidity >= 1,
            res.fee >= 0,
    ;
    let d = spec_fee_growth_delta(res.fee, config.total_liquidity)->Ok_0;
    assert(d as int == delta_int);
    match direction {
        SwapDirection::AtoB => {
            crate::utils::cpmm::lemma_amount_out_bounded(
                config.reserve_a as int,
                config.reserve_b as int,
                after_fee,
            );
            lemma_growth_round_trip(config.fee_growth_a, d);
            lemma_constant_product_kept(
                config.reserve_a as int,
                config.reserve_b as int,
                after_fee,
            );
        },
        SwapDirection::BtoA => {
            crate::utils::cpmm::lemma_amount_out_bounded(
                config.reserve_b as int,
                config.reserve_a as int,
                after_fee,
            );
            lemma_growth_round_trip(config.fee_growth_b, d);
            lemma_constant_product_kept(
                config.reserve_b as int,
                config.reserve_a as int,
                after_fee,
            );
            assert(c.reserve_a * c.reserve_b == c.reserve_b * c.reserve_a) by (nonlinear_arith);
            assert(config.reserve_a * config.reserve_b == config.reserve_b * config.reserve_a)
                by (nonlinear_arith);
        },
    }
}

/// A deposit takes from the depositor exactly what the reserves grow by,
/// never more than `max_a` and `max_b`, and adds `amount` to both the pool's
/// and the position's liquidity.
pub proof fn lemma_deposit_accounting(d: Deposit, amount: u64, max_a: u64, max_b: u64, bump: u8)
    requires
        deposit_outcome(d, amount, max_a, max_b, bump) is Ok,
    ensures
        ({
            let (c, p, x, y) = deposit_outcome(d, amount, max_a, max_b, bump)->Ok_0;
            &&& c.reserve_a == d.config.reserve_a + x
            &&& c.reserve_b == d.config.reserve_b + y
            &&& x <= max_a && y <= max_b
            &&& c.total_liquidity == d.config.total_liquidity + amount
            &&& p.liquidity == d.position.liquidity + amount
            &&& p.owner == d.user
        }),
{
}

/// A deposit into a pool that already has liquidity never charges more than
/// the proportional share of either reserve: `x / reserve_a <= amount / lp`.
pub proof fn lemma_deposit_at_most_proportional(
    a: u64,
    b: u64,
    lp: u64,
    amount: u64,
    precision: u32,
)
    requires
        spec_deposit(a, b, lp, amount, precision) is Ok,
    ensures
        ({
            let xy = spec_deposit(a, b, lp, amount, precision)->Ok_0;
            xy.x * lp <= a * amount && xy.y * lp <= b * amount
        }),
{
    let ratio = crate::utils::cpmm::deposit_ratio(lp, amount, precision);
    lemma_deposit_side_proportional(a, lp, amount, precision, ratio);
    lemma_deposit_side_proportional(b, lp, amount, precision, ratio);
}

proof fn lemma_deposit_side_proportional(
    reserve: u64,
    lp: u64,
    amount: u64,
    precision: u32,
    ratio: int,
)
    requires
        lp > 0,
        ratio == crate::utils::cpmm::deposit_ratio(lp, amount, precision),
        crate::utils::cpmm::deposit_side(reserve, ratio, precision) is Ok,
    ensures
        crate::utils::cpmm::deposit_side(reserve, ratio, precision)->Ok_0 * lp <= reserve * amount,
{
    let p = precision as int;
    let n = (lp + amount) * p;
    assert(ratio * lp <= n) by (nonlinear_arith)
        requires
            ratio == n / (lp as int),
            lp > 0,
            n >= 0,
    ;
    let scaled = reserve * ratio;
    let q = scaled / p;
    assert(q * p <= scaled) by (nonlinear_arith)
        requires
            q == scaled / p,
            p > 0,
            scaled >= 0,
    ;
    assert(ratio >= 0) by (nonlinear_arith)
        requires
            ratio == n / (lp as int),
            lp > 0,
            n >= 0,
    ;
    // q * p * lp <= reserve * ratio * lp <= reserve * (lp + amount) * p
    assert(q * lp * p <= reserve * (lp + amount) * p) by (nonlinear_arith)
        requires
            q * p <= scaled,
            scaled == reserve * ratio,
            ratio * lp <= n,
            n == (lp + amount) * p,
            lp > 0,
            reserve >= 0,
            q >= 0,
    ;
    assert(q * lp <= reserve * (lp + amount)) by (nonlinear_arith)
        requires
            q * lp * p <= reserve * (lp + amount) * p,
            p > 0,
    ;
    assert((q - reserve) * lp <= reserve * amount) by (nonlinear_arith)
        requires
            q * lp <= reserve * (lp + amount),
    ;
}

/// Withdrawing all the liquidity there is pays out both reserves in full.
pub proof fn lemma_withdraw_all(a: u64, b: u64, lp: u64, precision: u32)
    requires
        lp > 0,
        precision > 0,
    ensures
        spec_withdraw(a, b, lp, lp, precision) == Ok::<XYAmounts, crate::utils::cpmm::CurveError>(
            XYAmounts { x: a, y: b },
        ),
{
    assert(((lp - lp) * precision) / (lp as int) == 0) by (nonlinear_arith)
        requires
            lp > 0,
    ;
    assert(a * 0 == 0 && b * 0 == 0);
}

/// A withdrawal pays out exactly what the reserves shrink by plus every fee
/// the position was owed after settling, at least `min_a` and `min_b` from
/// the reserves, and takes `amount` off both the pool's and the position's
/// liquidity.
pub proof fn lemma_withdraw_accounting(w: Withdraw, amount: u64, min_a: u64, min_b: u64)
    requires
        withdraw_outcome(w, amount, min_a, min_b) is Ok,
    ensures
        ({
            let (c, p, pay_a, pay_b) = withdraw_outcome(w, amount, min_a, min_b)->Ok_0;
            let settled = spec_settle(w.position, w.config.fee_growth_a, w.config.fee_growth_b)->Ok_0;
            &&& pay_a == (w.config.reserve_a - c.reserve_a) + settled.fee_owed_a
            &&& pay_b == (w.config.reserve_b - c.reserve_b) + settled.fee_owed_b
            &&& w.config.reserve_a - c.reserve_a >= min_a
            &&& w.config.reserve_b - c.reserve_b >= min_b
            &&& c.total_liquidity == w.config.total_liquidity - amount
            &&& p.liquidity == w.position.liquidity - amount
            &&& p.fee_owed_a == 0 && p.fee_owed_b == 0
        }),
{
}

/// A provider that joins after fees were earned inherits none of them: a
/// first deposit into an empty position starts its snapshots at the pool's
/// accumulators, and a claim right after it finds nothing to collect.
pub proof fn lemma_new_position_inherits_no_fees(
    d: Deposit,
    amount: u64,
    max_a: u64,
    max_b: u64,
    bump: u8,
)
    requires
        d.position.liquidity == 0,
        d.position.fee_owed_a == 0,
        d.position.fee_owed_b == 0,
        deposit_outcome(d, amount, max_a, max_b, bump) is Ok,
    ensures
        ({
            let (c, p, x, y) = deposit_outcome(d, amount, max_a, max_b, bump)->Ok_0;
            &&& p.fee_growth_snapshot_a == c.fee_growth_a
            &&& p.fee_growth_snapshot_b == c.fee_growth_b
            &&& p.fee_owed_a == 0 && p.fee_owed_b == 0
            &&& collect_fees_outcome(CollectFees { user: d.user, config: c, position: p })
                == Err::<(Position, u64, u64), AmmError>(AmmError::InvalidAmount)
        }),
{
    let (c, p, x, y) = deposit_outcome(d, amount, max_a, max_b, bump)->Ok_0;
    lemma_no_growth_owes_nothing(p.liquidity, c.fee_growth_a);
    lemma_no_growth_owes_nothing(p.liquidity, c.fee_growth_b);
}

/// The first deposit into an empty pool followed by the withdrawal of all
/// of it gives the depositor back exactly what it put in and leaves the pool
/// empty again.
pub proof fn lemma_deposit_then_withdraw_all(
    d: Deposit,
    amount: u64,
    max_a: u64,
    max_b: u64,
    bump: u8,
    min_a: u64,
    min_b: u64,
)
    requires
        d.config.total_liquidity == 0,
        d.config.reserve_a == 0,
        d.config.reserve_b == 0,
        d.position.liquidity == 0,
        d.position.fee_owed_a == 0,
        d.position.fee_owed_b == 0,
        min_a <= max_a,
        min_b <= max_b,
        deposit_outcome(d, amount, max_a, max_b, bump) is Ok,
    ensures
        ({
            let (c, p, x, y) = deposit_outcome(d, amount, max_a, max_b, bump)->Ok_0;
            let w = Withdraw { user: d.user, config: c, position: p };
            &&& x == max_a && y == max_b
            &&& withdraw_outcome(w, amount, min_a, min_b) is Ok
            &&& ({
                let (c2, p2, pay_a, pay_b) = withdraw_outcome(w, amount, min_a, min_b)->Ok_0;
                &&& pay_a == x && pay_b == y
                &&& c2.reserve_a == 0 && c2.reserve_b == 0 && c2.total_liquidity == 0
                &&& p2.liquidity == 0
            })
        }),
{
    let (c, p, x, y) = deposit_outcome(d, amount, max_a, max_b, bump)->Ok_0;
    lemma_no_growth_owes_nothing(p.liquidity, c.fee_growth_a);
    lemma_no_growth_owes_nothing(p.liquidity, c.fee_growth_b);
    lemma_withdraw_all(x, y, amount, PRECISION);
}

/// A locked pool refuses every deposit, withdrawal, swap and fee claim with
/// `PoolLocked` (a claim by someone other than the position's owner is
/// refused as `Unauthorized` first).
pub proof fn lemma_locked_pool_refuses(
    config: Config,
    user: Address,
    config_key: Address,
    position: Position,
    direction: SwapDirection,
    amount: u64,
    limit_a: u64,
    limit_b: u64,
    bump: u8,
)
    requires
        config.locked,
    ensures
        deposit_outcome(Deposit { user, config_key, config, position }, amount, limit_a, limit_b, bump)
            == Err::<(Config, Position, u64, u64), AmmError>(AmmError::PoolLocked),
        withdraw_outcome(Withdraw { user, config, position }, amount, limit_a, limit_b) == Err::<
            (Config, Position, u64, u64),
            AmmError,
        >(AmmError::PoolLocked),
        swap_outcome(config, direction, amount, limit_a) == Err::<
            (Config, crate::utils::cpmm::SwapResult),
            AmmError,
        >(AmmError::PoolLocked),
        position.owner == user ==> collect_fees_outcome(CollectFees { user, config, position })
            == Err::<(Position, u64, u64), AmmError>(AmmError::PoolLocked),
{
}

/// Once the authority is handed to `next`, only `next` can act as the pool
/// authority; once it is renounced (`None`), no one can.
pub proof fn lemma_authority_handover(
    config: Config,
    signer: Address,
    next: Option<Address>,
    anyone: Address,
)
    requires
        spec_require_authority(config.authority, signer) is Ok,
    ensures
        spec_require_authority(next, anyone) is Ok <==> next == Some(anyone),
        next is None ==> spec_require_authority(next, anyone) == Err::<(), AmmError>(
            AmmError::NoAuthority,
        ),
{
}

/// A swap on an open pool that holds liquidity, in full: the pool takes all
/// of `amount`, adds `after_fee = floor(amount * (10000 - fee) / 10000)` to
/// the input reserve and pays the trader
/// `floor(after_fee * out_reserve / (in_reserve + after_fee))` from the
/// output reserve. It is refused only when the grown input reserve would not
/// fit in 64 bits (`MathOverflow`) or the payout is under `min`
/// (`SlippageExceeded`).
pub proof fn lemma_pool_swap_exact(config: Config, direction: SwapDirection, amount: u64, min: u64)
    requires
        !config.locked,
        amount > 0,
        config.total_liquidity > 0,
        config.reserve_a > 0,
        config.reserve_b > 0,
        config.fee < 10_000,
    ensures
        ({
            let after_fee = (amount * (10_000 - config.fee)) / 10_000;
            let into: int = if direction == SwapDirection::AtoB {
                config.reserve_a as int
            } else {
                config.reserve_b as int
            };
            let out_of: int = if direction == SwapDirection::AtoB {
                config.reserve_b as int
            } else {
                config.reserve_a as int
            };
            let out = (after_fee * out_of) / (into + after_fee);
            let r = swap_outcome(config, direction, amount, min);
            &&& into + after_fee > u64::MAX ==> r == Err::<(Config, SwapResult), AmmError>(
                AmmError::MathOverflow,
            )
            &&& into + after_fee <= u64::MAX && out < min ==> r == Err::<
                (Config, SwapResult),
                AmmError,
            >(AmmError::SlippageExceeded)
            &&& into + after_fee <= u64::MAX && out >= min ==> {
                &&& r is Ok
                &&& r->Ok_0.1.deposit == amount
                &&& r->Ok_0.1.withdraw == out
                &&& r->Ok_0.1.fee == amount - after_fee
                &&& r->Ok_0.0.total_liquidity == config.total_liquidity
                &&& direction == SwapDirection::AtoB ==> r->Ok_0.0.reserve_a == into + after_fee
                    && r->Ok_0.0.reserve_b == out_of - out
                &&& direction == SwapDirection::BtoA ==> r->Ok_0.0.reserve_b == into + after_fee
                    && r->Ok_0.0.reserve_a == out_of - out
            }
        }),
{
    crate::curve_laws::lemma_swap_exact(
        config.reserve_a,
        config.reserve_b,
        config.fee,
        pair_of(direction),
        amount,
        min,
    );
}

/// A deposit into a pool that already has liquidity takes from each reserve
/// its own proportional share of the new liquidity, `reserve * amount /
/// total_liquidity`, never more and less by under
/// `reserve / PRECISION + 1`, so the price of the pool does not move:
/// `reserve * amount - reserve * total / PRECISION - total < taken * total <= reserve * amount`.
pub proof fn lemma_pool_deposit_proportional(
    d: Deposit,
    amount: u64,
    max_a: u64,
    max_b: u64,
    bump: u8,
)
    requires
        d.config.total_liquidity > 0,
        deposit_outcome(d, amount, max_a, max_b, bump) is Ok,
    ensures
        ({
            let (c, p, x, y) = deposit_outcome(d, amount, max_a, max_b, bump)->Ok_0;
            let total = d.config.total_liquidity;
            let ra = d.config.reserve_a;
            let rb = d.config.reserve_b;
            &&& x * total <= ra * amount
            &&& y * total <= rb * amount
            &&& x * total * PRECISION > ra * amount * PRECISION - ra * total - total * PRECISION
            &&& y * total * PRECISION > rb * amount * PRECISION - rb * total - total * PRECISION
        }),
{
    let lp = d.config.total_liquidity;
    let ratio = crate::utils::cpmm::deposit_ratio(lp, amount, PRECISION);
    lemma_deposit_side_proportional(d.config.reserve_a, lp, amount, PRECISION, ratio);
    lemma_deposit_side_proportional(d.config.reserve_b, lp, amount, PRECISION, ratio);
    lemma_deposit_share(d.config.reserve_a as int, lp as int, amount as int, PRECISION as int);
    lemma_deposit_share(d.config.reserve_b as int, lp as int, amount as int, PRECISION as int);
}

/// The owner of a position on an open pool can always claim what settling
/// credits it, as soon as that is positive in either token (not only in
/// both): the claim pays exactly the settled `fee_owed_a` and `fee_owed_b`
/// and leaves the position owing nothing.
pub proof fn lemma_collect_fees_pays_owed(c: CollectFees, settled: Position)
    requires
        c.position.owner == c.user,
        !c.config.locked,
        spec_settle(c.position, c.config.fee_growth_a, c.config.fee_growth_b) == Ok::<
            Position,
            AmmError,
        >(settled),
        settled.fee_owed_a > 0 || settled.fee_owed_b > 0,
    ensures
        collect_fees_outcome(c) == Ok::<(Position, u64, u64), AmmError>(
            (
                Position { fee_owed_a: 0, fee_owed_b: 0, ..settled },
                settled.fee_owed_a,
                settled.fee_owed_b,
            ),
        ),
{
}

/// A mint is refused as soon as any one of its extensions, wherever it
/// stands in the list, is a transfer fee (1), a confidential-transfer mint
/// (4), a default account state (6), non-transferable (9), a permanent
/// delegate (12), a transfer hook (14) or a confidential-transfer fee (16);
/// a list with none of these is accepted.
pub proof fn lemma_extension_codes_refused_anywhere(codes: Seq<u16>)
    ensures
        (exists|i: int|
            0 <= i < codes.len() && {
                let k = #[trigger] codes[i];
                k == 1 || k == 4 || k == 6 || k == 9 || k == 12 || k == 14 || k == 16
            }) ==> spec_check_extension_codes(codes) == Err::<(), AmmError>(
            AmmError::UnsupportedMintExtension,
        ),
        (forall|i: int|
            0 <= i < codes.len() ==> {
                let k = #[trigger] codes[i];
                k != 1 && k != 4 && k != 6 && k != 9 && k != 12 && k != 14 && k != 16
            }) ==> spec_check_extension_codes(codes) == Ok::<(), AmmError>(()),
{
}

/// A withdrawal by a position's owner from an open pool, in full. For any
/// amount up to the position's liquidity (which is part of the pool's), the
/// pool gives up its proportional share of each reserve,
/// `reserve * amount / total_liquidity` rounded in its own favour by less
/// than `reserve / PRECISION + 1`, and pays it out together with every fee
/// the position is owed after settling. It is refused only when a share is
/// under `min_a` or `min_b` (`SlippageExceeded`) or a payout would not fit
/// in 64 bits (`MathOverflow`).
pub proof fn lemma_pool_withdraw_exact(
    w: Withdraw,
    amount: u64,
    min_a: u64,
    min_b: u64,
    settled: Position,
)
    requires
        !w.config.locked,
        amount > 0,
        w.position.owner == w.user,
        amount <= w.position.liquidity,
        w.position.liquidity <= w.config.total_liquidity,
        spec_settle(w.position, w.config.fee_growth_a, w.config.fee_growth_b) == Ok::<
            Position,
            AmmError,
        >(settled),
    ensures
        spec_withdraw(
            w.config.reserve_a,
            w.config.reserve_b,
            w.config.total_liquidity,
            amount,
            PRECISION,
        ) is Ok,
        ({
            let ra = w.config.reserve_a;
            let rb = w.config.reserve_b;
            let total = w.config.total_liquidity;
            let xy = spec_withdraw(ra, rb, total, amount, PRECISION)->Ok_0;
            let r = withdraw_outcome(w, amount, min_a, min_b);
            let fits = xy.x + settled.fee_owed_a <= u64::MAX && xy.y + settled.fee_owed_b
                <= u64::MAX;
            &&& xy.x * total >= ra * amount
            &&& xy.x * total * PRECISION < ra * amount * PRECISION + ra * total + total * PRECISION
            &&& xy.y * total >= rb * amount
            &&& xy.y * total * PRECISION < rb * amount * PRECISION + rb * total + total * PRECISION
            &&& xy.x < min_a || xy.y < min_b ==> r == Err::<(Config, Position, u64, u64), AmmError>(
                AmmError::SlippageExceeded,
            )
            &&& xy.x >= min_a && xy.y >= min_b && !fits ==> r == Err::<
                (Config, Position, u64, u64),
                AmmError,
            >(AmmError::MathOverflow)
            &&& xy.x >= min_a && xy.y >= min_b && fits ==> {
                &&& r is Ok
                &&& r->Ok_0.0 == (Config {
                    reserve_a: (ra - xy.x) as u64,
                    reserve_b: (rb - xy.y) as u64,
                    total_liquidity: (total - amount) as u64,
                    ..w.config
                })
                &&& r->Ok_0.1 == (Position {
                    liquidity: (settled.liquidity - amount) as u64,
                    fee_owed_a: 0,
                    fee_owed_b: 0,
                    ..settled
                })
                &&& r->Ok_0.2 == xy.x + settled.fee_owed_a
                &&& r->Ok_0.3 == xy.y + settled.fee_owed_b
            }
        }),
{
    lemma_withdraw_proportional(
        w.config.reserve_a,
        w.config.reserve_b,
        w.config.total_liquidity,
        amount,
        PRECISION,
    );
}

/// A deposit into an open pool that already has liquidity, in full.
/// Wherever the proportional shares `reserve * amount / total_liquidity`
/// fit in 64 bits, the pool takes each of them, never more and less by
/// under `reserve / PRECISION + 1`, and adds `amount` to its own and the
/// position's liquidity. It is refused only when a share is above `max_a`
/// or `max_b` (`SlippageExceeded`) or a new total would not fit in 64 bits
/// (`MathOverflow`).
pub proof fn lemma_pool_deposit_exact(
    d: Deposit,
    amount: u64,
    max_a: u64,
    max_b: u64,
    bump: u8,
    position: Position,
)
    requires
        !d.config.locked,
        amount > 0,
        d.config.total_liquidity > 0,
        d.config.reserve_a * amount <= u64::MAX * d.config.total_liquidity,
        d.config.reserve_b * amount <= u64::MAX * d.config.total_liquidity,
        deposit_position(d.user, d.config_key, d.config, d.position, bump) == Ok::<
            Position,
            AmmError,
        >(position),
    ensures
        spec_deposit(
            d.config.reserve_a,
            d.config.reserve_b,
            d.config.total_liquidity,
            amount,
            PRECISION,
        ) is Ok,
        ({
            let ra = d.config.reserve_a;
            let rb = d.config.reserve_b;
            let total = d.config.total_liquidity;
            let xy = spec_deposit(ra, rb, total, amount, PRECISION)->Ok_0;
            let r = deposit_outcome(d, amount, max_a, max_b, bump);
            let fits = ra + xy.x <= u64::MAX && rb + xy.y <= u64::MAX && total + amount
                <= u64::MAX && position.liquidity + amount <= u64::MAX;
            &&& xy.x * total <= ra * amount
            &&& xy.x * total * PRECISION > ra * amount * PRECISION - ra * total - total * PRECISION
            &&& xy.y * total <= rb * amount
            &&& xy.y * total * PRECISION > rb * amount * PRECISION - rb * total - total * PRECISION
            &&& xy.x > max_a || xy.y > max_b ==> r == Err::<(Config, Position, u64, u64), AmmError>(
                AmmError::SlippageExceeded,
            )
            &&& xy.x <= max_a && xy.y <= max_b && !fits ==> r == Err::<
                (Config, Position, u64, u64),
                AmmError,
            >(AmmError::MathOverflow)
            &&& xy.x <= max_a && xy.y <= max_b && fits ==> r == Ok::<
                (Config, Position, u64, u64),
                AmmError,
            >(
                (
                    Config {
                        reserve_a: (ra + xy.x) as u64,
                        reserve_b: (rb + xy.y) as u64,
                        total_liquidity: (total + amount) as u64,
                        ..d.config
                    },
                    Position { liquidity: (position.liquidity + amount) as u64, ..position },
                    xy.x,
                    xy.y,
                ),
            )
        }),
{
    lemma_deposit_proportional(
        d.config.reserve_a,
        d.config.reserve_b,
        d.config.total_liquidity,
        amount,
        PRECISION,
    );
}

/// Settling credits a position, in each token, with
/// `floor(liquidity * g / 2^64)`, where `g` is how far that token's
/// accumulator has moved (modulo 2^128) since the position's snapshot, and
/// moves the snapshots up to the accumulators. It succeeds exactly when
/// both products fit in 128 bits and both new owed amounts in 64 bits.
pub proof fn lemma_settle_credits(p: Position, growth_a: u128, growth_b: u128)
    ensures
        ({
            let m = 0x1_0000_0000_0000_0000_0000_0000_0000_0000int;
            let s = 0x1_0000_0000_0000_0000int;
            let ga = if growth_a >= p.fee_growth_snapshot_a {
                growth_a - p.fee_growth_snapshot_a
            } else {
                growth_a - p.fee_growth_snapshot_a + m
            };
            let gb = if growth_b >= p.fee_growth_snapshot_b {
                growth_b - p.fee_growth_snapshot_b
            } else {
                growth_b - p.fee_growth_snapshot_b + m
            };
            let owed_a = p.fee_owed_a + (p.liquidity * ga) / s;
            let owed_b = p.fee_owed_b + (p.liquidity * gb) / s;
            let ok = p.liquidity * ga <= u128::MAX && p.liquidity * gb <= u128::MAX && owed_a
                <= u64::MAX && owed_b <= u64::MAX;
            &&& ok ==> spec_settle(p, growth_a, growth_b) == Ok::<Position, AmmError>(
                Position {
                    fee_owed_a: owed_a as u64,
                    fee_owed_b: owed_b as u64,
                    fee_growth_snapshot_a: growth_a,
                    fee_growth_snapshot_b: growth_b,
                    ..p
                },
            )
            &&& !ok ==> spec_settle(p, growth_a, growth_b) is Err
        }),
{
    let s = 0x1_0000_0000_0000_0000int;
    let ga = growth_since(growth_a, p.fee_growth_snapshot_a);
    let gb = growth_since(growth_b, p.fee_growth_snapshot_b);
    assert(0 <= ga && 0 <= gb);
    assert(0 <= (p.liquidity * ga) / s && 0 <= (p.liquidity * gb) / s) by (nonlinear_arith)
        requires
            ga >= 0,
            gb >= 0,
            p.liquidity >= 0,
            s > 0,
    ;
}

/// What each instruction refuses before it looks at the curve: an empty
/// amount (`InvalidAmount`); a withdrawal or a claim by someone other than
/// the position's owner, or a deposit into a live position of someone else
/// (`Unauthorized`); a withdrawal of more than the position holds
/// (`InsufficientBalance`); a first deposit that offers nothing of a token
/// (`InvalidAmount`); a swap on a pool without liquidity or reserves
/// (`NoLiquidity`) or with a fee of 100% or more (`InvalidFee`); and a claim
/// when settling leaves nothing owed (`InvalidAmount`).
pub proof fn lemma_refusals(
    config: Config,
    user: Address,
    config_key: Address,
    position: Position,
    direction: SwapDirection,
    amount: u64,
    limit_a: u64,
    limit_b: u64,
    bump: u8,
)
    requires
        !config.locked,
    ensures
        amount == 0 ==> deposit_outcome(
            Deposit { user, config_key, config, position },
            amount,
            limit_a,
            limit_b,
            bump,
        ) == Err::<(Config, Position, u64, u64), AmmError>(AmmError::InvalidAmount),
        amount > 0 && position.liquidity > 0 && position.owner != user ==> deposit_outcome(
            Deposit { user, config_key, config, position },
            amount,
            limit_a,
            limit_b,
            bump,
        ) == Err::<(Config, Position, u64, u64), AmmError>(AmmError::Unauthorized),
        amount > 0 && position.liquidity == 0 && config.total_liquidity == 0 && (limit_a == 0
            || limit_b == 0) ==> deposit_outcome(
            Deposit { user, config_key, config, position },
            amount,
            limit_a,
            limit_b,
            bump,
        ) == Err::<(Config, Position, u64, u64), AmmError>(AmmError::InvalidAmount),
        amount == 0 ==> withdraw_outcome(Withdraw { user, config, position }, amount, limit_a, limit_b)
            == Err::<(Config, Position, u64, u64), AmmError>(AmmError::InvalidAmount),
        amount > 0 && position.owner != user ==> withdraw_outcome(
            Withdraw { user, config, position },
            amount,
            limit_a,
            limit_b,
        ) == Err::<(Config, Position, u64, u64), AmmError>(AmmError::Unauthorized),
        amount > position.liquidity && position.owner == user ==> withdraw_outcome(
            Withdraw { user, config, position },
            amount,
            limit_a,
            limit_b,
        ) == Err::<(Config, Position, u64, u64), AmmError>(AmmError::InsufficientBalance),
        amount == 0 ==> swap_outcome(config, direction, amount, limit_a) == Err::<
            (Config, SwapResult),
            AmmError,
        >(AmmError::InvalidAmount),
        amount > 0 && (config.total_liquidity == 0 || config.reserve_a == 0 || config.reserve_b
            == 0) ==> swap_outcome(config, direction, amount, limit_a) == Err::<
            (Config, SwapResult),
            AmmError,
        >(AmmError::NoLiquidity),
        amount > 0 && config.total_liquidity > 0 && config.reserve_a > 0 && config.reserve_b > 0
            && config.fee >= 10_000 ==> swap_outcome(config, direction, amount, limit_a) == Err::<
            (Config, SwapResult),
            AmmError,
        >(AmmError::InvalidFee),
        position.owner != user ==> collect_fees_outcome(CollectFees { user, config, position })
            == Err::<(Position, u64, u64), AmmError>(AmmError::Unauthorized),
        position.owner == user && (spec_settle(position, config.fee_growth_a, config.fee_growth_b)
            matches Ok(settled) && settled.fee_owed_a == 0 && settled.fee_owed_b == 0)
            ==> collect_fees_outcome(CollectFees { user, config, position }) == Err::<
            (Position, u64, u64),
            AmmError,
        >(AmmError::InvalidAmount),
{
}

/// The first deposit into an open pool without liquidity takes exactly what
/// the depositor offers of each token (both must be positive), sets the
/// reserves to it and gives the depositor `amount` units of liquidity.
pub proof fn lemma_first_deposit_exact(
    d: Deposit,
    amount: u64,
    max_a: u64,
    max_b: u64,
    bump: u8,
    position: Position,
)
    requires
        !d.config.locked,
        amount > 0,
        d.config.total_liquidity == 0,
        max_a > 0,
        max_b > 0,
        deposit_position(d.user, d.config_key, d.config, d.position, bump) == Ok::<
            Position,
            AmmError,
        >(position),
        d.config.reserve_a + max_a <= u64::MAX,
        d.config.reserve_b + max_b <= u64::MAX,
        position.liquidity + amount <= u64::MAX,
    ensures
        deposit_outcome(d, amount, max_a, max_b, bump) == Ok::<
            (Config, Position, u64, u64),
            AmmError,
        >(
            (
                Config {
                    reserve_a: (d.config.reserve_a + max_a) as u64,
                    reserve_b: (d.config.reserve_b + max_b) as u64,
                    total_liquidity: amount,
                    ..d.config
                },
                Position { liquidity: (position.liquidity + amount) as u64, ..position },
                max_a,
                max_b,
            ),
        ),
{
}

/// A swap takes the token it names first from the trader and pays the other
/// one out: `AtoB` takes token A and pays token B, `BtoA` the reverse; so
/// the token paid in is the one whose reserve grows.
pub proof fn lemma_swap_sides(direction: SwapDirection)
    ensures
        direction == SwapDirection::AtoB ==> input_side(direction) == Side::A && output_side(
            direction,
        ) == Side::B,
        direction == SwapDirection::BtoA ==> input_side(direction) == Side::B && output_side(
            direction,
        ) == Side::A,
        input_side(direction) != output_side(direction),
{
}

/// A payout moves exactly `amount` of one token out of its vault: one
/// transfer from the vault for a positive amount, none for zero.
pub proof fn lemma_payout_moves_amount(side: Side, amount: u64)
    ensures
        amount > 0 ==> payout_transfers(side, amount) == seq![
            TokenTransfer { side, flow: Flow::FromVault, amount },
        ],
        amount == 0 ==> payout_transfers(side, amount).len() == 0,
{
}

/// The order the mints of a pool must come in is a strict order on
/// addresses, decided by the first byte in which two addresses differ: no
/// address comes before itself, two addresses never come before each other,
/// and a smaller first byte puts an address first.
pub proof fn lemma_address_order(a: Address, b: Address)
    ensures
        !address_lt(a, a),
        address_lt(a, b) ==> !address_lt(b, a),
        a[0] < b[0] ==> address_lt(a, b),
        a[0] == b[0] && a[1] < b[1] ==> address_lt(a, b),
{
    if address_lt(a, b) && address_lt(b, a) {
        let i = choose|i: int|
            0 <= i < 32 && a[i] < b[i] && (forall|j: int| 0 <= j < i ==> #[trigger] a[j] == b[j]);
        let k = choose|k: int|
            0 <= k < 32 && b[k] < a[k] && (forall|j: int| 0 <= j < k ==> #[trigger] b[j] == a[j]);
        if i < k {
            assert(b[i] == a[i]);
        } else if k < i {
            assert(a[k] == b[k]);
        }
    }
    if a[0] < b[0] {
        assert(0 <= 0int < 32 && a[0] < b[0] && (forall|j: int| 0 <= j < 0 ==> #[trigger] a[j] == b[j]));
    }
    if a[0] == b[0] && a[1] < b[1] {
        assert(forall|j: int| 0 <= j < 1 ==> #[trigger] a[j] == b[j]);
        assert(0 <= 1int < 32 && a[1] < b[1]);
    }
}

/// A deposit into a live position settles it first: the position comes out
/// owed what settling at the pool's accumulators credits it, with its
/// snapshots at those accumulators, and holds `amount` more liquidity.
pub proof fn lemma_deposit_settles_live_position(
    d: Deposit,
    amount: u64,
    max_a: u64,
    max_b: u64,
    bump: u8,
)
    requires
        d.position.liquidity > 0,
        deposit_outcome(d, amount, max_a, max_b, bump) is Ok,
    ensures
        d.position.owner == d.user,
        spec_settle(d.position, d.config.fee_growth_a, d.config.fee_growth_b) is Ok,
        ({
            let settled = spec_settle(d.position, d.config.fee_growth_a, d.config.fee_growth_b)->Ok_0;
            let (c, p, x, y) = deposit_outcome(d, amount, max_a, max_b, bump)->Ok_0;
            p == Position { liquidity: (d.position.liquidity + amount) as u64, ..settled }
        }),
{
}

} // verus!
