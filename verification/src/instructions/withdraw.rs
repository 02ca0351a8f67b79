//! Removing liquidity: the provider takes its share of both reserves and,
//! with it, every fee its position is owed.

use vstd::prelude::*;

use crate::constants::PRECISION;
use crate::error::{lift, AmmError};
use crate::instructions::{payout, payout_transfers, LiquidityActions, LpAction, TokenTransfer};
use crate::state::{lift_curve, same_address, spec_settle, Address, Config, Position, Side};
use crate::utils::cpmm::{spec_withdraw, CMM};

verus! {

/// The provider, the pool, and the provider's position.
pub struct Withdraw {
    pub user: Address,
    pub config: Config,
    pub position: Position,
}

/// The pool and position after a withdrawal and the amounts paid out of each
/// vault (share of the reserve plus owed fees), or the error it fails with.
pub open spec fn withdraw_outcome(w: Withdraw, amount: u64, min_a: u64, min_b: u64) -> Result<
    (Config, Position, u64, u64),
    AmmError,
> {
    if w.config.locked {
        Err(AmmError::PoolLocked)
    } else if amount == 0 {
        Err(AmmError::InvalidAmount)
    } else if w.position.owner != w.user {
        Err(AmmError::Unauthorized)
    } else if amount > w.position.liquidity {
        Err(AmmError::InsufficientBalance)
    } else {
        match spec_settle(w.position, w.config.fee_growth_a, w.config.fee_growth_b) {
            Err(e) => Err(e),
            Ok(p) => match lift(
                spec_withdraw(
                    w.config.reserve_a,
                    w.config.reserve_b,
                    w.config.total_liquidity,
                    amount,
                    PRECISION,
                ),
            ) {
                Err(e) => Err(e),
                Ok(xy) => if xy.x < min_a || xy.y < min_b {
                    Err(AmmError::SlippageExceeded)
                } else if xy.x > w.config.reserve_a || xy.y > w.config.reserve_b || amount
                    > w.config.total_liquidity || xy.x + p.fee_owed_a > u64::MAX || xy.y
                    + p.fee_owed_b > u64::MAX {
                    Err(AmmError::MathOverflow)
                } else {
                    Ok(
                        (
                            Config {
                                reserve_a: (w.config.reserve_a - xy.x) as u64,
                                reserve_b: (w.config.reserve_b - xy.y) as u64,
                                total_liquidity: (w.config.total_liquidity - amount) as u64,
                                ..w.config
                            },
                            Position {
                                liquidity: (p.liquidity - amount) as u64,
                                fee_owed_a: 0,
                                fee_owed_b: 0,
                                ..p
                            },
                            (xy.x + p.fee_owed_a) as u64,
                            (xy.y + p.fee_owed_b) as u64,
                        ),
                    )
                },
            },
        }
    }
}

/// A withdrawal of `amount` units of liquidity burns that many liquidity
/// tokens from the provider.
pub open spec fn withdraw_lp_action(amount: u64) -> LpAction {
    LpAction::BurnFrom { amount }
}

impl Withdraw {
    /// Burns `amount` units of the provider's liquidity, paying its share of
    /// the reserves (at least `min_a` and `min_b`) together with all fees the
    /// position is owed. On success the caller must burn `amount` liquidity
    /// tokens from the provider and pay the returned amounts from the vaults;
    /// on an error nothing changes.
    pub fn withdraw(&mut self, amount: u64, min_a: u64, min_b: u64) -> (r: Result<
        LiquidityActions,
        AmmError,
    >)
        ensures
            final(self).user == old(self).user,
            match withdraw_outcome(*old(self), amount, min_a, min_b) {
                Ok((config, position, pay_a, pay_b)) => {
                    &&& r matches Ok(acts) && acts.transfers@ == payout_transfers(Side::A, pay_a)
                        + payout_transfers(Side::B, pay_b) && acts.lp == withdraw_lp_action(amount)
                    &&& final(self).config == config
                    &&& final(self).position == position
                },
                Err(e) => {
                    &&& r == Err::<LiquidityActions, AmmError>(e)
                    &&& final(self).config == old(self).config
                    &&& final(self).position == old(self).position
                },
            },
    {
        if self.config.locked {
            return Err(AmmError::PoolLocked);
        }
        if amount == 0 {
            return Err(AmmError::InvalidAmount);
        }
        if !same_address(&self.position.owner, &self.user) {
            return Err(AmmError::Unauthorized);
        }
        if amount > self.position.liquidity {
            return Err(AmmError::InsufficientBalance);
        }
        let mut position = self.position;
        position.settle(self.config.fee_growth_a, self.config.fee_growth_b)?;
        let amounts = lift_curve(
            CMM::withdraw(
                self.config.reserve_a,
                self.config.reserve_b,
                self.config.total_liquidity,
                amount,
                PRECISION,
            ),
        )?;
        if amounts.x < min_a || amounts.y < min_b {
            return Err(AmmError::SlippageExceeded);
        }
        let reserve_a = self.config.reserve_a.checked_sub(amounts.x).ok_or(AmmError::MathOverflow)?;
        let reserve_b = self.config.reserve_b.checked_sub(amounts.y).ok_or(AmmError::MathOverflow)?;
        let total_liquidity = self.config.total_liquidity.checked_sub(amount).ok_or(
            AmmError::MathOverflow,
        )?;
        let pay_a = amounts.x.checked_add(position.fee_owed_a).ok_or(AmmError::MathOverflow)?;
        let pay_b = amounts.y.checked_add(position.fee_owed_b).ok_or(AmmError::MathOverflow)?;
        position.liquidity = position.liquidity - amount;
        position.fee_owed_a = 0;
        position.fee_owed_b = 0;
        self.config.reserve_a = reserve_a;
        self.config.reserve_b = reserve_b;
        self.config.total_liquidity = total_liquidity;
        self.position = position;
        let mut transfers = Vec::new();
        payout(&mut transfers, Side::A, pay_a);
        payout(&mut transfers, Side::B, pay_b);
        assert(transfers@ =~= payout_transfers(Side::A, pay_a) + payout_transfers(Side::B, pay_b));
        Ok(LiquidityActions { transfers, lp: LpAction::BurnFrom { amount } })
    }
}

} // verus!
