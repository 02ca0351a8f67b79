//! Adding liquidity: the first deposit sets the price, later ones add both
//! tokens in proportion to the reserves.

use vstd::prelude::*;

use crate::constants::PRECISION;
use crate::error::{lift, AmmError};
use crate::instructions::{Flow, LiquidityActions, LpAction, TokenTransfer};
use crate::state::{lift_curve, same_address, spec_settle, Address, Config, Position, Side};
use crate::utils::cpmm::{spec_deposit, CMM};

verus! {

/// The depositor, the pool (with its address) and the depositor's position.
pub struct Deposit {
    pub user: Address,
    pub config_key: Address,
    pub config: Config,
    pub position: Position,
}

/// The bump seed of the position's address.
pub struct DepositBumps {
    pub position: u8,
}

/// The position a deposit adds to: a live position is settled first (only its
/// owner may add to it); an empty one is taken over by the depositor and
/// starts its fee snapshots at the pool's current accumulators.
pub open spec fn deposit_position(
    user: Address,
    config_key: Address,
    config: Config,
    position: Position,
    bump: u8,
) -> Result<Position, AmmError> {
    if position.liquidity > 0 {
        if position.owner != user {
            Err(AmmError::Unauthorized)
        } else {
            spec_settle(position, config.fee_growth_a, config.fee_growth_b)
        }
    } else {
        Ok(
            Position {
                owner: user,
                config: config_key,
                bump,
                fee_growth_snapshot_a: config.fee_growth_a,
                fee_growth_snapshot_b: config.fee_growth_b,
                ..position
            },
        )
    }
}

/// The amounts of each token a deposit of `amount` liquidity takes: what the
/// depositor offers into an empty pool, else the proportional amounts, which
/// must not exceed `max_a` and `max_b`.
pub open spec fn deposit_amounts(config: Config, amount: u64, max_a: u64, max_b: u64) -> Result<
    (u64, u64),
    AmmError,
> {
    if config.total_liquidity == 0 {
        if max_a > 0 && max_b > 0 {
            Ok((max_a, max_b))
        } else {
            Err(AmmError::InvalidAmount)
        }
    } else {
        match lift(
            spec_deposit(
                config.reserve_a,
                config.reserve_b,
                config.total_liquidity,
                amount,
                PRECISION,
            ),
        ) {
            Err(e) => Err(e),
            Ok(xy) => if xy.x <= max_a && xy.y <= max_b {
                Ok((xy.x, xy.y))
            } else {
                Err(AmmError::SlippageExceeded)
            },
        }
    }
}

/// The pool and position after a deposit, and the amounts taken from the
/// depositor, or the error the deposit fails with.
pub open spec fn deposit_outcome(
    d: Deposit,
    amount: u64,
    max_a: u64,
    max_b: u64,
    bump: u8,
) -> Result<(Config, Position, u64, u64), AmmError> {
    if d.config.locked {
        Err(AmmError::PoolLocked)
    } else if amount == 0 {
        Err(AmmError::InvalidAmount)
    } else {
        match deposit_position(d.user, d.config_key, d.config, d.position, bump) {
            Err(e) => Err(e),
            Ok(p) => match deposit_amounts(d.config, amount, max_a, max_b) {
                Err(e) => Err(e),
                Ok((x, y)) => {
                    if d.config.reserve_a + x > u64::MAX || d.config.reserve_b + y > u64::MAX
                        || d.config.total_liquidity + amount > u64::MAX || p.liquidity + amount
                        > u64::MAX {
                        Err(AmmError::MathOverflow)
                    } else {
                        Ok(
                            (
                                Config {
                                    reserve_a: (d.config.reserve_a + x) as u64,
                                    reserve_b: (d.config.reserve_b + y) as u64,
                                    total_liquidity: (d.config.total_liquidity + amount) as u64,
                                    ..d.config
                                },
                                Position { liquidity: (p.liquidity + amount) as u64, ..p },
                                x,
                                y,
                            ),
                        )
                    }
                },
            },
        }
    }
}

/// A deposit of `amount` units of liquidity mints that many liquidity tokens
/// to the depositor.
pub open spec fn deposit_lp_action(amount: u64) -> LpAction {
    LpAction::MintTo { amount }
}

impl Deposit {
    /// Adds `amount` units of liquidity to the depositor's position. On
    /// success, the caller must move the returned amounts from the
    /// depositor's token accounts into the vaults and mint `amount`
    /// liquidity tokens to the depositor; on an error nothing changes.
    pub fn deposit(&mut self, amount: u64, max_a: u64, max_b: u64, bumps: &DepositBumps) -> (r:
        Result<LiquidityActions, AmmError>)
        ensures
            final(self).user == old(self).user,
            final(self).config_key == old(self).config_key,
            match deposit_outcome(*old(self), amount, max_a, max_b, bumps.position) {
                Ok((config, position, x, y)) => {
                    &&& r matches Ok(acts) && acts.transfers@ == seq![
                        TokenTransfer { side: Side::A, flow: Flow::ToVault, amount: x },
                        TokenTransfer { side: Side::B, flow: Flow::ToVault, amount: y },
                    ] && acts.lp == deposit_lp_action(amount)
                    &&& final(self).config == config
                    &&& final(self).position == position
                },
                Err(e) => {
                    &&& r == Err::<LiquidityActions, AmmError>(e)
                    &&& final(self).config == old(self).config
                    &&& final(self).position == old(self).position
                },
            },
    {
        if self.config.locked {
            return Err(AmmError::PoolLocked);
        }
        if amount == 0 {
            return Err(AmmError::InvalidAmount);
        }
        let mut position = self.position;
        if position.liquidity > 0 {
            if !same_address(&position.owner, &self.user) {
                return Err(AmmError::Unauthorized);
            }
            position.settle(self.config.fee_growth_a, self.config.fee_growth_b)?;
        } else {
            position.owner = self.user;
            position.config = self.config_key;
            position.bump = bumps.position;
            position.fee_growth_snapshot_a = self.config.fee_growth_a;
            position.fee_growth_snapshot_b = self.config.fee_growth_b;
        }
        let (x, y) = if self.config.total_liquidity == 0 {
            if !(max_a > 0 && max_b > 0) {
                return Err(AmmError::InvalidAmount);
            }
            (max_a, max_b)
        } else {
            let amounts = lift_curve(
                CMM::deposit(
                    self.config.reserve_a,
                    self.config.reserve_b,
                    self.config.total_liquidity,
                    amount,
                    PRECISION,
                ),
            )?;
            if !(amounts.x <= max_a && amounts.y <= max_b) {
                return Err(AmmError::SlippageExceeded);
            }
            (amounts.x, amounts.y)
        };
        let reserve_a = self.config.reserve_a.checked_add(x).ok_or(AmmError::MathOverflow)?;
        let reserve_b = self.config.reserve_b.checked_add(y).ok_or(AmmError::MathOverflow)?;
        let total_liquidity = self.config.total_liquidity.checked_add(amount).ok_or(
            AmmError::MathOverflow,
        )?;
        let liquidity = position.liquidity.checked_add(amount).ok_or(AmmError::MathOverflow)?;
        position.liquidity = liquidity;
        self.config.reserve_a = reserve_a;
        self.config.reserve_b = reserve_b;
        self.config.total_liquidity = total_liquidity;
        self.position = position;
        let mut transfers = Vec::new();
        transfers.push(TokenTransfer { side: Side::A, flow: Flow::ToVault, amount: x });
        transfers.push(TokenTransfer { side: Side::B, flow: Flow::ToVault, amount: y });
        Ok(LiquidityActions { transfers, lp: LpAction::MintTo { amount } })
    }
}

} // verus!
