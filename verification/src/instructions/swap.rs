//! Trading one token of the pool for the other along the constant-product
//! curve. The fee stays in the vault, outside the reserves, and is credited to
//! the liquidity providers through the fee-growth accumulator of the input
//! token.

use vstd::prelude::*;

use crate::error::{lift, AmmError};
use crate::instructions::{Flow, TokenTransfer};
use crate::state::{lift_curve, Config, Side};
use crate::utils::basis_points_denominator;
use crate::utils::cpmm::{
    fee_growth_delta, growth_modulus, spec_fee_growth_delta, spec_swap, LiquidityPair, SwapResult,
    CMM,
};

verus! {

#[derive(Clone, Copy, PartialEq, Eq, Debug, Structural)]
pub enum SwapDirection {
    AtoB,
    BtoA,
}

/// The curve side that a direction puts its input on.
pub open spec fn pair_of(direction: SwapDirection) -> LiquidityPair {
    match direction {
        SwapDirection::AtoB => LiquidityPair::X,
        SwapDirection::BtoA => LiquidityPair::Y,
    }
}

impl From<SwapDirection> for LiquidityPair {
    fn from(direction: SwapDirection) -> (r: Self) {
        match direction {
            SwapDirection::AtoB => LiquidityPair::X,
            SwapDirection::BtoA => LiquidityPair::Y,
        }
    }
}

impl vstd::std_specs::convert::FromSpecImpl<SwapDirection> for LiquidityPair {
    open spec fn obeys_from_spec() -> bool {
        true
    }

    open spec fn from_spec(v: SwapDirection) -> LiquidityPair {
        pair_of(v)
    }
}

/// The token a direction takes from the trader.
pub open spec fn input_side(direction: SwapDirection) -> Side {
    match direction {
        SwapDirection::AtoB => Side::A,
        SwapDirection::BtoA => Side::B,
    }
}

/// The token a direction pays to the trader.
pub open spec fn output_side(direction: SwapDirection) -> Side {
    match direction {
        SwapDirection::AtoB => Side::B,
        SwapDirection::BtoA => Side::A,
    }
}

/// A wrapping accumulator advanced by `delta` (modulo 2^128).
pub open spec fn growth_plus(growth: u128, delta: u128) -> u128 {
    if growth + delta > u128::MAX {
        (growth + delta - growth_modulus()) as u128
    } else {
        (growth + delta) as u128
    }
}

/// The pool after a swap and what the curve returned, or the error the swap
/// fails with.
pub open spec fn swap_outcome(config: Config, direction: SwapDirection, amount: u64, min: u64) -> Result<
    (Config, SwapResult),
    AmmError,
> {
    if config.locked {
        Err(AmmError::PoolLocked)
    } else if amount == 0 {
        Err(AmmError::InvalidAmount)
    } else if config.total_liquidity == 0 {
        Err(AmmError::NoLiquidity)
    } else if config.reserve_a == 0 || config.reserve_b == 0 {
        Err(AmmError::NoLiquidity)
    } else if config.fee >= basis_points_denominator() {
        Err(AmmError::InvalidFee)
    } else {
        match lift(
            spec_swap(
                config.reserve_a,
                config.reserve_b,
                config.fee,
                pair_of(direction),
                amount,
                min,
            ),
        ) {
            Err(e) => Err(e),
            Ok((a, b, result)) => {
                let delta = spec_fee_growth_delta(result.fee, config.total_liquidity)->Ok_0;
                let grown = match direction {
                    SwapDirection::AtoB => Config {
                        fee_growth_a: growth_plus(config.fee_growth_a, delta),
                        ..config
                    },
                    SwapDirection::BtoA => Config {
                        fee_growth_b: growth_plus(config.fee_growth_b, delta),
                        ..config
                    },
                };
                Ok((Config { reserve_a: a, reserve_b: b, ..grown }, result))
            },
        }
    }
}

/// The pool's state for a swap.
pub struct Swap {
    pub config: Config,
}

impl Swap {
    /// Swaps `amount` of the input token for at least `min` of the output
    /// token. On success the caller must move `amount` of the input token
    /// into its vault and pay the output to the trader; on an error nothing
    /// changes.
    pub fn swap(&mut self, direction: SwapDirection, amount: u64, min: u64) -> (r: Result<
        Vec<TokenTransfer>,
        AmmError,
    >)
        ensures
            match swap_outcome(old(self).config, direction, amount, min) {
                Ok((config, result)) => {
                    &&& r matches Ok(t) && t@ == seq![
                        TokenTransfer {
                            side: input_side(direction),
                            flow: Flow::ToVault,
                            amount: result.deposit,
                        },
                        TokenTransfer {
                            side: output_side(direction),
                            flow: Flow::FromVault,
                            amount: result.withdraw,
                        },
                    ]
                    &&& final(self).config == config
                },
                Err(e) => r == Err::<Vec<TokenTransfer>, AmmError>(e) && final(self).config == old(
                    self,
                ).config,
            },
            // The product of the reserves never decreases.
            r is Ok ==> final(self).config.reserve_a * final(self).config.reserve_b >= old(
                self,
            ).config.reserve_a * old(self).config.reserve_b,
    {
        if self.config.locked {
            return Err(AmmError::PoolLocked);
        }
        if amount == 0 {
            return Err(AmmError::InvalidAmount);
        }
        if !(self.config.total_liquidity > 0) {
            return Err(AmmError::NoLiquidity);
        }
        if !(self.config.reserve_a > 0 && self.config.reserve_b > 0) {
            return Err(AmmError::NoLiquidity);
        }
        let mut curve = lift_curve(
            CMM::initialize_cmm(self.config.reserve_a, self.config.reserve_b, self.config.fee),
        )?;
        let swap_result = lift_curve(curve.swap(LiquidityPair::from(direction), amount, min))?;
        let delta = lift_curve(fee_growth_delta(swap_result.fee, self.config.total_liquidity))?;
        match direction {
            SwapDirection::AtoB => {
                self.config.fee_growth_a = self.config.fee_growth_a.wrapping_add(delta);
            },
            SwapDirection::BtoA => {
                self.config.fee_growth_b = self.config.fee_growth_b.wrapping_add(delta);
            },
        }
        self.config.reserve_a = curve.a;
        self.config.reserve_b = curve.b;
        let mut transfers = Vec::new();
        transfers.push(
            TokenTransfer {
                side: self.input_leg(direction),
                flow: Flow::ToVault,
                amount: swap_result.deposit,
            },
        );
        transfers.push(
            TokenTransfer {
                side: self.output_leg(direction),
                flow: Flow::FromVault,
                amount: swap_result.withdraw,
            },
        );
        Ok(transfers)
    }

    /// The token the trader pays in.
    pub fn input_leg(&self, direction: SwapDirection) -> (r: Side)
        ensures
            r == input_side(direction),
    {
        match direction {
            SwapDirection::AtoB => Side::A,
            SwapDirection::BtoA => Side::B,
        }
    }

    /// The token the trader receives.
    pub fn output_leg(&self, direction: SwapDirection) -> (r: Side)
        ensures
            r == output_side(direction),
    {
        match direction {
            SwapDirection::AtoB => Side::B,
            SwapDirection::BtoA => Side::A,
        }
    }
}

} // verus!
