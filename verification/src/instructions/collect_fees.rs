//! Paying a liquidity provider the fees credited to its position.

use vstd::prelude::*;

use crate::error::AmmError;
use crate::instructions::{payout, payout_transfers, TokenTransfer};
use crate::state::{same_address, spec_settle, Address, Config, Position, Side};

verus! {

/// The claimant, the pool, and the claimant's position.
pub struct CollectFees {
    pub user: Address,
    pub config: Config,
    pub position: Position,
}

/// The position after its fees are paid out and the amounts paid, or the
/// error the claim fails with.
pub open spec fn collect_fees_outcome(c: CollectFees) -> Result<(Position, u64, u64), AmmError> {
    if c.position.owner != c.user {
        Err(AmmError::Unauthorized)
    } else if c.config.locked {
        Err(AmmError::PoolLocked)
    } else {
        match spec_settle(c.position, c.config.fee_growth_a, c.config.fee_growth_b) {
            Err(e) => Err(e),
            Ok(p) => if p.fee_owed_a == 0 && p.fee_owed_b == 0 {
                Err(AmmError::InvalidAmount)
            } else {
                Ok((Position { fee_owed_a: 0, fee_owed_b: 0, ..p }, p.fee_owed_a, p.fee_owed_b))
            },
        }
    }
}

impl CollectFees {
    /// Settles the position and pays out everything it is owed. Only the
    /// position's owner may claim. On success the caller must pay the
    /// returned amounts from the vaults; on an error nothing changes.
    pub fn collect_fees(&mut self) -> (r: Result<Vec<TokenTransfer>, AmmError>)
        ensures
            final(self).user == old(self).user,
            final(self).config == old(self).config,
            match collect_fees_outcome(*old(self)) {
                Ok((position, fee_a, fee_b)) => {
                    &&& r matches Ok(t) && t@ == payout_transfers(Side::A, fee_a)
                        + payout_transfers(Side::B, fee_b)
                    &&& final(self).position == position
                },
                Err(e) => r == Err::<Vec<TokenTransfer>, AmmError>(e) && final(self).position
                    == old(self).position,
            },
    {
        if !same_address(&self.position.owner, &self.user) {
            return Err(AmmError::Unauthorized);
        }
        if self.config.locked {
            return Err(AmmError::PoolLocked);
        }
        let mut position = self.position;
        position.settle(self.config.fee_growth_a, self.config.fee_growth_b)?;
        let fee_a = position.fee_owed_a;
        let fee_b = position.fee_owed_b;
        if !(fee_a > 0 || fee_b > 0) {
            return Err(AmmError::InvalidAmount);
        }
        position.fee_owed_a = 0;
        position.fee_owed_b = 0;
        self.position = position;
        let mut transfers = Vec::new();
        payout(&mut transfers, Side::A, fee_a);
        payout(&mut transfers, Side::B, fee_b);
        assert(transfers@ =~= payout_transfers(Side::A, fee_a) + payout_transfers(Side::B, fee_b));
        Ok(transfers)
    }
}

} // verus!
