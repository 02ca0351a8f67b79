//! Pool and position state, and the rules that every instruction shares.

use vstd::prelude::*;

use crate::error::{lift, AmmError};
use crate::utils::cpmm::{fee_owed, spec_fee_owed, CurveError};

verus! {

/// The 32 bytes of an account address.
pub type Address = [u8; 32];

/// One pool: its two mints, its reserves, the liquidity issued against them
/// and the fee-growth accumulators (fees per unit of liquidity, scaled by 2^64,
/// wrapping).
#[derive(Debug, Clone, Copy)]
pub struct Config {
    pub seed: u64,
    pub authority: Option<Address>,
    pub mint_a: Address,
    pub mint_b: Address,
    pub fee: u16,
    pub locked: bool,
    pub config_bump: u8,
    pub reserve_a: u64,
    pub reserve_b: u64,
    pub total_liquidity: u64,
    pub fee_growth_a: u128,
    pub fee_growth_b: u128,
}

/// One liquidity provider's share of a pool and the fees credited to it.
#[derive(Debug, Clone, Copy)]
pub struct Position {
    pub owner: Address,
    pub config: Address,
    pub liquidity: u64,
    pub fee_growth_snapshot_a: u128,
    pub fee_growth_snapshot_b: u128,
    pub fee_owed_a: u64,
    pub fee_owed_b: u64,
    pub bump: u8,
}

#[derive(Clone, Copy, PartialEq, Eq, Debug, Structural)]
pub enum Side {
    A,
    B,
}

/// Address order: lexicographic over the 32 bytes.
pub open spec fn address_lt(a: Address, b: Address) -> bool {
    exists|i: int|
        0 <= i < 32 && a[i] < b[i] && (forall|j: int| 0 <= j < i ==> #[trigger] a[j] == b[j])
}

/// Whether two addresses are the same.
pub fn same_address(a: &Address, b: &Address) -> (r: bool)
    ensures
        r == (*a == *b),
        r == (a@ == b@),
{
    let mut i: usize = 0;
    while i < 32
        invariant
            0 <= i <= 32,
            forall|j: int| 0 <= j < i ==> a[j] == b[j],
        decreases 32 - i,
    {
        if a[i] != b[i] {
            assert(a@[i as int] != b@[i as int]);
            return false;
        }
        i = i + 1;
    }
    assert(a@ =~= b@);
    proof {
        broadcast use vstd::array::group_array_axioms;

        assert(*a =~= *b);
    }
    true
}

/// The two mints of a pool must be given in strictly increasing address order.
pub fn check_mint_order(mint_a: &Address, mint_b: &Address) -> (r: Result<(), AmmError>)
    ensures
        r is Ok <==> address_lt(*mint_a, *mint_b),
        r is Err ==> r == Err::<(), AmmError>(AmmError::InvalidMintOrder),
{
    let mut i: usize = 0;
    while i < 32
        invariant
            0 <= i <= 32,
            forall|j: int| 0 <= j < i ==> mint_a[j] == mint_b[j],
        decreases 32 - i,
    {
        if mint_a[i] < mint_b[i] {
            assert(mint_a[i as int] < mint_b[i as int] && forall|j: int|
                0 <= j < i ==> #[trigger] mint_a[j] == mint_b[j]);
            return Ok(());
        }
        if mint_a[i] > mint_b[i] {
            assert forall|k: int|
                0 <= k < 32 && mint_a[k] < mint_b[k] implies !(forall|j: int|
                0 <= j < k ==> #[trigger] mint_a[j] == mint_b[j]) by {
                if k < i {
                } else if k > i {
                    assert(mint_a[i as int] != mint_b[i as int]);
                }
            }
            return Err(AmmError::InvalidMintOrder);
        }
        i = i + 1;
    }
    Err(AmmError::InvalidMintOrder)
}

/// What `require_authority` answers for a pool authority and a signer.
pub open spec fn spec_require_authority(authority: Option<Address>, signer: Address) -> Result<
    (),
    AmmError,
> {
    match authority {
        None => Err(AmmError::NoAuthority),
        Some(a) => if a == signer {
            Ok(())
        } else {
            Err(AmmError::Unauthorized)
        },
    }
}

impl Config {
    pub fn require_authority(&self, signer: &Address) -> (r: Result<(), AmmError>)
        ensures
            r == spec_require_authority(self.authority, *signer),
    {
        match &self.authority {
            None => Err(AmmError::NoAuthority),
            Some(authority) => {
                if same_address(authority, signer) {
                    Ok(())
                } else {
                    Err(AmmError::Unauthorized)
                }
            },
        }
    }
}

/// The position after its pending fees up to the accumulators `growth_a` and
/// `growth_b` are added to what it is owed, or the error that stops it.
pub open spec fn spec_settle(p: Position, growth_a: u128, growth_b: u128) -> Result<
    Position,
    AmmError,
> {
    match lift(spec_fee_owed(p.liquidity, growth_a, p.fee_growth_snapshot_a)) {
        Err(e) => Err(e),
        Ok(pending_a) => match lift(spec_fee_owed(p.liquidity, growth_b, p.fee_growth_snapshot_b)) {
            Err(e) => Err(e),
            Ok(pending_b) => if p.fee_owed_a + pending_a > u64::MAX || p.fee_owed_b + pending_b
                > u64::MAX {
                Err(AmmError::MathOverflow)
            } else {
                Ok(
                    Position {
                        fee_owed_a: (p.fee_owed_a + pending_a) as u64,
                        fee_owed_b: (p.fee_owed_b + pending_b) as u64,
                        fee_growth_snapshot_a: growth_a,
                        fee_growth_snapshot_b: growth_b,
                        ..p
                    },
                )
            },
        },
    }
}

/// Reports a curve error as a pool error.
pub(crate) fn lift_curve<T>(r: Result<T, CurveError>) -> (out: Result<T, AmmError>)
    ensures
        out == lift(r),
{
    match r {
        Ok(v) => Ok(v),
        Err(e) => Err(AmmError::from(e)),
    }
}

/// What `settle` leaves behind when it fails: the position unchanged, except
/// when only the credit of token B overflows, in which case token A's fees
/// have already been credited.
pub open spec fn settle_failed_state(p: Position, growth_a: u128, growth_b: u128) -> Position {
    match spec_fee_owed(p.liquidity, growth_a, p.fee_growth_snapshot_a) {
        Ok(pending_a) => match spec_fee_owed(p.liquidity, growth_b, p.fee_growth_snapshot_b) {
            Ok(pending_b) => if p.fee_owed_a + pending_a <= u64::MAX {
                Position { fee_owed_a: (p.fee_owed_a + pending_a) as u64, ..p }
            } else {
                p
            },
            Err(_) => p,
        },
        Err(_) => p,
    }
}

impl Position {
    /// Credits the fees earned since the snapshots and moves the snapshots to
    /// `growth_a` and `growth_b`.
    pub fn settle(&mut self, growth_a: u128, growth_b: u128) -> (r: Result<(), AmmError>)
        ensures
            match spec_settle(*old(self), growth_a, growth_b) {
                Ok(p) => r is Ok && *final(self) == p,
                Err(e) => r == Err::<(), AmmError>(e) && *final(self) == settle_failed_state(
                    *old(self),
                    growth_a,
                    growth_b,
                ),
            },
    {
        let pending_a = lift_curve(fee_owed(self.liquidity, growth_a, self.fee_growth_snapshot_a))?;
        let pending_b = lift_curve(fee_owed(self.liquidity, growth_b, self.fee_growth_snapshot_b))?;
        self.fee_owed_a = self.fee_owed_a.checked_add(pending_a).ok_or(AmmError::MathOverflow)?;
        self.fee_owed_b = self.fee_owed_b.checked_add(pending_b).ok_or(AmmError::MathOverflow)?;
        self.fee_growth_snapshot_a = growth_a;
        self.fee_growth_snapshot_b = growth_b;
        Ok(())
    }
}

} // verus!
