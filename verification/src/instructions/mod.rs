//! The instructions of the pool. Each one checks its request against the
//! pool state, computes the next state, and hands back the token transfers
//! between the user's token accounts and the pool's vaults that the caller
//! must perform for the new state to hold.

pub mod admin;
pub mod collect_fees;
pub mod deposit;
pub mod init;
pub mod swap;
pub mod withdraw;

use vstd::prelude::*;

use crate::state::Side;

verus! {

/// Which way tokens move between a user and the pool.
#[derive(Clone, Copy, PartialEq, Eq, Debug, Structural)]
pub enum Flow {
    /// From the user's token account into the pool's vault (signed by the user).
    ToVault,
    /// From the pool's vault to the user's token account (signed by the pool).
    FromVault,
}

/// A token transfer that an instruction asks its caller to perform.
#[derive(Clone, Copy, PartialEq, Eq, Debug, Structural)]
pub struct TokenTransfer {
    pub side: Side,
    pub flow: Flow,
    pub amount: u64,
}

/// A change of the pool's liquidity-token supply that an instruction asks its
/// caller to make on the user's liquidity-token account.
#[derive(Clone, Copy, PartialEq, Eq, Debug, Structural)]
pub enum LpAction {
    /// Mint `amount` liquidity tokens to the user (signed by the pool).
    MintTo { amount: u64 },
    /// Burn `amount` liquidity tokens from the user (signed by the user).
    BurnFrom { amount: u64 },
}

/// What a deposit or a withdrawal asks its caller to do: the token
/// transfers, in order, and the change of the liquidity-token supply.
#[derive(Debug)]
pub struct LiquidityActions {
    pub transfers: Vec<TokenTransfer>,
    pub lp: LpAction,
}

/// A liquidity-token amount (a supply or a balance) after an action.
pub open spec fn lp_after(amount: int, action: LpAction) -> int {
    match action {
        LpAction::MintTo { amount: minted } => amount + minted,
        LpAction::BurnFrom { amount: burned } => amount - burned,
    }
}

/// The transfers of a payout from a vault: none for a zero amount.
pub open spec fn payout_transfers(side: Side, amount: u64) -> Seq<TokenTransfer> {
    if amount == 0 {
        Seq::empty()
    } else {
        seq![TokenTransfer { side, flow: Flow::FromVault, amount }]
    }
}

/// Adds a payout of `amount` of the `side` token from the vault to the user,
/// unless it is zero.
pub fn payout(transfers: &mut Vec<TokenTransfer>, side: Side, amount: u64)
    ensures
        final(transfers)@ == old(transfers)@ + payout_transfers(side, amount),
{
    if amount == 0 {
        assert(old(transfers)@ + Seq::<TokenTransfer>::empty() =~= old(transfers)@);
        return;
    }
    transfers.push(TokenTransfer { side, flow: Flow::FromVault, amount });
    assert(old(transfers)@.push(TokenTransfer { side, flow: Flow::FromVault, amount }) =~= old(
        transfers,
    )@ + payout_transfers(side, amount));
}

} // verus!
