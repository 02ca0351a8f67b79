//! Creating a pool: the fee is checked, both mints must be plain SPL Token
//! mints or Token-2022 mints without an extension that would break the pool's
//! accounting, and the pool starts empty and unlocked.

use anchor_spl::token_2022::spl_token_2022::extension::{
    BaseStateWithExtensions, StateWithExtensions,
};
use anchor_spl::token_2022::spl_token_2022::state::Mint as MintState;
use vstd::prelude::*;

use crate::constants::MAX_FEE_BPS;
use crate::error::AmmError;
use crate::state::{same_address, Address, Config};

verus! {

/// Extension type codes (the `u16` values of spl-token-2022's
/// `ExtensionType`) that the pool refuses on a mint.
pub const EXT_TRANSFER_FEE_CONFIG: u16 = 1;

pub const EXT_CONFIDENTIAL_TRANSFER_MINT: u16 = 4;

pub const EXT_DEFAULT_ACCOUNT_STATE: u16 = 6;

pub const EXT_NON_TRANSFERABLE: u16 = 9;

pub const EXT_PERMANENT_DELEGATE: u16 = 12;

pub const EXT_TRANSFER_HOOK: u16 = 14;

pub const EXT_CONFIDENTIAL_TRANSFER_FEE_CONFIG: u16 = 16;

/// Whether a mint extension would break the pool: a transfer fee, a transfer
/// hook, non-transferable tokens, frozen-by-default accounts, a permanent
/// delegate, or confidential transfers.
pub open spec fn unsupported_extension(code: u16) -> bool {
    code == EXT_TRANSFER_FEE_CONFIG || code == EXT_TRANSFER_HOOK || code == EXT_NON_TRANSFERABLE
        || code == EXT_DEFAULT_ACCOUNT_STATE || code == EXT_PERMANENT_DELEGATE || code
        == EXT_CONFIDENTIAL_TRANSFER_MINT || code == EXT_CONFIDENTIAL_TRANSFER_FEE_CONFIG
}

/// The extension types, as their `u16` codes in the order they are stored,
/// that spl-token-2022 reads from a mint account's data, or `None` where the
/// data does not parse as an initialized mint with well-formed extensions.
pub uninterp spec fn mint_extension_codes(data: Seq<u8>) -> Option<Seq<u16>>;

/// The address of the (pre-2022) SPL Token program,
/// `TokenkegQfeZyiNwAJbNbGKPFXCWuBvf9Ss623VQ5DA`, as bytes.
pub open spec fn legacy_token_program_address() -> Seq<u8> {
    seq![
        6u8, 221, 246, 225, 215, 101, 161, 147, 217, 203, 225, 70, 206, 235, 121, 172, 28, 180,
        133, 237, 95, 91, 55, 145, 58, 140, 245, 133, 126, 255, 0, 169,
    ]
}

/// Reads `anchor_spl::token::ID`, which spl-token-interface declares as
/// `TokenkegQfeZyiNwAJbNbGKPFXCWuBvf9Ss623VQ5DA`, and hands back its bytes.
#[verifier::external_body]
fn legacy_token_program_id() -> (r: Address)
    ensures
        r@ == legacy_token_program_address(),
{
    anchor_spl::token::ID.to_bytes()
}

/// Runs spl-token-2022's `StateWithExtensions::<Mint>::unpack` on the data
/// and `get_extension_types` on the result, turning each `ExtensionType` into
/// its `u16` code; `None` where either call fails. The contract claims only
/// that the result depends on the bytes alone.
#[verifier::external_body]
fn read_mint_extension_codes(data: &[u8]) -> (r: Option<Vec<u16>>)
    ensures
        match r {
            Some(codes) => mint_extension_codes(data@) == Some(codes@),
            None => mint_extension_codes(data@) is None,
        },
{
    let mint = StateWithExtensions::<MintState>::unpack(data).ok()?;
    let types = mint.get_extension_types().ok()?;
    Some(types.into_iter().map(u16::from).collect())
}

/// A mint as the pool sees it: its address, the program that owns it, and
/// its account data.
pub struct MintAccount {
    pub key: Address,
    pub owner: Address,
    pub data: Vec<u8>,
}

/// The answer for a list of extension codes: refused if any is unsupported.
pub open spec fn spec_check_extension_codes(codes: Seq<u16>) -> Result<(), AmmError> {
    if exists|i: int| 0 <= i < codes.len() && unsupported_extension(#[trigger] codes[i]) {
        Err(AmmError::UnsupportedMintExtension)
    } else {
        Ok(())
    }
}

/// Refuses a mint whose extensions include one the pool does not support.
pub fn check_extension_codes(codes: &Vec<u16>) -> (r: Result<(), AmmError>)
    ensures
        r == spec_check_extension_codes(codes@),
{
    let mut i: usize = 0;
    while i < codes.len()
        invariant
            0 <= i <= codes.len(),
            forall|j: int| 0 <= j < i ==> !unsupported_extension(#[trigger] codes@[j]),
        decreases codes.len() - i,
    {
        let code = codes[i];
        if code == EXT_TRANSFER_FEE_CONFIG || code == EXT_TRANSFER_HOOK || code
            == EXT_NON_TRANSFERABLE || code == EXT_DEFAULT_ACCOUNT_STATE || code
            == EXT_PERMANENT_DELEGATE || code == EXT_CONFIDENTIAL_TRANSFER_MINT || code
            == EXT_CONFIDENTIAL_TRANSFER_FEE_CONFIG {
            assert(unsupported_extension(codes@[i as int]));
            return Err(AmmError::UnsupportedMintExtension);
        }
        i = i + 1;
    }
    Ok(())
}

/// The answer for a mint: accepted if owned by the (pre-2022) SPL Token program, else
/// its data must parse and carry no unsupported extension.
pub open spec fn spec_supported_mint(owner: Address, data: Seq<u8>) -> Result<(), AmmError> {
    if owner@ == legacy_token_program_address() {
        Ok(())
    } else {
        match mint_extension_codes(data) {
            None => Err(AmmError::UnsupportedMintExtension),
            Some(codes) => spec_check_extension_codes(codes),
        }
    }
}

/// The pool created by `init`.
pub open spec fn initial_config(
    seed: u64,
    fee: u16,
    authority: Option<Address>,
    mint_a: Address,
    mint_b: Address,
    config_bump: u8,
) -> Config {
    Config {
        seed,
        authority,
        mint_a,
        mint_b,
        fee,
        locked: false,
        config_bump,
        reserve_a: 0,
        reserve_b: 0,
        total_liquidity: 0,
        fee_growth_a: 0,
        fee_growth_b: 0,
    }
}

/// The two mints of the new pool and the pool account to fill in.
pub struct Init {
    pub mint_a: MintAccount,
    pub mint_b: MintAccount,
    pub config: Config,
}

/// The bump seeds of the pool's address and of its liquidity mint.
pub struct InitBumps {
    pub config: u8,
    pub mint_lp: u8,
}

impl Init {
    /// Creates the pool. On an error the pool account is left unchanged.
    pub fn init(&mut self, seed: u64, fee: u16, authority: Option<Address>, bumps: &InitBumps) -> (r:
        Result<(), AmmError>)
        ensures
            final(self).mint_a == old(self).mint_a,
            final(self).mint_b == old(self).mint_b,
            if fee >= MAX_FEE_BPS {
                r == Err::<(), AmmError>(AmmError::InvalidFee) && final(self).config == old(
                    self,
                ).config
            } else if spec_supported_mint(old(self).mint_a.owner, old(self).mint_a.data@) is Err {
                r == spec_supported_mint(old(self).mint_a.owner, old(self).mint_a.data@)
                    && final(self).config == old(self).config
            } else if spec_supported_mint(old(self).mint_b.owner, old(self).mint_b.data@) is Err {
                r == spec_supported_mint(old(self).mint_b.owner, old(self).mint_b.data@)
                    && final(self).config == old(self).config
            } else {
                r is Ok && final(self).config == initial_config(
                    seed,
                    fee,
                    authority,
                    old(self).mint_a.key,
                    old(self).mint_b.key,
                    bumps.config,
                )
            },
    {
        if !(fee < MAX_FEE_BPS) {
            return Err(AmmError::InvalidFee);
        }
        Self::assert_supported_mint(&self.mint_a)?;
        Self::assert_supported_mint(&self.mint_b)?;
        self.config = Config {
            seed,
            authority,
            mint_a: self.mint_a.key,
            mint_b: self.mint_b.key,
            fee,
            locked: false,
            config_bump: bumps.config,
            reserve_a: 0,
            reserve_b: 0,
            total_liquidity: 0,
            fee_growth_a: 0,
            fee_growth_b: 0,
        };
        Ok(())
    }

    /// Refuses a mint that the pool cannot hold safely.
    pub fn assert_supported_mint(mint: &MintAccount) -> (r: Result<(), AmmError>)
        ensures
            r == spec_supported_mint(mint.owner, mint.data@),
    {
        let legacy_program = legacy_token_program_id();
        if same_address(&mint.owner, &legacy_program) {
            return Ok(());
        }
        match read_mint_extension_codes(mint.data.as_slice()) {
            None => Err(AmmError::UnsupportedMintExtension),
            Some(codes) => check_extension_codes(&codes),
        }
    }
}

} // verus!
