//! Pool scenarios: a small in-memory ledger holds the token accounts and the
//! pool accounts, runs each instruction of the library and performs the
//! transfers it asks for. A transaction that fails leaves the ledger as it
//! was.

use amm::error::AmmError;
use amm::instructions::admin::Admin;
use amm::instructions::collect_fees::CollectFees;
use amm::instructions::deposit::{Deposit, DepositBumps};
use amm::instructions::init::{Init, InitBumps, MintAccount};
use amm::instructions::swap::{Swap, SwapDirection};
use amm::instructions::withdraw::Withdraw;
use amm::instructions::{Flow, LpAction, TokenTransfer};
use amm::state::{check_mint_order, Address, Config, Position, Side};
use amm::instructions::init::{check_extension_codes, EXT_TRANSFER_FEE_CONFIG};
use amm::utils::cpmm::CurveError;
use anchor_spl::token_2022::spl_token_2022::extension::{
    mint_close_authority::MintCloseAuthority, transfer_fee::TransferFeeConfig,
    BaseStateWithExtensionsMut, ExtensionType, StateWithExtensionsMut,
};
use anchor_spl::token_2022::spl_token_2022::state::Mint as MintState;
use amm::instructions::init::{
    EXT_CONFIDENTIAL_TRANSFER_FEE_CONFIG, EXT_CONFIDENTIAL_TRANSFER_MINT,
    EXT_DEFAULT_ACCOUNT_STATE, EXT_NON_TRANSFERABLE, EXT_PERMANENT_DELEGATE, EXT_TRANSFER_HOOK,
};

const MINT_AMOUNT: u64 = 1_000_000_000;

#[derive(Debug, PartialEq)]
enum TxError {
    Amm(AmmError),
    InsufficientFunds,
    AccountNotFound,
}

fn key(tag: u8, n: u8) -> Address {
    let mut k = [0u8; 32];
    k[0] = tag;
    k[1] = n;
    k
}

struct User {
    key: Address,
    a: u64,
    b: u64,
    /// Balance of the user's liquidity-token account.
    lp: u64,
    position: Option<Position>,
}

struct Pool {
    initializer: Address,
    seed: u64,
    mint_a: Address,
    mint_b: Address,
    config_key: Address,
    config: Option<Config>,
    vault_a: u64,
    vault_b: u64,
    minted_a: u64,
    minted_b: u64,
    /// Supply of the pool's liquidity-token mint.
    lp_supply: u64,
    users: Vec<User>,
}

fn empty_config() -> Config {
    Config {
        seed: 0,
        authority: None,
        mint_a: [0; 32],
        mint_b: [0; 32],
        fee: 0,
        locked: false,
        config_bump: 0,
        reserve_a: 0,
        reserve_b: 0,
        total_liquidity: 0,
        fee_growth_a: 0,
        fee_growth_b: 0,
    }
}

fn empty_position() -> Position {
    Position {
        owner: [0; 32],
        config: [0; 32],
        liquidity: 0,
        fee_growth_snapshot_a: 0,
        fee_growth_snapshot_b: 0,
        fee_owed_a: 0,
        fee_owed_b: 0,
        bump: 0,
    }
}

fn token_program() -> Address {
    anchor_spl::token::ID.to_bytes()
}

impl Pool {
    fn new(seed: u64) -> Pool {
        Pool {
            initializer: key(9, 0),
            seed,
            mint_a: key(1, 0),
            mint_b: key(2, 0),
            config_key: key(3, 0),
            config: None,
            vault_a: 0,
            vault_b: 0,
            minted_a: 0,
            minted_b: 0,
            lp_supply: 0,
            users: Vec::new(),
        }
    }

    fn init(&mut self, fee: u16, authority: Option<Address>) -> Result<(), TxError> {
        let mut init = Init {
            mint_a: MintAccount { key: self.mint_a, owner: token_program(), data: Vec::new() },
            mint_b: MintAccount { key: self.mint_b, owner: token_program(), data: Vec::new() },
            config: empty_config(),
        };
        init.init(self.seed, fee, authority, &InitBumps { config: 254, mint_lp: 253 })
            .map_err(TxError::Amm)?;
        self.config = Some(init.config);
        Ok(())
    }

    fn config(&self) -> Config {
        self.config.unwrap()
    }

    fn new_user(&mut self, fund_a: u64, fund_b: u64) -> usize {
        let n = self.users.len() as u8;
        self.users.push(User { key: key(7, n), a: fund_a, b: fund_b, lp: 0, position: None });
        self.minted_a += fund_a;
        self.minted_b += fund_b;
        self.users.len() - 1
    }

    /// Performs the liquidity-token action and then the transfers, all or nothing.
    fn apply_with_lp(
        &mut self,
        user: usize,
        lp: LpAction,
        transfers: &[TokenTransfer],
    ) -> Result<(), TxError> {
        let (supply, balance) = match lp {
            LpAction::MintTo { amount } => (self.lp_supply + amount, self.users[user].lp + amount),
            LpAction::BurnFrom { amount } => {
                if self.users[user].lp < amount {
                    return Err(TxError::InsufficientFunds);
                }
                (self.lp_supply - amount, self.users[user].lp - amount)
            }
        };
        self.apply(user, transfers)?;
        self.lp_supply = supply;
        self.users[user].lp = balance;
        Ok(())
    }

    fn apply(&mut self, user: usize, transfers: &[TokenTransfer]) -> Result<(), TxError> {
        let mut u_a = self.users[user].a;
        let mut u_b = self.users[user].b;
        let mut v_a = self.vault_a;
        let mut v_b = self.vault_b;
        for t in transfers {
            let (from, to) = match (t.side, t.flow) {
                (Side::A, Flow::ToVault) => (&mut u_a, &mut v_a),
                (Side::B, Flow::ToVault) => (&mut u_b, &mut v_b),
                (Side::A, Flow::FromVault) => (&mut v_a, &mut u_a),
                (Side::B, Flow::FromVault) => (&mut v_b, &mut u_b),
            };
            if *from < t.amount {
                return Err(TxError::InsufficientFunds);
            }
            *from -= t.amount;
            *to += t.amount;
        }
        self.users[user].a = u_a;
        self.users[user].b = u_b;
        self.vault_a = v_a;
        self.vault_b = v_b;
        Ok(())
    }

    fn deposit(&mut self, user: usize, amount: u64, max_a: u64, max_b: u64) -> Result<(), TxError> {
        let mut d = Deposit {
            user: self.users[user].key,
            config_key: self.config_key,
            config: self.config(),
            position: self.users[user].position.unwrap_or(empty_position()),
        };
        let actions = d.deposit(amount, max_a, max_b, &DepositBumps { position: 252 })
            .map_err(TxError::Amm)?;
        self.apply_with_lp(user, actions.lp, &actions.transfers)?;
        self.config = Some(d.config);
        self.users[user].position = Some(d.position);
        Ok(())
    }

    fn withdraw(&mut self, user: usize, amount: u64, min_a: u64, min_b: u64) -> Result<(), TxError> {
        let position = self.users[user].position.ok_or(TxError::AccountNotFound)?;
        let mut w = Withdraw { user: self.users[user].key, config: self.config(), position };
        let actions = w.withdraw(amount, min_a, min_b).map_err(TxError::Amm)?;
        self.apply_with_lp(user, actions.lp, &actions.transfers)?;
        self.config = Some(w.config);
        self.users[user].position = Some(w.position);
        Ok(())
    }

    fn swap(&mut self, user: usize, direction: SwapDirection, amount: u64, min: u64) -> Result<(), TxError> {
        let mut s = Swap { config: self.config() };
        let transfers = s.swap(direction, amount, min).map_err(TxError::Amm)?;
        self.apply(user, &transfers)?;
        self.config = Some(s.config);
        Ok(())
    }

    /// `user` claims the fees of the position belonging to `holder`.
    fn collect_fees_of(&mut self, user: usize, holder: usize) -> Result<(), TxError> {
        let position = self.users[holder].position.ok_or(TxError::AccountNotFound)?;
        let mut c = CollectFees { user: self.users[user].key, config: self.config(), position };
        let transfers = c.collect_fees().map_err(TxError::Amm)?;
        self.apply(user, &transfers)?;
        self.users[holder].position = Some(c.position);
        Ok(())
    }

    fn collect_fees(&mut self, user: usize) -> Result<(), TxError> {
        self.collect_fees_of(user, user)
    }

    fn set_locked(&mut self, signer: Address, locked: bool) -> Result<(), TxError> {
        let mut admin = Admin { authority: signer, config: self.config() };
        admin.set_locked(locked).map_err(TxError::Amm)?;
        self.config = Some(admin.config);
        Ok(())
    }

    fn set_fee(&mut self, signer: Address, fee: u16) -> Result<(), TxError> {
        let mut admin = Admin { authority: signer, config: self.config() };
        admin.set_fee(fee).map_err(TxError::Amm)?;
        self.config = Some(admin.config);
        Ok(())
    }

    fn set_authority(&mut self, signer: Address, authority: Option<Address>) -> Result<(), TxError> {
        let mut admin = Admin { authority: signer, config: self.config() };
        admin.set_authority(authority).map_err(TxError::Amm)?;
        self.config = Some(admin.config);
        Ok(())
    }

    fn k(&self) -> u128 {
        self.vault_a as u128 * self.vault_b as u128
    }

    fn k_checked(&self) -> Option<u128> {
        (self.vault_a as u128).checked_mul(self.vault_b as u128)
    }

    /// Supply of the liquidity-token mint.
    fn lp_supply(&self) -> u64 {
        self.lp_supply
    }

    /// Balance of a user's liquidity-token account.
    fn lp_balance(&self, user: usize) -> u64 {
        self.users[user].lp
    }

    fn assert_token_conservation(&self, users: &[usize]) {
        let users_a: u64 = users.iter().map(|&u| self.users[u].a).sum();
        let users_b: u64 = users.iter().map(|&u| self.users[u].b).sum();
        assert_eq!(users_a + self.vault_a, self.minted_a, "token A was created or destroyed");
        assert_eq!(users_b + self.vault_b, self.minted_b, "token B was created or destroyed");
    }
}

fn fresh_pool(fee: u16) -> Pool {
    let mut pool = Pool::new(42);
    let initializer = pool.initializer;
    pool.init(fee, Some(initializer)).unwrap();
    pool
}

fn assert_error(result: Result<(), TxError>, expected: AmmError) {
    assert_eq!(result, Err(TxError::Amm(expected)));
}

fn deposit_with_cap(pool: &mut Pool, lp: usize, amount: u64) {
    let total = pool.config().total_liquidity;
    let cap = if total == 0 { amount } else { amount.saturating_mul(4) };
    pool.deposit(lp, amount, cap, cap).unwrap();
}

fn trade(pool: &mut Pool, t: usize, dir: SwapDirection, amt: u64) {
    pool.swap(t, dir, amt, 1).unwrap();
}

// ---------------------------------------------------------------------------
// Admin
// ---------------------------------------------------------------------------

fn lock_blocks_ops_and_unlock_restores_scenario() {
    let mut amm = fresh_pool(300);
    let lp = amm.new_user(MINT_AMOUNT, MINT_AMOUNT);

    let l = 300_000_000u64;
    amm.deposit(lp, l, l, l).unwrap();

    let init = amm.initializer;
    amm.set_locked(init, true).unwrap();
    assert!(amm.config().locked);

    assert_error(amm.deposit(lp, 1, 1, 1), AmmError::PoolLocked);
    assert_error(amm.swap(lp, SwapDirection::AtoB, 1_000, 1), AmmError::PoolLocked);
    assert_error(amm.withdraw(lp, 1, 0, 0), AmmError::PoolLocked);

    amm.set_locked(init, false).unwrap();
    assert!(!amm.config().locked);

    amm.swap(lp, SwapDirection::AtoB, 1_000, 1).unwrap();
}

#[test]
fn admin_tests_lock_blocks_ops_and_unlock_restores() {
    lock_blocks_ops_and_unlock_restores_scenario();
}

#[test]
fn tests_lock_blocks_ops_and_unlock_restores() {
    lock_blocks_ops_and_unlock_restores_scenario();
}

fn set_locked_rejects_non_authority_scenario() {
    let mut amm = fresh_pool(300);
    let attacker = key(66, 0);
    assert_error(amm.set_locked(attacker, true), AmmError::Unauthorized);
    assert!(!amm.config().locked);
}

#[test]
fn admin_tests_set_locked_rejects_non_authority() {
    set_locked_rejects_non_authority_scenario();
}

#[test]
fn tests_set_locked_rejects_non_authority() {
    set_locked_rejects_non_authority_scenario();
}

fn set_locked_on_authorityless_pool_fails_scenario() {
    let mut amm = Pool::new(42);
    amm.init(300, None).unwrap();
    let init = amm.initializer;
    assert_error(amm.set_locked(init, true), AmmError::NoAuthority);
}

#[test]
fn admin_tests_set_locked_on_authorityless_pool_fails() {
    set_locked_on_authorityless_pool_fails_scenario();
}

#[test]
fn tests_set_locked_on_authorityless_pool_fails() {
    set_locked_on_authorityless_pool_fails_scenario();
}

#[test]
fn set_fee_updates_fee() {
    let mut amm = fresh_pool(300);
    assert_eq!(amm.config().fee, 300);

    let init = amm.initializer;
    amm.set_fee(init, 50).unwrap();
    assert_eq!(amm.config().fee, 50);
}

#[test]
fn set_fee_rejects_non_authority() {
    let mut amm = fresh_pool(300);
    let attacker = key(66, 0);
    assert_error(amm.set_fee(attacker, 100), AmmError::Unauthorized);
    assert_eq!(amm.config().fee, 300);
}

#[test]
fn set_fee_rejects_at_or_above_max() {
    let mut amm = fresh_pool(300);
    let init = amm.initializer;
    assert_error(amm.set_fee(init, 10_000), AmmError::InvalidFee);
    assert_eq!(amm.config().fee, 300);
}

#[test]
fn set_fee_rejects_authorityless_pool() {
    let mut amm = Pool::new(42);
    amm.init(300, None).unwrap();
    let init = amm.initializer;
    assert_error(amm.set_fee(init, 100), AmmError::NoAuthority);
}

#[test]
fn set_fee_applies_to_next_swap() {
    let mut amm = fresh_pool(300);
    let lp = amm.new_user(MINT_AMOUNT, MINT_AMOUNT);
    let trader = amm.new_user(MINT_AMOUNT, MINT_AMOUNT);

    let l = 500_000_000u64;
    amm.deposit(lp, l, l, l).unwrap();

    let amount_in = 10_000_000u64;
    amm.swap(trader, SwapDirection::AtoB, amount_in, 1).unwrap();
    let growth_low = amm.config().fee_growth_a;

    let init = amm.initializer;
    amm.set_fee(init, 900).unwrap();
    assert_eq!(amm.config().fee, 900);

    amm.swap(trader, SwapDirection::AtoB, amount_in, 1).unwrap();
    // The second swap charged 900 basis points: 900_000 of the 10_000_000 in.
    let delta_high = amm.config().fee_growth_a - growth_low;
    assert_eq!(delta_high, (900_000u128 << 64) / l as u128);
}

#[test]
fn set_authority_transfers_to_new_keypair() {
    let mut amm = fresh_pool(300);
    let new_authority = key(77, 0);
    let init = amm.initializer;

    amm.set_authority(init, Some(new_authority)).unwrap();
    assert_eq!(amm.config().authority, Some(new_authority));

    amm.set_fee(new_authority, 50).unwrap();
    assert_eq!(amm.config().fee, 50);

    assert_error(amm.set_locked(init, true), AmmError::Unauthorized);
}

#[test]
fn set_authority_rejects_non_authority() {
    let mut amm = fresh_pool(300);
    let attacker = key(66, 0);
    assert_error(amm.set_authority(attacker, Some(attacker)), AmmError::Unauthorized);
    assert_eq!(amm.config().authority, Some(amm.initializer));
}

#[test]
fn set_authority_renounces_when_none() {
    let mut amm = fresh_pool(300);
    let init = amm.initializer;

    amm.set_authority(init, None).unwrap();
    assert_eq!(amm.config().authority, None);

    assert_error(amm.set_fee(init, 50), AmmError::NoAuthority);
    assert_error(amm.set_locked(init, true), AmmError::NoAuthority);
}

#[test]
fn set_authority_rejects_authorityless_pool() {
    let mut amm = Pool::new(42);
    amm.init(300, None).unwrap();
    let init = amm.initializer;
    assert_error(amm.set_authority(init, Some(init)), AmmError::NoAuthority);
}

// ---------------------------------------------------------------------------
// Fee collection
// ---------------------------------------------------------------------------

#[test]
fn collect_fees_after_swap_pays_lp_fees() {
    let mut amm = fresh_pool(300);
    let lp = amm.new_user(MINT_AMOUNT, MINT_AMOUNT);
    let trader = amm.new_user(100_000_000, 100_000_000);

    let l = 300_000_000u64;
    deposit_with_cap(&mut amm, lp, l);

    trade(&mut amm, trader, SwapDirection::AtoB, 10_000_000);
    trade(&mut amm, trader, SwapDirection::BtoA, 10_000_000);

    let a_before = amm.users[lp].a;
    let b_before = amm.users[lp].b;

    amm.collect_fees(lp).unwrap();

    let a_after = amm.users[lp].a;
    let b_after = amm.users[lp].b;

    assert!(a_after > a_before, "LP should receive token A fees");
    assert!(b_after > b_before, "LP should receive token B fees");

    let pos = amm.users[lp].position.unwrap();
    assert_eq!(pos.fee_owed_a, 0, "owed should be zeroed after claim");
    assert_eq!(pos.fee_owed_b, 0);
    assert_eq!(pos.liquidity, l, "principal liquidity must not change on collect_fees");
}

#[test]
fn collect_fees_with_nothing_owed_fails() {
    let mut amm = fresh_pool(300);
    let lp = amm.new_user(MINT_AMOUNT, MINT_AMOUNT);

    let l = 200_000_000u64;
    deposit_with_cap(&mut amm, lp, l);

    assert_error(amm.collect_fees(lp), AmmError::InvalidAmount);
}

#[test]
fn late_lp_does_not_inherit_prior_fees() {
    let mut amm = fresh_pool(300);
    let early = amm.new_user(MINT_AMOUNT, MINT_AMOUNT);
    let late = amm.new_user(MINT_AMOUNT, MINT_AMOUNT);
    let trader = amm.new_user(200_000_000, 200_000_000);

    let l = 300_000_000u64;
    deposit_with_cap(&mut amm, early, l);

    for _ in 0..4 {
        trade(&mut amm, trader, SwapDirection::AtoB, 8_000_000);
        trade(&mut amm, trader, SwapDirection::BtoA, 8_000_000);
    }

    let fg_a_at_join = amm.config().fee_growth_a;
    let fg_b_at_join = amm.config().fee_growth_b;
    assert!(fg_a_at_join > 0 && fg_b_at_join > 0);

    deposit_with_cap(&mut amm, late, l);

    let pos = amm.users[late].position.unwrap();
    assert_eq!(pos.fee_growth_snapshot_a, fg_a_at_join);
    assert_eq!(pos.fee_growth_snapshot_b, fg_b_at_join);

    assert_error(amm.collect_fees(late), AmmError::InvalidAmount);
}

#[test]
fn late_lp_earns_only_from_post_join_swaps() {
    let mut amm = fresh_pool(300);
    let early = amm.new_user(MINT_AMOUNT, MINT_AMOUNT);
    let late = amm.new_user(MINT_AMOUNT, MINT_AMOUNT);
    let trader = amm.new_user(400_000_000, 400_000_000);

    let l = 300_000_000u64;
    deposit_with_cap(&mut amm, early, l);

    for _ in 0..4 {
        trade(&mut amm, trader, SwapDirection::AtoB, 8_000_000);
        trade(&mut amm, trader, SwapDirection::BtoA, 8_000_000);
    }

    deposit_with_cap(&mut amm, late, l);

    let early_a_before = amm.users[early].a;
    let early_b_before = amm.users[early].b;
    let late_a_before = amm.users[late].a;
    let late_b_before = amm.users[late].b;

    for _ in 0..4 {
        trade(&mut amm, trader, SwapDirection::AtoB, 8_000_000);
        trade(&mut amm, trader, SwapDirection::BtoA, 8_000_000);
    }

    amm.collect_fees(early).unwrap();
    amm.collect_fees(late).unwrap();

    let early_gain_a = amm.users[early].a.checked_sub(early_a_before).unwrap();
    let late_gain_a = amm.users[late].a.checked_sub(late_a_before).unwrap();
    let early_gain_b = amm.users[early].b.checked_sub(early_b_before).unwrap();
    let late_gain_b = amm.users[late].b.checked_sub(late_b_before).unwrap();

    assert!(late_gain_a > 0 && late_gain_b > 0);
    assert!(
        early_gain_a > late_gain_a,
        "early LP must outearn late LP on A (early earned from all swaps): early={early_gain_a} late={late_gain_a}"
    );
    assert!(
        early_gain_b > late_gain_b,
        "early LP must outearn late LP on B: early={early_gain_b} late={late_gain_b}"
    );
}

#[test]
fn fee_change_only_affects_post_change_growth() {
    let mut amm = fresh_pool(300);
    let lp = amm.new_user(MINT_AMOUNT, MINT_AMOUNT);
    let trader = amm.new_user(300_000_000, 0);

    let l = 300_000_000u64;
    deposit_with_cap(&mut amm, lp, l);

    trade(&mut amm, trader, SwapDirection::AtoB, 10_000_000);
    let fg_low = amm.config().fee_growth_a;

    let init = amm.initializer;
    amm.set_fee(init, 900).unwrap();

    trade(&mut amm, trader, SwapDirection::AtoB, 10_000_000);
    let fg_after_high = amm.config().fee_growth_a;

    let delta_low = fg_low;
    let delta_high = fg_after_high.checked_sub(fg_low).unwrap();
    assert!(
        delta_high > delta_low * 2,
        "raising fee 3x->9x should noticeably increase per-swap accumulator: delta_low={delta_low} delta_high={delta_high}"
    );
}

#[test]
fn withdraw_auto_claims_pending_fees() {
    let mut amm = fresh_pool(300);
    let lp = amm.new_user(MINT_AMOUNT, MINT_AMOUNT);
    let trader = amm.new_user(100_000_000, 100_000_000);

    let l = 200_000_000u64;
    deposit_with_cap(&mut amm, lp, l);

    for _ in 0..3 {
        trade(&mut amm, trader, SwapDirection::AtoB, 6_000_000);
        trade(&mut amm, trader, SwapDirection::BtoA, 6_000_000);
    }

    let a_before = amm.users[lp].a;
    let b_before = amm.users[lp].b;

    amm.withdraw(lp, l, 0, 0).unwrap();

    let a_gained = amm.users[lp].a.checked_sub(a_before).unwrap();
    let b_gained = amm.users[lp].b.checked_sub(b_before).unwrap();

    assert!(a_gained > l, "got principal + fee for A");
    assert!(b_gained > l, "got principal + fee for B");

    let pos = amm.users[lp].position.unwrap();
    assert_eq!(pos.fee_owed_a, 0);
    assert_eq!(pos.fee_owed_b, 0);
    assert_eq!(pos.liquidity, 0);
}

#[test]
fn second_deposit_settles_before_changing_liquidity() {
    let mut amm = fresh_pool(300);
    let lp = amm.new_user(MINT_AMOUNT, MINT_AMOUNT);
    let trader = amm.new_user(200_000_000, 200_000_000);

    let l0 = 100_000_000u64;
    deposit_with_cap(&mut amm, lp, l0);

    for _ in 0..3 {
        trade(&mut amm, trader, SwapDirection::AtoB, 5_000_000);
        trade(&mut amm, trader, SwapDirection::BtoA, 5_000_000);
    }

    let fg_before = amm.config();

    deposit_with_cap(&mut amm, lp, 50_000_000);

    let pos = amm.users[lp].position.unwrap();
    assert_eq!(pos.fee_growth_snapshot_a, fg_before.fee_growth_a);
    assert_eq!(pos.fee_growth_snapshot_b, fg_before.fee_growth_b);
    assert!(pos.fee_owed_a > 0, "pending A fees must be crystallized before liquidity grows");
    assert!(pos.fee_owed_b > 0);
}

#[test]
fn collect_fees_rejected_when_locked() {
    let mut amm = fresh_pool(300);
    let lp = amm.new_user(MINT_AMOUNT, MINT_AMOUNT);
    let trader = amm.new_user(100_000_000, 100_000_000);

    let l = 200_000_000u64;
    deposit_with_cap(&mut amm, lp, l);

    trade(&mut amm, trader, SwapDirection::AtoB, 5_000_000);

    let init = amm.initializer;
    amm.set_locked(init, true).unwrap();

    assert_error(amm.collect_fees(lp), AmmError::PoolLocked);
}

#[test]
fn collect_fees_rejects_non_owner() {
    let mut amm = fresh_pool(300);
    let lp = amm.new_user(MINT_AMOUNT, MINT_AMOUNT);
    let attacker = amm.new_user(MINT_AMOUNT, MINT_AMOUNT);
    let trader = amm.new_user(100_000_000, 100_000_000);

    let l = 200_000_000u64;
    deposit_with_cap(&mut amm, lp, l);

    trade(&mut amm, trader, SwapDirection::AtoB, 5_000_000);

    let result = amm.collect_fees_of(attacker, lp);
    assert!(result.is_err(), "non-owner collect must fail");
    assert_eq!(result, Err(TxError::Amm(AmmError::Unauthorized)));
}

// ---------------------------------------------------------------------------
// Deposits
// ---------------------------------------------------------------------------

fn first_deposit_sets_reserves_and_mints_lp_scenario() {
    let mut amm = fresh_pool(300);
    let lp = amm.new_user(MINT_AMOUNT, MINT_AMOUNT);

    let l = 300_000_000u64;
    amm.deposit(lp, l, l, l).unwrap();

    assert_eq!(amm.vault_a, l);
    assert_eq!(amm.vault_b, l);
    assert_eq!(amm.lp_supply(), l);
    assert_eq!(amm.lp_balance(lp), l);
    assert_eq!(amm.users[lp].a, MINT_AMOUNT - l);
    assert_eq!(amm.users[lp].b, MINT_AMOUNT - l);
    amm.assert_token_conservation(&[lp]);
}

#[test]
fn deposit_tests_first_deposit_sets_reserves_and_mints_lp() {
    first_deposit_sets_reserves_and_mints_lp_scenario();
}

#[test]
fn tests_first_deposit_sets_reserves_and_mints_lp() {
    first_deposit_sets_reserves_and_mints_lp_scenario();
}

fn deposit_rejects_zero_amount_scenario() {
    let mut amm = fresh_pool(300);
    let lp = amm.new_user(MINT_AMOUNT, MINT_AMOUNT);
    assert_error(amm.deposit(lp, 0, 1, 1), AmmError::InvalidAmount);
}

#[test]
fn deposit_tests_deposit_rejects_zero_amount() {
    deposit_rejects_zero_amount_scenario();
}

#[test]
fn tests_deposit_rejects_zero_amount() {
    deposit_rejects_zero_amount_scenario();
}

fn second_deposit_is_proportional_scenario() {
    let mut amm = fresh_pool(300);
    let lp1 = amm.new_user(MINT_AMOUNT, MINT_AMOUNT);
    let lp2 = amm.new_user(MINT_AMOUNT, MINT_AMOUNT);

    let l0 = 300_000_000u64;
    amm.deposit(lp1, l0, l0, l0).unwrap();

    let l1 = 100_000_000u64;
    let l1_twice = l1.checked_mul(2).expect("l1 * 2 overflow");
    amm.deposit(lp2, l1, l1_twice, l1_twice).unwrap();

    assert_eq!(amm.lp_supply(), l0 + l1);
    assert_eq!(amm.lp_balance(lp2), l1);

    let pulled_a = MINT_AMOUNT.checked_sub(amm.users[lp2].a).expect("pulled_a underflow");
    let pulled_b = MINT_AMOUNT.checked_sub(amm.users[lp2].b).expect("pulled_b underflow");

    assert!(pulled_a > 0 && pulled_a <= l1_twice);
    assert!(pulled_b > 0 && pulled_b <= l1_twice);
    amm.assert_token_conservation(&[lp1, lp2]);
}

#[test]
fn deposit_tests_second_deposit_is_proportional() {
    second_deposit_is_proportional_scenario();
}

#[test]
fn tests_second_deposit_is_proportional() {
    second_deposit_is_proportional_scenario();
}

fn deposit_respects_max_slippage_scenario() {
    let mut amm = fresh_pool(300);
    let lp1 = amm.new_user(MINT_AMOUNT, MINT_AMOUNT);
    let lp2 = amm.new_user(MINT_AMOUNT, MINT_AMOUNT);

    let l0 = 300_000_000u64;
    amm.deposit(lp1, l0, l0, l0).unwrap();

    assert_error(amm.deposit(lp2, 100_000_000, 1, 1), AmmError::SlippageExceeded);
}

#[test]
fn deposit_tests_deposit_respects_max_slippage() {
    deposit_respects_max_slippage_scenario();
}

#[test]
fn tests_deposit_respects_max_slippage() {
    deposit_respects_max_slippage_scenario();
}

#[test]
fn first_deposit_needs_both_amounts() {
    let mut amm = fresh_pool(300);
    let lp = amm.new_user(MINT_AMOUNT, MINT_AMOUNT);
    assert_error(amm.deposit(lp, 10, 0, 10), AmmError::InvalidAmount);
    assert_error(amm.deposit(lp, 10, 10, 0), AmmError::InvalidAmount);
    assert_eq!(amm.lp_supply(), 0);
}

#[test]
fn deposit_into_foreign_position_is_unauthorized() {
    let mut amm = fresh_pool(300);
    let lp = amm.new_user(MINT_AMOUNT, MINT_AMOUNT);
    let other = amm.new_user(MINT_AMOUNT, MINT_AMOUNT);
    amm.deposit(lp, 100, 100, 100).unwrap();
    let mut d = Deposit {
        user: amm.users[other].key,
        config_key: amm.config_key,
        config: amm.config(),
        position: amm.users[lp].position.unwrap(),
    };
    let result = d.deposit(10, 100, 100, &DepositBumps { position: 1 });
    assert_eq!(result.unwrap_err(), AmmError::Unauthorized);
}

#[test]
fn first_deposit_opens_position_for_depositor() {
    let mut amm = fresh_pool(300);
    let lp = amm.new_user(MINT_AMOUNT, MINT_AMOUNT);
    amm.deposit(lp, 50, 70, 90).unwrap();
    let pos = amm.users[lp].position.unwrap();
    assert_eq!(pos.owner, amm.users[lp].key);
    assert_eq!(pos.config, amm.config_key);
    assert_eq!(pos.bump, 252);
    let cfg = amm.config();
    assert_eq!((cfg.reserve_a, cfg.reserve_b, cfg.total_liquidity), (70, 90, 50));
}

// ---------------------------------------------------------------------------
// Initialization
// ---------------------------------------------------------------------------

fn init_succeeds_and_sets_config_scenario() {
    let amm = fresh_pool(300);

    let cfg = amm.config();
    assert_eq!(cfg.seed, amm.seed);
    assert_eq!(cfg.fee, 300);
    assert_eq!(cfg.mint_a, amm.mint_a);
    assert_eq!(cfg.mint_b, amm.mint_b);
    assert_eq!(cfg.authority, Some(amm.initializer));
    assert!(!cfg.locked);
    assert_eq!(amm.lp_supply(), 0);
    assert_eq!(amm.vault_a, 0);
    assert_eq!(amm.vault_b, 0);
}

#[test]
fn init_tests_init_succeeds_and_sets_config() {
    init_succeeds_and_sets_config_scenario();
}

#[test]
fn tests_init_succeeds_and_sets_config() {
    init_succeeds_and_sets_config_scenario();
}

fn init_rejects_fee_at_or_above_max_scenario() {
    let mut amm = Pool::new(42);
    let init = amm.initializer;
    assert_error(amm.init(10_000, Some(init)), AmmError::InvalidFee);
    assert!(amm.config.is_none());
}

#[test]
fn init_tests_init_rejects_fee_at_or_above_max() {
    init_rejects_fee_at_or_above_max_scenario();
}

#[test]
fn tests_init_rejects_fee_at_or_above_max() {
    init_rejects_fee_at_or_above_max_scenario();
}

fn init_accepts_zero_fee_scenario() {
    let mut amm = Pool::new(42);
    let init = amm.initializer;
    let result = amm.init(0, Some(init));
    assert!(result.is_ok());
    assert_eq!(amm.config().fee, 0);
}

#[test]
fn init_tests_init_accepts_zero_fee() {
    init_accepts_zero_fee_scenario();
}

#[test]
fn tests_init_accepts_zero_fee() {
    init_accepts_zero_fee_scenario();
}

// ---------------------------------------------------------------------------
// Trading
// ---------------------------------------------------------------------------

fn multi_user_trading_conserves_tokens_scenario() {
    let mut amm = fresh_pool(300);

    let lp1 = amm.new_user(MINT_AMOUNT, MINT_AMOUNT);
    let lp2 = amm.new_user(MINT_AMOUNT, MINT_AMOUNT);
    let alice = amm.new_user(200_000_000, 200_000_000);
    let bob = amm.new_user(200_000_000, 200_000_000);

    let l0 = 400_000_000u64;
    amm.deposit(lp1, l0, l0, l0).unwrap();

    let l1 = 150_000_000u64;
    let two_l1 = l1.checked_mul(2).expect("l1 * 2 overflow");
    amm.deposit(lp2, l1, two_l1, two_l1).unwrap();
    assert_eq!(amm.lp_supply(), l0 + l1);

    let trades = [
        (alice, SwapDirection::AtoB, 12_000_000u64),
        (bob, SwapDirection::BtoA, 8_000_000),
        (alice, SwapDirection::BtoA, 5_000_000),
        (bob, SwapDirection::AtoB, 17_000_000),
        (alice, SwapDirection::AtoB, 3_000_000),
        (bob, SwapDirection::BtoA, 9_000_000),
    ];
    let all = [lp1, lp2, alice, bob];
    for (trader, dir, amt) in trades {
        amm.swap(trader, dir, amt, 1).unwrap();
        amm.assert_token_conservation(&all);
    }

    let lp1_bal = amm.lp_balance(lp1);
    let lp2_bal = amm.lp_balance(lp2);

    amm.withdraw(lp1, lp1_bal, 0, 0).unwrap();
    amm.withdraw(lp2, lp2_bal, 0, 0).unwrap();

    assert_eq!(amm.lp_supply(), 0);
    amm.assert_token_conservation(&all);
}

#[test]
fn integration_tests_multi_user_trading_conserves_tokens() {
    multi_user_trading_conserves_tokens_scenario();
}

#[test]
fn tests_multi_user_trading_conserves_tokens() {
    multi_user_trading_conserves_tokens_scenario();
}

fn multi_trader_atob_flow_earns_lp_fees_scenario() {
    let mut amm = fresh_pool(300);

    let lp1 = amm.new_user(MINT_AMOUNT, MINT_AMOUNT);
    let lp2 = amm.new_user(MINT_AMOUNT, MINT_AMOUNT);
    let alice = amm.new_user(300_000_000, 0);
    let bob = amm.new_user(300_000_000, 0);

    let l0 = 400_000_000u64;
    amm.deposit(lp1, l0, l0, l0).unwrap();

    let l1 = 150_000_000u64;
    let l1_x2 = l1.checked_mul(2).expect("l1 * 2 overflow");
    amm.deposit(lp2, l1, l1_x2, l1_x2).unwrap();

    let trades = [
        (alice, 12_000_000u64),
        (bob, 17_000_000),
        (alice, 3_000_000),
        (bob, 9_000_000),
        (alice, 21_000_000),
    ];
    let mut k = amm.k();
    for (trader, amt) in trades {
        amm.swap(trader, SwapDirection::AtoB, amt, 1).unwrap();
        let k_new = amm.k();
        assert!(k_new >= k, "k should never decrease: before={k} after={k_new}");
        k = k_new;
    }

    let all = [lp1, lp2, alice, bob];
    amm.assert_token_conservation(&all);

    let lp1_bal = amm.lp_balance(lp1);
    let lp2_bal = amm.lp_balance(lp2);

    amm.withdraw(lp1, lp1_bal, 0, 0).unwrap();
    amm.withdraw(lp2, lp2_bal, 0, 0).unwrap();

    assert_eq!(amm.lp_supply(), 0);
    amm.assert_token_conservation(&all);

    let lp_total_now: u128 = amm.users[lp1].a as u128
        + amm.users[lp1].b as u128
        + amm.users[lp2].a as u128
        + amm.users[lp2].b as u128;
    let lp_principal = 4u128 * MINT_AMOUNT as u128;
    assert!(
        lp_total_now > lp_principal,
        "LPs should have earned fees: now={lp_total_now}, principal={}",
        lp_principal
    );

    let trader_total_now: u128 = amm.users[alice].a as u128
        + amm.users[alice].b as u128
        + amm.users[bob].a as u128
        + amm.users[bob].b as u128;
    let trader_principal = 600_000_000u128;
    assert!(
        trader_total_now < trader_principal,
        "traders should have paid fees: now={trader_total_now}, principal={}",
        trader_principal
    );
}

#[test]
fn integration_tests_multi_trader_atob_flow_earns_lp_fees() {
    multi_trader_atob_flow_earns_lp_fees_scenario();
}

#[test]
fn tests_multi_trader_atob_flow_earns_lp_fees() {
    multi_trader_atob_flow_earns_lp_fees_scenario();
}

#[test]
fn swap_a_to_b_preserves_reserve_k_and_accrues_fee_growth() {
    let mut amm = fresh_pool(300);
    let lp = amm.new_user(MINT_AMOUNT, MINT_AMOUNT);
    let trader = amm.new_user(100_000_000, 0);

    let l = 300_000_000u64;
    amm.deposit(lp, l, l, l).unwrap();

    let k_before = amm.k_checked().unwrap();
    let amount_in = 10_000_000u64;
    amm.swap(trader, SwapDirection::AtoB, amount_in, 1).unwrap();

    assert_eq!(amm.users[trader].a, 100_000_000 - amount_in);
    let got_b = amm.users[trader].b;
    assert!(got_b > 0, "trader should receive token B");

    let cfg = amm.config();
    assert!(amm.k_checked().unwrap() >= k_before, "reserve k must never decrease");
    assert!(cfg.fee_growth_a > 0, "fee_growth_a should advance on an AtoB swap");
    assert_eq!(cfg.fee_growth_b, 0, "no fee_growth_b on AtoB direction");

    assert_eq!(amm.vault_a, l + amount_in);
    assert_eq!(amm.vault_b, l - got_b);
    assert_eq!(
        amm.vault_a - cfg.reserve_a,
        amount_in - (cfg.reserve_a - l),
        "vault A excess over reserve equals the swap fee (token A)"
    );
    amm.assert_token_conservation(&[lp, trader]);
}

#[test]
fn swap_b_to_a_advances_fee_growth_b_only() {
    let mut amm = fresh_pool(300);
    let lp = amm.new_user(MINT_AMOUNT, MINT_AMOUNT);
    let trader = amm.new_user(0, 100_000_000);

    let l = 300_000_000u64;
    amm.deposit(lp, l, l, l).unwrap();

    let amount_in = 10_000_000u64;
    amm.swap(trader, SwapDirection::BtoA, amount_in, 1).unwrap();

    let cfg = amm.config();
    assert!(cfg.fee_growth_b > 0);
    assert_eq!(cfg.fee_growth_a, 0);

    assert!(amm.users[trader].a > 0, "should receive A");
    assert_eq!(amm.users[trader].b, 90_000_000);
    amm.assert_token_conservation(&[lp, trader]);
}

#[test]
fn swap_a_to_b_grows_invariant() {
    let mut amm = fresh_pool(300);
    let lp = amm.new_user(MINT_AMOUNT, MINT_AMOUNT);
    let trader = amm.new_user(100_000_000, 0);

    let l = 300_000_000u64;
    amm.deposit(lp, l, l, l).unwrap();

    let k_before = amm.k();
    let amount_in = 10_000_000u64;
    amm.swap(trader, SwapDirection::AtoB, amount_in, 1).unwrap();

    assert_eq!(amm.users[trader].a, 100_000_000 - amount_in);
    let got_b = amm.users[trader].b;
    assert!(got_b > 0, "trader should receive token B");
    assert_eq!(amm.vault_a, l + amount_in);
    assert_eq!(amm.vault_b, l - got_b);

    assert!(amm.k() > k_before, "constant product must grow as fees accrue");
    amm.assert_token_conservation(&[lp, trader]);
}

#[test]
fn swap_b_to_a_direction_works() {
    let mut amm = fresh_pool(300);
    let lp = amm.new_user(MINT_AMOUNT, MINT_AMOUNT);
    let trader = amm.new_user(0, 100_000_000);

    let l = 300_000_000u64;
    amm.deposit(lp, l, l, l).unwrap();

    let amount_in = 10_000_000u64;
    amm.swap(trader, SwapDirection::BtoA, amount_in, 1).unwrap();

    assert!(amm.users[trader].a > 0, "should receive A");
    assert_eq!(amm.users[trader].b, 90_000_000);
    amm.assert_token_conservation(&[lp, trader]);
}

fn swap_respects_min_out_scenario() {
    let mut amm = fresh_pool(300);
    let lp = amm.new_user(MINT_AMOUNT, MINT_AMOUNT);
    let trader = amm.new_user(100_000_000, 0);

    let l = 300_000_000u64;
    amm.deposit(lp, l, l, l).unwrap();

    let amount_in = 10_000_000u64;
    assert_error(
        amm.swap(trader, SwapDirection::BtoA, amount_in, u64::MAX),
        AmmError::SlippageExceeded,
    );
}

#[test]
fn swap_tests_swap_respects_min_out() {
    swap_respects_min_out_scenario();
}

#[test]
fn tests_swap_respects_min_out() {
    swap_respects_min_out_scenario();
}

fn swap_rejects_zero_amount_scenario() {
    let mut amm = fresh_pool(300);
    let lp = amm.new_user(MINT_AMOUNT, MINT_AMOUNT);
    let trader = amm.new_user(100_000_000, 0);

    let l = 300_000_000u64;
    amm.deposit(lp, l, l, l).unwrap();

    assert_error(amm.swap(trader, SwapDirection::BtoA, 0, 0), AmmError::InvalidAmount);
}

#[test]
fn swap_tests_swap_rejects_zero_amount() {
    swap_rejects_zero_amount_scenario();
}

#[test]
fn tests_swap_rejects_zero_amount() {
    swap_rejects_zero_amount_scenario();
}

#[test]
fn swap_rejects_without_liquidity() {
    let mut amm = fresh_pool(300);
    let trader = amm.new_user(100_000_000, 100_000_000);
    assert_error(amm.swap(trader, SwapDirection::AtoB, 1_000, 1), AmmError::NoLiquidity);
}

fn swap_btoa_must_not_decrease_k_scenario() {
    let mut amm = fresh_pool(300);
    let lp = amm.new_user(MINT_AMOUNT, MINT_AMOUNT);
    let trader = amm.new_user(0, 100_000_000);

    let l = 400_000_000u64;
    amm.deposit(lp, l, l, l).unwrap();

    let k_before = amm.k_checked().unwrap();
    amm.swap(trader, SwapDirection::BtoA, 8_000_000, 1).unwrap();
    let k_after = amm.k_checked().unwrap();
    assert!(
        k_after >= k_before,
        "BtoA swap leaked value: k_before={k_before} k_after={k_after} delta={}",
        k_after as i128 - k_before as i128
    );
}

#[test]
fn swap_tests_swap_btoa_must_not_decrease_k() {
    swap_btoa_must_not_decrease_k_scenario();
}

#[test]
fn tests_swap_btoa_must_not_decrease_k() {
    swap_btoa_must_not_decrease_k_scenario();
}

#[test]
fn swap_reports_exact_amounts() {
    let mut amm = fresh_pool(300);
    let lp = amm.new_user(MINT_AMOUNT, MINT_AMOUNT);
    let trader = amm.new_user(100_000_000, 0);
    amm.deposit(lp, 300_000_000, 300_000_000, 300_000_000).unwrap();
    let mut s = Swap { config: amm.config() };
    let transfers = s.swap(SwapDirection::AtoB, 10_000_000, 1).unwrap();
    // 3% of 10_000_000 stays out of the curve; 9_700_000 buys
    // 9_700_000 * 300_000_000 / 309_700_000 of B, rounded down.
    let out = (9_700_000u128 * 300_000_000 / 309_700_000) as u64;
    assert_eq!(
        transfers,
        vec![
            TokenTransfer { side: Side::A, flow: Flow::ToVault, amount: 10_000_000 },
            TokenTransfer { side: Side::B, flow: Flow::FromVault, amount: out },
        ]
    );
    assert_eq!(s.config.reserve_a, 309_700_000);
    assert_eq!(s.config.reserve_b, 300_000_000 - out);
    assert_eq!(s.config.fee_growth_a, (300_000u128 << 64) / 300_000_000);
    assert_eq!(s.input_leg(SwapDirection::BtoA), Side::B);
    assert_eq!(s.output_leg(SwapDirection::BtoA), Side::A);
    let _ = trader;
}

#[test]
fn swap_on_empty_reserve_has_no_liquidity() {
    let mut config = fresh_pool(300).config();
    config.total_liquidity = 5;
    config.reserve_a = 0;
    config.reserve_b = 10;
    let mut s = Swap { config };
    assert_eq!(s.swap(SwapDirection::AtoB, 10, 0), Err(AmmError::NoLiquidity));
}

// ---------------------------------------------------------------------------
// Withdrawals
// ---------------------------------------------------------------------------

#[test]
fn withdraw_burns_lp_and_returns_reserves() {
    let mut amm = fresh_pool(300);
    let lp = amm.new_user(MINT_AMOUNT, MINT_AMOUNT);

    let l = 300_000_000u64;
    amm.deposit(lp, l, l, l).unwrap();

    amm.withdraw(lp, l, 0, 0).unwrap();

    assert_eq!(amm.lp_balance(lp), 0);
    assert_eq!(amm.lp_supply(), 0);

    assert_eq!(amm.users[lp].a, MINT_AMOUNT);
    assert_eq!(amm.users[lp].b, MINT_AMOUNT);
    amm.assert_token_conservation(&[lp]);
}

fn withdraw_respects_min_out_scenario() {
    let mut amm = fresh_pool(300);
    let lp = amm.new_user(MINT_AMOUNT, MINT_AMOUNT);

    let l = 300_000_000u64;
    amm.deposit(lp, l, l, l).unwrap();

    assert_error(amm.withdraw(lp, l, u64::MAX, u64::MAX), AmmError::SlippageExceeded);
}

#[test]
fn withdraw_tests_withdraw_respects_min_out() {
    withdraw_respects_min_out_scenario();
}

#[test]
fn tests_withdraw_respects_min_out() {
    withdraw_respects_min_out_scenario();
}

#[test]
fn withdraw_returns_reserves_and_closes_position() {
    let mut amm = fresh_pool(300);
    let lp = amm.new_user(MINT_AMOUNT, MINT_AMOUNT);

    let l = 300_000_000u64;
    amm.deposit(lp, l, l, l).unwrap();

    amm.withdraw(lp, l, 0, 0).unwrap();

    let cfg = amm.config();
    assert_eq!(cfg.total_liquidity, 0);
    assert_eq!(cfg.reserve_a, 0);
    assert_eq!(cfg.reserve_b, 0);

    let pos = amm.users[lp].position.expect("position still exists");
    assert_eq!(pos.liquidity, 0);

    assert_eq!(amm.users[lp].a, MINT_AMOUNT);
    assert_eq!(amm.users[lp].b, MINT_AMOUNT);
    amm.assert_token_conservation(&[lp]);
}

#[test]
fn withdraw_rejects_more_than_position() {
    let mut amm = fresh_pool(300);
    let lp = amm.new_user(MINT_AMOUNT, MINT_AMOUNT);

    let l = 200_000_000u64;
    amm.deposit(lp, l, l, l).unwrap();

    assert_error(
        amm.withdraw(lp, l.checked_add(1).unwrap(), 0, 0),
        AmmError::InsufficientBalance,
    );
}

#[test]
fn partial_withdraw_keeps_position_open() {
    let mut amm = fresh_pool(300);
    let lp = amm.new_user(MINT_AMOUNT, MINT_AMOUNT);

    let l = 400_000_000u64;
    amm.deposit(lp, l, l, l).unwrap();

    let half = l.checked_div(2).unwrap();
    amm.withdraw(lp, half, 0, 0).unwrap();

    let pos = amm.users[lp].position.expect("position still exists");
    assert_eq!(pos.liquidity, l - half);
    assert_eq!(amm.config().total_liquidity, l.checked_sub(half).unwrap());
}

#[test]
fn withdraw_rejects_zero_and_foreign_positions() {
    let mut amm = fresh_pool(300);
    let lp = amm.new_user(MINT_AMOUNT, MINT_AMOUNT);
    let other = amm.new_user(MINT_AMOUNT, MINT_AMOUNT);
    amm.deposit(lp, 100, 100, 100).unwrap();
    assert_error(amm.withdraw(lp, 0, 0, 0), AmmError::InvalidAmount);
    let mut w = Withdraw {
        user: amm.users[other].key,
        config: amm.config(),
        position: amm.users[lp].position.unwrap(),
    };
    assert_eq!(w.withdraw(10, 0, 0).unwrap_err(), AmmError::Unauthorized);
}

#[test]
fn withdraw_pays_principal_and_owed_fees_exactly() {
    let mut amm = fresh_pool(300);
    let lp = amm.new_user(MINT_AMOUNT, MINT_AMOUNT);
    amm.deposit(lp, 1_000, 1_000, 1_000).unwrap();
    let mut position = amm.users[lp].position.unwrap();
    position.fee_owed_a = 7;
    let mut w = Withdraw { user: amm.users[lp].key, config: amm.config(), position };
    let actions = w.withdraw(1_000, 0, 0).unwrap();
    assert_eq!(actions.lp, LpAction::BurnFrom { amount: 1_000 });
    assert_eq!(
        actions.transfers,
        vec![
            TokenTransfer { side: Side::A, flow: Flow::FromVault, amount: 1_007 },
            TokenTransfer { side: Side::B, flow: Flow::FromVault, amount: 1_000 },
        ]
    );
    assert_eq!(w.position.fee_owed_a, 0);
}

// ---------------------------------------------------------------------------
// Mint checks and errors
// ---------------------------------------------------------------------------

fn token_2022_program() -> Address {
    anchor_spl::token_2022::ID.to_bytes()
}

fn mint_with_close_authority() -> Vec<u8> {
    let len = ExtensionType::try_calculate_account_len::<MintState>(&[
        ExtensionType::MintCloseAuthority,
    ])
    .unwrap();
    let mut data = vec![0u8; len];
    let mut state = StateWithExtensionsMut::<MintState>::unpack_uninitialized(&mut data).unwrap();
    state.init_extension::<MintCloseAuthority>(true).unwrap();
    state.base.is_initialized = true;
    state.pack_base();
    state.init_account_type().unwrap();
    data
}

fn mint_with_transfer_fee() -> Vec<u8> {
    let len = ExtensionType::try_calculate_account_len::<MintState>(&[
        ExtensionType::TransferFeeConfig,
    ])
    .unwrap();
    let mut data = vec![0u8; len];
    let mut state = StateWithExtensionsMut::<MintState>::unpack_uninitialized(&mut data).unwrap();
    state.init_extension::<TransferFeeConfig>(true).unwrap();
    state.base.is_initialized = true;
    state.pack_base();
    state.init_account_type().unwrap();
    data
}

fn init_with_mint_b(owner: Address, data: Vec<u8>) -> Result<(), AmmError> {
    let mut init = Init {
        mint_a: MintAccount { key: key(1, 0), owner: token_program(), data: Vec::new() },
        mint_b: MintAccount { key: key(2, 0), owner, data },
        config: empty_config(),
    };
    init.init(1, 30, None, &InitBumps { config: 1, mint_lp: 2 })
}

#[test]
fn init_accepts_token_2022_mint_with_harmless_extension() {
    assert_eq!(init_with_mint_b(token_2022_program(), mint_with_close_authority()), Ok(()));
}

#[test]
fn init_rejects_token_2022_mint_with_transfer_fee() {
    assert_eq!(
        init_with_mint_b(token_2022_program(), mint_with_transfer_fee()),
        Err(AmmError::UnsupportedMintExtension)
    );
}

#[test]
fn init_rejects_unparsable_token_2022_mint() {
    assert_eq!(
        init_with_mint_b(token_2022_program(), vec![1, 2, 3]),
        Err(AmmError::UnsupportedMintExtension)
    );
}

#[test]
fn init_skips_extension_check_for_legacy_token_mints() {
    // The same data that is refused under Token-2022 is not read for a mint
    // of the (pre-2022) SPL Token program.
    assert_eq!(init_with_mint_b(token_program(), mint_with_transfer_fee()), Ok(()));
}

#[test]
fn extension_codes_are_checked_one_by_one() {
    assert_eq!(check_extension_codes(&vec![]), Ok(()));
    assert_eq!(check_extension_codes(&vec![3, 7, 8, 18]), Ok(()));
    assert_eq!(
        check_extension_codes(&vec![3, EXT_TRANSFER_FEE_CONFIG]),
        Err(AmmError::UnsupportedMintExtension)
    );
    for code in [1u16, 4, 6, 9, 12, 14, 16] {
        assert_eq!(check_extension_codes(&vec![code]), Err(AmmError::UnsupportedMintExtension));
    }
}

#[test]
fn curve_errors_map_to_pool_errors() {
    assert_eq!(AmmError::from(CurveError::InvalidPrecision), AmmError::InvalidPrecision);
    assert_eq!(AmmError::from(CurveError::Overflow), AmmError::MathOverflow);
    assert_eq!(AmmError::from(CurveError::Underflow), AmmError::MathOverflow);
    assert_eq!(AmmError::from(CurveError::InvalidFeeAmount), AmmError::InvalidFee);
    assert_eq!(AmmError::from(CurveError::InsufficientBalance), AmmError::InsufficientBalance);
    assert_eq!(AmmError::from(CurveError::ZeroBalance), AmmError::NoLiquidity);
    assert_eq!(AmmError::from(CurveError::SlippageLimitExceeded), AmmError::SlippageExceeded);
}

#[test]
fn mint_order_is_strict_and_bytewise() {
    assert_eq!(check_mint_order(&key(1, 0), &key(2, 0)), Ok(()));
    assert_eq!(check_mint_order(&key(1, 5), &key(1, 6)), Ok(()));
    assert_eq!(check_mint_order(&key(2, 0), &key(1, 9)), Err(AmmError::InvalidMintOrder));
    assert_eq!(check_mint_order(&key(1, 0), &key(1, 0)), Err(AmmError::InvalidMintOrder));
}

#[test]
fn settle_credits_growth_once() {
    let mut p = empty_position();
    p.liquidity = 10;
    let growth = (3u128 << 64) / 2;
    p.settle(growth, 0).unwrap();
    assert_eq!((p.fee_owed_a, p.fee_owed_b), (15, 0));
    assert_eq!(p.fee_growth_snapshot_a, growth);
    p.settle(growth, 0).unwrap();
    assert_eq!(p.fee_owed_a, 15);
    p.fee_owed_a = u64::MAX;
    let before = p;
    assert_eq!(p.settle(growth * 2, 0), Err(AmmError::MathOverflow));
    assert_eq!(p.fee_owed_a, before.fee_owed_a);
    assert_eq!(p.fee_growth_snapshot_a, before.fee_growth_snapshot_a);
}

#[test]
fn require_authority_distinguishes_missing_and_wrong_signers() {
    let mut cfg = fresh_pool(30).config();
    let init = key(9, 0);
    assert_eq!(cfg.require_authority(&init), Ok(()));
    assert_eq!(cfg.require_authority(&key(8, 0)), Err(AmmError::Unauthorized));
    cfg.authority = None;
    assert_eq!(cfg.require_authority(&init), Err(AmmError::NoAuthority));
}

#[test]
fn settle_overflow_on_b_keeps_credit_of_a() {
    let mut p = empty_position();
    p.liquidity = 10;
    p.fee_owed_b = u64::MAX;
    let growth = (3u128 << 64) / 2;
    assert_eq!(p.settle(growth, growth), Err(AmmError::MathOverflow));
    assert_eq!(p.fee_owed_a, 15);
    assert_eq!(p.fee_owed_b, u64::MAX);
    assert_eq!((p.fee_growth_snapshot_a, p.fee_growth_snapshot_b), (0, 0));
}

#[test]
fn extension_codes_match_token_2022() {
    assert_eq!(EXT_TRANSFER_FEE_CONFIG, u16::from(ExtensionType::TransferFeeConfig));
    assert_eq!(EXT_CONFIDENTIAL_TRANSFER_MINT, u16::from(ExtensionType::ConfidentialTransferMint));
    assert_eq!(EXT_DEFAULT_ACCOUNT_STATE, u16::from(ExtensionType::DefaultAccountState));
    assert_eq!(EXT_NON_TRANSFERABLE, u16::from(ExtensionType::NonTransferable));
    assert_eq!(EXT_PERMANENT_DELEGATE, u16::from(ExtensionType::PermanentDelegate));
    assert_eq!(EXT_TRANSFER_HOOK, u16::from(ExtensionType::TransferHook));
    assert_eq!(
        EXT_CONFIDENTIAL_TRANSFER_FEE_CONFIG,
        u16::from(ExtensionType::ConfidentialTransferFeeConfig)
    );
}

#[test]
fn deposit_mints_and_withdraw_burns_liquidity_tokens() {
    let mut amm = fresh_pool(300);
    let lp = amm.new_user(MINT_AMOUNT, MINT_AMOUNT);
    let mut d = Deposit {
        user: amm.users[lp].key,
        config_key: amm.config_key,
        config: amm.config(),
        position: empty_position(),
    };
    let actions = d.deposit(500, 600, 700, &DepositBumps { position: 1 }).unwrap();
    assert_eq!(actions.lp, LpAction::MintTo { amount: 500 });
    assert_eq!(
        actions.transfers,
        vec![
            TokenTransfer { side: Side::A, flow: Flow::ToVault, amount: 600 },
            TokenTransfer { side: Side::B, flow: Flow::ToVault, amount: 700 },
        ]
    );
    amm.deposit(lp, 500, 600, 700).unwrap();
    assert_eq!((amm.lp_supply(), amm.lp_balance(lp)), (500, 500));
    amm.withdraw(lp, 200, 0, 0).unwrap();
    assert_eq!((amm.lp_supply(), amm.lp_balance(lp)), (300, 300));
}

#[test]
fn withdraw_without_liquidity_tokens_fails() {
    let mut amm = fresh_pool(300);
    let lp = amm.new_user(MINT_AMOUNT, MINT_AMOUNT);
    amm.deposit(lp, 500, 600, 700).unwrap();
    // The provider has given its liquidity tokens away.
    amm.users[lp].lp = 0;
    let before = amm.config();
    assert_eq!(amm.withdraw(lp, 500, 0, 0), Err(TxError::InsufficientFunds));
    assert_eq!(amm.config().total_liquidity, before.total_liquidity);
    assert_eq!(amm.users[lp].a, MINT_AMOUNT - 600);
}
