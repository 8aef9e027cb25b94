use anchor_escrow::derivation::derive_escrow_address;
use anchor_escrow::errors::EscrowError;
use anchor_escrow::ledger::Ledger;

const PROGRAM: u64 = 42;
const MAKER: u64 = 1;
const TAKER: u64 = 2;
const ASSET_A: u64 = 10;
const ASSET_B: u64 = 11;

fn funded_ledger() -> Ledger {
    let mut l = Ledger::new(PROGRAM);
    l.mint(MAKER, ASSET_A, 1000).unwrap();
    l
}

fn stored_bump(l: &Ledger, maker: u64, seed: u64) -> u8 {
    l.escrow_terms(maker, seed).unwrap().derivation_bump
}

#[test]
fn make_then_refund_round_trip() {
    // Conservation: the maker's offered-asset balance ends where it began.
    let mut l = funded_ledger();
    let before = l.balance(MAKER, ASSET_A);
    l.make(MAKER, 7, ASSET_A, ASSET_B, 1000, 500).unwrap();
    assert_eq!(l.balance(MAKER, ASSET_A), 0);
    let bump = stored_bump(&l, MAKER, 7);
    let refunded = l.refund(MAKER, MAKER, 7, bump).unwrap();
    assert_eq!(refunded, 1000);
    assert_eq!(l.balance(MAKER, ASSET_A), before);
    assert_eq!(l.escrow_count(), 0);
}

#[test]
fn scenario_full_lifecycle() {
    // Maker creates seed=7, deposit 1000 of A, requests 500 of B; the
    // record and vault hold exactly those terms; refund retires both and
    // a second refund on the retired handle fails.
    let mut l = funded_ledger();
    l.make(MAKER, 7, ASSET_A, ASSET_B, 1000, 500).unwrap();
    let rec = l.escrow_terms(MAKER, 7).unwrap();
    assert_eq!(rec.maker, MAKER);
    assert_eq!(rec.seed, 7);
    assert_eq!(rec.asset_offered, ASSET_A);
    assert_eq!(rec.asset_requested, ASSET_B);
    assert_eq!(rec.amount_requested, 500);
    assert_eq!(l.vault_balance(MAKER, 7), Some(1000));
    let bump = rec.derivation_bump;
    assert_eq!(l.refund(MAKER, MAKER, 7, bump), Ok(1000));
    assert_eq!(l.vault_balance(MAKER, 7), None);
    assert_eq!(l.escrow_terms(MAKER, 7), None);
    assert_eq!(l.balance(MAKER, ASSET_A), 1000);
    // The handle no longer exists: the vault check rejects the call.
    assert_eq!(l.refund(MAKER, MAKER, 7, bump), Err(EscrowError::InvalidVault));
}

#[test]
fn scenario_seed_reuse_and_fresh_seed() {
    // A second make with the same (maker, seed) collides while the first
    // is live; a different seed succeeds independently.
    let mut l = funded_ledger();
    l.make(MAKER, 7, ASSET_A, ASSET_B, 400, 500).unwrap();
    assert_eq!(
        l.make(MAKER, 7, ASSET_A, ASSET_B, 1, 1),
        Err(EscrowError::AddressCollision)
    );
    // The address is checked first: even zero amounts collide here.
    assert_eq!(
        l.make(MAKER, 7, ASSET_A, ASSET_B, 0, 0),
        Err(EscrowError::AddressCollision)
    );
    assert_eq!(l.vault_balance(MAKER, 7), Some(400));
    l.make(MAKER, 8, ASSET_A, ASSET_B, 300, 200).unwrap();
    assert_eq!(l.escrow_count(), 2);
    assert_eq!(l.vault_balance(MAKER, 8), Some(300));
    assert_eq!(l.balance(MAKER, ASSET_A), 300);
}

#[test]
fn seed_is_free_again_after_refund() {
    let mut l = funded_ledger();
    l.make(MAKER, 7, ASSET_A, ASSET_B, 1000, 500).unwrap();
    let bump = stored_bump(&l, MAKER, 7);
    l.refund(MAKER, MAKER, 7, bump).unwrap();
    // The (maker, seed) address space is free for reuse.
    l.make(MAKER, 7, ASSET_A, ASSET_B, 250, 125).unwrap();
    assert_eq!(l.vault_balance(MAKER, 7), Some(250));
}

#[test]
fn zero_amounts_are_rejected() {
    let mut l = funded_ledger();
    assert_eq!(
        l.make(MAKER, 7, ASSET_A, ASSET_B, 0, 500),
        Err(EscrowError::InvalidAmount)
    );
    assert_eq!(
        l.make(MAKER, 7, ASSET_A, ASSET_B, 1000, 0),
        Err(EscrowError::InvalidAmount)
    );
    // Nothing was created and nothing moved.
    assert_eq!(l.escrow_count(), 0);
    assert_eq!(l.balance(MAKER, ASSET_A), 1000);
}

#[test]
fn short_balance_is_rejected() {
    let mut l = funded_ledger();
    assert_eq!(
        l.make(MAKER, 7, ASSET_A, ASSET_B, 1001, 500),
        Err(EscrowError::InsufficientFunds)
    );
    // A maker with no holding of the offered asset at all is short too.
    assert_eq!(
        l.make(TAKER, 7, ASSET_A, ASSET_B, 1, 1),
        Err(EscrowError::InsufficientFunds)
    );
    assert_eq!(l.escrow_count(), 0);
    assert_eq!(l.balance(MAKER, ASSET_A), 1000);
}

#[test]
fn refund_by_stranger_is_unauthorized() {
    let mut l = funded_ledger();
    l.make(MAKER, 7, ASSET_A, ASSET_B, 1000, 500).unwrap();
    let bump = stored_bump(&l, MAKER, 7);
    assert_eq!(l.refund(TAKER, MAKER, 7, bump), Err(EscrowError::Unauthorized));
    // The escrow and all balances are untouched.
    assert_eq!(l.vault_balance(MAKER, 7), Some(1000));
    assert_eq!(l.balance(MAKER, ASSET_A), 0);
    assert_eq!(l.balance(TAKER, ASSET_A), 0);
}

#[test]
fn mismatched_vault_is_rejected() {
    let mut l = funded_ledger();
    l.make(MAKER, 7, ASSET_A, ASSET_B, 1000, 500).unwrap();
    let bump = stored_bump(&l, MAKER, 7);
    let forged = bump.wrapping_add(1);
    assert_eq!(l.refund(MAKER, MAKER, 7, forged), Err(EscrowError::InvalidVault));
    assert_eq!(l.vault_balance(MAKER, 7), Some(1000));
    // The canonical bump still unlocks the refund.
    assert_eq!(l.refund(MAKER, MAKER, 7, bump), Ok(1000));
}

#[test]
fn refund_of_missing_escrow_is_rejected() {
    let mut l = funded_ledger();
    assert_eq!(l.refund(MAKER, MAKER, 99, 0), Err(EscrowError::InvalidVault));
}

#[test]
fn overflowing_credit_fails_transfer() {
    // The transfer primitive rejects a credit that cannot fit, and the
    // whole refund aborts with no partial effect.
    let mut l = Ledger::new(PROGRAM);
    l.mint(MAKER, ASSET_A, 1000).unwrap();
    l.make(MAKER, 7, ASSET_A, ASSET_B, 1000, 500).unwrap();
    l.mint(MAKER, ASSET_A, u64::MAX).unwrap();
    let bump = stored_bump(&l, MAKER, 7);
    assert_eq!(l.refund(MAKER, MAKER, 7, bump), Err(EscrowError::TransferFailed));
    assert_eq!(l.vault_balance(MAKER, 7), Some(1000));
    assert_eq!(l.balance(MAKER, ASSET_A), u64::MAX);
}

#[test]
fn mint_overflow_fails_transfer() {
    let mut l = Ledger::new(PROGRAM);
    l.mint(MAKER, ASSET_A, u64::MAX).unwrap();
    assert_eq!(l.mint(MAKER, ASSET_A, 1), Err(EscrowError::TransferFailed));
    assert_eq!(l.balance(MAKER, ASSET_A), u64::MAX);
}

#[test]
fn escrows_of_distinct_makers_are_independent() {
    let mut l = Ledger::new(PROGRAM);
    l.mint(MAKER, ASSET_A, 500).unwrap();
    l.mint(TAKER, ASSET_A, 700).unwrap();
    // The same seed under different makers derives different addresses.
    l.make(MAKER, 7, ASSET_A, ASSET_B, 500, 100).unwrap();
    l.make(TAKER, 7, ASSET_A, ASSET_B, 700, 200).unwrap();
    assert_eq!(l.escrow_count(), 2);
    let bump = stored_bump(&l, MAKER, 7);
    assert_eq!(l.refund(MAKER, MAKER, 7, bump), Ok(500));
    // The other maker's escrow is untouched.
    assert_eq!(l.vault_balance(TAKER, 7), Some(700));
    assert_eq!(l.balance(MAKER, ASSET_A), 500);
    assert_eq!(l.balance(TAKER, ASSET_A), 0);
}

#[test]
fn derivation_is_deterministic_and_collision_free() {
    let (addr1, bump1) = derive_escrow_address(PROGRAM, MAKER, 7);
    let (addr2, bump2) = derive_escrow_address(PROGRAM, MAKER, 7);
    assert_eq!(addr1, addr2);
    assert_eq!(bump1, bump2);
    let (other_seed, _) = derive_escrow_address(PROGRAM, MAKER, 8);
    let (other_maker, _) = derive_escrow_address(PROGRAM, TAKER, 7);
    assert_ne!(addr1, other_seed);
    assert_ne!(addr1, other_maker);
}

#[test]
fn stored_bump_matches_derivation() {
    let mut l = funded_ledger();
    l.make(MAKER, 7, ASSET_A, ASSET_B, 1000, 500).unwrap();
    let (_, bump) = derive_escrow_address(PROGRAM, MAKER, 7);
    assert_eq!(stored_bump(&l, MAKER, 7), bump);
}
