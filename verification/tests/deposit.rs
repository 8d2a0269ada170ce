//! Reclaiming, transferring and updating the deposits behind records, on
//! the current and on the legacy accounting scheme.

use verification::errors::DispatchError;
use verification::errors::Error;
use verification::errors::TokenError;
use verification::events::Event;
use verification::events::HoldReason;
use verification::mock::generate_base_verification;
use verification::mock::ExtBuilder;
use verification::mock::MockAccessControl;
use verification::AttesterId;
use verification::ClaimHash;
use verification::CtypeHash;

const ALICE: AttesterId = 1;
const ACCOUNT_00: u64 = 100;
const ACCOUNT_01: u64 = 101;
const CLAIM_HASH: ClaimHash = 1;
const CTYPE_HASH: CtypeHash = 77;
const DEPOSIT: u64 = 10;

#[test]
fn test_reclaim_deposit() {
    let verification = generate_base_verification(CTYPE_HASH, ALICE, ACCOUNT_00, DEPOSIT);

    let mut w = ExtBuilder::default()
        .with_deposit(DEPOSIT)
        .with_balances(vec![(ACCOUNT_00, DEPOSIT * 100)])
        .with_ctypes(vec![(CTYPE_HASH, ALICE)])
        .with_verifications(vec![(CLAIM_HASH, verification)])
        .build();

    assert_eq!(
        w.escrow.balance_on_hold(HoldReason::Deposit, ACCOUNT_00),
        DEPOSIT
    );
    assert_eq!(
        w.pallet
            .reclaim_deposit(ACCOUNT_00, CLAIM_HASH, &mut w.escrow, &mut w.tracker),
        Ok(())
    );
    assert!(w.pallet.verifications(CLAIM_HASH).is_none());
    assert_eq!(w.escrow.balance_on_hold(HoldReason::Deposit, ACCOUNT_00), 0);
    assert_eq!(
        w.pallet.events().last(),
        Some(&Event::DepositReclaimed(ACCOUNT_00, CLAIM_HASH))
    );
}

#[test]
fn test_reclaim_deposit_not_owner() {
    let verification = generate_base_verification(CTYPE_HASH, ALICE, ACCOUNT_00, DEPOSIT);

    let mut w = ExtBuilder::default()
        .with_deposit(DEPOSIT)
        .with_balances(vec![(ACCOUNT_00, DEPOSIT * 100)])
        .with_ctypes(vec![(CTYPE_HASH, ALICE)])
        .with_verifications(vec![(CLAIM_HASH, verification)])
        .build();

    assert_eq!(
        w.pallet
            .reclaim_deposit(ACCOUNT_01, CLAIM_HASH, &mut w.escrow, &mut w.tracker),
        Err(DispatchError::Verification(Error::NotAuthorized))
    );
    assert!(w.pallet.verifications(CLAIM_HASH).is_some());
}

#[test]
fn test_change_deposit_owner() {
    let verification = generate_base_verification(CTYPE_HASH, ALICE, ACCOUNT_00, DEPOSIT);

    let mut w = ExtBuilder::default()
        .with_deposit(DEPOSIT)
        .with_balances(vec![(ACCOUNT_00, DEPOSIT * 100), (ACCOUNT_01, DEPOSIT * 100)])
        .with_ctypes(vec![(CTYPE_HASH, ALICE)])
        .with_verifications(vec![(CLAIM_HASH, verification)])
        .build();

    assert_eq!(
        w.pallet
            .change_deposit_owner(ALICE, ACCOUNT_01, CLAIM_HASH, &mut w.escrow, &mut w.tracker),
        Ok(())
    );
    let stored = w.pallet.verifications(CLAIM_HASH).unwrap();
    assert_eq!(stored.deposit.owner, ACCOUNT_01);
    assert_eq!(stored.deposit.amount, DEPOSIT);
    assert_eq!(w.escrow.balance_on_hold(HoldReason::Deposit, ACCOUNT_00), 0);
    assert_eq!(
        w.escrow.balance_on_hold(HoldReason::Deposit, ACCOUNT_01),
        DEPOSIT
    );
}

#[test]
fn test_change_deposit_owner_not_attester() {
    let verification = generate_base_verification(CTYPE_HASH, ALICE, ACCOUNT_00, DEPOSIT);
    let bob: AttesterId = 2;

    let mut w = ExtBuilder::default()
        .with_deposit(DEPOSIT)
        .with_balances(vec![(ACCOUNT_00, DEPOSIT * 100), (ACCOUNT_01, DEPOSIT * 100)])
        .with_ctypes(vec![(CTYPE_HASH, ALICE)])
        .with_verifications(vec![(CLAIM_HASH, verification)])
        .build();

    assert_eq!(
        w.pallet
            .change_deposit_owner(bob, ACCOUNT_01, CLAIM_HASH, &mut w.escrow, &mut w.tracker),
        Err(DispatchError::Verification(Error::NotAuthorized))
    );
}

#[test]
fn test_change_deposit_owner_insufficient_funds() {
    let verification = generate_base_verification(CTYPE_HASH, ALICE, ACCOUNT_00, DEPOSIT);

    let mut w = ExtBuilder::default()
        .with_deposit(DEPOSIT)
        .with_balances(vec![(ACCOUNT_00, DEPOSIT * 100)])
        .with_ctypes(vec![(CTYPE_HASH, ALICE)])
        .with_verifications(vec![(CLAIM_HASH, verification)])
        .build();

    assert_eq!(
        w.pallet
            .change_deposit_owner(ALICE, ACCOUNT_01, CLAIM_HASH, &mut w.escrow, &mut w.tracker),
        Err(DispatchError::Token(TokenError::FundsUnavailable))
    );
    assert_eq!(
        w.pallet.verifications(CLAIM_HASH).unwrap().deposit.owner,
        ACCOUNT_00
    );
}

#[test]
fn test_update_deposit_increase() {
    let verification = generate_base_verification(CTYPE_HASH, ALICE, ACCOUNT_00, DEPOSIT);

    let mut w = ExtBuilder::default()
        .with_deposit(DEPOSIT)
        .with_balances(vec![(ACCOUNT_00, DEPOSIT * 100)])
        .with_ctypes(vec![(CTYPE_HASH, ALICE)])
        .with_verifications(vec![(CLAIM_HASH, verification)])
        .build();

    w.pallet.set_deposit_rate(DEPOSIT * 2);
    assert_eq!(
        w.pallet
            .update_deposit(ACCOUNT_00, CLAIM_HASH, &mut w.escrow, &mut w.tracker),
        Ok(())
    );
    let stored = w.pallet.verifications(CLAIM_HASH).unwrap();
    assert_eq!(stored.deposit.owner, ACCOUNT_00);
    assert_eq!(stored.deposit.amount, DEPOSIT * 2);
    assert_eq!(
        w.escrow.balance_on_hold(HoldReason::Deposit, ACCOUNT_00),
        DEPOSIT * 2
    );
}

#[test]
fn test_update_deposit_decrease() {
    let verification = generate_base_verification(CTYPE_HASH, ALICE, ACCOUNT_00, DEPOSIT);

    let mut w = ExtBuilder::default()
        .with_deposit(DEPOSIT)
        .with_balances(vec![(ACCOUNT_00, DEPOSIT * 100)])
        .with_ctypes(vec![(CTYPE_HASH, ALICE)])
        .with_verifications(vec![(CLAIM_HASH, verification)])
        .build();

    w.pallet.set_deposit_rate(DEPOSIT / 2);
    assert_eq!(
        w.pallet
            .update_deposit(ACCOUNT_00, CLAIM_HASH, &mut w.escrow, &mut w.tracker),
        Ok(())
    );
    let stored = w.pallet.verifications(CLAIM_HASH).unwrap();
    assert_eq!(stored.deposit.amount, DEPOSIT / 2);
    assert_eq!(
        w.escrow.balance_on_hold(HoldReason::Deposit, ACCOUNT_00),
        DEPOSIT / 2
    );
    assert_eq!(
        w.escrow.free_balance(ACCOUNT_00),
        DEPOSIT * 100 - DEPOSIT / 2
    );
}

#[test]
fn test_update_deposit_not_owner() {
    let verification = generate_base_verification(CTYPE_HASH, ALICE, ACCOUNT_00, DEPOSIT);

    let mut w = ExtBuilder::default()
        .with_deposit(DEPOSIT)
        .with_balances(vec![(ACCOUNT_00, DEPOSIT * 100)])
        .with_ctypes(vec![(CTYPE_HASH, ALICE)])
        .with_verifications(vec![(CLAIM_HASH, verification)])
        .build();

    assert_eq!(
        w.pallet
            .update_deposit(ACCOUNT_01, CLAIM_HASH, &mut w.escrow, &mut w.tracker),
        Err(DispatchError::Verification(Error::NotAuthorized))
    );
}

#[test]
fn test_legacy_removal_releases_through_legacy_path() {
    let verification = generate_base_verification(CTYPE_HASH, ALICE, ACCOUNT_00, DEPOSIT);

    let mut w = ExtBuilder::default()
        .with_deposit(DEPOSIT)
        .with_balances(vec![(ACCOUNT_00, DEPOSIT * 100)])
        .with_ctypes(vec![(CTYPE_HASH, ALICE)])
        .with_legacy_verifications(vec![(CLAIM_HASH, verification)])
        .build();

    // a legacy record holds nothing in the escrow; its deposit is a legacy
    // reservation
    assert_eq!(w.escrow.balance_on_hold(HoldReason::Deposit, ACCOUNT_00), 0);
    assert_eq!(w.tracker.legacy_reserved(ACCOUNT_00), DEPOSIT);
    assert!(!w.tracker.is_key_migrated(CLAIM_HASH));

    assert_eq!(
        w.pallet.remove(
            ALICE,
            CLAIM_HASH,
            None::<MockAccessControl>,
            &mut w.escrow,
            &mut w.tracker
        ),
        Ok(())
    );
    assert!(w.pallet.verifications(CLAIM_HASH).is_none());
    assert_eq!(w.tracker.legacy_reserved(ACCOUNT_00), 0);
    assert_eq!(w.escrow.balance_on_hold(HoldReason::Deposit, ACCOUNT_00), 0);
}

#[test]
fn test_legacy_update_deposit_migrates() {
    let verification = generate_base_verification(CTYPE_HASH, ALICE, ACCOUNT_00, DEPOSIT);

    let mut w = ExtBuilder::default()
        .with_deposit(DEPOSIT)
        .with_balances(vec![(ACCOUNT_00, DEPOSIT * 100)])
        .with_ctypes(vec![(CTYPE_HASH, ALICE)])
        .with_legacy_verifications(vec![(CLAIM_HASH, verification)])
        .build();

    assert!(!w.tracker.is_key_migrated(CLAIM_HASH));
    assert_eq!(
        w.pallet
            .update_deposit(ACCOUNT_00, CLAIM_HASH, &mut w.escrow, &mut w.tracker),
        Ok(())
    );
    assert!(w.tracker.is_key_migrated(CLAIM_HASH));
    assert_eq!(w.tracker.legacy_reserved(ACCOUNT_00), 0);
    assert_eq!(
        w.escrow.balance_on_hold(HoldReason::Deposit, ACCOUNT_00),
        DEPOSIT
    );
}

#[test]
fn test_add_insufficient_funds() {
    let mut w = ExtBuilder::default()
        .with_deposit(DEPOSIT)
        .with_ctypes(vec![(CTYPE_HASH, ALICE)])
        .build();

    assert_eq!(
        w.pallet.add(
            ACCOUNT_00,
            ALICE,
            CLAIM_HASH,
            CTYPE_HASH,
            None::<MockAccessControl>,
            &w.ctypes,
            &mut w.escrow,
            &mut w.tracker
        ),
        Err(DispatchError::Token(TokenError::FundsUnavailable))
    );
    assert!(w.pallet.verifications(CLAIM_HASH).is_none());
}
