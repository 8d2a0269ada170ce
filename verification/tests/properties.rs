//! End-to-end scenarios over the registry's lifecycle, and the event log.

use verification::errors::DispatchError;
use verification::errors::Error;
use verification::events::Event;
use verification::events::HoldReason;
use verification::mock::DelegationAccessControl;
use verification::mock::ExtBuilder;
use verification::mock::MockAccessControl;
use verification::AttesterId;
use verification::ClaimHash;
use verification::CtypeHash;

const A: AttesterId = 1;
const B: AttesterId = 2;
const C: AttesterId = 3;
const ACCOUNT_A: u64 = 100;
const H1: ClaimHash = 1;
const H2: ClaimHash = 2;
const H3: ClaimHash = 3;
const C1: CtypeHash = 77;
const DEPOSIT: u64 = 10;

#[test]
fn test_create_revoke_remove_scenario() {
    let mut w = ExtBuilder::default()
        .with_deposit(DEPOSIT)
        .with_ctypes(vec![(C1, A)])
        .with_balances(vec![(ACCOUNT_A, DEPOSIT * 100)])
        .build();

    assert_eq!(
        w.pallet.add(
            ACCOUNT_A,
            A,
            H1,
            C1,
            None::<MockAccessControl>,
            &w.ctypes,
            &mut w.escrow,
            &mut w.tracker
        ),
        Ok(())
    );
    let stored = w.pallet.verifications(H1).unwrap();
    assert!(!stored.revoked);
    assert_eq!(stored.authorization_id, None);

    assert_eq!(w.pallet.revoke(A, H1, None::<MockAccessControl>), Ok(()));
    assert!(w.pallet.verifications(H1).unwrap().revoked);

    assert_eq!(
        w.pallet.revoke(A, H1, None::<MockAccessControl>),
        Err(DispatchError::Verification(Error::AlreadyRevoked))
    );

    assert_eq!(
        w.pallet.remove(
            A,
            H1,
            None::<MockAccessControl>,
            &mut w.escrow,
            &mut w.tracker
        ),
        Ok(())
    );
    assert!(w.pallet.verifications(H1).is_none());
    assert_eq!(w.escrow.balance_on_hold(HoldReason::Deposit, ACCOUNT_A), 0);
}

#[test]
fn test_delegated_create_and_remove_scenario() {
    let mut w = ExtBuilder::default()
        .with_deposit(DEPOSIT)
        .with_ctypes(vec![(C1, A)])
        .with_balances(vec![(ACCOUNT_A, DEPOSIT * 100)])
        .build();

    // created by A under a delegation filed as B
    assert_eq!(
        w.pallet.add(
            ACCOUNT_A,
            A,
            H2,
            C1,
            Some(DelegationAccessControl { grantee: A, delegation_id: B }),
            &w.ctypes,
            &mut w.escrow,
            &mut w.tracker
        ),
        Ok(())
    );
    assert!(w.pallet.external_verifications(B, H2));

    // C's capability denies C: the stored delegation is B's, not C's
    assert_eq!(
        w.pallet.remove(
            C,
            H2,
            Some(MockAccessControl(C)),
            &mut w.escrow,
            &mut w.tracker
        ),
        Err(DispatchError::Unauthorized)
    );
    assert!(w.pallet.verifications(H2).is_some());

    // the attester removes their own record without any capability
    assert_eq!(
        w.pallet.remove(
            A,
            H2,
            None::<MockAccessControl>,
            &mut w.escrow,
            &mut w.tracker
        ),
        Ok(())
    );
    assert!(w.pallet.verifications(H2).is_none());
    assert!(!w.pallet.external_verifications(B, H2));
}

#[test]
fn test_duplicate_create_leaves_first_untouched() {
    let mut w = ExtBuilder::default()
        .with_deposit(DEPOSIT)
        .with_ctypes(vec![(C1, A)])
        .with_balances(vec![(ACCOUNT_A, DEPOSIT * 100)])
        .build();

    assert_eq!(
        w.pallet.add(
            ACCOUNT_A,
            A,
            H3,
            C1,
            None::<MockAccessControl>,
            &w.ctypes,
            &mut w.escrow,
            &mut w.tracker
        ),
        Ok(())
    );
    let first = w.pallet.verifications(H3).unwrap();

    assert_eq!(
        w.pallet.add(
            ACCOUNT_A,
            B,
            H3,
            C1,
            Some(MockAccessControl(B)),
            &w.ctypes,
            &mut w.escrow,
            &mut w.tracker
        ),
        Err(DispatchError::Verification(Error::AlreadyVerified))
    );
    assert_eq!(w.pallet.verifications(H3), Some(first));
    assert_eq!(
        w.escrow.balance_on_hold(HoldReason::Deposit, ACCOUNT_A),
        DEPOSIT
    );
}

#[test]
fn test_event_log_order() {
    let mut w = ExtBuilder::default()
        .with_deposit(DEPOSIT)
        .with_ctypes(vec![(C1, A)])
        .with_balances(vec![(ACCOUNT_A, DEPOSIT * 100)])
        .build();

    assert_eq!(
        w.pallet.add(
            ACCOUNT_A,
            A,
            H1,
            C1,
            None::<MockAccessControl>,
            &w.ctypes,
            &mut w.escrow,
            &mut w.tracker
        ),
        Ok(())
    );
    assert_eq!(w.pallet.revoke(A, H1, None::<MockAccessControl>), Ok(()));
    // a failing call emits nothing
    assert_eq!(
        w.pallet.revoke(A, H1, None::<MockAccessControl>),
        Err(DispatchError::Verification(Error::AlreadyRevoked))
    );
    assert_eq!(
        w.pallet.remove(
            A,
            H1,
            None::<MockAccessControl>,
            &mut w.escrow,
            &mut w.tracker
        ),
        Ok(())
    );

    assert_eq!(
        w.pallet.events().as_slice(),
        &[
            Event::VerificationCreated(A, H1, C1, None),
            Event::VerificationRevoked(A, H1),
            Event::VerificationRemoved(A, H1),
        ]
    );
}

#[test]
fn test_failed_call_changes_nothing() {
    let mut w = ExtBuilder::default()
        .with_deposit(DEPOSIT)
        .with_ctypes(vec![(C1, A)])
        .with_balances(vec![(ACCOUNT_A, DEPOSIT * 100)])
        .build();

    assert_eq!(
        w.pallet.add(
            ACCOUNT_A,
            A,
            H1,
            C1,
            None::<MockAccessControl>,
            &w.ctypes,
            &mut w.escrow,
            &mut w.tracker
        ),
        Ok(())
    );
    let held = w.escrow.balance_on_hold(HoldReason::Deposit, ACCOUNT_A);
    let free = w.escrow.free_balance(ACCOUNT_A);
    let stored = w.pallet.verifications(H1);

    // a duplicate create fails and leaves store, index and escrow as they
    // were
    assert_eq!(
        w.pallet.add(
            ACCOUNT_A,
            B,
            H1,
            C1,
            None::<MockAccessControl>,
            &w.ctypes,
            &mut w.escrow,
            &mut w.tracker
        ),
        Err(DispatchError::Verification(Error::AlreadyVerified))
    );
    assert_eq!(w.escrow.balance_on_hold(HoldReason::Deposit, ACCOUNT_A), held);
    assert_eq!(w.escrow.free_balance(ACCOUNT_A), free);
    assert_eq!(w.pallet.verifications(H1), stored);

    // an unauthorized remove fails the same way
    assert_eq!(
        w.pallet.remove(
            B,
            H1,
            None::<MockAccessControl>,
            &mut w.escrow,
            &mut w.tracker
        ),
        Err(DispatchError::Verification(Error::NotAuthorized))
    );
    assert_eq!(w.escrow.balance_on_hold(HoldReason::Deposit, ACCOUNT_A), held);
    assert_eq!(w.pallet.verifications(H1), stored);
}
