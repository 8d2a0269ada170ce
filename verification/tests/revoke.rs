//! Revoking verification credentials.

use verification::errors::DispatchError;
use verification::errors::Error;
use verification::events::HoldReason;
use verification::mock::generate_base_verification;
use verification::mock::ExtBuilder;
use verification::mock::MockAccessControl;
use verification::AttesterId;
use verification::ClaimHash;
use verification::CtypeHash;

const ALICE_SEED: [u8; 32] = [1u8; 32];
const BOB_SEED: [u8; 32] = [2u8; 32];
const CHARLIE_SEED: [u8; 32] = [3u8; 32];
const CLAIM_HASH_SEED_01: u64 = 1;
const ACCOUNT_00: u64 = 100;
const DEPOSIT: u64 = 10;
const CTYPE_HASH: CtypeHash = 77;

fn sr25519_did_from_public_key(seed: &[u8; 32]) -> AttesterId {
    seed[0] as AttesterId
}

fn claim_hash_from_seed(seed: u64) -> ClaimHash {
    seed
}

#[test]
fn test_revoke_remove() {
    let revoker: AttesterId = sr25519_did_from_public_key(&ALICE_SEED);
    let claim_hash = claim_hash_from_seed(CLAIM_HASH_SEED_01);
    let verification = generate_base_verification(CTYPE_HASH, revoker, ACCOUNT_00, DEPOSIT);

    let mut w = ExtBuilder::default()
        .with_deposit(DEPOSIT)
        .with_balances(vec![(ACCOUNT_00, DEPOSIT * 100)])
        .with_ctypes(vec![(verification.ctype_hash, revoker)])
        .with_verifications(vec![(claim_hash, verification)])
        .build();

    assert_eq!(
        w.pallet.revoke(revoker, claim_hash, None::<MockAccessControl>),
        Ok(())
    );
    let stored_verification = w
        .pallet
        .verifications(claim_hash)
        .expect("Verification should be present on chain.");

    assert!(stored_verification.revoked);
    assert_eq!(
        w.escrow.balance_on_hold(HoldReason::Deposit, ACCOUNT_00),
        DEPOSIT
    );

    assert_eq!(
        w.pallet.remove(
            revoker,
            claim_hash,
            None::<MockAccessControl>,
            &mut w.escrow,
            &mut w.tracker
        ),
        Ok(())
    );
    assert!(w.pallet.verifications(claim_hash).is_none());
    assert_eq!(w.escrow.balance_on_hold(HoldReason::Deposit, ACCOUNT_00), 0);
}

#[test]
fn test_authorized_revoke() {
    let attester: AttesterId = sr25519_did_from_public_key(&ALICE_SEED);
    let revoker: AttesterId = sr25519_did_from_public_key(&BOB_SEED);
    let claim_hash = claim_hash_from_seed(CLAIM_HASH_SEED_01);
    let authorization_info = Some(MockAccessControl(revoker));
    let mut verification = generate_base_verification(CTYPE_HASH, attester, ACCOUNT_00, DEPOSIT);
    verification.authorization_id = Some(revoker);

    let mut w = ExtBuilder::default()
        .with_deposit(DEPOSIT)
        .with_balances(vec![(ACCOUNT_00, DEPOSIT * 100)])
        .with_ctypes(vec![(verification.ctype_hash, attester)])
        .with_verifications(vec![(claim_hash, verification)])
        .build();

    assert_eq!(
        w.pallet.revoke(revoker, claim_hash, authorization_info),
        Ok(())
    );
    let stored_verification = w
        .pallet
        .verifications(claim_hash)
        .expect("Verification should be present on chain.");
    assert!(w.pallet.external_verifications(revoker, claim_hash));

    assert!(stored_verification.revoked);
    assert_eq!(
        w.escrow.balance_on_hold(HoldReason::Deposit, ACCOUNT_00),
        DEPOSIT
    );
}

#[test]
fn test_unauthorized_revoke() {
    let attester: AttesterId = sr25519_did_from_public_key(&ALICE_SEED);
    let revoker: AttesterId = sr25519_did_from_public_key(&BOB_SEED);
    let evil: AttesterId = sr25519_did_from_public_key(&CHARLIE_SEED);

    let claim_hash = claim_hash_from_seed(CLAIM_HASH_SEED_01);
    let authorization_info = Some(MockAccessControl(revoker));
    let mut verification = generate_base_verification(CTYPE_HASH, attester, ACCOUNT_00, DEPOSIT);
    verification.authorization_id = Some(revoker);

    let mut w = ExtBuilder::default()
        .with_deposit(DEPOSIT)
        .with_balances(vec![(ACCOUNT_00, DEPOSIT * 100)])
        .with_ctypes(vec![(verification.ctype_hash, attester)])
        .with_verifications(vec![(claim_hash, verification)])
        .build();

    assert_eq!(
        w.pallet.revoke(evil, claim_hash, authorization_info),
        Err(DispatchError::Unauthorized)
    );
}

#[test]
fn test_revoke_not_found() {
    let revoker: AttesterId = sr25519_did_from_public_key(&ALICE_SEED);
    let claim_hash = claim_hash_from_seed(CLAIM_HASH_SEED_01);
    let authorization_info = Some(MockAccessControl(revoker));
    let verification = generate_base_verification(CTYPE_HASH, revoker, ACCOUNT_00, DEPOSIT);

    let mut w = ExtBuilder::default()
        .with_deposit(DEPOSIT)
        .with_balances(vec![(ACCOUNT_00, DEPOSIT * 100)])
        .with_ctypes(vec![(verification.ctype_hash, revoker)])
        .build();

    assert_eq!(
        w.pallet.revoke(revoker, claim_hash, authorization_info),
        Err(DispatchError::Verification(Error::NotFound))
    );
}

#[test]
fn test_already_revoked() {
    let revoker: AttesterId = sr25519_did_from_public_key(&ALICE_SEED);
    let claim_hash = claim_hash_from_seed(CLAIM_HASH_SEED_01);
    let authorization_info = Some(MockAccessControl(revoker));

    // Verification already revoked
    let mut verification = generate_base_verification(CTYPE_HASH, revoker, ACCOUNT_00, DEPOSIT);
    verification.revoked = true;

    let mut w = ExtBuilder::default()
        .with_deposit(DEPOSIT)
        .with_balances(vec![(ACCOUNT_00, DEPOSIT * 100)])
        .with_ctypes(vec![(verification.ctype_hash, revoker)])
        .with_verifications(vec![(claim_hash, verification)])
        .build();

    assert_eq!(
        w.pallet.revoke(revoker, claim_hash, authorization_info),
        Err(DispatchError::Verification(Error::AlreadyRevoked))
    );
}
