//! Creating verification credentials.

use verification::errors::DispatchError;
use verification::errors::Error;
use verification::mock::ExtBuilder;
use verification::mock::MockAccessControl;
use verification::AttesterId;
use verification::ClaimHash;
use verification::CtypeHash;
use verification::VerificationAccessControl;

const ALICE_SEED: [u8; 32] = [1u8; 32];
const BOB_SEED: [u8; 32] = [2u8; 32];
const CLAIM_HASH_SEED_01: u64 = 1;
const ACCOUNT_00: u64 = 100;
const DEPOSIT: u64 = 10;

fn sr25519_did_from_public_key(seed: &[u8; 32]) -> AttesterId {
    seed[0] as AttesterId
}

fn claim_hash_from_seed(seed: u64) -> ClaimHash {
    seed
}

fn get_ctype_hash(registered: bool) -> CtypeHash {
    if registered {
        77
    } else {
        78
    }
}

#[test]
fn test_verify_without_authorization() {
    let attester: AttesterId = sr25519_did_from_public_key(&ALICE_SEED);
    let claim_hash = claim_hash_from_seed(CLAIM_HASH_SEED_01);
    let ctype_hash = get_ctype_hash(true);
    let authorization_info: Option<MockAccessControl> = None;

    let mut w = ExtBuilder::default()
        .with_deposit(DEPOSIT)
        .with_ctypes(vec![(ctype_hash, attester)])
        .with_balances(vec![(ACCOUNT_00, DEPOSIT * 100)])
        .build();

    assert_eq!(
        w.pallet.add(
            ACCOUNT_00,
            attester,
            claim_hash,
            ctype_hash,
            authorization_info,
            &w.ctypes,
            &mut w.escrow,
            &mut w.tracker
        ),
        Ok(())
    );
    let stored_verification = w
        .pallet
        .verifications(claim_hash)
        .expect("Verification should be present on chain.");

    assert_eq!(stored_verification.ctype_hash, ctype_hash);
    assert_eq!(stored_verification.attester, attester);
    assert_eq!(
        stored_verification.authorization_id,
        authorization_info.map(|ac| ac.authorization_id())
    );
    assert!(!stored_verification.revoked);
}

#[test]
fn test_verify_authorized() {
    let attester: AttesterId = sr25519_did_from_public_key(&ALICE_SEED);
    let claim_hash = claim_hash_from_seed(CLAIM_HASH_SEED_01);
    let ctype = get_ctype_hash(true);
    let authorization_info = Some(MockAccessControl(attester));

    let mut w = ExtBuilder::default()
        .with_deposit(DEPOSIT)
        .with_ctypes(vec![(ctype, attester)])
        .with_balances(vec![(ACCOUNT_00, DEPOSIT * 100)])
        .build();

    assert_eq!(
        w.pallet.add(
            ACCOUNT_00,
            attester,
            claim_hash,
            ctype,
            authorization_info,
            &w.ctypes,
            &mut w.escrow,
            &mut w.tracker
        ),
        Ok(())
    );
    let stored_verification = w
        .pallet
        .verifications(claim_hash)
        .expect("Verification should be present on chain.");
    assert!(w.pallet.external_verifications(attester, claim_hash));

    assert_eq!(stored_verification.ctype_hash, ctype);
    assert_eq!(stored_verification.attester, attester);
    assert_eq!(
        stored_verification.authorization_id,
        authorization_info.map(|ac| ac.authorization_id())
    );
    assert!(!stored_verification.revoked);
}

#[test]
fn test_verify_unauthorized() {
    let attester: AttesterId = sr25519_did_from_public_key(&ALICE_SEED);
    let bob: AttesterId = sr25519_did_from_public_key(&BOB_SEED);
    let claim_hash = claim_hash_from_seed(CLAIM_HASH_SEED_01);
    let ctype = get_ctype_hash(true);
    let authorization_info = Some(MockAccessControl(bob));

    let mut w = ExtBuilder::default()
        .with_deposit(DEPOSIT)
        .with_ctypes(vec![(ctype, attester)])
        .with_balances(vec![(ACCOUNT_00, DEPOSIT * 100)])
        .build();

    assert_eq!(
        w.pallet.add(
            ACCOUNT_00,
            attester,
            claim_hash,
            ctype,
            authorization_info,
            &w.ctypes,
            &mut w.escrow,
            &mut w.tracker
        ),
        Err(DispatchError::Unauthorized)
    );
}

#[test]
fn test_verify_ctype_not_found() {
    let attester: AttesterId = sr25519_did_from_public_key(&ALICE_SEED);
    let claim_hash = claim_hash_from_seed(CLAIM_HASH_SEED_01);
    let ctype_hash = get_ctype_hash(true);

    let mut w = ExtBuilder::default()
        .with_deposit(DEPOSIT)
        .with_balances(vec![(ACCOUNT_00, DEPOSIT * 100)])
        .build();

    assert_eq!(
        w.pallet.add(
            ACCOUNT_00,
            attester,
            claim_hash,
            ctype_hash,
            None::<MockAccessControl>,
            &w.ctypes,
            &mut w.escrow,
            &mut w.tracker
        ),
        Err(DispatchError::CTypeNotFound)
    );
    assert!(w.pallet.verifications(claim_hash).is_none());
}

#[test]
fn test_verify_already_exists() {
    let attester: AttesterId = sr25519_did_from_public_key(&ALICE_SEED);
    let claim_hash = claim_hash_from_seed(CLAIM_HASH_SEED_01);
    let verification = verification::mock::generate_base_verification(
        get_ctype_hash(true),
        attester,
        ACCOUNT_00,
        DEPOSIT,
    );

    let mut w = ExtBuilder::default()
        .with_deposit(DEPOSIT)
        .with_balances(vec![(ACCOUNT_00, DEPOSIT * 100)])
        .with_ctypes(vec![(verification.ctype_hash, attester)])
        .with_verifications(vec![(claim_hash, verification)])
        .build();

    assert_eq!(
        w.pallet.add(
            ACCOUNT_00,
            attester,
            claim_hash,
            verification.ctype_hash,
            None::<MockAccessControl>,
            &w.ctypes,
            &mut w.escrow,
            &mut w.tracker
        ),
        Err(DispatchError::Verification(Error::AlreadyVerified))
    );
}
