//! The record a verification credential is stored as.

use vstd::prelude::*;

use crate::AccountId;
use crate::AttesterId;
use crate::AuthorizationId;
use crate::Balance;
use crate::CtypeHash;

verus! {

/// Funds held for one record: who placed them and how much is held.
#[derive(Clone, Copy, Debug, PartialEq, Eq)]
pub struct Deposit {
    /// The account whose funds are held.
    pub owner: AccountId,
    /// The held amount.
    pub amount: Balance,
}

/// One verification credential, stored under its claim hash.
#[derive(Clone, Copy, Debug, PartialEq, Eq)]
pub struct VerificationDetails {
    /// The claim-type schema the credential conforms to.
    pub ctype_hash: CtypeHash,
    /// The identity that created and owns the attestation.
    pub attester: AttesterId,
    /// The delegated authorization the record was created under, if any.
    pub authorization_id: Option<AuthorizationId>,
    /// True once revoked; never reset to false.
    pub revoked: bool,
    /// The deposit currently backing the record.
    pub deposit: Deposit,
}

} // verus!
