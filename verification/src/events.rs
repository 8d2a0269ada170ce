//! Events the registry appends on success, one per successful call, and the
//! reason under which its deposits are held.

use vstd::prelude::*;

use crate::AccountId;
use crate::AttesterId;
use crate::AuthorizationId;
use crate::ClaimHash;
use crate::CtypeHash;

verus! {

/// The reason a hold is placed in the escrow for.
#[derive(Clone, Copy, Debug, PartialEq, Eq)]
pub enum HoldReason {
    /// The storage deposit backing one verification record.
    Deposit,
}

/// What the registry announces after a successful call. The log is
/// append-only and ordered; a failed call emits nothing.
#[derive(Clone, Copy, Debug, PartialEq, Eq)]
pub enum Event {
    /// A new verification credential has been created:
    /// attester, claim hash, claim-type hash, optional authorization.
    VerificationCreated(AttesterId, ClaimHash, CtypeHash, Option<AuthorizationId>),
    /// A verification credential has been revoked: attester, claim hash.
    VerificationRevoked(AttesterId, ClaimHash),
    /// A verification credential has been removed: attester, claim hash.
    VerificationRemoved(AttesterId, ClaimHash),
    /// The deposit owner reclaimed a deposit by removing the record:
    /// owner, claim hash.
    DepositReclaimed(AccountId, ClaimHash),
}

} // verus!
