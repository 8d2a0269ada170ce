//! Typed errors. Every precondition violation is detected before any
//! mutation and returned as one of these; collaborator errors are carried
//! through unchanged.

use vstd::prelude::*;

verus! {

/// The registry's own errors.
#[derive(Clone, Copy, Debug, PartialEq, Eq)]
pub enum Error {
    /// A record with the same claim hash is already stored.
    AlreadyVerified,
    /// The record has already been revoked.
    AlreadyRevoked,
    /// No record matches the claim hash.
    NotFound,
    /// The record's claim type does not match the one required by the
    /// delegation hierarchy. Declared for completeness; no operation
    /// currently returns it.
    CTypeMismatch,
    /// The caller is not authorized to change the record.
    NotAuthorized,
    /// The maximum number of delegated credentials for one delegation has
    /// been reached. Declared for completeness; no operation currently
    /// returns it.
    MaxDelegatedVerificationsExceeded,
}

/// Errors of the deposit escrow.
#[derive(Clone, Copy, Debug, PartialEq, Eq)]
pub enum TokenError {
    /// The payer's free balance does not cover the amount to hold.
    FundsUnavailable,
}

/// What a registry operation can fail with: its own errors, or an error of
/// one of the collaborators it consulted, passed on as the collaborator
/// reported it.
#[derive(Clone, Copy, Debug, PartialEq, Eq)]
pub enum DispatchError {
    /// An error of the verification registry itself.
    Verification(Error),
    /// The claim-type registry does not know the given claim type.
    CTypeNotFound,
    /// An error of the deposit escrow.
    Token(TokenError),
    /// A denial reported by an access-control capability.
    Unauthorized,
}

} // verus!
