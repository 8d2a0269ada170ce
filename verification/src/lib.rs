//! A verification-credential registry: a keyed store of attestations over
//! claims, each backed by an escrowed storage deposit and optionally by a
//! delegated authorization.
//!
//! The registry owns the record store and a secondary index from
//! authorization identities to the claims they were used to attest. Deposit
//! escrow, migration tracking, claim-type lookup and access-control
//! capabilities are collaborators: the registry calls them through explicit
//! state handles and never mutates anything else in place.

pub mod access_control;
pub mod chain_spec;
pub mod ctype;
pub mod errors;
pub mod escrow;
pub mod events;
pub mod migration;
pub mod mock;
pub mod pallet;
pub mod store;
pub mod verifications;

pub use crate::access_control::VerificationAccessControl;
pub use crate::errors::DispatchError;
pub use crate::errors::Error;
pub use crate::errors::TokenError;
pub use crate::events::Event;
pub use crate::events::HoldReason;
pub use crate::pallet::Pallet;
pub use crate::verifications::Deposit;
pub use crate::verifications::VerificationDetails;

use vstd::prelude::*;

verus! {

/// Identifier of a claim: the registry treats the hash as an opaque key.
pub type ClaimHash = u64;

/// Identifier of a claim-type schema.
pub type CtypeHash = u64;

/// Identity of an attester.
pub type AttesterId = u64;

/// Identity under which a delegated authorization is recorded.
pub type AuthorizationId = u64;

/// Identity of an account that can pay and own deposits.
pub type AccountId = u64;

/// An amount of currency.
pub type Balance = u64;

/// A resource-cost estimate reported by a capability check.
pub type Weight = u64;

} // verus!
