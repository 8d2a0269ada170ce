//! The access-control capability the registry consults for delegated
//! authorization. The registry depends only on this contract and stays
//! ignorant of how an implementation decides; implementations answer from a
//! delegation hierarchy of their own.

use vstd::prelude::*;

use crate::errors::DispatchError;
use crate::AttesterId;
use crate::AuthorizationId;
use crate::ClaimHash;
use crate::CtypeHash;
use crate::Weight;

verus! {

/// A capability that can authorize creating, revoking and removing
/// verification credentials. The `spec_*` functions fix what the checks
/// decide; every implementation proves its checks against them, so the
/// registry's contracts hold for any implementation.
pub trait VerificationAccessControl: Sized {
    /// What `authorization_id` returns.
    spec fn spec_authorization_id(&self) -> AuthorizationId;

    /// Whether `who` may attest `claim` under `ctype` with this capability.
    spec fn spec_can_attest(&self, who: AttesterId, ctype: CtypeHash, claim: ClaimHash) -> bool;

    /// Whether `who` may revoke `claim`, checked against the authorization
    /// the record was created under.
    spec fn spec_can_revoke(
        &self,
        who: AttesterId,
        ctype: CtypeHash,
        claim: ClaimHash,
        authorization_id: AuthorizationId,
    ) -> bool;

    /// Whether `who` may remove `claim`, checked against the authorization
    /// the record was created under.
    spec fn spec_can_remove(
        &self,
        who: AttesterId,
        ctype: CtypeHash,
        claim: ClaimHash,
        authorization_id: AuthorizationId,
    ) -> bool;

    /// The error this capability reports when it denies a check; the
    /// registry passes it on unchanged.
    spec fn spec_deny_error(&self) -> DispatchError;

    /// The identity under which records created with this capability are
    /// filed in the secondary index.
    fn authorization_id(&self) -> (r: AuthorizationId)
        ensures
            r == self.spec_authorization_id(),
    ;

    /// Check that `who` may attest `claim` under `ctype`; on success report
    /// the cost the check consumed.
    fn can_attest(&self, who: &AttesterId, ctype: &CtypeHash, claim: &ClaimHash) -> (r: Result<
        Weight,
        DispatchError,
    >)
        ensures
            r is Ok <==> self.spec_can_attest(*who, *ctype, *claim),
            r is Err ==> r == Err::<Weight, DispatchError>(self.spec_deny_error()),
    ;

    /// Check that `who` may revoke `claim` created under `authorization_id`;
    /// on success report the cost the check consumed.
    fn can_revoke(
        &self,
        who: &AttesterId,
        ctype: &CtypeHash,
        claim: &ClaimHash,
        authorization_id: &AuthorizationId,
    ) -> (r: Result<Weight, DispatchError>)
        ensures
            r is Ok <==> self.spec_can_revoke(*who, *ctype, *claim, *authorization_id),
            r is Err ==> r == Err::<Weight, DispatchError>(self.spec_deny_error()),
    ;

    /// Check that `who` may remove `claim` created under `authorization_id`;
    /// on success report the cost the check consumed.
    fn can_remove(
        &self,
        who: &AttesterId,
        ctype: &CtypeHash,
        claim: &ClaimHash,
        authorization_id: &AuthorizationId,
    ) -> (r: Result<Weight, DispatchError>)
        ensures
            r is Ok <==> self.spec_can_remove(*who, *ctype, *claim, *authorization_id),
            r is Err ==> r == Err::<Weight, DispatchError>(self.spec_deny_error()),
    ;

    /// An upper estimate of what an attest check will cost.
    fn can_attest_weight(&self) -> Weight;

    /// An upper estimate of what a revoke check will cost.
    fn can_revoke_weight(&self) -> Weight;

    /// An upper estimate of what a remove check will cost.
    fn can_remove_weight(&self) -> Weight;
}

} // verus!
