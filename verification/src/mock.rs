//! Test support: a capability that answers from one configured identity,
//! a base record, and a builder that assembles a registry with its
//! collaborators from claim types, balances and pre-existing records.

use vstd::prelude::*;

use crate::access_control::VerificationAccessControl;
use crate::ctype::CtypeStore;
use crate::errors::DispatchError;
use crate::escrow::EscrowLedger;
use crate::migration::MigrationTracker;
use crate::pallet::deposits_consistent;
use crate::pallet::Pallet;
use crate::verifications::Deposit;
use crate::verifications::VerificationDetails;
use crate::AccountId;
use crate::AttesterId;
use crate::AuthorizationId;
use crate::Balance;
use crate::ClaimHash;
use crate::CtypeHash;
use crate::Weight;

verus! {

/// A capability bound to one identity: it authorizes attesting for that
/// identity alone, and revoking or removing only for that identity and
/// only when the record was created under it.
#[derive(Clone, Copy, Debug, PartialEq, Eq)]
pub struct MockAccessControl(pub AttesterId);

impl VerificationAccessControl for MockAccessControl {
    open spec fn spec_authorization_id(&self) -> AuthorizationId {
        self.0
    }

    open spec fn spec_can_attest(&self, who: AttesterId, ctype: CtypeHash, claim: ClaimHash) -> bool {
        who == self.0
    }

    open spec fn spec_can_revoke(
        &self,
        who: AttesterId,
        ctype: CtypeHash,
        claim: ClaimHash,
        authorization_id: AuthorizationId,
    ) -> bool {
        who == self.0 && authorization_id == self.0
    }

    open spec fn spec_can_remove(
        &self,
        who: AttesterId,
        ctype: CtypeHash,
        claim: ClaimHash,
        authorization_id: AuthorizationId,
    ) -> bool {
        who == self.0 && authorization_id == self.0
    }

    open spec fn spec_deny_error(&self) -> DispatchError {
        DispatchError::Unauthorized
    }

    fn authorization_id(&self) -> (r: AuthorizationId) {
        self.0
    }

    fn can_attest(&self, who: &AttesterId, ctype: &CtypeHash, claim: &ClaimHash) -> (r: Result<
        Weight,
        DispatchError,
    >) {
        if *who == self.0 {
            Ok(0)
        } else {
            Err(DispatchError::Unauthorized)
        }
    }

    fn can_revoke(
        &self,
        who: &AttesterId,
        ctype: &CtypeHash,
        claim: &ClaimHash,
        authorization_id: &AuthorizationId,
    ) -> (r: Result<Weight, DispatchError>) {
        if *who == self.0 && *authorization_id == self.0 {
            Ok(0)
        } else {
            Err(DispatchError::Unauthorized)
        }
    }

    fn can_remove(
        &self,
        who: &AttesterId,
        ctype: &CtypeHash,
        claim: &ClaimHash,
        authorization_id: &AuthorizationId,
    ) -> (r: Result<Weight, DispatchError>) {
        if *who == self.0 && *authorization_id == self.0 {
            Ok(0)
        } else {
            Err(DispatchError::Unauthorized)
        }
    }

    fn can_attest_weight(&self) -> Weight {
        0
    }

    fn can_revoke_weight(&self) -> Weight {
        0
    }

    fn can_remove_weight(&self) -> Weight {
        0
    }
}

/// A capability that represents a delegation: it is granted to one
/// subject, while the records it creates are filed under the delegation's
/// own identity. Revoking and removing through it is open to the grantee
/// alone, and only against records created under this delegation.
#[derive(Clone, Copy, Debug, PartialEq, Eq)]
pub struct DelegationAccessControl {
    /// The subject the delegation is granted to.
    pub grantee: AttesterId,
    /// The identity the delegation files records under.
    pub delegation_id: AuthorizationId,
}

impl VerificationAccessControl for DelegationAccessControl {
    open spec fn spec_authorization_id(&self) -> AuthorizationId {
        self.delegation_id
    }

    open spec fn spec_can_attest(&self, who: AttesterId, ctype: CtypeHash, claim: ClaimHash) -> bool {
        who == self.grantee
    }

    open spec fn spec_can_revoke(
        &self,
        who: AttesterId,
        ctype: CtypeHash,
        claim: ClaimHash,
        authorization_id: AuthorizationId,
    ) -> bool {
        who == self.grantee && authorization_id == self.delegation_id
    }

    open spec fn spec_can_remove(
        &self,
        who: AttesterId,
        ctype: CtypeHash,
        claim: ClaimHash,
        authorization_id: AuthorizationId,
    ) -> bool {
        who == self.grantee && authorization_id == self.delegation_id
    }

    open spec fn spec_deny_error(&self) -> DispatchError {
        DispatchError::Unauthorized
    }

    fn authorization_id(&self) -> (r: AuthorizationId) {
        self.delegation_id
    }

    fn can_attest(&self, who: &AttesterId, ctype: &CtypeHash, claim: &ClaimHash) -> (r: Result<
        Weight,
        DispatchError,
    >) {
        if *who == self.grantee {
            Ok(0)
        } else {
            Err(DispatchError::Unauthorized)
        }
    }

    fn can_revoke(
        &self,
        who: &AttesterId,
        ctype: &CtypeHash,
        claim: &ClaimHash,
        authorization_id: &AuthorizationId,
    ) -> (r: Result<Weight, DispatchError>) {
        if *who == self.grantee && *authorization_id == self.delegation_id {
            Ok(0)
        } else {
            Err(DispatchError::Unauthorized)
        }
    }

    fn can_remove(
        &self,
        who: &AttesterId,
        ctype: &CtypeHash,
        claim: &ClaimHash,
        authorization_id: &AuthorizationId,
    ) -> (r: Result<Weight, DispatchError>) {
        if *who == self.grantee && *authorization_id == self.delegation_id {
            Ok(0)
        } else {
            Err(DispatchError::Unauthorized)
        }
    }

    fn can_attest_weight(&self) -> Weight {
        0
    }

    fn can_revoke_weight(&self) -> Weight {
        0
    }

    fn can_remove_weight(&self) -> Weight {
        0
    }
}

/// A fresh, unrevoked record for `attester` over the given claim type,
/// with a deposit of `deposit` held by `payer` and no authorization.
pub fn generate_base_verification(
    ctype_hash: CtypeHash,
    attester: AttesterId,
    payer: AccountId,
    deposit: Balance,
) -> (r: VerificationDetails)
    ensures
        r == (VerificationDetails {
            ctype_hash,
            attester,
            authorization_id: None,
            revoked: false,
            deposit: Deposit { owner: payer, amount: deposit },
        }),
{
    VerificationDetails {
        ctype_hash,
        attester,
        authorization_id: None,
        revoked: false,
        deposit: Deposit { owner: payer, amount: deposit },
    }
}

/// A registry together with the collaborators its operations consult.
pub struct World {
    /// The registry itself.
    pub pallet: Pallet,
    /// The claim-type registry.
    pub ctypes: CtypeStore,
    /// The deposit escrow.
    pub escrow: EscrowLedger,
    /// The migration tracker.
    pub tracker: MigrationTracker,
}

impl World {
    /// Everything an operation requires of a world: the registry's
    /// invariant, the collaborators' invariants, and escrow conservation.
    pub open spec fn wf(&self) -> bool {
        &&& self.pallet.wf()
        &&& self.escrow.wf()
        &&& self.tracker.wf()
        &&& deposits_consistent(self.pallet.entries(), self.escrow, self.tracker)
    }
}

/// Assembles a world from claim types, balances and pre-existing records.
/// An entry that cannot be applied — a duplicate key, an owner without the
/// funds to back the deposit, a record without a positive deposit — is
/// skipped.
pub struct ExtBuilder {
    ctypes: Vec<(CtypeHash, AttesterId)>,
    balances: Vec<(AccountId, Balance)>,
    verifications: Vec<(ClaimHash, VerificationDetails)>,
    legacy_verifications: Vec<(ClaimHash, VerificationDetails)>,
    deposit_rate: Balance,
}

impl Default for ExtBuilder {
    /// An empty builder at a deposit rate of one.
    fn default() -> (r: Self)
        ensures
            r.spec_rate() == 1,
    {
        ExtBuilder {
            ctypes: Vec::new(),
            balances: Vec::new(),
            verifications: Vec::new(),
            legacy_verifications: Vec::new(),
            deposit_rate: 1,
        }
    }
}

impl ExtBuilder {
    /// The deposit rate the built registry will ask.
    pub closed spec fn spec_rate(&self) -> Balance {
        self.deposit_rate
    }

    /// Let the built registry ask this deposit for each new record.
    pub fn with_deposit(self, deposit_rate: Balance) -> (r: Self)
        requires
            deposit_rate > 0,
        ensures
            r.spec_rate() == deposit_rate,
    {
        ExtBuilder { deposit_rate, ..self }
    }

    /// Register these claim types, each under its creator.
    pub fn with_ctypes(self, ctypes: Vec<(CtypeHash, AttesterId)>) -> (r: Self)
        ensures
            r.spec_rate() == self.spec_rate(),
    {
        ExtBuilder { ctypes, ..self }
    }

    /// Give these accounts spendable funds.
    pub fn with_balances(self, balances: Vec<(AccountId, Balance)>) -> (r: Self)
        ensures
            r.spec_rate() == self.spec_rate(),
    {
        ExtBuilder { balances, ..self }
    }

    /// Restore these records, with their deposits held in the escrow.
    pub fn with_verifications(self, verifications: Vec<(ClaimHash, VerificationDetails)>) -> (r:
        Self)
        ensures
            r.spec_rate() == self.spec_rate(),
    {
        ExtBuilder { verifications, ..self }
    }

    /// Restore these records on the legacy accounting scheme, with their
    /// deposits reserved through the legacy path.
    pub fn with_legacy_verifications(
        self,
        legacy_verifications: Vec<(ClaimHash, VerificationDetails)>,
    ) -> (r: Self)
        ensures
            r.spec_rate() == self.spec_rate(),
    {
        ExtBuilder { legacy_verifications, ..self }
    }

    /// Build the world.
    pub fn build(self) -> (r: World)
        requires
            self.spec_rate() > 0,
        ensures
            r.wf(),
            r.pallet.rate() == self.spec_rate(),
    {
        let mut pallet = Pallet::new(self.deposit_rate);
        let mut ctypes = CtypeStore::new();
        let mut escrow = EscrowLedger::new();
        let mut tracker = MigrationTracker::new();
        proof {
            pallet.lemma_initial_consistency(&escrow, &tracker);
        }
        let n_ctypes = self.ctypes.len();
        let mut i: usize = 0;
        while i < n_ctypes
            invariant
                n_ctypes == self.ctypes@.len(),
                i <= n_ctypes,
            decreases n_ctypes - i,
        {
            let (hash, creator) = self.ctypes[i];
            ctypes.register(hash, creator);
            i += 1;
        }
        let ghost entries0 = pallet.entries();
        let n_balances = self.balances.len();
        let mut j: usize = 0;
        while j < n_balances
            invariant
                n_balances == self.balances@.len(),
                j <= n_balances,
                pallet.wf(),
                escrow.wf(),
                tracker.wf(),
                deposits_consistent(pallet.entries(), escrow, tracker),
                pallet.rate() == self.spec_rate(),
            decreases n_balances - j,
        {
            let ghost escrow0 = escrow;
            let (who, amount) = self.balances[j];
            let held = escrow.balance_on_hold(crate::events::HoldReason::Deposit, who);
            if amount <= Balance::MAX - held {
                escrow.endow(who, amount);
                proof {
                    assert forall|a: AccountId| #[trigger]
                        escrow.held_of(a) == escrow0.held_of(a) by {
                        if a != who {
                            assert(escrow.balance_of(a) == escrow0.balance_of(a));
                        }
                    }
                }
            }
            j += 1;
        }
        let n_verifications = self.verifications.len();
        let mut k: usize = 0;
        while k < n_verifications
            invariant
                n_verifications == self.verifications@.len(),
                k <= n_verifications,
                pallet.wf(),
                escrow.wf(),
                tracker.wf(),
                deposits_consistent(pallet.entries(), escrow, tracker),
                pallet.rate() == self.spec_rate(),
            decreases n_verifications - k,
        {
            let (claim_hash, details) = self.verifications[k];
            if details.deposit.amount > 0 {
                pallet.insert_genesis_verification(
                    claim_hash,
                    details,
                    false,
                    &mut escrow,
                    &mut tracker,
                );
            }
            k += 1;
        }
        let n_legacy = self.legacy_verifications.len();
        let mut l: usize = 0;
        while l < n_legacy
            invariant
                n_legacy == self.legacy_verifications@.len(),
                l <= n_legacy,
                pallet.wf(),
                escrow.wf(),
                tracker.wf(),
                deposits_consistent(pallet.entries(), escrow, tracker),
                pallet.rate() == self.spec_rate(),
            decreases n_legacy - l,
        {
            let (claim_hash, details) = self.legacy_verifications[l];
            if details.deposit.amount > 0 {
                pallet.insert_genesis_verification(
                    claim_hash,
                    details,
                    true,
                    &mut escrow,
                    &mut tracker,
                );
            }
            l += 1;
        }
        World { pallet, ctypes, escrow, tracker }
    }
}

} // verus!
