//! The verification registry: the keyed record store, its lifecycle
//! operations, the secondary index for delegated authorizations, and the
//! deposit bookkeeping that ties each record to the escrow.
//!
//! Every operation validates all its preconditions before it mutates
//! anything, so a call that returns an error leaves the record store, the
//! secondary index, the escrow and the migration tracker exactly as they
//! were.

use vstd::prelude::*;

use crate::access_control::VerificationAccessControl;
use crate::ctype::CtypeStore;
use crate::errors::DispatchError;
use crate::errors::Error;
use crate::errors::TokenError;
use crate::escrow::EscrowLedger;
use crate::events::Event;
use crate::events::HoldReason;
use crate::migration::MigrationTracker;
use crate::store::keys_unique;
use crate::store::lemma_lookup_absent;
use crate::store::lemma_lookup_at;
use crate::store::lemma_lookup_push;
use crate::store::lemma_lookup_remove;
use crate::store::lemma_lookup_update;
use crate::store::lookup;
use crate::store::map_of;
use crate::verifications::Deposit;
use crate::verifications::VerificationDetails;
use crate::AccountId;
use crate::AttesterId;
use crate::AuthorizationId;
use crate::Balance;
use crate::ClaimHash;
use crate::CtypeHash;

verus! {

/// What one record contributes to an account's funds under one accounting
/// scheme: its deposit amount if the owner and the scheme match, else
/// nothing.
pub open spec fn deposit_contrib(
    e: (ClaimHash, VerificationDetails),
    t: MigrationTracker,
    owner: AccountId,
    migrated: bool,
) -> int {
    if e.1.deposit.owner == owner && t.migrated(e.0) == migrated {
        e.1.deposit.amount as int
    } else {
        0
    }
}

/// The funds the records owe `owner` under one accounting scheme: the sum
/// of the deposits owned by `owner` whose keys the tracker puts on that
/// scheme.
pub open spec fn deposit_sum(
    s: Seq<(ClaimHash, VerificationDetails)>,
    t: MigrationTracker,
    owner: AccountId,
    migrated: bool,
) -> int
    decreases s.len(),
{
    if s.len() == 0 {
        0
    } else {
        deposit_sum(s.drop_last(), t, owner, migrated) + deposit_contrib(s.last(), t, owner, migrated)
    }
}

/// Escrow conservation: for every account, the escrow holds exactly the
/// deposits of the records that account owns under the current scheme, and
/// the legacy bookkeeping reserves exactly the deposits of the records it
/// owns under the legacy scheme.
pub open spec fn deposits_consistent(
    s: Seq<(ClaimHash, VerificationDetails)>,
    e: EscrowLedger,
    t: MigrationTracker,
) -> bool {
    &&& forall|a: AccountId| #[trigger] e.held_of(a) == deposit_sum(s, t, a, true)
    &&& forall|a: AccountId| #[trigger] t.legacy_of(a) == deposit_sum(s, t, a, false)
}

/// Appending a record adds exactly its contribution.
proof fn lemma_sum_push(
    s: Seq<(ClaimHash, VerificationDetails)>,
    t: MigrationTracker,
    e: (ClaimHash, VerificationDetails),
    owner: AccountId,
    migrated: bool,
)
    ensures
        deposit_sum(s.push(e), t, owner, migrated) == deposit_sum(s, t, owner, migrated)
            + deposit_contrib(e, t, owner, migrated),
{
    assert(s.push(e).drop_last() =~= s);
}

/// Replacing the record at `i` swaps its contribution for the new one.
proof fn lemma_sum_update(
    s: Seq<(ClaimHash, VerificationDetails)>,
    t: MigrationTracker,
    i: int,
    e: (ClaimHash, VerificationDetails),
    owner: AccountId,
    migrated: bool,
)
    requires
        0 <= i < s.len(),
    ensures
        deposit_sum(s.update(i, e), t, owner, migrated) == deposit_sum(s, t, owner, migrated)
            - deposit_contrib(s[i], t, owner, migrated) + deposit_contrib(e, t, owner, migrated),
    decreases s.len(),
{
    let u = s.update(i, e);
    if i == s.len() - 1 {
        assert(u.drop_last() =~= s.drop_last());
        assert(u.last() == e);
    } else {
        assert(u.drop_last() =~= s.drop_last().update(i, e));
        assert(s.drop_last()[i] == s[i]);
        lemma_sum_update(s.drop_last(), t, i, e, owner, migrated);
        assert(u.last() == s.last());
    }
}

/// Removing the record at `i` takes exactly its contribution away.
proof fn lemma_sum_remove(
    s: Seq<(ClaimHash, VerificationDetails)>,
    t: MigrationTracker,
    i: int,
    owner: AccountId,
    migrated: bool,
)
    requires
        0 <= i < s.len(),
    ensures
        deposit_sum(s.remove(i), t, owner, migrated) == deposit_sum(s, t, owner, migrated)
            - deposit_contrib(s[i], t, owner, migrated),
    decreases s.len(),
{
    let u = s.remove(i);
    if i == s.len() - 1 {
        assert(u =~= s.drop_last());
    } else {
        assert(u.drop_last() =~= s.drop_last().remove(i));
        assert(s.drop_last()[i] == s[i]);
        lemma_sum_remove(s.drop_last(), t, i, owner, migrated);
        assert(u.last() == s.last());
    }
}

/// Two trackers that agree on every stored key yield the same sums.
proof fn lemma_sum_agree(
    s: Seq<(ClaimHash, VerificationDetails)>,
    t1: MigrationTracker,
    t2: MigrationTracker,
    owner: AccountId,
    migrated: bool,
)
    requires
        forall|j: int| 0 <= j < s.len() ==> t1.migrated((#[trigger] s[j]).0) == t2.migrated(s[j].0),
    ensures
        deposit_sum(s, t2, owner, migrated) == deposit_sum(s, t1, owner, migrated),
    decreases s.len(),
{
    if s.len() > 0 {
        assert(forall|j: int|
            0 <= j < s.drop_last().len() ==> t1.migrated((#[trigger] s.drop_last()[j]).0)
                == t2.migrated(s.drop_last()[j].0));
        lemma_sum_agree(s.drop_last(), t1, t2, owner, migrated);
        assert(t1.migrated(s.last().0) == t2.migrated(s.last().0));
    }
}

/// A tracker change at one stored key swaps that record's contribution,
/// provided keys are unique.
proof fn lemma_sum_retrack(
    s: Seq<(ClaimHash, VerificationDetails)>,
    t1: MigrationTracker,
    t2: MigrationTracker,
    i: int,
    owner: AccountId,
    migrated: bool,
)
    requires
        keys_unique(s),
        0 <= i < s.len(),
        forall|k: ClaimHash| k != s[i].0 ==> t1.migrated(k) == t2.migrated(k),
    ensures
        deposit_sum(s, t2, owner, migrated) == deposit_sum(s, t1, owner, migrated)
            - deposit_contrib(s[i], t1, owner, migrated) + deposit_contrib(s[i], t2, owner, migrated),
    decreases s.len(),
{
    if i == s.len() - 1 {
        assert(forall|j: int|
            0 <= j < s.drop_last().len() ==> t1.migrated((#[trigger] s.drop_last()[j]).0)
                == t2.migrated(s.drop_last()[j].0));
        lemma_sum_agree(s.drop_last(), t1, t2, owner, migrated);
    } else {
        assert(s.drop_last()[i] == s[i]);
        lemma_sum_retrack(s.drop_last(), t1, t2, i, owner, migrated);
        assert(s.last().0 != s[i].0);
        assert(t1.migrated(s.last().0) == t2.migrated(s.last().0));
    }
}

/// Every contribution is at least zero, so the sum is too.
proof fn lemma_sum_nonneg(
    s: Seq<(ClaimHash, VerificationDetails)>,
    t: MigrationTracker,
    owner: AccountId,
    migrated: bool,
)
    ensures
        0 <= deposit_sum(s, t, owner, migrated),
    decreases s.len(),
{
    if s.len() > 0 {
        lemma_sum_nonneg(s.drop_last(), t, owner, migrated);
    }
}

/// One record's contribution never exceeds the whole sum.
proof fn lemma_sum_entry(
    s: Seq<(ClaimHash, VerificationDetails)>,
    t: MigrationTracker,
    i: int,
    owner: AccountId,
    migrated: bool,
)
    requires
        0 <= i < s.len(),
    ensures
        deposit_contrib(s[i], t, owner, migrated) <= deposit_sum(s, t, owner, migrated),
    decreases s.len(),
{
    if i == s.len() - 1 {
        lemma_sum_nonneg(s.drop_last(), t, owner, migrated);
    } else {
        assert(s.drop_last()[i] == s[i]);
        lemma_sum_entry(s.drop_last(), t, i, owner, migrated);
        assert(deposit_contrib(s.last(), t, owner, migrated) >= 0);
    }
}

/// The authorization identity an optional capability would file a record
/// under.
pub open spec fn auth_id_of<A: VerificationAccessControl>(authorization: Option<A>) -> Option<
    AuthorizationId,
> {
    match authorization {
        Some(ac) => Some(ac.spec_authorization_id()),
        None => None,
    }
}

/// Whether creating is authorized: always without a capability, else by the
/// capability's attest check.
pub open spec fn attest_allowed<A: VerificationAccessControl>(
    authorization: Option<A>,
    who: AttesterId,
    ctype: CtypeHash,
    claim: ClaimHash,
) -> bool {
    match authorization {
        Some(ac) => ac.spec_can_attest(who, ctype, claim),
        None => true,
    }
}

/// Whether revoking the stored record `d` is authorized: the attester may
/// always; anyone else needs a capability whose revoke check passes against
/// the authorization identity stored in the record.
pub open spec fn revoke_allowed<A: VerificationAccessControl>(
    authorization: Option<A>,
    who: AttesterId,
    d: VerificationDetails,
    claim: ClaimHash,
) -> bool {
    who == d.attester || match (d.authorization_id, authorization) {
        (Some(a), Some(ac)) => ac.spec_can_revoke(who, d.ctype_hash, claim, a),
        _ => false,
    }
}

/// Whether removing the stored record `d` is authorized, under the same
/// rule as revoking but with the capability's remove check.
pub open spec fn remove_allowed<A: VerificationAccessControl>(
    authorization: Option<A>,
    who: AttesterId,
    d: VerificationDetails,
    claim: ClaimHash,
) -> bool {
    who == d.attester || match (d.authorization_id, authorization) {
        (Some(a), Some(ac)) => ac.spec_can_remove(who, d.ctype_hash, claim, a),
        _ => false,
    }
}

/// Authorization symmetry, the granting half: an attester may always
/// revoke and remove their own record, with or without a capability.
pub proof fn lemma_self_attester_allowed<A: VerificationAccessControl>(
    authorization: Option<A>,
    who: AttesterId,
    d: VerificationDetails,
    claim: ClaimHash,
)
    requires
        who == d.attester,
    ensures
        revoke_allowed(authorization, who, d, claim),
        remove_allowed(authorization, who, d, claim),
{
}

/// Authorization symmetry, the denying half: anyone who is not the
/// attester is allowed in only through a capability, and only when its
/// check passes against the authorization identity stored in the record —
/// never one of the caller's choosing.
pub proof fn lemma_non_attester_needs_capability<A: VerificationAccessControl>(
    authorization: Option<A>,
    who: AttesterId,
    d: VerificationDetails,
    claim: ClaimHash,
)
    requires
        who != d.attester,
        revoke_allowed(authorization, who, d, claim) || remove_allowed(
            authorization,
            who,
            d,
            claim,
        ),
    ensures
        d.authorization_id is Some,
        authorization is Some,
        revoke_allowed(authorization, who, d, claim) ==> (authorization matches Some(ac)
            && ac.spec_can_revoke(who, d.ctype_hash, claim, d.authorization_id->Some_0)),
        remove_allowed(authorization, who, d, claim) ==> (authorization matches Some(ac)
            && ac.spec_can_remove(who, d.ctype_hash, claim, d.authorization_id->Some_0)),
{
}

/// Replacing a record by one with the same key and the same authorization
/// identity keeps the secondary index consistent with the store.
proof fn lemma_index_consistent_update(
    v: Seq<(ClaimHash, VerificationDetails)>,
    x: Seq<(AuthorizationId, ClaimHash)>,
    i: int,
    e: (ClaimHash, VerificationDetails),
)
    requires
        keys_unique(v),
        0 <= i < v.len(),
        e.0 == v[i].0,
        e.1.authorization_id == v[i].1.authorization_id,
        forall|j: int|
            0 <= j < x.len() ==> match lookup(v, (#[trigger] x[j]).1) {
                Some(d) => d.authorization_id == Some(x[j].0),
                None => false,
            },
        forall|j: int|
            0 <= j < v.len() ==> match (#[trigger] v[j]).1.authorization_id {
                Some(a) => x.contains((a, v[j].0)),
                None => true,
            },
    ensures
        forall|j: int|
            0 <= j < x.len() ==> match lookup(v.update(i, e), (#[trigger] x[j]).1) {
                Some(d) => d.authorization_id == Some(x[j].0),
                None => false,
            },
        forall|j: int|
            0 <= j < v.update(i, e).len() ==> match (#[trigger] v.update(
                i,
                e,
            )[j]).1.authorization_id {
                Some(a) => v.update(i, e)[j].0 == v[j].0 && x.contains((a, v.update(i, e)[j].0)),
                None => true,
            },
{
    let u = v.update(i, e);
    lemma_lookup_update(v, i, e);
    assert(lookup(v, v[i].0) == Some(v[i].1)) by {
        lemma_lookup_at(v, i);
    }
    assert forall|j: int| 0 <= j < x.len() implies match lookup(u, (#[trigger] x[j]).1) {
        Some(d) => d.authorization_id == Some(x[j].0),
        None => false,
    } by {
        if x[j].1 == e.0 {
            assert(lookup(u, x[j].1) == Some(e.1));
        } else {
            assert(lookup(u, x[j].1) == lookup(v, x[j].1));
        }
    }
    assert forall|j: int| 0 <= j < u.len() implies match (#[trigger] u[j]).1.authorization_id {
        Some(a) => u[j].0 == v[j].0 && x.contains((a, u[j].0)),
        None => true,
    } by {
        if j != i {
            assert(u[j] == v[j]);
        }
    }
}

/// The verification registry. It exclusively owns the record store, the
/// secondary index and the event log; the escrow, the migration tracker and
/// the claim-type registry are shared collaborators handed to each
/// operation.
pub struct Pallet {
    verifications: Vec<(ClaimHash, VerificationDetails)>,
    external_verifications: Vec<(AuthorizationId, ClaimHash)>,
    events: Vec<Event>,
    deposit_rate: Balance,
}

impl Pallet {
    /// The stored records, in storage order.
    pub closed spec fn entries(&self) -> Seq<(ClaimHash, VerificationDetails)> {
        self.verifications@
    }

    /// The stored records as a map from claim hash to record.
    pub open spec fn records(&self) -> Map<ClaimHash, VerificationDetails> {
        map_of(self.entries())
    }

    /// The secondary index: the pairs of authorization identity and claim
    /// hash a record was created under.
    pub closed spec fn delegated(&self) -> Set<(AuthorizationId, ClaimHash)> {
        Set::new(|p: (AuthorizationId, ClaimHash)| self.external_verifications@.contains(p))
    }

    /// The events emitted so far, in order.
    pub closed spec fn log(&self) -> Seq<Event> {
        self.events@
    }

    /// The deposit the protocol currently asks for a record.
    pub closed spec fn rate(&self) -> Balance {
        self.deposit_rate
    }

    /// The registry's internal invariant: record keys are unique, deposits
    /// are positive, the deposit rate is positive, and the secondary index
    /// holds a pair exactly once, exactly for the stored records that carry
    /// the pair's authorization identity.
    pub closed spec fn wf(&self) -> bool {
        let v = self.verifications@;
        let x = self.external_verifications@;
        &&& keys_unique(v)
        &&& self.deposit_rate > 0
        &&& forall|i: int| 0 <= i < v.len() ==> (#[trigger] v[i]).1.deposit.amount > 0
        &&& forall|i: int, j: int| 0 <= i < j < x.len() ==> #[trigger] x[i] != #[trigger] x[j]
        &&& forall|i: int|
            0 <= i < x.len() ==> match lookup(v, (#[trigger] x[i]).1) {
                Some(d) => d.authorization_id == Some(x[i].0),
                None => false,
            }
        &&& forall|i: int|
            0 <= i < v.len() ==> match (#[trigger] v[i]).1.authorization_id {
                Some(a) => x.contains((a, v[i].0)),
                None => true,
            }
    }

    /// The secondary index files a claim under an authorization identity
    /// exactly when a record is stored for the claim and was created under
    /// that identity.
    pub proof fn lemma_index_consistency(&self)
        requires
            self.wf(),
        ensures
            forall|a: AuthorizationId, c: ClaimHash|
                #[trigger] self.delegated().contains((a, c)) <==> (self.records().contains_key(c)
                    && self.records()[c].authorization_id == Some(a)),
    {
        let v = self.verifications@;
        let x = self.external_verifications@;
        assert forall|a: AuthorizationId, c: ClaimHash| #[trigger]
            self.delegated().contains((a, c)) <==> (self.records().contains_key(c)
                && self.records()[c].authorization_id == Some(a)) by {
            if self.delegated().contains((a, c)) {
                let j = choose|j: int| 0 <= j < x.len() && x[j] == (a, c);
                assert(match lookup(v, x[j].1) {
                    Some(d) => d.authorization_id == Some(x[j].0),
                    None => false,
                });
            }
            if self.records().contains_key(c) && self.records()[c].authorization_id == Some(a) {
                crate::store::lemma_lookup_index(v, c);
                let i = choose|i: int|
                    0 <= i < v.len() && #[trigger] v[i] == (c, lookup(v, c)->Some_0);
                assert(match v[i].1.authorization_id {
                    Some(aa) => x.contains((aa, v[i].0)),
                    None => true,
                });
            }
        }
    }

    /// Every stored record is backed by a positive deposit.
    pub proof fn lemma_deposits_positive(&self)
        requires
            self.wf(),
        ensures
            forall|c: ClaimHash|
                #[trigger] self.records().contains_key(c) ==> self.records()[c].deposit.amount
                    > 0,
    {
        let v = self.verifications@;
        assert forall|c: ClaimHash| #[trigger]
            self.records().contains_key(c) implies self.records()[c].deposit.amount > 0 by {
            crate::store::lemma_lookup_index(v, c);
            let i = choose|i: int| 0 <= i < v.len() && #[trigger] v[i] == (c, lookup(v, c)->Some_0);
            assert(v[i].1.deposit.amount > 0);
        }
    }

    /// An empty registry asking the given deposit for each new record.
    pub fn new(deposit_rate: Balance) -> (r: Self)
        requires
            deposit_rate > 0,
        ensures
            r.wf(),
            r.entries() =~= Seq::<(ClaimHash, VerificationDetails)>::empty(),
            r.records() =~= Map::<ClaimHash, VerificationDetails>::empty(),
            r.delegated() =~= Set::<(AuthorizationId, ClaimHash)>::empty(),
            r.log() =~= Seq::<Event>::empty(),
            r.rate() == deposit_rate,
    {
        Pallet {
            verifications: Vec::new(),
            external_verifications: Vec::new(),
            events: Vec::new(),
            deposit_rate,
        }
    }

    /// A registry with no records owes nothing to any account, so it is
    /// consistent with an escrow that holds nothing and a tracker that
    /// reserves nothing.
    pub proof fn lemma_initial_consistency(&self, e: &EscrowLedger, t: &MigrationTracker)
        requires
            self.entries() =~= Seq::<(ClaimHash, VerificationDetails)>::empty(),
            forall|a: AccountId| #[trigger] e.held_of(a) == 0,
            forall|a: AccountId| #[trigger] t.legacy_of(a) == 0,
        ensures
            deposits_consistent(self.entries(), *e, *t),
    {
    }

    /// The current deposit rate.
    pub fn deposit_rate(&self) -> (r: Balance)
        ensures
            r == self.rate(),
    {
        self.deposit_rate
    }

    /// Set the deposit rate, as the surrounding system does when the
    /// protocol's deposit parameter changes. Stored records keep their
    /// amounts until their deposit is updated.
    pub fn set_deposit_rate(&mut self, deposit_rate: Balance)
        requires
            old(self).wf(),
            deposit_rate > 0,
        ensures
            final(self).wf(),
            final(self).rate() == deposit_rate,
            final(self).entries() == old(self).entries(),
            final(self).delegated() == old(self).delegated(),
            final(self).log() == old(self).log(),
    {
        self.deposit_rate = deposit_rate;
    }

    /// The record stored under `claim_hash`, if any.
    pub fn verifications(&self, claim_hash: ClaimHash) -> (r: Option<VerificationDetails>)
        requires
            self.wf(),
        ensures
            r == if self.records().contains_key(claim_hash) {
                Some(self.records()[claim_hash])
            } else {
                None::<VerificationDetails>
            },
    {
        match self.find_record(claim_hash) {
            Some((_, d)) => Some(d),
            None => None,
        }
    }

    /// Whether the secondary index files `claim_hash` under the
    /// authorization identity `authorization_id`.
    pub fn external_verifications(&self, authorization_id: AuthorizationId, claim_hash: ClaimHash)
        -> (r: bool)
        ensures
            r == self.delegated().contains((authorization_id, claim_hash)),
    {
        match self.find_delegated(authorization_id, claim_hash) {
            Some(_) => true,
            None => false,
        }
    }

    /// The events emitted so far.
    pub fn events(&self) -> (r: &Vec<Event>)
        ensures
            r@ == self.log(),
    {
        &self.events
    }

    /// The position and copy of the record stored under `claim_hash`.
    fn find_record(&self, claim_hash: ClaimHash) -> (r: Option<(usize, VerificationDetails)>)
        requires
            self.wf(),
        ensures
            match r {
                Some((i, d)) => i < self.entries().len() && self.entries()[i as int] == (
                    claim_hash,
                    d,
                ) && lookup(self.entries(), claim_hash) == Some(d) && self.records().contains_key(
                    claim_hash,
                ) && self.records()[claim_hash] == d,
                None => lookup(self.entries(), claim_hash) is None && !self.records().contains_key(
                    claim_hash,
                ) && forall|j: int|
                    0 <= j < self.entries().len() ==> (#[trigger] self.entries()[j]).0
                        != claim_hash,
            },
    {
        let n = self.verifications.len();
        let mut i: usize = 0;
        while i < n
            invariant
                n == self.verifications@.len(),
                i <= n,
                self.wf(),
                forall|j: int| 0 <= j < i ==> (#[trigger] self.verifications@[j]).0 != claim_hash,
            decreases n - i,
        {
            if self.verifications[i].0 == claim_hash {
                proof {
                    lemma_lookup_at(self.verifications@, i as int);
                }
                return Some((i, self.verifications[i].1));
            }
            i += 1;
        }
        proof {
            lemma_lookup_absent(self.verifications@, claim_hash);
        }
        None
    }

    /// Create a new verification credential under `claim_hash`.
    ///
    /// The claim type must be registered and no record may exist under the
    /// claim hash yet. A capability, if supplied, must pass its attest
    /// check, and the record is then also filed in the secondary index
    /// under the capability's authorization identity. On success a deposit
    /// at the current rate is collected from `payer`, the new key is taken
    /// out of the legacy migration path, and a `VerificationCreated` event
    /// is emitted. A failed call leaves every piece of state unchanged.
    pub fn add<A: VerificationAccessControl>(
        &mut self,
        payer: AccountId,
        who: AttesterId,
        claim_hash: ClaimHash,
        ctype_hash: CtypeHash,
        authorization: Option<A>,
        ctypes: &CtypeStore,
        escrow: &mut EscrowLedger,
        tracker: &mut MigrationTracker,
    ) -> (r: Result<(), DispatchError>)
        requires
            old(self).wf(),
            old(escrow).wf(),
            old(tracker).wf(),
            deposits_consistent(old(self).entries(), *old(escrow), *old(tracker)),
        ensures
            final(self).wf(),
            final(escrow).wf(),
            final(tracker).wf(),
            deposits_consistent(final(self).entries(), *final(escrow), *final(tracker)),
            r is Ok <==> ctypes.knows(ctype_hash) && !old(self).records().contains_key(claim_hash)
                && attest_allowed(authorization, who, ctype_hash, claim_hash) && old(self).rate()
                <= old(escrow).free_of(payer),
            !ctypes.knows(ctype_hash) ==> r == Err::<(), DispatchError>(
                DispatchError::CTypeNotFound,
            ),
            ctypes.knows(ctype_hash) && old(self).records().contains_key(claim_hash) ==> r
                == Err::<(), DispatchError>(DispatchError::Verification(Error::AlreadyVerified)),
            ctypes.knows(ctype_hash) && !old(self).records().contains_key(claim_hash)
                && !attest_allowed(authorization, who, ctype_hash, claim_hash) ==> (authorization
                matches Some(ac) && r == Err::<(), DispatchError>(ac.spec_deny_error())),
            ctypes.knows(ctype_hash) && !old(self).records().contains_key(claim_hash)
                && attest_allowed(authorization, who, ctype_hash, claim_hash) && old(self).rate()
                > old(escrow).free_of(payer) ==> r == Err::<(), DispatchError>(
                DispatchError::Token(TokenError::FundsUnavailable),
            ),
            r is Err ==> *final(self) == *old(self) && *final(escrow) == *old(escrow)
                && *final(tracker) == *old(tracker),
            r is Ok ==> final(self).entries() == old(self).entries().push(
                (
                    claim_hash,
                    VerificationDetails {
                        ctype_hash,
                        attester: who,
                        authorization_id: auth_id_of(authorization),
                        revoked: false,
                        deposit: Deposit { owner: payer, amount: old(self).rate() },
                    },
                ),
            ),
            r is Ok ==> final(self).records() == old(self).records().insert(
                claim_hash,
                VerificationDetails {
                    ctype_hash,
                    attester: who,
                    authorization_id: auth_id_of(authorization),
                    revoked: false,
                    deposit: Deposit { owner: payer, amount: old(self).rate() },
                },
            ),
            r is Ok ==> final(self).delegated() == match auth_id_of(authorization) {
                Some(a) => old(self).delegated().insert((a, claim_hash)),
                None => old(self).delegated(),
            },
            r is Ok ==> final(self).log() == old(self).log().push(
                Event::VerificationCreated(who, claim_hash, ctype_hash, auth_id_of(authorization)),
            ),
            final(self).rate() == old(self).rate(),
            r is Ok ==> final(escrow).free_of(payer) == old(escrow).free_of(payer) - old(self).rate()
                && final(escrow).held_of(payer) == old(escrow).held_of(payer) + old(self).rate()
                && forall|b: AccountId|
                b != payer ==> final(escrow).balance_of(b) == old(escrow).balance_of(b),
            r is Ok ==> final(tracker).migrated(claim_hash) && (forall|k: ClaimHash|
                k != claim_hash ==> final(tracker).migrated(k) == old(tracker).migrated(k))
                && forall|a: AccountId|
                final(tracker).legacy_of(a) == old(tracker).legacy_of(a),
            forall|k: ClaimHash|
                #![trigger final(self).records().contains_key(k)]
                old(self).records().contains_key(k) && final(self).records().contains_key(k)
                    && old(self).records()[k].revoked ==> final(self).records()[k].revoked,
    {
        if !ctypes.contains_key(ctype_hash) {
            return Err(DispatchError::CTypeNotFound);
        }
        match self.find_record(claim_hash) {
            Some(_) => {
                return Err(DispatchError::Verification(Error::AlreadyVerified));
            },
            None => {},
        }
        match &authorization {
            Some(ac) => {
                match ac.can_attest(&who, &ctype_hash, &claim_hash) {
                    Ok(_) => {},
                    Err(e) => {
                        return Err(e);
                    },
                }
            },
            None => {},
        }
        let authorization_id = match &authorization {
            Some(ac) => Some(ac.authorization_id()),
            None => None,
        };
        let deposit = match escrow.hold(HoldReason::Deposit, payer, self.deposit_rate) {
            Ok(d) => d,
            Err(e) => {
                return Err(e);
            },
        };
        let ghost old_v = self.verifications@;
        let ghost old_x = self.external_verifications@;
        let ghost t0 = *old(tracker);
        tracker.exclude_key_from_migration(claim_hash);
        let ghost t1 = *tracker;
        let details = VerificationDetails {
            ctype_hash,
            attester: who,
            authorization_id,
            revoked: false,
            deposit,
        };
        self.verifications.push((claim_hash, details));
        if let Some(a) = authorization_id {
            self.external_verifications.push((a, claim_hash));
        }
        self.events.push(Event::VerificationCreated(who, claim_hash, ctype_hash, authorization_id));
        proof {
            let v = self.verifications@;
            let x = self.external_verifications@;
            let e = (claim_hash, details);
            lemma_lookup_push(old_v, e);
            // the store's keys stay unique and the records map gains the key
            assert forall|p: int, q: int| 0 <= p < q < v.len() implies (#[trigger] v[p]).0
                != (#[trigger] v[q]).0 by {
                assert(v[p] == old_v[p]);
                if q < old_v.len() {
                    assert(v[q] == old_v[q]);
                }
            }
            assert(self.records() =~= old(self).records().insert(claim_hash, details));
            // the secondary index stays consistent with the store
            assert forall|i: int| 0 <= i < x.len() implies match lookup(v, (#[trigger] x[i]).1) {
                Some(d) => d.authorization_id == Some(x[i].0),
                None => false,
            } by {
                if i < old_x.len() {
                    assert(x[i] == old_x[i]);
                    assert(x[i].1 != claim_hash);
                } else {
                    assert(x[i] == (authorization_id->Some_0, claim_hash));
                }
            }
            assert forall|i: int| 0 <= i < v.len() implies match (#[trigger] v[i]).1.authorization_id {
                Some(a) => x.contains((a, v[i].0)),
                None => true,
            } by {
                if i < old_v.len() {
                    assert(v[i] == old_v[i]);
                    match old_v[i].1.authorization_id {
                        Some(a) => {
                            let j = choose|j: int|
                                0 <= j < old_x.len() && old_x[j] == (a, old_v[i].0);
                            assert(x[j] == (a, v[i].0));
                        },
                        None => {},
                    }
                } else {
                    match authorization_id {
                        Some(a) => {
                            assert(x[x.len() - 1] == (a, claim_hash));
                        },
                        None => {},
                    }
                }
            }
            assert forall|p: int, q: int| 0 <= p < q < x.len() implies #[trigger] x[p]
                != #[trigger] x[q] by {
                assert(x[p] == old_x[p]);
                if q < old_x.len() {
                    assert(x[q] == old_x[q]);
                } else {
                    assert(old_x[p].1 != claim_hash);
                }
            }
            assert(self.wf());
            // the secondary index as a set gains at most the new pair
            match authorization_id {
                Some(a) => {
                    assert forall|p: (AuthorizationId, ClaimHash)| #[trigger]
                        x.contains(p) == (old_x.contains(p) || p == (a, claim_hash)) by {
                        if old_x.contains(p) {
                            let j = choose|j: int| 0 <= j < old_x.len() && old_x[j] == p;
                            assert(x[j] == p);
                        }
                        if x.contains(p) {
                            let j = choose|j: int| 0 <= j < x.len() && x[j] == p;
                            if j < old_x.len() {
                                assert(old_x[j] == p);
                            }
                        }
                        if p == (a, claim_hash) {
                            assert(x[x.len() - 1] == p);
                        }
                    }
                    assert(self.delegated() =~= old(self).delegated().insert((a, claim_hash)));
                },
                None => {
                    assert(x =~= old_x);
                    assert(self.delegated() =~= old(self).delegated());
                },
            }
            // escrow conservation: the new record's contribution is exactly
            // what was just held from the payer
            assert(forall|j: int| 0 <= j < old_v.len() ==> (#[trigger] old_v[j]).0 != claim_hash);
            assert forall|a: AccountId, m: bool|
                deposit_sum(v, t1, a, m) == deposit_sum(old_v, t0, a, m) + deposit_contrib(
                    e,
                    t1,
                    a,
                    m,
                ) by {
                assert(forall|j: int|
                    0 <= j < old_v.len() ==> t0.migrated((#[trigger] old_v[j]).0) == t1.migrated(
                        old_v[j].0,
                    ));
                lemma_sum_agree(old_v, t0, t1, a, m);
                lemma_sum_push(old_v, t1, e, a, m);
            }
            assert(details.deposit == Deposit { owner: payer, amount: old(self).rate() });
            assert forall|a: AccountId| #[trigger]
                escrow.held_of(a) == deposit_sum(v, t1, a, true) by {
                if a == payer {
                    old(escrow).lemma_balance_bounded(payer);
                    assert(escrow.held_of(a) == old(escrow).held_of(a) + old(self).rate());
                } else {
                    assert(escrow.balance_of(a) == old(escrow).balance_of(a));
                }
                assert(old(escrow).held_of(a) == deposit_sum(old_v, t0, a, true));
                assert(deposit_sum(v, t1, a, true) == deposit_sum(old_v, t0, a, true)
                    + deposit_contrib(e, t1, a, true));
                assert(deposit_contrib(e, t1, a, true) == if a == payer {
                    old(self).rate() as int
                } else {
                    0
                });
            }
            assert forall|a: AccountId| #[trigger]
                tracker.legacy_of(a) == deposit_sum(v, t1, a, false) by {
                assert(old(tracker).legacy_of(a) == deposit_sum(old_v, t0, a, false));
                assert(deposit_sum(v, t1, a, false) == deposit_sum(old_v, t0, a, false)
                    + deposit_contrib(e, t1, a, false));
                assert(deposit_contrib(e, t1, a, false) == 0);
            }
        }
        Ok(())
    }

    /// Revoke the verification credential stored under `claim_hash`,
    /// leaving the record, its deposit and the secondary index in place.
    ///
    /// The record must exist and not be revoked yet. The attester may
    /// revoke their own record without a capability; anyone else needs a
    /// capability whose revoke check passes against the authorization
    /// identity stored in the record. On success only the record's revoked
    /// flag changes — once true it never returns to false — and a
    /// `VerificationRevoked` event is emitted. A failed call leaves the
    /// registry unchanged.
    pub fn revoke<A: VerificationAccessControl>(
        &mut self,
        who: AttesterId,
        claim_hash: ClaimHash,
        authorization: Option<A>,
    ) -> (r: Result<(), DispatchError>)
        requires
            old(self).wf(),
        ensures
            final(self).wf(),
            final(self).rate() == old(self).rate(),
            r is Ok <==> old(self).records().contains_key(claim_hash)
                && !old(self).records()[claim_hash].revoked && revoke_allowed(
                authorization,
                who,
                old(self).records()[claim_hash],
                claim_hash,
            ),
            !old(self).records().contains_key(claim_hash) ==> r == Err::<(), DispatchError>(
                DispatchError::Verification(Error::NotFound),
            ),
            old(self).records().contains_key(claim_hash)
                && old(self).records()[claim_hash].revoked ==> r == Err::<(), DispatchError>(
                DispatchError::Verification(Error::AlreadyRevoked),
            ),
            old(self).records().contains_key(claim_hash) && !old(self).records()[claim_hash].revoked
                && who != old(self).records()[claim_hash].attester && (
            old(self).records()[claim_hash].authorization_id is None || authorization is None) ==> r
                == Err::<(), DispatchError>(DispatchError::Verification(Error::NotAuthorized)),
            old(self).records().contains_key(claim_hash) && !old(self).records()[claim_hash].revoked
                && who != old(self).records()[claim_hash].attester
                && !revoke_allowed(authorization, who, old(self).records()[claim_hash], claim_hash)
                && old(self).records()[claim_hash].authorization_id is Some ==> (authorization
                matches Some(ac) ==> r == Err::<(), DispatchError>(ac.spec_deny_error())),
            r is Err ==> *final(self) == *old(self),
            r is Ok ==> final(self).records() == old(self).records().insert(
                claim_hash,
                VerificationDetails {
                    revoked: true,
                    ..old(self).records()[claim_hash]
                },
            ),
            final(self).delegated() == old(self).delegated(),
            r is Ok ==> final(self).log() == old(self).log().push(
                Event::VerificationRevoked(who, claim_hash),
            ),
            // revoking moves no money: every deposit sum is what it was
            forall|t: MigrationTracker, a: AccountId, m: bool|
                deposit_sum(#[trigger] final(self).entries(), t, a, m) == deposit_sum(
                    old(self).entries(),
                    t,
                    a,
                    m,
                ),
            forall|k: ClaimHash|
                #![trigger final(self).records().contains_key(k)]
                old(self).records().contains_key(k) && final(self).records().contains_key(k)
                    && old(self).records()[k].revoked ==> final(self).records()[k].revoked,
    {
        let (i, d) = match self.find_record(claim_hash) {
            Some(found) => found,
            None => {
                return Err(DispatchError::Verification(Error::NotFound));
            },
        };
        if d.revoked {
            return Err(DispatchError::Verification(Error::AlreadyRevoked));
        }
        if who != d.attester {
            let a = match d.authorization_id {
                Some(a) => a,
                None => {
                    return Err(DispatchError::Verification(Error::NotAuthorized));
                },
            };
            match &authorization {
                Some(ac) => {
                    match ac.can_revoke(&who, &d.ctype_hash, &claim_hash, &a) {
                        Ok(_) => {},
                        Err(e) => {
                            return Err(e);
                        },
                    }
                },
                None => {
                    return Err(DispatchError::Verification(Error::NotAuthorized));
                },
            }
        }
        let ghost old_v = self.verifications@;
        let updated = VerificationDetails { revoked: true, ..d };
        let entry = (claim_hash, updated);
        proof {
            lemma_lookup_update(old_v, i as int, entry);
        }
        self.verifications.set(i, entry);
        self.events.push(Event::VerificationRevoked(who, claim_hash));
        proof {
            let v = self.verifications@;
            let x = self.external_verifications@;
            assert forall|j: int| 0 <= j < x.len() implies match lookup(v, (#[trigger] x[j]).1) {
                Some(dd) => dd.authorization_id == Some(x[j].0),
                None => false,
            } by {
                if x[j].1 == claim_hash {
                    assert(lookup(old_v, x[j].1) == Some(d));
                    assert(lookup(v, x[j].1) == Some(updated));
                }
            }
            assert forall|j: int| 0 <= j < v.len() implies match (#[trigger] v[j]).1.authorization_id {
                Some(a) => x.contains((a, v[j].0)),
                None => true,
            } by {
                if j != i {
                    assert(v[j] == old_v[j]);
                } else {
                    assert(v[j].1.authorization_id == old_v[j].1.authorization_id);
                    assert(v[j].0 == old_v[j].0);
                }
            }
            assert(self.wf());
            assert(self.records() =~= old(self).records().insert(claim_hash, updated));
            assert(self.delegated() =~= old(self).delegated());
            assert forall|t: MigrationTracker, a: AccountId, m: bool|
                deposit_sum(#[trigger] self.entries(), t, a, m) == deposit_sum(
                    old(self).entries(),
                    t,
                    a,
                    m,
                ) by {
                lemma_sum_update(old_v, t, i as int, entry, a, m);
                assert(deposit_contrib(entry, t, a, m) == deposit_contrib(old_v[i as int], t, a, m));
            }
        }
        Ok(())
    }

    /// Delete the record at position `i`, release its deposit exactly once,
    /// and drop its secondary-index entry. The release goes through the
    /// escrow for keys on the current accounting scheme and through the
    /// migration tracker's legacy path for the rest.
    fn remove_verification(
        &mut self,
        i: usize,
        claim_hash: ClaimHash,
        d: VerificationDetails,
        escrow: &mut EscrowLedger,
        tracker: &mut MigrationTracker,
    )
        requires
            old(self).wf(),
            old(escrow).wf(),
            old(tracker).wf(),
            deposits_consistent(old(self).entries(), *old(escrow), *old(tracker)),
            i < old(self).entries().len(),
            old(self).entries()[i as int] == (claim_hash, d),
        ensures
            final(self).wf(),
            final(escrow).wf(),
            final(tracker).wf(),
            deposits_consistent(final(self).entries(), *final(escrow), *final(tracker)),
            final(self).records() == old(self).records().remove(claim_hash),
            final(self).delegated() == match d.authorization_id {
                Some(a) => old(self).delegated().remove((a, claim_hash)),
                None => old(self).delegated(),
            },
            final(self).log() == old(self).log(),
            final(self).rate() == old(self).rate(),
            old(tracker).migrated(claim_hash) ==> *final(tracker) == *old(tracker)
                && final(escrow).free_of(d.deposit.owner) == old(escrow).free_of(d.deposit.owner)
                + d.deposit.amount
                && final(escrow).held_of(d.deposit.owner)
                == old(escrow).held_of(d.deposit.owner) - d.deposit.amount && forall|b: AccountId|
                b != d.deposit.owner ==> final(escrow).balance_of(b) == old(escrow).balance_of(b),
            !old(tracker).migrated(claim_hash) ==> *final(escrow) == *old(escrow)
                && final(tracker).legacy_of(d.deposit.owner) == old(tracker).legacy_of(
                d.deposit.owner,
            ) - d.deposit.amount && (forall|a: AccountId|
                a != d.deposit.owner ==> final(tracker).legacy_of(a) == old(tracker).legacy_of(a))
                && forall|k: ClaimHash|
                final(tracker).migrated(k) == old(tracker).migrated(k),
            forall|k: ClaimHash|
                #![trigger final(self).records().contains_key(k)]
                old(self).records().contains_key(k) && final(self).records().contains_key(k)
                    && old(self).records()[k].revoked ==> final(self).records()[k].revoked,
    {
        let ghost old_v = self.verifications@;
        let ghost old_x = self.external_verifications@;
        let ghost t0 = *old(tracker);
        proof {
            lemma_lookup_at(old_v, i as int);
        }
        let owner = d.deposit.owner;
        let amount = d.deposit.amount;
        if tracker.is_key_migrated(claim_hash) {
            proof {
                assert(old(escrow).held_of(owner) == deposit_sum(old_v, t0, owner, true));
                lemma_sum_entry(old_v, t0, i as int, owner, true);
                assert(deposit_contrib(old_v[i as int], t0, owner, true) == amount as int);
                old(escrow).lemma_balance_bounded(owner);
            }
            escrow.release(HoldReason::Deposit, d.deposit);
        } else {
            proof {
                assert(old(tracker).legacy_of(owner) == deposit_sum(old_v, t0, owner, false));
                lemma_sum_entry(old_v, t0, i as int, owner, false);
                assert(deposit_contrib(old_v[i as int], t0, owner, false) == amount as int);
            }
            tracker.release_reserved_deposit(owner, amount);
        }
        let ghost t1 = *tracker;
        proof {
            lemma_lookup_remove(old_v, i as int);
        }
        self.verifications.remove(i);
        if let Some(a) = d.authorization_id {
            match self.find_delegated(a, claim_hash) {
                Some(j) => {
                    self.external_verifications.remove(j);
                    proof {
                        let x = self.external_verifications@;
                        let jj = j as int;
                        assert forall|p: int, q: int| 0 <= p < q < x.len() implies (#[trigger] x[p])
                            != (#[trigger] x[q]) by {
                            assert(x[p] == if p < jj {
                                old_x[p]
                            } else {
                                old_x[p + 1]
                            });
                            assert(x[q] == if q < jj {
                                old_x[q]
                            } else {
                                old_x[q + 1]
                            });
                        }
                        assert forall|p: (AuthorizationId, ClaimHash)| #[trigger]
                            x.contains(p) == (old_x.contains(p) && p != (a, claim_hash)) by {
                            if x.contains(p) {
                                let k = choose|k: int| 0 <= k < x.len() && x[k] == p;
                                if k < jj {
                                    assert(old_x[k] == p);
                                } else {
                                    assert(old_x[k + 1] == p);
                                }
                                // the removed pair occurs only once in the index
                                if p == (a, claim_hash) {
                                    if k < jj {
                                        assert(old_x[k] == old_x[jj]);
                                        assert(false);
                                    } else {
                                        assert(old_x[k + 1] == old_x[jj]);
                                        assert(false);
                                    }
                                }
                            }
                            if old_x.contains(p) && p != (a, claim_hash) {
                                let k = choose|k: int| 0 <= k < old_x.len() && old_x[k] == p;
                                assert(old_x[jj] == (a, claim_hash));
                                if k < jj {
                                    assert(x[k] == p);
                                } else {
                                    assert(k != jj);
                                    assert(x[k - 1] == p);
                                }
                            }
                        }
                        assert(self.delegated() =~= old(self).delegated().remove((a, claim_hash)));
                    }
                },
                None => {
                    proof {
                        // wf puts every record with an authorization in the
                        // index, so the pair is always found
                        assert(old_x.contains((a, claim_hash)));
                        assert(false);
                    }
                },
            }
        }
        proof {
            let v = self.verifications@;
            let x = self.external_verifications@;
            assert(self.records() =~= old(self).records().remove(claim_hash));
            match d.authorization_id {
                Some(_) => {},
                None => {
                    assert(x == old_x);
                    assert(self.delegated() =~= old(self).delegated());
                },
            }
            // the secondary index stays consistent with the store
            assert forall|j: int| 0 <= j < x.len() implies match lookup(v, (#[trigger] x[j]).1) {
                Some(dd) => dd.authorization_id == Some(x[j].0),
                None => false,
            } by {
                assert(old_x.contains(x[j]));
                let k = choose|k: int| 0 <= k < old_x.len() && old_x[k] == x[j];
                assert(match lookup(old_v, old_x[k].1) {
                    Some(dd) => dd.authorization_id == Some(old_x[k].0),
                    None => false,
                });
                if x[j].1 == claim_hash {
                    // such a pair named the removed record, so it was the
                    // removed pair
                    assert(lookup(old_v, claim_hash) == Some(d));
                    match d.authorization_id {
                        Some(a) => {
                            assert(x[j] == (a, claim_hash));
                            assert(!x.contains(x[j]));
                            assert(false);
                        },
                        None => {
                            assert(false);
                        },
                    }
                }
            }
            assert forall|j: int| 0 <= j < v.len() implies match (#[trigger] v[j]).1.authorization_id {
                Some(a) => x.contains((a, v[j].0)),
                None => true,
            } by {
                let jj = if j < i as int {
                    j
                } else {
                    j + 1
                };
                assert(v[j] == old_v[jj]);
                match v[j].1.authorization_id {
                    Some(a) => {
                        assert(old_x.contains((a, old_v[jj].0)));
                        assert(v[j].0 != claim_hash);
                        match d.authorization_id {
                            Some(ra) => {
                                assert((a, v[j].0) != (ra, claim_hash));
                            },
                            None => {
                                assert(x == old_x);
                            },
                        }
                    },
                    None => {},
                }
            }
            assert(self.wf());
            // escrow conservation after the release and the removal
            assert forall|a: AccountId, m: bool|
                deposit_sum(v, t1, a, m) == deposit_sum(old_v, t0, a, m) - deposit_contrib(
                    old_v[i as int],
                    t0,
                    a,
                    m,
                ) by {
                assert(forall|j: int|
                    0 <= j < old_v.len() ==> t0.migrated((#[trigger] old_v[j]).0) == t1.migrated(
                        old_v[j].0,
                    ));
                lemma_sum_agree(old_v, t0, t1, a, m);
                lemma_sum_remove(old_v, t1, i as int, a, m);
                assert(deposit_contrib(old_v[i as int], t1, a, m) == deposit_contrib(
                    old_v[i as int],
                    t0,
                    a,
                    m,
                ));
            }
            assert forall|a: AccountId| #[trigger]
                escrow.held_of(a) == deposit_sum(v, t1, a, true) by {
                assert(old(escrow).held_of(a) == deposit_sum(old_v, t0, a, true));
                if t0.migrated(claim_hash) {
                    if a != owner {
                        assert(escrow.balance_of(a) == old(escrow).balance_of(a));
                        assert(deposit_contrib(old_v[i as int], t0, a, true) == 0);
                    }
                } else {
                    assert(deposit_contrib(old_v[i as int], t0, a, true) == 0);
                }
            }
            assert forall|a: AccountId| #[trigger]
                tracker.legacy_of(a) == deposit_sum(v, t1, a, false) by {
                assert(old(tracker).legacy_of(a) == deposit_sum(old_v, t0, a, false));
                if t0.migrated(claim_hash) {
                    assert(deposit_contrib(old_v[i as int], t0, a, false) == 0);
                } else {
                    if a != owner {
                        assert(deposit_contrib(old_v[i as int], t0, a, false) == 0);
                    }
                }
            }
        }
    }

    /// Remove the verification credential stored under `claim_hash`,
    /// whether or not it was revoked, releasing its deposit and dropping
    /// its secondary-index entry.
    ///
    /// The attester may remove their own record without a capability;
    /// anyone else needs a capability whose remove check passes against the
    /// authorization identity stored in the record. On success a
    /// `VerificationRemoved` event is emitted. A failed call leaves every
    /// piece of state unchanged.
    pub fn remove<A: VerificationAccessControl>(
        &mut self,
        who: AttesterId,
        claim_hash: ClaimHash,
        authorization: Option<A>,
        escrow: &mut EscrowLedger,
        tracker: &mut MigrationTracker,
    ) -> (r: Result<(), DispatchError>)
        requires
            old(self).wf(),
            old(escrow).wf(),
            old(tracker).wf(),
            deposits_consistent(old(self).entries(), *old(escrow), *old(tracker)),
        ensures
            final(self).wf(),
            final(escrow).wf(),
            final(tracker).wf(),
            deposits_consistent(final(self).entries(), *final(escrow), *final(tracker)),
            final(self).rate() == old(self).rate(),
            r is Ok <==> old(self).records().contains_key(claim_hash) && remove_allowed(
                authorization,
                who,
                old(self).records()[claim_hash],
                claim_hash,
            ),
            !old(self).records().contains_key(claim_hash) ==> r == Err::<(), DispatchError>(
                DispatchError::Verification(Error::NotFound),
            ),
            old(self).records().contains_key(claim_hash)
                && who != old(self).records()[claim_hash].attester
                && (old(self).records()[claim_hash].authorization_id is None || authorization is None) ==> r
                == Err::<(), DispatchError>(DispatchError::Verification(Error::NotAuthorized)),
            old(self).records().contains_key(claim_hash)
                && who != old(self).records()[claim_hash].attester && !remove_allowed(
                authorization,
                who,
                old(self).records()[claim_hash],
                claim_hash,
            ) && old(self).records()[claim_hash].authorization_id is Some ==> (authorization
                matches Some(ac) ==> r == Err::<(), DispatchError>(ac.spec_deny_error())),
            r is Err ==> *final(self) == *old(self) && *final(escrow) == *old(escrow)
                && *final(tracker) == *old(tracker),
            r is Ok ==> final(self).records() == old(self).records().remove(claim_hash),
            r is Ok ==> final(self).delegated() == match old(self).records()[claim_hash].authorization_id {
                Some(a) => old(self).delegated().remove((a, claim_hash)),
                None => old(self).delegated(),
            },
            r is Ok ==> final(self).log() == old(self).log().push(
                Event::VerificationRemoved(who, claim_hash),
            ),
            r is Ok && old(tracker).migrated(claim_hash) ==> *final(tracker) == *old(tracker)
                    && final(escrow).free_of(old(self).records()[claim_hash].deposit.owner)
                    == old(escrow).free_of(old(self).records()[claim_hash].deposit.owner)
                    + old(self).records()[claim_hash].deposit.amount
                    && final(escrow).held_of(old(self).records()[claim_hash].deposit.owner)
                    == old(escrow).held_of(old(self).records()[claim_hash].deposit.owner)
                    - old(self).records()[claim_hash].deposit.amount
                    && forall|b: AccountId|
                b != old(self).records()[claim_hash].deposit.owner ==> final(escrow).balance_of(b)
                    == old(escrow).balance_of(b),
            r is Ok && !old(tracker).migrated(claim_hash) ==> *final(escrow) == *old(escrow)
                    && final(tracker).legacy_of(old(self).records()[claim_hash].deposit.owner)
                    == old(tracker).legacy_of(old(self).records()[claim_hash].deposit.owner)
                    - old(self).records()[claim_hash].deposit.amount
                    && (forall|a: AccountId|
                a != old(self).records()[claim_hash].deposit.owner ==> final(tracker).legacy_of(a)
                    == old(tracker).legacy_of(a)) && forall|k: ClaimHash|
                final(tracker).migrated(k) == old(tracker).migrated(k),
            forall|k: ClaimHash|
                #![trigger final(self).records().contains_key(k)]
                old(self).records().contains_key(k) && final(self).records().contains_key(k)
                    && old(self).records()[k].revoked ==> final(self).records()[k].revoked,
    {
        let (i, d) = match self.find_record(claim_hash) {
            Some(found) => found,
            None => {
                return Err(DispatchError::Verification(Error::NotFound));
            },
        };
        if who != d.attester {
            let a = match d.authorization_id {
                Some(a) => a,
                None => {
                    return Err(DispatchError::Verification(Error::NotAuthorized));
                },
            };
            match &authorization {
                Some(ac) => {
                    match ac.can_remove(&who, &d.ctype_hash, &claim_hash, &a) {
                        Ok(_) => {},
                        Err(e) => {
                            return Err(e);
                        },
                    }
                },
                None => {
                    return Err(DispatchError::Verification(Error::NotAuthorized));
                },
            }
        }
        self.remove_verification(i, claim_hash, d, escrow, tracker);
        self.events.push(Event::VerificationRemoved(who, claim_hash));
        Ok(())
    }

    /// Remove the verification credential stored under `claim_hash` to
    /// reclaim its deposit. Only the current deposit owner may call this;
    /// no capability is consulted. On success the record and any
    /// secondary-index entry are deleted as `remove` deletes them, the
    /// deposit is released, and a `DepositReclaimed` event is emitted. A
    /// failed call leaves every piece of state unchanged.
    pub fn reclaim_deposit(
        &mut self,
        who: AccountId,
        claim_hash: ClaimHash,
        escrow: &mut EscrowLedger,
        tracker: &mut MigrationTracker,
    ) -> (r: Result<(), DispatchError>)
        requires
            old(self).wf(),
            old(escrow).wf(),
            old(tracker).wf(),
            deposits_consistent(old(self).entries(), *old(escrow), *old(tracker)),
        ensures
            final(self).wf(),
            final(escrow).wf(),
            final(tracker).wf(),
            deposits_consistent(final(self).entries(), *final(escrow), *final(tracker)),
            final(self).rate() == old(self).rate(),
            r is Ok <==> old(self).records().contains_key(claim_hash)
                && old(self).records()[claim_hash].deposit.owner == who,
            !old(self).records().contains_key(claim_hash) ==> r == Err::<(), DispatchError>(
                DispatchError::Verification(Error::NotFound),
            ),
            old(self).records().contains_key(claim_hash)
                && old(self).records()[claim_hash].deposit.owner != who ==> r == Err::<(), DispatchError>(
                DispatchError::Verification(Error::NotAuthorized),
            ),
            r is Err ==> *final(self) == *old(self) && *final(escrow) == *old(escrow)
                && *final(tracker) == *old(tracker),
            r is Ok ==> final(self).records() == old(self).records().remove(claim_hash),
            r is Ok ==> final(self).delegated() == match old(self).records()[claim_hash].authorization_id {
                Some(a) => old(self).delegated().remove((a, claim_hash)),
                None => old(self).delegated(),
            },
            r is Ok ==> final(self).log() == old(self).log().push(
                Event::DepositReclaimed(who, claim_hash),
            ),
            r is Ok && old(tracker).migrated(claim_hash) ==> *final(tracker) == *old(tracker)
                    && final(escrow).free_of(who) == old(escrow).free_of(who) + old(self).records()[claim_hash].deposit.amount
                    && final(escrow).held_of(who) == old(escrow).held_of(who) - old(self).records()[claim_hash].deposit.amount
                    && forall|
                b: AccountId,
            |
                b != who ==> final(escrow).balance_of(b) == old(escrow).balance_of(b),
            r is Ok && !old(tracker).migrated(claim_hash) ==> *final(escrow) == *old(escrow)
                    && final(tracker).legacy_of(who) == old(tracker).legacy_of(who) - old(self).records()[claim_hash].deposit.amount
                    && (forall|a: AccountId|
                a != who ==> final(tracker).legacy_of(a) == old(tracker).legacy_of(a)) && forall|
                k: ClaimHash,
            |
                final(tracker).migrated(k) == old(tracker).migrated(k),
            forall|k: ClaimHash|
                #![trigger final(self).records().contains_key(k)]
                old(self).records().contains_key(k) && final(self).records().contains_key(k)
                    && old(self).records()[k].revoked ==> final(self).records()[k].revoked,
    {
        let (i, d) = match self.find_record(claim_hash) {
            Some(found) => found,
            None => {
                return Err(DispatchError::Verification(Error::NotFound));
            },
        };
        if d.deposit.owner != who {
            return Err(DispatchError::Verification(Error::NotAuthorized));
        }
        self.remove_verification(i, claim_hash, d, escrow, tracker);
        self.events.push(Event::DepositReclaimed(who, claim_hash));
        Ok(())
    }

    /// Hand the deposit backing `claim_hash` to a new owner: `sender`'s
    /// funds are held in place of the current owner's, at the stored
    /// amount.
    ///
    /// The subject of the call must be the record's attester; the sender
    /// becomes the new owner. A key still on the legacy scheme is released
    /// through the legacy path and brought onto the current scheme. A
    /// failed call leaves every piece of state unchanged.
    pub fn change_deposit_owner(
        &mut self,
        subject: AttesterId,
        sender: AccountId,
        claim_hash: ClaimHash,
        escrow: &mut EscrowLedger,
        tracker: &mut MigrationTracker,
    ) -> (r: Result<(), DispatchError>)
        requires
            old(self).wf(),
            old(escrow).wf(),
            old(tracker).wf(),
            deposits_consistent(old(self).entries(), *old(escrow), *old(tracker)),
        ensures
            final(self).wf(),
            final(escrow).wf(),
            final(tracker).wf(),
            deposits_consistent(final(self).entries(), *final(escrow), *final(tracker)),
            final(self).rate() == old(self).rate(),
            final(self).delegated() == old(self).delegated(),
            final(self).log() == old(self).log(),
            r is Ok <==> old(self).records().contains_key(claim_hash)
                && old(self).records()[claim_hash].attester == subject
                && (old(self).records()[claim_hash].deposit.owner == sender
                && old(tracker).migrated(claim_hash)
                || old(self).records()[claim_hash].deposit.amount <= old(escrow).free_of(sender)),
            !old(self).records().contains_key(claim_hash) ==> r == Err::<(), DispatchError>(
                DispatchError::Verification(Error::NotFound),
            ),
            old(self).records().contains_key(claim_hash)
                && old(self).records()[claim_hash].attester != subject ==> r == Err::<(), DispatchError>(
                DispatchError::Verification(Error::NotAuthorized),
            ),
            old(self).records().contains_key(claim_hash)
                && old(self).records()[claim_hash].attester == subject
                && !(old(self).records()[claim_hash].deposit.owner == sender
                && old(tracker).migrated(claim_hash))
                && old(self).records()[claim_hash].deposit.amount > old(escrow).free_of(sender)
                ==> r == Err::<(), DispatchError>(
                DispatchError::Token(TokenError::FundsUnavailable),
            ),
            r is Err ==> *final(self) == *old(self) && *final(escrow) == *old(escrow)
                && *final(tracker) == *old(tracker),
            r is Ok ==> final(self).records() == old(self).records().insert(
                claim_hash,
                VerificationDetails {
                    deposit: Deposit {
                        owner: sender,
                        amount: old(self).records()[claim_hash].deposit.amount,
                    },
                    ..old(self).records()[claim_hash]
                },
            ),
            r is Ok ==> final(tracker).migrated(claim_hash) || old(tracker).migrated(claim_hash)
                == final(tracker).migrated(claim_hash),
            r is Ok && old(tracker).migrated(claim_hash) ==> *final(tracker) == *old(tracker),
            r is Ok && old(tracker).migrated(claim_hash)
                && sender == old(self).records()[claim_hash].deposit.owner ==> *final(escrow) == *old(escrow),
            r is Ok && old(tracker).migrated(claim_hash)
                && sender != old(self).records()[claim_hash].deposit.owner
                ==> final(escrow).held_of(sender) == old(escrow).held_of(sender)
                + old(self).records()[claim_hash].deposit.amount
                && final(escrow).held_of(old(self).records()[claim_hash].deposit.owner)
                == old(escrow).held_of(old(self).records()[claim_hash].deposit.owner)
                - old(self).records()[claim_hash].deposit.amount,
            r is Ok && !old(tracker).migrated(claim_hash) ==> final(tracker).migrated(claim_hash)
                    && final(tracker).legacy_of(old(self).records()[claim_hash].deposit.owner)
                    == old(tracker).legacy_of(old(self).records()[claim_hash].deposit.owner)
                    - old(self).records()[claim_hash].deposit.amount
                    && final(escrow).held_of(sender) == old(escrow).held_of(sender)
                    + old(self).records()[claim_hash].deposit.amount,
            forall|k: ClaimHash|
                #![trigger final(self).records().contains_key(k)]
                old(self).records().contains_key(k) && final(self).records().contains_key(k)
                    && old(self).records()[k].revoked ==> final(self).records()[k].revoked,
    {
        let (i, d) = match self.find_record(claim_hash) {
            Some(found) => found,
            None => {
                return Err(DispatchError::Verification(Error::NotFound));
            },
        };
        if d.attester != subject {
            return Err(DispatchError::Verification(Error::NotAuthorized));
        }
        let ghost old_v = self.verifications@;
        let ghost t0 = *old(tracker);
        let owner = d.deposit.owner;
        let amount = d.deposit.amount;
        proof {
            lemma_lookup_at(old_v, i as int);
        }
        let new_deposit: Deposit;
        if tracker.is_key_migrated(claim_hash) {
            proof {
                assert(old(escrow).held_of(owner) == deposit_sum(old_v, t0, owner, true));
                lemma_sum_entry(old_v, t0, i as int, owner, true);
                assert(deposit_contrib(old_v[i as int], t0, owner, true) == amount as int);
                old(escrow).lemma_balance_bounded(owner);
                old(escrow).lemma_balance_bounded(sender);
            }
            new_deposit = match escrow.transfer_owner(HoldReason::Deposit, d.deposit, sender) {
                Ok(nd) => nd,
                Err(e) => {
                    return Err(e);
                },
            };
        } else {
            if escrow.free_balance(sender) < amount {
                return Err(DispatchError::Token(TokenError::FundsUnavailable));
            }
            proof {
                assert(old(tracker).legacy_of(owner) == deposit_sum(old_v, t0, owner, false));
                lemma_sum_entry(old_v, t0, i as int, owner, false);
                assert(deposit_contrib(old_v[i as int], t0, owner, false) == amount as int);
                old(escrow).lemma_balance_bounded(sender);
            }
            tracker.release_reserved_deposit(owner, amount);
            new_deposit = match escrow.hold(HoldReason::Deposit, sender, amount) {
                Ok(nd) => nd,
                Err(e) => {
                    // unreachable: the sender's spendable funds were checked
                    // before the legacy release
                    proof {
                        assert(false);
                    }
                    return Err(e);
                },
            };
            tracker.exclude_key_from_migration(claim_hash);
        }
        let ghost t1 = *tracker;
        let updated = VerificationDetails { deposit: new_deposit, ..d };
        let entry = (claim_hash, updated);
        proof {
            lemma_lookup_update(old_v, i as int, entry);
            lemma_index_consistent_update(
                old_v,
                self.external_verifications@,
                i as int,
                entry,
            );
        }
        self.verifications.set(i, entry);
        proof {
            let v = self.verifications@;
            assert(self.wf());
            assert(self.records() =~= old(self).records().insert(claim_hash, updated));
            assert(self.delegated() =~= old(self).delegated());
            assert forall|a: AccountId, m: bool|
                deposit_sum(v, t1, a, m) == deposit_sum(old_v, t0, a, m) - deposit_contrib(
                    old_v[i as int],
                    t0,
                    a,
                    m,
                ) + deposit_contrib(entry, t1, a, m) by {
                if t0.migrated(claim_hash) {
                    assert(forall|j: int|
                        0 <= j < old_v.len() ==> t0.migrated((#[trigger] old_v[j]).0)
                            == t1.migrated(old_v[j].0));
                    lemma_sum_agree(old_v, t0, t1, a, m);
                } else {
                    lemma_sum_retrack(old_v, t0, t1, i as int, a, m);
                    assert(deposit_contrib(old_v[i as int], t1, a, m) == deposit_contrib(
                        old_v[i as int],
                        t0,
                        a,
                        m,
                    ) - deposit_contrib(old_v[i as int], t0, a, m) + deposit_contrib(
                        old_v[i as int],
                        t1,
                        a,
                        m,
                    ));
                }
                lemma_sum_update(old_v, t1, i as int, entry, a, m);
            }
            assert forall|a: AccountId| #[trigger]
                escrow.held_of(a) == deposit_sum(v, t1, a, true) by {
                assert(old(escrow).held_of(a) == deposit_sum(old_v, t0, a, true));
                assert(t1.migrated(claim_hash));
                assert(entry.1.deposit == Deposit { owner: sender, amount });
                assert(deposit_contrib(entry, t1, a, true) == if a == sender {
                    amount as int
                } else {
                    0
                });
                if t0.migrated(claim_hash) {
                    assert(deposit_contrib(old_v[i as int], t0, a, true) == if a == owner {
                        amount as int
                    } else {
                        0
                    });
                    if sender == owner {
                        assert(escrow.held_of(a) == old(escrow).held_of(a));
                    } else if a == sender {
                        assert(escrow.held_of(a) == old(escrow).held_of(a) + amount);
                    } else if a == owner {
                        assert(escrow.held_of(a) == old(escrow).held_of(a) - amount);
                    } else {
                        assert(escrow.balance_of(a) == old(escrow).balance_of(a));
                    }
                } else {
                    assert(deposit_contrib(old_v[i as int], t0, a, true) == 0);
                    if a == sender {
                        assert(escrow.held_of(a) == old(escrow).held_of(a) + amount);
                    } else {
                        assert(escrow.balance_of(a) == old(escrow).balance_of(a));
                    }
                }
                assert(deposit_sum(v, t1, a, true) == deposit_sum(old_v, t0, a, true)
                    - deposit_contrib(old_v[i as int], t0, a, true) + deposit_contrib(
                    entry,
                    t1,
                    a,
                    true,
                ));
            }
            assert forall|a: AccountId| #[trigger]
                tracker.legacy_of(a) == deposit_sum(v, t1, a, false) by {
                assert(old(tracker).legacy_of(a) == deposit_sum(old_v, t0, a, false));
            }
        }
        Ok(())
    }

    /// Bring the deposit backing `claim_hash` to the current deposit rate,
    /// keeping its owner. Only the current deposit owner may call this. A
    /// key still on the legacy scheme is released through the legacy path
    /// and brought onto the current scheme. A failed call leaves every
    /// piece of state unchanged.
    pub fn update_deposit(
        &mut self,
        sender: AccountId,
        claim_hash: ClaimHash,
        escrow: &mut EscrowLedger,
        tracker: &mut MigrationTracker,
    ) -> (r: Result<(), DispatchError>)
        requires
            old(self).wf(),
            old(escrow).wf(),
            old(tracker).wf(),
            deposits_consistent(old(self).entries(), *old(escrow), *old(tracker)),
        ensures
            final(self).wf(),
            final(escrow).wf(),
            final(tracker).wf(),
            deposits_consistent(final(self).entries(), *final(escrow), *final(tracker)),
            final(self).rate() == old(self).rate(),
            final(self).delegated() == old(self).delegated(),
            final(self).log() == old(self).log(),
            r is Ok <==> old(self).records().contains_key(claim_hash)
                && old(self).records()[claim_hash].deposit.owner == sender
                && (if old(tracker).migrated(
                claim_hash,
            ) {
                old(self).rate() <= old(escrow).free_of(sender) + old(self).records()[claim_hash].deposit.amount
            } else {
                old(self).rate() <= old(escrow).free_of(sender)
            }),
            !old(self).records().contains_key(claim_hash) ==> r == Err::<(), DispatchError>(
                DispatchError::Verification(Error::NotFound),
            ),
            old(self).records().contains_key(claim_hash)
                && old(self).records()[claim_hash].deposit.owner != sender ==> r == Err::<(), DispatchError>(
                DispatchError::Verification(Error::NotAuthorized),
            ),
            r is Ok || r == Err::<(), DispatchError>(
                DispatchError::Verification(Error::NotFound),
            ) || r == Err::<(), DispatchError>(DispatchError::Verification(Error::NotAuthorized))
                || r == Err::<(), DispatchError>(
                DispatchError::Token(TokenError::FundsUnavailable),
            ),
            r is Err ==> *final(self) == *old(self) && *final(escrow) == *old(escrow)
                && *final(tracker) == *old(tracker),
            r is Ok ==> final(self).records() == old(self).records().insert(
                claim_hash,
                VerificationDetails {
                    deposit: Deposit { owner: sender, amount: old(self).rate() },
                    ..old(self).records()[claim_hash]
                },
            ),
            r is Ok ==> final(escrow).held_of(sender) == old(escrow).held_of(sender)
                - old(self).records()[claim_hash].deposit.amount * (if old(tracker).migrated(
                claim_hash,
            ) {
                1int
            } else {
                0int
            }) + old(self).rate() && forall|b: AccountId|
                b != sender ==> final(escrow).balance_of(b) == old(escrow).balance_of(b),
            r is Ok ==> final(tracker).migrated(claim_hash) && (forall|k: ClaimHash|
                k != claim_hash ==> final(tracker).migrated(k) == old(tracker).migrated(k)) && (
            forall|a: AccountId|
                a != sender ==> final(tracker).legacy_of(a) == old(tracker).legacy_of(a)),
            r is Ok && !old(tracker).migrated(claim_hash) ==> final(tracker).legacy_of(sender)
                == old(tracker).legacy_of(sender) - old(self).records()[claim_hash].deposit.amount,
            forall|k: ClaimHash|
                #![trigger final(self).records().contains_key(k)]
                old(self).records().contains_key(k) && final(self).records().contains_key(k)
                    && old(self).records()[k].revoked ==> final(self).records()[k].revoked,
    {
        let (i, d) = match self.find_record(claim_hash) {
            Some(found) => found,
            None => {
                return Err(DispatchError::Verification(Error::NotFound));
            },
        };
        if d.deposit.owner != sender {
            return Err(DispatchError::Verification(Error::NotAuthorized));
        }
        let ghost old_v = self.verifications@;
        let ghost t0 = *old(tracker);
        let amount = d.deposit.amount;
        let rate = self.deposit_rate;
        proof {
            lemma_lookup_at(old_v, i as int);
        }
        let new_deposit: Deposit;
        if tracker.is_key_migrated(claim_hash) {
            proof {
                assert(old(escrow).held_of(sender) == deposit_sum(old_v, t0, sender, true));
                lemma_sum_entry(old_v, t0, i as int, sender, true);
                assert(deposit_contrib(old_v[i as int], t0, sender, true) == amount as int);
                old(escrow).lemma_balance_bounded(sender);
            }
            new_deposit = match escrow.update_amount(HoldReason::Deposit, d.deposit, rate) {
                Ok(nd) => nd,
                Err(e) => {
                    return Err(e);
                },
            };
        } else {
            if escrow.free_balance(sender) < rate {
                return Err(DispatchError::Token(TokenError::FundsUnavailable));
            }
            proof {
                assert(old(tracker).legacy_of(sender) == deposit_sum(old_v, t0, sender, false));
                lemma_sum_entry(old_v, t0, i as int, sender, false);
                assert(deposit_contrib(old_v[i as int], t0, sender, false) == amount as int);
                old(escrow).lemma_balance_bounded(sender);
            }
            tracker.release_reserved_deposit(sender, amount);
            new_deposit = match escrow.hold(HoldReason::Deposit, sender, rate) {
                Ok(nd) => nd,
                Err(e) => {
                    // unreachable: the sender's spendable funds were checked
                    // before the legacy release
                    proof {
                        assert(false);
                    }
                    return Err(e);
                },
            };
            tracker.exclude_key_from_migration(claim_hash);
        }
        let ghost t1 = *tracker;
        let updated = VerificationDetails { deposit: new_deposit, ..d };
        let entry = (claim_hash, updated);
        proof {
            lemma_lookup_update(old_v, i as int, entry);
            lemma_index_consistent_update(
                old_v,
                self.external_verifications@,
                i as int,
                entry,
            );
        }
        self.verifications.set(i, entry);
        proof {
            let v = self.verifications@;
            assert(self.wf());
            assert(self.records() =~= old(self).records().insert(claim_hash, updated));
            assert(self.delegated() =~= old(self).delegated());
            assert forall|a: AccountId, m: bool|
                deposit_sum(v, t1, a, m) == deposit_sum(old_v, t0, a, m) - deposit_contrib(
                    old_v[i as int],
                    t0,
                    a,
                    m,
                ) + deposit_contrib(entry, t1, a, m) by {
                if t0.migrated(claim_hash) {
                    assert(forall|j: int|
                        0 <= j < old_v.len() ==> t0.migrated((#[trigger] old_v[j]).0)
                            == t1.migrated(old_v[j].0));
                    lemma_sum_agree(old_v, t0, t1, a, m);
                } else {
                    lemma_sum_retrack(old_v, t0, t1, i as int, a, m);
                }
                lemma_sum_update(old_v, t1, i as int, entry, a, m);
            }
            assert forall|a: AccountId| #[trigger]
                escrow.held_of(a) == deposit_sum(v, t1, a, true) by {
                assert(old(escrow).held_of(a) == deposit_sum(old_v, t0, a, true));
                assert(t1.migrated(claim_hash));
                assert(entry.1.deposit == Deposit { owner: sender, amount: rate });
                assert(deposit_contrib(entry, t1, a, true) == if a == sender {
                    rate as int
                } else {
                    0
                });
                if t0.migrated(claim_hash) {
                    assert(deposit_contrib(old_v[i as int], t0, a, true) == if a == sender {
                        amount as int
                    } else {
                        0
                    });
                } else {
                    assert(deposit_contrib(old_v[i as int], t0, a, true) == 0);
                }
                if a != sender {
                    assert(escrow.balance_of(a) == old(escrow).balance_of(a));
                }
            }
            assert forall|a: AccountId| #[trigger]
                tracker.legacy_of(a) == deposit_sum(v, t1, a, false) by {
                assert(old(tracker).legacy_of(a) == deposit_sum(old_v, t0, a, false));
            }
        }
        Ok(())
    }

    /// Restore a pre-existing record, as genesis state or a storage
    /// snapshot carries it: the record is stored as given, its deposit is
    /// held from its owner (or, for a record still on the legacy accounting
    /// scheme, reserved through the legacy path), and a record with an
    /// authorization is filed in the secondary index. No event is emitted.
    ///
    /// Returns false, and changes nothing, when the record cannot be
    /// restored: its key is taken, its owner cannot back the deposit, or a
    /// legacy record's key is already on the current scheme.
    pub fn insert_genesis_verification(
        &mut self,
        claim_hash: ClaimHash,
        details: VerificationDetails,
        legacy: bool,
        escrow: &mut EscrowLedger,
        tracker: &mut MigrationTracker,
    ) -> (r: bool)
        requires
            old(self).wf(),
            old(escrow).wf(),
            old(tracker).wf(),
            deposits_consistent(old(self).entries(), *old(escrow), *old(tracker)),
            details.deposit.amount > 0,
        ensures
            final(self).wf(),
            final(escrow).wf(),
            final(tracker).wf(),
            deposits_consistent(final(self).entries(), *final(escrow), *final(tracker)),
            final(self).rate() == old(self).rate(),
            final(self).log() == old(self).log(),
            r == (!old(self).records().contains_key(claim_hash) && (if legacy {
                !old(tracker).migrated(claim_hash) && old(tracker).legacy_of(details.deposit.owner)
                    + details.deposit.amount <= Balance::MAX
            } else {
                details.deposit.amount <= old(escrow).free_of(details.deposit.owner)
            })),
            !r ==> *final(self) == *old(self) && *final(escrow) == *old(escrow)
                && *final(tracker) == *old(tracker),
            r ==> final(self).records() == old(self).records().insert(claim_hash, details),
            r ==> final(self).delegated() == match details.authorization_id {
                Some(a) => old(self).delegated().insert((a, claim_hash)),
                None => old(self).delegated(),
            },
            r && !legacy ==> final(tracker).migrated(claim_hash) && (forall|k: ClaimHash|
                k != claim_hash ==> final(tracker).migrated(k) == old(tracker).migrated(k)) && (
            forall|a: AccountId|
                final(tracker).legacy_of(a) == old(tracker).legacy_of(a)) && final(escrow).held_of(
                details.deposit.owner,
            ) == old(escrow).held_of(details.deposit.owner) + details.deposit.amount && forall|
                b: AccountId,
            |
                b != details.deposit.owner ==> final(escrow).balance_of(b) == old(
                    escrow,
                ).balance_of(b),
            r && legacy ==> *final(escrow) == *old(escrow) && final(tracker).legacy_of(
                details.deposit.owner,
            ) == old(tracker).legacy_of(details.deposit.owner) + details.deposit.amount && forall|
                k: ClaimHash,
            |
                final(tracker).migrated(k) == old(tracker).migrated(k),
            forall|k: ClaimHash|
                #![trigger final(self).records().contains_key(k)]
                old(self).records().contains_key(k) && final(self).records().contains_key(k)
                    && old(self).records()[k].revoked ==> final(self).records()[k].revoked,
    {
        match self.find_record(claim_hash) {
            Some(_) => {
                return false;
            },
            None => {},
        }
        let ghost old_v = self.verifications@;
        let ghost old_x = self.external_verifications@;
        let ghost t0 = *old(tracker);
        let owner = details.deposit.owner;
        let amount = details.deposit.amount;
        if legacy {
            if tracker.is_key_migrated(claim_hash) {
                return false;
            }
            let reserved = tracker.legacy_reserved(owner);
            if amount > Balance::MAX - reserved {
                return false;
            }
            tracker.reserve_legacy(owner, amount);
        } else {
            match escrow.hold(HoldReason::Deposit, owner, amount) {
                Ok(_) => {},
                Err(_) => {
                    return false;
                },
            }
            tracker.exclude_key_from_migration(claim_hash);
        }
        let ghost t1 = *tracker;
        self.verifications.push((claim_hash, details));
        if let Some(a) = details.authorization_id {
            self.external_verifications.push((a, claim_hash));
        }
        proof {
            let v = self.verifications@;
            let x = self.external_verifications@;
            let e = (claim_hash, details);
            lemma_lookup_push(old_v, e);
            assert forall|p: int, q: int| 0 <= p < q < v.len() implies (#[trigger] v[p]).0
                != (#[trigger] v[q]).0 by {
                assert(v[p] == old_v[p]);
                if q < old_v.len() {
                    assert(v[q] == old_v[q]);
                }
            }
            assert(self.records() =~= old(self).records().insert(claim_hash, details));
            assert forall|i: int| 0 <= i < x.len() implies match lookup(v, (#[trigger] x[i]).1) {
                Some(d) => d.authorization_id == Some(x[i].0),
                None => false,
            } by {
                if i < old_x.len() {
                    assert(x[i] == old_x[i]);
                    assert(x[i].1 != claim_hash);
                } else {
                    assert(x[i] == (details.authorization_id->Some_0, claim_hash));
                }
            }
            assert forall|i: int| 0 <= i < v.len() implies match (#[trigger] v[i]).1.authorization_id {
                Some(a) => x.contains((a, v[i].0)),
                None => true,
            } by {
                if i < old_v.len() {
                    assert(v[i] == old_v[i]);
                    match old_v[i].1.authorization_id {
                        Some(a) => {
                            let j = choose|j: int|
                                0 <= j < old_x.len() && old_x[j] == (a, old_v[i].0);
                            assert(x[j] == (a, v[i].0));
                        },
                        None => {},
                    }
                } else {
                    match details.authorization_id {
                        Some(a) => {
                            assert(x[x.len() - 1] == (a, claim_hash));
                        },
                        None => {},
                    }
                }
            }
            assert forall|p: int, q: int| 0 <= p < q < x.len() implies #[trigger] x[p]
                != #[trigger] x[q] by {
                assert(x[p] == old_x[p]);
                if q < old_x.len() {
                    assert(x[q] == old_x[q]);
                } else {
                    assert(old_x[p].1 != claim_hash);
                }
            }
            assert(self.wf());
            match details.authorization_id {
                Some(a) => {
                    assert forall|p: (AuthorizationId, ClaimHash)| #[trigger]
                        x.contains(p) == (old_x.contains(p) || p == (a, claim_hash)) by {
                        if old_x.contains(p) {
                            let j = choose|j: int| 0 <= j < old_x.len() && old_x[j] == p;
                            assert(x[j] == p);
                        }
                        if x.contains(p) {
                            let j = choose|j: int| 0 <= j < x.len() && x[j] == p;
                            if j < old_x.len() {
                                assert(old_x[j] == p);
                            }
                        }
                        if p == (a, claim_hash) {
                            assert(x[x.len() - 1] == p);
                        }
                    }
                    assert(self.delegated() =~= old(self).delegated().insert((a, claim_hash)));
                },
                None => {
                    assert(x =~= old_x);
                    assert(self.delegated() =~= old(self).delegated());
                },
            }
            assert(forall|j: int| 0 <= j < old_v.len() ==> (#[trigger] old_v[j]).0 != claim_hash);
            assert forall|a: AccountId, m: bool|
                deposit_sum(v, t1, a, m) == deposit_sum(old_v, t0, a, m) + deposit_contrib(
                    e,
                    t1,
                    a,
                    m,
                ) by {
                assert(forall|j: int|
                    0 <= j < old_v.len() ==> t0.migrated((#[trigger] old_v[j]).0) == t1.migrated(
                        old_v[j].0,
                    ));
                lemma_sum_agree(old_v, t0, t1, a, m);
                lemma_sum_push(old_v, t1, e, a, m);
            }
            assert forall|a: AccountId| #[trigger]
                escrow.held_of(a) == deposit_sum(v, t1, a, true) by {
                assert(old(escrow).held_of(a) == deposit_sum(old_v, t0, a, true));
                if legacy {
                    assert(!t1.migrated(claim_hash));
                    assert(deposit_contrib(e, t1, a, true) == 0);
                } else {
                    if a == owner {
                        old(escrow).lemma_balance_bounded(owner);
                        assert(escrow.held_of(a) == old(escrow).held_of(a) + amount);
                    } else {
                        assert(escrow.balance_of(a) == old(escrow).balance_of(a));
                    }
                    assert(deposit_contrib(e, t1, a, true) == if a == owner {
                        amount as int
                    } else {
                        0
                    });
                }
            }
            assert forall|a: AccountId| #[trigger]
                tracker.legacy_of(a) == deposit_sum(v, t1, a, false) by {
                assert(old(tracker).legacy_of(a) == deposit_sum(old_v, t0, a, false));
                if legacy {
                    assert(deposit_contrib(e, t1, a, false) == if a == owner {
                        amount as int
                    } else {
                        0
                    });
                } else {
                    assert(deposit_contrib(e, t1, a, false) == 0);
                }
            }
        }
        true
    }

    /// The position of the index pair, if it is filed.
    fn find_delegated(&self, authorization_id: AuthorizationId, claim_hash: ClaimHash) -> (r:
        Option<usize>)
        ensures
            match r {
                Some(i) => i < self.external_verifications@.len()
                    && self.external_verifications@[i as int] == (authorization_id, claim_hash)
                    && self.delegated().contains((authorization_id, claim_hash)),
                None => !self.delegated().contains((authorization_id, claim_hash)) && forall|j: int|
                    0 <= j < self.external_verifications@.len()
                        ==> #[trigger] self.external_verifications@[j] != (
                        authorization_id,
                        claim_hash,
                    ),
            },
    {
        let n = self.external_verifications.len();
        let mut i: usize = 0;
        while i < n
            invariant
                n == self.external_verifications@.len(),
                i <= n,
                forall|j: int|
                    0 <= j < i ==> #[trigger] self.external_verifications@[j] != (
                        authorization_id,
                        claim_hash,
                    ),
            decreases n - i,
        {
            let p = self.external_verifications[i];
            if p.0 == authorization_id && p.1 == claim_hash {
                return Some(i);
            }
            i += 1;
        }
        None
    }
}

} // verus!
