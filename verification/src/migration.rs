//! The migration tracker the core consults before every deposit change. It
//! answers whether a storage key already lives under the current accounting
//! scheme, takes newly created keys out of the legacy path, and releases
//! reservations that are still tracked under the legacy scheme, outside the
//! escrow adapter's bookkeeping.

use vstd::prelude::*;

use crate::store::keys_unique;
use crate::store::lemma_lookup_absent;
use crate::store::lemma_lookup_at;
use crate::store::lemma_lookup_push;
use crate::store::lemma_lookup_update;
use crate::store::lookup;
use crate::AccountId;
use crate::Balance;
use crate::ClaimHash;

verus! {

/// Which storage keys are on the current accounting scheme, and how much is
/// still reserved per account under the legacy scheme.
pub struct MigrationTracker {
    migrated: Vec<ClaimHash>,
    legacy: Vec<(AccountId, Balance)>,
}

impl MigrationTracker {
    /// Whether `key` is accounted under the current scheme.
    pub closed spec fn migrated(&self, key: ClaimHash) -> bool {
        exists|i: int| 0 <= i < self.migrated@.len() && self.migrated@[i] == key
    }

    /// The funds still reserved for `who` under the legacy scheme.
    pub closed spec fn legacy_of(&self, who: AccountId) -> Balance {
        match lookup(self.legacy@, who) {
            Some(b) => b,
            None => 0,
        }
    }

    /// Each account has at most one legacy entry.
    pub closed spec fn wf(&self) -> bool {
        keys_unique(self.legacy@)
    }

    /// A fresh tracker: nothing migrated, nothing reserved.
    pub fn new() -> (r: Self)
        ensures
            r.wf(),
            forall|k: ClaimHash| !r.migrated(k),
            forall|a: AccountId| r.legacy_of(a) == 0,
    {
        let r = MigrationTracker { migrated: Vec::new(), legacy: Vec::new() };
        proof {
            assert forall|a: AccountId| r.legacy_of(a) == 0 by {
                lemma_lookup_absent(r.legacy@, a);
            }
        }
        r
    }

    /// Whether `key` is accounted under the current scheme.
    pub fn is_key_migrated(&self, key: ClaimHash) -> (r: bool)
        ensures
            r == self.migrated(key),
    {
        let n = self.migrated.len();
        let mut i: usize = 0;
        while i < n
            invariant
                n == self.migrated@.len(),
                i <= n,
                forall|j: int| 0 <= j < i ==> self.migrated@[j] != key,
            decreases n - i,
        {
            if self.migrated[i] == key {
                return true;
            }
            i += 1;
        }
        false
    }

    /// Mark `key` as accounted under the current scheme, so that the legacy
    /// path never touches it.
    pub fn exclude_key_from_migration(&mut self, key: ClaimHash)
        requires
            old(self).wf(),
        ensures
            final(self).wf(),
            final(self).migrated(key),
            forall|k: ClaimHash| k != key ==> final(self).migrated(k) == old(self).migrated(k),
            forall|a: AccountId| final(self).legacy_of(a) == old(self).legacy_of(a),
    {
        let ghost s = self.migrated@;
        self.migrated.push(key);
        proof {
            assert(self.migrated@[s.len() as int] == key);
            assert forall|k: ClaimHash| k != key implies self.migrated(k) == old(self).migrated(
                k,
            ) by {
                if old(self).migrated(k) {
                    let i = choose|i: int| 0 <= i < s.len() && s[i] == k;
                    assert(self.migrated@[i] == k);
                }
                if self.migrated(k) {
                    let i = choose|i: int| 0 <= i < self.migrated@.len() && self.migrated@[i] == k;
                    assert(s[i] == k);
                }
            }
        }
    }

    /// The position of `who`'s legacy entry, if there is one.
    fn find_legacy(&self, who: AccountId) -> (r: Option<usize>)
        requires
            self.wf(),
        ensures
            match r {
                Some(i) => i < self.legacy@.len() && self.legacy@[i as int].0 == who
                    && self.legacy_of(who) == self.legacy@[i as int].1,
                None => self.legacy_of(who) == 0 && forall|j: int|
                    0 <= j < self.legacy@.len() ==> (#[trigger] self.legacy@[j]).0 != who,
            },
    {
        let n = self.legacy.len();
        let mut i: usize = 0;
        while i < n
            invariant
                n == self.legacy@.len(),
                i <= n,
                self.wf(),
                forall|j: int| 0 <= j < i ==> (#[trigger] self.legacy@[j]).0 != who,
            decreases n - i,
        {
            if self.legacy[i].0 == who {
                proof {
                    lemma_lookup_at(self.legacy@, i as int);
                }
                return Some(i);
            }
            i += 1;
        }
        proof {
            lemma_lookup_absent(self.legacy@, who);
        }
        None
    }

    /// The funds still reserved for `who` under the legacy scheme.
    pub fn legacy_reserved(&self, who: AccountId) -> (r: Balance)
        requires
            self.wf(),
        ensures
            r == self.legacy_of(who),
    {
        match self.find_legacy(who) {
            Some(i) => self.legacy[i].1,
            None => 0,
        }
    }

    /// Record a reservation made under the legacy scheme, as pre-existing
    /// state carries it.
    pub fn reserve_legacy(&mut self, who: AccountId, amount: Balance)
        requires
            old(self).wf(),
            old(self).legacy_of(who) + amount <= Balance::MAX,
        ensures
            final(self).wf(),
            final(self).legacy_of(who) == old(self).legacy_of(who) + amount,
            forall|a: AccountId| a != who ==> final(self).legacy_of(a) == old(self).legacy_of(a),
            forall|k: ClaimHash| final(self).migrated(k) == old(self).migrated(k),
    {
        match self.find_legacy(who) {
            Some(i) => {
                let entry = (who, self.legacy[i].1 + amount);
                proof {
                    lemma_lookup_update(self.legacy@, i as int, entry);
                }
                self.legacy.set(i, entry);
            },
            None => {
                let ghost s = self.legacy@;
                proof {
                    lemma_lookup_push(s, (who, amount));
                }
                self.legacy.push((who, amount));
                proof {
                    assert forall|p: int, q: int|
                        0 <= p < q < self.legacy@.len() implies (#[trigger] self.legacy@[p]).0
                        != (#[trigger] self.legacy@[q]).0 by {
                        assert(self.legacy@[p] == s[p]);
                        if q < s.len() {
                            assert(self.legacy@[q] == s[q]);
                        }
                    }
                }
            },
        }
        proof {
            assert(self.migrated@ == old(self).migrated@);
            assert forall|k: ClaimHash| self.migrated(k) == old(self).migrated(k) by {
                if old(self).migrated(k) {
                    let i = choose|i: int|
                        0 <= i < old(self).migrated@.len() && old(self).migrated@[i] == k;
                    assert(self.migrated@[i] == k);
                }
                if self.migrated(k) {
                    let i = choose|i: int|
                        0 <= i < self.migrated@.len() && self.migrated@[i] == k;
                    assert(old(self).migrated@[i] == k);
                }
            }
        }
    }

    /// Release part of a legacy reservation. The caller must know that the
    /// reservation covers the amount; the registry knows it from its
    /// escrow-conservation invariant. The released funds leave the legacy
    /// bookkeeping, which lives outside the escrow adapter.
    pub fn release_reserved_deposit(&mut self, who: AccountId, amount: Balance)
        requires
            old(self).wf(),
            amount <= old(self).legacy_of(who),
        ensures
            final(self).wf(),
            final(self).legacy_of(who) == old(self).legacy_of(who) - amount,
            forall|a: AccountId| a != who ==> final(self).legacy_of(a) == old(self).legacy_of(a),
            forall|k: ClaimHash| final(self).migrated(k) == old(self).migrated(k),
    {
        match self.find_legacy(who) {
            Some(i) => {
                let entry = (who, self.legacy[i].1 - amount);
                proof {
                    lemma_lookup_update(self.legacy@, i as int, entry);
                }
                self.legacy.set(i, entry);
            },
            None => {
                // legacy_of is zero here, so the amount is zero and nothing
                // changes.
            },
        }
        proof {
            assert(self.migrated@ == old(self).migrated@);
            assert forall|k: ClaimHash| self.migrated(k) == old(self).migrated(k) by {
                if old(self).migrated(k) {
                    let i = choose|i: int|
                        0 <= i < old(self).migrated@.len() && old(self).migrated@[i] == k;
                    assert(self.migrated@[i] == k);
                }
                if self.migrated(k) {
                    let i = choose|i: int|
                        0 <= i < self.migrated@.len() && self.migrated@[i] == k;
                    assert(old(self).migrated@[i] == k);
                }
            }
        }
    }

}

} // verus!
