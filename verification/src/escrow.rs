//! The deposit escrow: per-account free funds and funds held for a reason.
//! The registry consumes this component; it never manipulates balances in
//! any other way.

use vstd::prelude::*;

use crate::errors::DispatchError;
use crate::errors::TokenError;
use crate::events::HoldReason;
use crate::store::keys_unique;
use crate::store::lemma_lookup_absent;
use crate::store::lemma_lookup_at;
use crate::store::lemma_lookup_push;
use crate::store::lemma_lookup_update;
use crate::store::lookup;
use crate::verifications::Deposit;
use crate::AccountId;
use crate::Balance;

verus! {

/// One account's funds: spendable and held.
#[derive(Clone, Copy, Debug, PartialEq, Eq)]
pub struct AccountBalance {
    /// Funds the account can spend or have held.
    pub free: Balance,
    /// Funds held in escrow.
    pub held: Balance,
}

/// The escrow ledger over all accounts. An account that never appears has
/// no funds.
pub struct EscrowLedger {
    accounts: Vec<(AccountId, AccountBalance)>,
}

impl EscrowLedger {
    /// The balances recorded for `who`.
    pub closed spec fn balance_of(&self, who: AccountId) -> AccountBalance {
        match lookup(self.accounts@, who) {
            Some(b) => b,
            None => AccountBalance { free: 0, held: 0 },
        }
    }

    /// The spendable funds of `who`.
    pub open spec fn free_of(&self, who: AccountId) -> Balance {
        self.balance_of(who).free
    }

    /// The funds of `who` held in escrow.
    pub open spec fn held_of(&self, who: AccountId) -> Balance {
        self.balance_of(who).held
    }

    /// Each account has one entry and its total funds fit the balance type.
    pub closed spec fn wf(&self) -> bool {
        &&& keys_unique(self.accounts@)
        &&& forall|i: int|
            0 <= i < self.accounts@.len() ==> (#[trigger] self.accounts@[i]).1.free
                + self.accounts@[i].1.held <= Balance::MAX
    }

    /// The sum of free and held funds never exceeds the balance type.
    pub proof fn lemma_balance_bounded(&self, who: AccountId)
        requires
            self.wf(),
        ensures
            self.free_of(who) + self.held_of(who) <= Balance::MAX,
    {
        if exists|i: int| 0 <= i < self.accounts@.len() && (#[trigger] self.accounts@[i]).0 == who {
            let i = choose|i: int|
                0 <= i < self.accounts@.len() && (#[trigger] self.accounts@[i]).0 == who;
            lemma_lookup_at(self.accounts@, i);
        } else {
            lemma_lookup_absent(self.accounts@, who);
        }
    }

    /// An empty ledger: no account has funds.
    pub fn new() -> (r: Self)
        ensures
            r.wf(),
            forall|a: AccountId| #[trigger] r.balance_of(a) == (AccountBalance { free: 0, held: 0 }),
    {
        let r = EscrowLedger { accounts: Vec::new() };
        proof {
            assert forall|a: AccountId| #[trigger]
                r.balance_of(a) == (AccountBalance { free: 0, held: 0 }) by {
                lemma_lookup_absent(r.accounts@, a);
            }
        }
        r
    }

    /// The position of `who`'s entry, if the account appears.
    fn find(&self, who: AccountId) -> (r: Option<usize>)
        requires
            self.wf(),
        ensures
            match r {
                Some(i) => i < self.accounts@.len() && self.accounts@[i as int].0 == who
                    && self.balance_of(who) == self.accounts@[i as int].1,
                None => self.balance_of(who) == (AccountBalance { free: 0, held: 0 })
                    && forall|j: int| 0 <= j < self.accounts@.len() ==> (#[trigger] self.accounts@[j]).0 != who,
            },
    {
        let n = self.accounts.len();
        let mut i: usize = 0;
        while i < n
            invariant
                n == self.accounts@.len(),
                i <= n,
                self.wf(),
                forall|j: int| 0 <= j < i ==> (#[trigger] self.accounts@[j]).0 != who,
            decreases n - i,
        {
            if self.accounts[i].0 == who {
                proof {
                    lemma_lookup_at(self.accounts@, i as int);
                }
                return Some(i);
            }
            i += 1;
        }
        proof {
            lemma_lookup_absent(self.accounts@, who);
        }
        None
    }

    /// Endow `who` with spendable funds, as the surrounding system does when
    /// an account is funded.
    pub fn endow(&mut self, who: AccountId, amount: Balance)
        requires
            old(self).wf(),
            old(self).held_of(who) + amount <= Balance::MAX,
        ensures
            final(self).wf(),
            final(self).balance_of(who) == (AccountBalance {
                free: amount,
                held: old(self).held_of(who),
            }),
            forall|b: AccountId| b != who ==> final(self).balance_of(b) == old(self).balance_of(b),
    {
        let entry = AccountBalance { free: amount, held: self.balance_on_hold(HoldReason::Deposit, who) };
        match self.find(who) {
            Some(i) => {
                let ghost s = self.accounts@;
                proof {
                    lemma_lookup_update(s, i as int, (who, entry));
                }
                self.accounts.set(i, (who, entry));
                proof {
                    assert forall|j: int|
                        0 <= j < self.accounts@.len() implies (#[trigger] self.accounts@[j]).1.free
                        + self.accounts@[j].1.held <= Balance::MAX by {
                        if j != i {
                            assert(self.accounts@[j] == s[j]);
                        }
                    }
                }
            },
            None => {
                let ghost s = self.accounts@;
                proof {
                    lemma_lookup_push(s, (who, entry));
                }
                self.accounts.push((who, entry));
                proof {
                    assert forall|p: int, q: int|
                        0 <= p < q < self.accounts@.len() implies (#[trigger] self.accounts@[p]).0
                        != (#[trigger] self.accounts@[q]).0 by {
                        assert(self.accounts@[p] == s[p]);
                        if q < s.len() {
                            assert(self.accounts@[q] == s[q]);
                        }
                    }
                    assert forall|j: int|
                        0 <= j < self.accounts@.len() implies (#[trigger] self.accounts@[j]).1.free
                        + self.accounts@[j].1.held <= Balance::MAX by {
                        if j < s.len() {
                            assert(self.accounts@[j] == s[j]);
                        }
                    }
                }
            },
        }
    }

    /// The spendable funds of `who`.
    pub fn free_balance(&self, who: AccountId) -> (r: Balance)
        requires
            self.wf(),
        ensures
            r == self.free_of(who),
    {
        match self.find(who) {
            Some(i) => self.accounts[i].1.free,
            None => 0,
        }
    }

    /// The funds of `who` held under `_reason`.
    pub fn balance_on_hold(&self, _reason: HoldReason, who: AccountId) -> (r: Balance)
        requires
            self.wf(),
        ensures
            r == self.held_of(who),
    {
        match self.find(who) {
            Some(i) => self.accounts[i].1.held,
            None => 0,
        }
    }

    /// Move `amount` of `payer`'s spendable funds into escrow. Fails, and
    /// changes nothing, exactly when the spendable funds do not cover the
    /// amount.
    pub fn hold(&mut self, _reason: HoldReason, payer: AccountId, amount: Balance) -> (r: Result<
        Deposit,
        DispatchError,
    >)
        requires
            old(self).wf(),
        ensures
            final(self).wf(),
            r is Ok <==> amount <= old(self).free_of(payer),
            r is Err ==> *final(self) == *old(self) && r == Err::<Deposit, DispatchError>(
                DispatchError::Token(TokenError::FundsUnavailable),
            ),
            r is Ok ==> r == Ok::<Deposit, DispatchError>(Deposit { owner: payer, amount })
                && final(self).balance_of(payer) == (AccountBalance {
                free: (old(self).free_of(payer) - amount) as Balance,
                held: (old(self).held_of(payer) + amount) as Balance,
            }) && forall|b: AccountId|
                b != payer ==> final(self).balance_of(b) == old(self).balance_of(b),
    {
        match self.find(payer) {
            Some(i) => {
                let bal = self.accounts[i].1;
                if amount <= bal.free {
                    let entry = AccountBalance { free: bal.free - amount, held: bal.held + amount };
                    proof {
                        lemma_lookup_update(self.accounts@, i as int, (payer, entry));
                    }
                    self.accounts.set(i, (payer, entry));
                    Ok(Deposit { owner: payer, amount })
                } else {
                    Err(DispatchError::Token(TokenError::FundsUnavailable))
                }
            },
            None => {
                if amount == 0 {
                    Ok(Deposit { owner: payer, amount })
                } else {
                    Err(DispatchError::Token(TokenError::FundsUnavailable))
                }
            },
        }
    }

    /// Release a held deposit back into its owner's spendable funds. The
    /// caller must know that the owner's held funds cover the deposit; the
    /// registry knows it from its escrow-conservation invariant.
    pub fn release(&mut self, _reason: HoldReason, deposit: Deposit)
        requires
            old(self).wf(),
            deposit.amount <= old(self).held_of(deposit.owner),
        ensures
            final(self).wf(),
            final(self).balance_of(deposit.owner) == (AccountBalance {
                free: (old(self).free_of(deposit.owner) + deposit.amount) as Balance,
                held: (old(self).held_of(deposit.owner) - deposit.amount) as Balance,
            }),
            forall|b: AccountId|
                b != deposit.owner ==> final(self).balance_of(b) == old(self).balance_of(b),
    {
        match self.find(deposit.owner) {
            Some(i) => {
                let bal = self.accounts[i].1;
                let entry = AccountBalance {
                    free: bal.free + deposit.amount,
                    held: bal.held - deposit.amount,
                };
                proof {
                    lemma_lookup_update(self.accounts@, i as int, (deposit.owner, entry));
                }
                self.accounts.set(i, (deposit.owner, entry));
            },
            None => {
                // held_of is zero here, so the deposit amount is zero and
                // nothing moves.
                proof {
                    assert(deposit.amount == 0);
                }
            },
        }
    }

    /// Hand a held deposit over to a new owner: the old owner's held funds
    /// return to their spendable funds and the same amount of the new
    /// owner's spendable funds is held. Fails, and changes nothing, exactly
    /// when the new owner's spendable funds do not cover the amount.
    pub fn transfer_owner(&mut self, reason: HoldReason, deposit: Deposit, new_owner: AccountId)
        -> (r: Result<Deposit, DispatchError>)
        requires
            old(self).wf(),
            deposit.amount <= old(self).held_of(deposit.owner),
        ensures
            final(self).wf(),
            r is Ok <==> new_owner == deposit.owner || deposit.amount <= old(self).free_of(
                new_owner,
            ),
            r is Err ==> *final(self) == *old(self) && r == Err::<Deposit, DispatchError>(
                DispatchError::Token(TokenError::FundsUnavailable),
            ),
            r is Ok ==> r == Ok::<Deposit, DispatchError>(
                Deposit { owner: new_owner, amount: deposit.amount },
            ),
            r is Ok && new_owner == deposit.owner ==> *final(self) == *old(self),
            r is Ok && new_owner != deposit.owner ==> final(self).balance_of(deposit.owner) == (
            AccountBalance {
                free: (old(self).free_of(deposit.owner) + deposit.amount) as Balance,
                held: (old(self).held_of(deposit.owner) - deposit.amount) as Balance,
            }) && final(self).balance_of(new_owner) == (AccountBalance {
                free: (old(self).free_of(new_owner) - deposit.amount) as Balance,
                held: (old(self).held_of(new_owner) + deposit.amount) as Balance,
            }) && forall|b: AccountId|
                b != deposit.owner && b != new_owner ==> final(self).balance_of(b) == old(
                    self,
                ).balance_of(b),
    {
        if new_owner == deposit.owner {
            return Ok(deposit);
        }
        if self.free_balance(new_owner) < deposit.amount {
            return Err(DispatchError::Token(TokenError::FundsUnavailable));
        }
        self.release(reason, deposit);
        let r = self.hold(reason, new_owner, deposit.amount);
        match r {
            Ok(d) => Ok(d),
            Err(_) => {
                // unreachable: the release above made the funds spendable
                proof {
                    assert(false);
                }
                Err(DispatchError::Token(TokenError::FundsUnavailable))
            },
        }
    }

    /// Bring a held deposit to a new amount, keeping its owner: the old
    /// amount returns to the owner's spendable funds and the new amount is
    /// held. Fails, and changes nothing, exactly when the owner's spendable
    /// funds plus the released amount do not cover the new amount.
    pub fn update_amount(&mut self, reason: HoldReason, deposit: Deposit, new_amount: Balance)
        -> (r: Result<Deposit, DispatchError>)
        requires
            old(self).wf(),
            deposit.amount <= old(self).held_of(deposit.owner),
        ensures
            final(self).wf(),
            r is Ok <==> new_amount <= old(self).free_of(deposit.owner) + deposit.amount,
            r is Err ==> *final(self) == *old(self) && r == Err::<Deposit, DispatchError>(
                DispatchError::Token(TokenError::FundsUnavailable),
            ),
            r is Ok ==> r == Ok::<Deposit, DispatchError>(
                Deposit { owner: deposit.owner, amount: new_amount },
            ) && final(self).balance_of(deposit.owner) == (AccountBalance {
                free: (old(self).free_of(deposit.owner) + deposit.amount - new_amount) as Balance,
                held: (old(self).held_of(deposit.owner) - deposit.amount + new_amount) as Balance,
            }) && forall|b: AccountId|
                b != deposit.owner ==> final(self).balance_of(b) == old(self).balance_of(b),
    {
        proof {
            self.lemma_balance_bounded(deposit.owner);
        }
        let free = self.free_balance(deposit.owner);
        if new_amount > deposit.amount && new_amount - deposit.amount > free {
            return Err(DispatchError::Token(TokenError::FundsUnavailable));
        }
        self.release(reason, deposit);
        let r = self.hold(reason, deposit.owner, new_amount);
        match r {
            Ok(d) => Ok(d),
            Err(_) => {
                // unreachable: the release above made the funds spendable
                proof {
                    assert(false);
                }
                Err(DispatchError::Token(TokenError::FundsUnavailable))
            },
        }
    }
}

} // verus!
