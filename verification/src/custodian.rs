//! The currency custodian: per-account free and reserved balances with the
//! escrow primitives the dispute court relies on — reserve, release, and
//! transfer with an optional keep-alive floor on the sender.

use vstd::prelude::*;
use crate::storage::{lemma_find_at_index, lemma_find_index, IdMap};

verus! {

/// One account's holdings: freely usable weight and weight locked in
/// escrow.
#[derive(Clone, Copy, Debug, PartialEq, Eq, Structural)]
pub struct Balance {
    pub free: u64,
    pub reserved: u64,
}

/// Failures of custodian operations.
#[derive(Clone, Copy, Debug, PartialEq, Eq, Structural)]
pub enum CustodianError {
    /// The account's free balance cannot cover the requested amount.
    InsufficientFreeBalance,
    /// The transfer would push the sender below the minimum balance that
    /// keeps an account alive.
    WouldKillAccount,
    /// Minting would push the total issuance past the representable range.
    TotalIssuanceOverflow,
}

/// Everything an account holds, free and reserved together.
pub open spec fn balance_total(b: Balance) -> int {
    b.free + b.reserved
}

/// Total holdings across all accounts.
pub open spec fn sum_balances(s: Seq<(u64, Balance)>) -> int
    decreases s.len(),
{
    if s.len() == 0 {
        0
    } else {
        balance_total(s[0].1) + sum_balances(s.drop_first())
    }
}

/// Holdings are never negative in sum.
pub proof fn lemma_sum_balances_nonneg(s: Seq<(u64, Balance)>)
    ensures
        sum_balances(s) >= 0,
    decreases s.len(),
{
    if s.len() > 0 {
        lemma_sum_balances_nonneg(s.drop_first());
    }
}

/// One account's holdings never exceed the grand total.
pub proof fn lemma_sum_balances_elem(s: Seq<(u64, Balance)>, i: int)
    requires
        0 <= i < s.len(),
    ensures
        balance_total(s[i].1) <= sum_balances(s),
    decreases s.len(),
{
    if i == 0 {
        lemma_sum_balances_nonneg(s.drop_first());
    } else {
        lemma_sum_balances_elem(s.drop_first(), i - 1);
        assert(s.drop_first()[i - 1] == s[i]);
    }
}

/// Two distinct accounts' holdings never exceed the grand total together.
pub proof fn lemma_sum_balances_two(s: Seq<(u64, Balance)>, i: int, j: int)
    requires
        0 <= i < s.len(),
        0 <= j < s.len(),
        i != j,
    ensures
        balance_total(s[i].1) + balance_total(s[j].1) <= sum_balances(s),
    decreases s.len(),
{
    if i == 0 {
        lemma_sum_balances_elem(s.drop_first(), j - 1);
        assert(s.drop_first()[j - 1] == s[j]);
    } else if j == 0 {
        lemma_sum_balances_elem(s.drop_first(), i - 1);
        assert(s.drop_first()[i - 1] == s[i]);
    } else {
        lemma_sum_balances_two(s.drop_first(), i - 1, j - 1);
        assert(s.drop_first()[i - 1] == s[i]);
        assert(s.drop_first()[j - 1] == s[j]);
    }
}

/// Appending an account adds its holdings to the grand total.
pub proof fn lemma_sum_balances_push(s: Seq<(u64, Balance)>, e: (u64, Balance))
    ensures
        sum_balances(s.push(e)) == sum_balances(s) + balance_total(e.1),
    decreases s.len(),
{
    if s.len() == 0 {
        assert(s.push(e)[0] == e);
        assert(s.push(e).drop_first() =~= Seq::<(u64, Balance)>::empty());
        assert(sum_balances(Seq::<(u64, Balance)>::empty()) == 0);
    } else {
        assert(s.push(e)[0] == s[0]);
        assert(s.push(e).drop_first() =~= s.drop_first().push(e));
        lemma_sum_balances_push(s.drop_first(), e);
    }
}

/// Replacing an account's entry swaps its holdings in the grand total.
pub proof fn lemma_sum_balances_update(s: Seq<(u64, Balance)>, i: int, e: (u64, Balance))
    requires
        0 <= i < s.len(),
    ensures
        sum_balances(s.update(i, e)) == sum_balances(s) - balance_total(s[i].1) + balance_total(
            e.1,
        ),
    decreases s.len(),
{
    let t = s.update(i, e);
    if i == 0 {
        assert(t[0] == e);
        assert(t.drop_first() =~= s.drop_first());
    } else {
        assert(t[0] == s[0]);
        assert(t.drop_first() =~= s.drop_first().update(i - 1, e));
        lemma_sum_balances_update(s.drop_first(), i - 1, e);
        assert(s.drop_first()[i - 1] == s[i]);
    }
}

/// The custodian: account holdings, their recorded grand total, and the
/// minimum balance that keeps an account alive.
pub struct Custodian {
    pub minimum_balance: u64,
    pub total_issuance: u64,
    pub accounts: IdMap<Balance>,
}

impl Custodian {
    /// The recorded issuance really is the grand total of all holdings.
    pub open spec fn wf(self) -> bool {
        &&& self.accounts.wf()
        &&& self.total_issuance == sum_balances(self.accounts@)
    }

    /// An account's holdings; an unknown account holds nothing.
    pub open spec fn spec_balance(self, account: u64) -> Balance {
        match self.accounts.spec_get(account) {
            Some(b) => b,
            None => Balance { free: 0, reserved: 0 },
        }
    }

    /// An account's free balance.
    pub open spec fn spec_free(self, account: u64) -> u64 {
        self.spec_balance(account).free
    }

    /// An account's reserved balance.
    pub open spec fn spec_reserved(self, account: u64) -> u64 {
        self.spec_balance(account).reserved
    }

    /// An empty custodian with the given existence floor.
    pub fn new(minimum_balance: u64) -> (r: Custodian)
        ensures
            r.wf(),
            r.minimum_balance == minimum_balance,
            r.total_issuance == 0,
            forall|a: u64| r.spec_balance(a) == (Balance { free: 0, reserved: 0 }),
    {
        let r = Custodian { minimum_balance, total_issuance: 0, accounts: IdMap::new() };
        r
    }

    /// Free balance of an account.
    pub fn free_balance(&self, account: u64) -> (r: u64)
        requires
            self.wf(),
        ensures
            r == self.spec_free(account),
    {
        match self.accounts.get(account) {
            Some(b) => b.free,
            None => 0,
        }
    }

    /// Reserved balance of an account.
    pub fn reserved_balance(&self, account: u64) -> (r: u64)
        requires
            self.wf(),
        ensures
            r == self.spec_reserved(account),
    {
        match self.accounts.get(account) {
            Some(b) => b.reserved,
            None => 0,
        }
    }

    /// Store an account's holdings, keeping every other account untouched;
    /// the recorded issuance is left to the caller to restore.
    fn put_balance(&mut self, account: u64, b: Balance)
        requires
            old(self).accounts.wf(),
        ensures
            final(self).accounts.wf(),
            final(self).spec_balance(account) == b,
            forall|a: u64| a != account ==> final(self).spec_balance(a) == old(self).spec_balance(a),
            sum_balances(final(self).accounts@) == sum_balances(old(self).accounts@)
                - balance_total(old(self).spec_balance(account)) + balance_total(b),
            final(self).total_issuance == old(self).total_issuance,
            final(self).minimum_balance == old(self).minimum_balance,
    {
        let present = self.accounts.contains_key(account);
        if present {
            self.accounts.set(account, b);
            proof {
                let s = old(self).accounts@;
                let i = choose|i: int|
                    0 <= i < s.len() && s[i].0 == account && final(self).accounts@ == s.update(
                        i,
                        (account, b),
                    );
                lemma_find_at_index(s, i);
                lemma_sum_balances_update(s, i, (account, b));
            }
        } else {
            self.accounts.insert_new(account, b);
            proof {
                lemma_sum_balances_push(old(self).accounts@, (account, b));
            }
        }
    }

    /// One account's holdings never exceed the recorded issuance.
    pub proof fn lemma_account_bound(self, account: u64)
        requires
            self.wf(),
        ensures
            balance_total(self.spec_balance(account)) <= self.total_issuance,
    {
        let s = self.accounts@;
        lemma_find_index(s, account);
        if self.accounts.spec_get(account) is Some {
            let i = choose|i: int| 0 <= i < s.len() && s[i].0 == account;
            lemma_find_at_index(s, i);
            lemma_sum_balances_elem(s, i);
        } else {
            lemma_sum_balances_nonneg(s);
        }
    }

    /// Two distinct accounts' holdings never exceed the recorded issuance
    /// together.
    pub proof fn lemma_two_accounts_bound(self, a1: u64, a2: u64)
        requires
            self.wf(),
            a1 != a2,
        ensures
            balance_total(self.spec_balance(a1)) + balance_total(self.spec_balance(a2))
                <= self.total_issuance,
    {
        let s = self.accounts@;
        lemma_find_index(s, a1);
        lemma_find_index(s, a2);
        if self.accounts.spec_get(a1) is Some && self.accounts.spec_get(a2) is Some {
            let i = choose|i: int| 0 <= i < s.len() && s[i].0 == a1;
            let j = choose|j: int| 0 <= j < s.len() && s[j].0 == a2;
            lemma_find_at_index(s, i);
            lemma_find_at_index(s, j);
            lemma_sum_balances_two(s, i, j);
        } else if self.accounts.spec_get(a1) is Some {
            self.lemma_account_bound(a1);
        } else {
            self.lemma_account_bound(a2);
        }
    }

    /// Mint new free balance for an account, growing the issuance.
    pub fn deposit(&mut self, account: u64, amount: u64) -> (r: Result<(), CustodianError>)
        requires
            old(self).wf(),
        ensures
            final(self).wf(),
            final(self).minimum_balance == old(self).minimum_balance,
            r is Ok <==> old(self).total_issuance + amount <= u64::MAX,
            r is Err ==> r == Err::<(), CustodianError>(CustodianError::TotalIssuanceOverflow)
                && *final(self) == *old(self),
            r is Ok ==> ({
                &&& final(self).total_issuance == old(self).total_issuance + amount
                &&& final(self).spec_free(account) == old(self).spec_free(account) + amount
                &&& final(self).spec_reserved(account) == old(self).spec_reserved(account)
                &&& forall|a: u64|
                    a != account ==> final(self).spec_balance(a) == old(self).spec_balance(a)
            }),
    {
        if amount > u64::MAX - self.total_issuance {
            return Err(CustodianError::TotalIssuanceOverflow);
        }
        proof {
            self.lemma_account_bound(account);
        }
        let b = match self.accounts.get(account) {
            Some(b) => *b,
            None => Balance { free: 0, reserved: 0 },
        };
        self.put_balance(account, Balance { free: b.free + amount, reserved: b.reserved });
        self.total_issuance = self.total_issuance + amount;
        Ok(())
    }

    /// Move part of an account's free balance into escrow.
    pub fn reserve(&mut self, who: u64, amount: u64) -> (r: Result<(), CustodianError>)
        requires
            old(self).wf(),
        ensures
            final(self).wf(),
            final(self).minimum_balance == old(self).minimum_balance,
            final(self).total_issuance == old(self).total_issuance,
            r is Ok <==> amount <= old(self).spec_free(who),
            r is Err ==> r == Err::<(), CustodianError>(CustodianError::InsufficientFreeBalance)
                && *final(self) == *old(self),
            r is Ok ==> ({
                &&& final(self).spec_free(who) == old(self).spec_free(who) - amount
                &&& final(self).spec_reserved(who) == old(self).spec_reserved(who) + amount
                &&& forall|a: u64|
                    a != who ==> final(self).spec_balance(a) == old(self).spec_balance(a)
            }),
    {
        proof {
            self.lemma_account_bound(who);
        }
        let b = match self.accounts.get(who) {
            Some(b) => *b,
            None => Balance { free: 0, reserved: 0 },
        };
        if amount > b.free {
            return Err(CustodianError::InsufficientFreeBalance);
        }
        self.put_balance(who, Balance { free: b.free - amount, reserved: b.reserved + amount });
        Ok(())
    }

    /// Release escrowed balance back to free use.  Only what is actually
    /// reserved moves; the part of the request that could not be met is
    /// returned.
    pub fn unreserve(&mut self, who: u64, amount: u64) -> (remainder: u64)
        requires
            old(self).wf(),
        ensures
            final(self).wf(),
            final(self).minimum_balance == old(self).minimum_balance,
            final(self).total_issuance == old(self).total_issuance,
            ({
                let moved = if amount <= old(self).spec_reserved(who) {
                    amount as int
                } else {
                    old(self).spec_reserved(who) as int
                };
                &&& final(self).spec_reserved(who) == old(self).spec_reserved(who) - moved
                &&& final(self).spec_free(who) == old(self).spec_free(who) + moved
                &&& remainder == amount - moved
            }),
            forall|a: u64| a != who ==> final(self).spec_balance(a) == old(self).spec_balance(a),
    {
        proof {
            self.lemma_account_bound(who);
        }
        let b = match self.accounts.get(who) {
            Some(b) => *b,
            None => Balance { free: 0, reserved: 0 },
        };
        let moved = if amount <= b.reserved {
            amount
        } else {
            b.reserved
        };
        self.put_balance(who, Balance { free: b.free + moved, reserved: b.reserved - moved });
        amount - moved
    }

    /// Move free balance between accounts.  With `keep_alive` the sender
    /// must stay at or above the existence floor; a transfer to oneself
    /// changes nothing once the same checks pass.
    pub fn transfer(&mut self, from: u64, to: u64, amount: u64, keep_alive: bool) -> (r: Result<
        (),
        CustodianError,
    >)
        requires
            old(self).wf(),
        ensures
            final(self).wf(),
            final(self).minimum_balance == old(self).minimum_balance,
            final(self).total_issuance == old(self).total_issuance,
            r is Ok <==> (amount <= old(self).spec_free(from) && (keep_alive ==> old(
                self,
            ).spec_free(from) - amount >= old(self).minimum_balance)),
            amount > old(self).spec_free(from) ==> r == Err::<(), CustodianError>(
                CustodianError::InsufficientFreeBalance,
            ),
            amount <= old(self).spec_free(from) && keep_alive && old(self).spec_free(from) - amount
                < old(self).minimum_balance ==> r == Err::<(), CustodianError>(
                CustodianError::WouldKillAccount,
            ),
            r is Err ==> *final(self) == *old(self),
            r is Ok && from == to ==> *final(self) == *old(self),
            r is Ok && from != to ==> ({
                &&& final(self).spec_free(from) == old(self).spec_free(from) - amount
                &&& final(self).spec_reserved(from) == old(self).spec_reserved(from)
                &&& final(self).spec_free(to) == old(self).spec_free(to) + amount
                &&& final(self).spec_reserved(to) == old(self).spec_reserved(to)
                &&& forall|a: u64|
                    a != from && a != to ==> final(self).spec_balance(a) == old(self).spec_balance(
                        a,
                    )
            }),
    {
        let from_b = match self.accounts.get(from) {
            Some(b) => *b,
            None => Balance { free: 0, reserved: 0 },
        };
        if amount > from_b.free {
            return Err(CustodianError::InsufficientFreeBalance);
        }
        if keep_alive && from_b.free - amount < self.minimum_balance {
            return Err(CustodianError::WouldKillAccount);
        }
        if from == to {
            return Ok(());
        }
        proof {
            self.lemma_two_accounts_bound(from, to);
        }
        let to_b = match self.accounts.get(to) {
            Some(b) => *b,
            None => Balance { free: 0, reserved: 0 },
        };
        self.put_balance(from, Balance { free: from_b.free - amount, reserved: from_b.reserved });
        self.put_balance(to, Balance { free: to_b.free + amount, reserved: to_b.reserved });
        Ok(())
    }
}

} // verus!
