//! The balance store: a table from (token, account) to a non-negative
//! quantity. An absent key reads as zero, indistinguishably from an explicit
//! zero entry. Besides the per-key view `spec_get`, the store exposes the
//! per-token total `spec_sum`, the quantity the ledger's conservation
//! invariant speaks of, and every mutation states exactly how both change.

use crate::types::Error;
use vstd::prelude::*;

verus! {

/// One row of the balance table.
#[derive(Clone, Copy, Debug, PartialEq, Eq)]
pub struct BalanceEntry {
    pub token: u64,
    pub account: u64,
    pub amount: u64,
}

/// Maps (token, account) to a quantity; reads of unseen keys default to zero.
pub struct BalanceStore {
    entries: Vec<BalanceEntry>,
}

/// What the row contributes to the total of `token`.
spec fn amount_for(e: BalanceEntry, token: u64) -> int {
    if e.token == token {
        e.amount as int
    } else {
        0
    }
}

/// The quantity recorded for (token, account): the first matching row, or
/// zero when there is none.
spec fn lookup(s: Seq<BalanceEntry>, token: u64, account: u64) -> u64
    decreases s.len(),
{
    if s.len() == 0 {
        0u64
    } else if s[0].token == token && s[0].account == account {
        s[0].amount
    } else {
        lookup(s.drop_first(), token, account)
    }
}

/// The total quantity recorded for `token`, over every row.
spec fn token_sum(s: Seq<BalanceEntry>, token: u64) -> int
    decreases s.len(),
{
    if s.len() == 0 {
        0
    } else {
        amount_for(s[0], token) + token_sum(s.drop_first(), token)
    }
}

proof fn lemma_sum_nonneg(s: Seq<BalanceEntry>, token: u64)
    ensures
        token_sum(s, token) >= 0,
    decreases s.len(),
{
    if s.len() > 0 {
        lemma_sum_nonneg(s.drop_first(), token);
    }
}

proof fn lemma_lookup_le_sum(s: Seq<BalanceEntry>, token: u64, account: u64)
    ensures
        lookup(s, token, account) <= token_sum(s, token),
    decreases s.len(),
{
    if s.len() > 0 {
        lemma_lookup_le_sum(s.drop_first(), token, account);
        lemma_sum_nonneg(s.drop_first(), token);
    }
}

proof fn lemma_two_lookups_le_sum(s: Seq<BalanceEntry>, token: u64, a: u64, b: u64)
    requires
        a != b,
    ensures
        lookup(s, token, a) + lookup(s, token, b) <= token_sum(s, token),
    decreases s.len(),
{
    if s.len() > 0 {
        lemma_two_lookups_le_sum(s.drop_first(), token, a, b);
        lemma_lookup_le_sum(s.drop_first(), token, a);
        lemma_lookup_le_sum(s.drop_first(), token, b);
    }
}

/// A row whose every predecessor misses the key is the row `lookup` reads.
proof fn lemma_lookup_first_match(s: Seq<BalanceEntry>, i: int, token: u64, account: u64)
    requires
        0 <= i < s.len(),
        s[i].token == token && s[i].account == account,
        forall|j: int|
            0 <= j < i ==> !(s[j].token == token && s[j].account == account),
    ensures
        lookup(s, token, account) == s[i].amount,
    decreases i,
{
    if i > 0 {
        assert(s.drop_first()[i - 1] == s[i]);
        assert(forall|j: int|
            0 <= j < i - 1 ==> s.drop_first()[j] == s[j + 1]);
        lemma_lookup_first_match(s.drop_first(), i - 1, token, account);
    }
}

proof fn lemma_lookup_no_match(s: Seq<BalanceEntry>, token: u64, account: u64)
    requires
        forall|j: int|
            0 <= j < s.len() ==> !(s[j].token == token && s[j].account == account),
    ensures
        lookup(s, token, account) == 0,
    decreases s.len(),
{
    if s.len() > 0 {
        assert(forall|j: int|
            0 <= j < s.drop_first().len() ==> s.drop_first()[j] == s[j + 1]);
        lemma_lookup_no_match(s.drop_first(), token, account);
    }
}

/// Appending a row leaves every other key's read unchanged.
proof fn lemma_lookup_push(s: Seq<BalanceEntry>, e: BalanceEntry, token: u64, account: u64)
    requires
        !(e.token == token && e.account == account),
    ensures
        lookup(s.push(e), token, account) == lookup(s, token, account),
    decreases s.len(),
{
    if s.len() == 0 {
        assert(s.push(e).drop_first() =~= Seq::<BalanceEntry>::empty());
        assert(lookup(Seq::<BalanceEntry>::empty(), token, account) == 0);
    } else {
        assert(s.push(e).drop_first() =~= s.drop_first().push(e));
        lemma_lookup_push(s.drop_first(), e, token, account);
    }
}

/// Appending a row raises the totals by exactly what the row contributes.
proof fn lemma_sum_push(s: Seq<BalanceEntry>, e: BalanceEntry, token: u64)
    ensures
        token_sum(s.push(e), token) == token_sum(s, token) + amount_for(e, token),
    decreases s.len(),
{
    if s.len() == 0 {
        assert(s.push(e).drop_first() =~= Seq::<BalanceEntry>::empty());
        assert(token_sum(Seq::<BalanceEntry>::empty(), token) == 0);
    } else {
        assert(s.push(e).drop_first() =~= s.drop_first().push(e));
        lemma_sum_push(s.drop_first(), e, token);
    }
}

/// Overwriting row `i` with a row for the same key leaves every other key's
/// read unchanged.
proof fn lemma_lookup_update(
    s: Seq<BalanceEntry>,
    i: int,
    e: BalanceEntry,
    token: u64,
    account: u64,
)
    requires
        0 <= i < s.len(),
        e.token == s[i].token && e.account == s[i].account,
        !(e.token == token && e.account == account),
    ensures
        lookup(s.update(i, e), token, account) == lookup(s, token, account),
    decreases s.len(),
{
    if i == 0 {
        assert(s.update(i, e).drop_first() =~= s.drop_first());
    } else {
        assert(s.update(i, e).drop_first() =~= s.drop_first().update(i - 1, e));
        lemma_lookup_update(s.drop_first(), i - 1, e, token, account);
    }
}

/// Overwriting row `i` moves the totals by the difference of contributions.
proof fn lemma_sum_update(s: Seq<BalanceEntry>, i: int, e: BalanceEntry, token: u64)
    requires
        0 <= i < s.len(),
    ensures
        token_sum(s.update(i, e), token) == token_sum(s, token) - amount_for(s[i], token)
            + amount_for(e, token),
    decreases s.len(),
{
    if i == 0 {
        assert(s.update(i, e).drop_first() =~= s.drop_first());
    } else {
        assert(s.update(i, e).drop_first() =~= s.drop_first().update(i - 1, e));
        lemma_sum_update(s.drop_first(), i - 1, e, token);
    }
}

impl BalanceStore {
    /// The quantity held by `account` in `token`; zero for an unseen key.
    pub closed spec fn spec_get(self, token: u64, account: u64) -> u64 {
        lookup(self.entries@, token, account)
    }

    /// The total quantity of `token` over all accounts.
    pub closed spec fn spec_sum(self, token: u64) -> int {
        token_sum(self.entries@, token)
    }

    /// Every single balance is bounded by its token's total.
    pub proof fn lemma_get_le_sum(self, token: u64, account: u64)
        ensures
            0 <= self.spec_get(token, account) <= self.spec_sum(token),
    {
        lemma_lookup_le_sum(self.entries@, token, account);
        lemma_sum_nonneg(self.entries@, token);
    }

    /// Two distinct accounts together hold no more than the token's total.
    pub proof fn lemma_pair_le_sum(self, token: u64, a: u64, b: u64)
        requires
            a != b,
        ensures
            self.spec_get(token, a) + self.spec_get(token, b) <= self.spec_sum(token),
    {
        lemma_two_lookups_le_sum(self.entries@, token, a, b);
    }

    /// An empty store: every balance and every total is zero.
    pub fn new() -> (r: BalanceStore)
        ensures
            forall|t: u64, a: u64| r.spec_get(t, a) == 0,
            forall|t: u64| r.spec_sum(t) == 0,
    {
        BalanceStore { entries: Vec::new() }
    }

    /// The index of the row `lookup` reads for this key, when there is one.
    fn find(&self, token: u64, account: u64) -> (r: Option<usize>)
        ensures
            match r {
                Some(i) => i < self.entries@.len() && self.entries@[i as int].token == token
                    && self.entries@[i as int].account == account
                    && self.spec_get(token, account) == self.entries@[i as int].amount
                    && (forall|j: int|
                        0 <= j < i ==> !(self.entries@[j].token == token
                            && self.entries@[j].account == account)),
                None => self.spec_get(token, account) == 0 && (forall|j: int|
                    0 <= j < self.entries@.len() ==> !(self.entries@[j].token == token
                        && self.entries@[j].account == account)),
            },
    {
        let n = self.entries.len();
        let mut i: usize = 0;
        while i < n
            invariant
                n == self.entries@.len(),
                i <= n,
                forall|j: int|
                    0 <= j < i ==> !(self.entries@[j].token == token
                        && self.entries@[j].account == account),
            decreases n - i,
        {
            let e = self.entries[i];
            if e.token == token && e.account == account {
                proof {
                    lemma_lookup_first_match(self.entries@, i as int, token, account);
                }
                return Some(i);
            }
            i = i + 1;
        }
        proof {
            lemma_lookup_no_match(self.entries@, token, account);
        }
        None
    }

    /// The quantity held by `account` in `token`, zero by default.
    pub fn get(&self, token: u64, account: u64) -> (r: u64)
        ensures
            r == self.spec_get(token, account),
    {
        match self.find(token, account) {
            Some(i) => self.entries[i].amount,
            None => 0,
        }
    }

    /// Adds `amount` to the key's balance with overflow-detecting addition;
    /// on overflow the store is left unchanged.
    pub fn credit(&mut self, token: u64, account: u64, amount: u64) -> (r: Result<(), Error>)
        ensures
            r is Ok <==> old(self).spec_get(token, account) + amount <= u64::MAX,
            r is Err ==> r == Err::<(), Error>(Error::TokenBalanceOverflow) && *final(self)
                == *old(self),
            r is Ok ==> final(self).spec_get(token, account) == old(self).spec_get(token, account)
                + amount,
            r is Ok ==> forall|t: u64, a: u64|
                !(t == token && a == account) ==> #[trigger] final(self).spec_get(t, a)
                    == old(self).spec_get(t, a),
            r is Ok ==> final(self).spec_sum(token) == old(self).spec_sum(token) + amount,
            r is Ok ==> forall|t: u64|
                t != token ==> #[trigger] final(self).spec_sum(t) == old(self).spec_sum(t),
    {
        match self.find(token, account) {
            Some(i) => {
                let cur = self.entries[i].amount;
                match cur.checked_add(amount) {
                    Some(new_amount) => {
                        let e = BalanceEntry { token, account, amount: new_amount };
                        let ghost s = self.entries@;
                        self.entries.set(i, e);
                        proof {
                            lemma_lookup_first_match(s.update(i as int, e), i as int, token,
                                account);
                            assert forall|t: u64, a: u64|
                                !(t == token && a == account) implies #[trigger] self.spec_get(t, a)
                                == lookup(s, t, a) by {
                                lemma_lookup_update(s, i as int, e, t, a);
                            }
                            assert forall|t: u64| #[trigger]
                                self.spec_sum(t) == token_sum(s, t) - amount_for(s[i as int], t)
                                + amount_for(e, t) by {
                                lemma_sum_update(s, i as int, e, t);
                            }
                        }
                        Ok(())
                    },
                    None => Err(Error::TokenBalanceOverflow),
                }
            },
            None => {
                let e = BalanceEntry { token, account, amount };
                let ghost s = self.entries@;
                self.entries.push(e);
                proof {
                    assert(forall|j: int|
                        0 <= j < s.len() ==> !(s[j].token == token && s[j].account == account));
                    lemma_lookup_first_match(s.push(e), s.len() as int, token, account);
                    assert forall|t: u64, a: u64|
                        !(t == token && a == account) implies #[trigger] self.spec_get(t, a)
                        == lookup(s, t, a) by {
                        lemma_lookup_push(s, e, t, a);
                    }
                    assert forall|t: u64| #[trigger]
                        self.spec_sum(t) == token_sum(s, t) + amount_for(e, t) by {
                        lemma_sum_push(s, e, t);
                    }
                }
                Ok(())
            },
        }
    }

    /// Removes `amount` from the key's balance with overflow-detecting
    /// subtraction; when the balance is too small the store is left
    /// unchanged.
    pub fn debit(&mut self, token: u64, account: u64, amount: u64) -> (r: Result<(), Error>)
        ensures
            r is Ok <==> amount <= old(self).spec_get(token, account),
            r is Err ==> r == Err::<(), Error>(Error::InsufficientBalance) && *final(self)
                == *old(self),
            r is Ok ==> final(self).spec_get(token, account) == old(self).spec_get(token, account)
                - amount,
            r is Ok ==> forall|t: u64, a: u64|
                !(t == token && a == account) ==> #[trigger] final(self).spec_get(t, a)
                    == old(self).spec_get(t, a),
            r is Ok ==> final(self).spec_sum(token) == old(self).spec_sum(token) - amount,
            r is Ok ==> forall|t: u64|
                t != token ==> #[trigger] final(self).spec_sum(t) == old(self).spec_sum(t),
    {
        match self.find(token, account) {
            Some(i) => {
                let cur = self.entries[i].amount;
                match cur.checked_sub(amount) {
                    Some(new_amount) => {
                        let e = BalanceEntry { token, account, amount: new_amount };
                        let ghost s = self.entries@;
                        self.entries.set(i, e);
                        proof {
                            lemma_lookup_first_match(s.update(i as int, e), i as int, token,
                                account);
                            assert forall|t: u64, a: u64|
                                !(t == token && a == account) implies #[trigger] self.spec_get(t, a)
                                == lookup(s, t, a) by {
                                lemma_lookup_update(s, i as int, e, t, a);
                            }
                            assert forall|t: u64| #[trigger]
                                self.spec_sum(t) == token_sum(s, t) - amount_for(s[i as int], t)
                                + amount_for(e, t) by {
                                lemma_sum_update(s, i as int, e, t);
                            }
                        }
                        Ok(())
                    },
                    None => Err(Error::InsufficientBalance),
                }
            },
            None => {
                if amount == 0 {
                    Ok(())
                } else {
                    Err(Error::InsufficientBalance)
                }
            },
        }
    }
}

} // verus!
