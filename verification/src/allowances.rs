//! The allowance store: a table from (token, owner, spender) to the
//! quantity the owner permits the spender to move. An absent key reads as
//! zero; `set` overwrites unconditionally and `decrease` removes exactly the
//! amount a delegated transfer moved.

use crate::types::Error;
use vstd::prelude::*;

verus! {

/// One row of the allowance table.
#[derive(Clone, Copy, Debug, PartialEq, Eq)]
pub struct AllowanceEntry {
    pub token: u64,
    pub owner: u64,
    pub spender: u64,
    pub amount: u64,
}

/// Maps (token, owner, spender) to a quantity; reads of unseen keys default
/// to zero.
pub struct AllowanceStore {
    entries: Vec<AllowanceEntry>,
}

/// The quantity recorded for (token, owner, spender): the first matching
/// row, or zero when there is none.
spec fn lookup(s: Seq<AllowanceEntry>, token: u64, owner: u64, spender: u64) -> u64
    decreases s.len(),
{
    if s.len() == 0 {
        0u64
    } else if s[0].token == token && s[0].owner == owner && s[0].spender == spender {
        s[0].amount
    } else {
        lookup(s.drop_first(), token, owner, spender)
    }
}

spec fn matches_key(e: AllowanceEntry, token: u64, owner: u64, spender: u64) -> bool {
    e.token == token && e.owner == owner && e.spender == spender
}

proof fn lemma_lookup_first_match(s: Seq<AllowanceEntry>, i: int, token: u64, owner: u64, spender: u64)
    requires
        0 <= i < s.len(),
        matches_key(s[i], token, owner, spender),
        forall|j: int| 0 <= j < i ==> !matches_key(#[trigger] s[j], token, owner, spender),
    ensures
        lookup(s, token, owner, spender) == s[i].amount,
    decreases i,
{
    if i > 0 {
        assert(s.drop_first()[i - 1] == s[i]);
        assert(forall|j: int| 0 <= j < i - 1 ==> s.drop_first()[j] == s[j + 1]);
        lemma_lookup_first_match(s.drop_first(), i - 1, token, owner, spender);
    }
}

proof fn lemma_lookup_no_match(s: Seq<AllowanceEntry>, token: u64, owner: u64, spender: u64)
    requires
        forall|j: int| 0 <= j < s.len() ==> !matches_key(#[trigger] s[j], token, owner, spender),
    ensures
        lookup(s, token, owner, spender) == 0,
    decreases s.len(),
{
    if s.len() > 0 {
        assert(forall|j: int|
            0 <= j < s.drop_first().len() ==> s.drop_first()[j] == s[j + 1]);
        lemma_lookup_no_match(s.drop_first(), token, owner, spender);
    }
}

proof fn lemma_lookup_push_other(
    s: Seq<AllowanceEntry>,
    e: AllowanceEntry,
    token: u64,
    owner: u64,
    spender: u64,
)
    requires
        !matches_key(e, token, owner, spender),
    ensures
        lookup(s.push(e), token, owner, spender) == lookup(s, token, owner, spender),
    decreases s.len(),
{
    if s.len() == 0 {
        assert(s.push(e).drop_first() =~= Seq::<AllowanceEntry>::empty());
        assert(lookup(Seq::<AllowanceEntry>::empty(), token, owner, spender) == 0);
    } else {
        assert(s.push(e).drop_first() =~= s.drop_first().push(e));
        lemma_lookup_push_other(s.drop_first(), e, token, owner, spender);
    }
}

proof fn lemma_lookup_update_other(
    s: Seq<AllowanceEntry>,
    i: int,
    e: AllowanceEntry,
    token: u64,
    owner: u64,
    spender: u64,
)
    requires
        0 <= i < s.len(),
        e.token == s[i].token && e.owner == s[i].owner && e.spender == s[i].spender,
        !matches_key(e, token, owner, spender),
    ensures
        lookup(s.update(i, e), token, owner, spender) == lookup(s, token, owner, spender),
    decreases s.len(),
{
    if i == 0 {
        assert(s.update(i, e).drop_first() =~= s.drop_first());
    } else {
        assert(s.update(i, e).drop_first() =~= s.drop_first().update(i - 1, e));
        lemma_lookup_update_other(s.drop_first(), i - 1, e, token, owner, spender);
    }
}

impl AllowanceStore {
    /// The quantity `owner` permits `spender` to move out of `token`; zero
    /// for an unseen key.
    pub closed spec fn spec_get(self, token: u64, owner: u64, spender: u64) -> u64 {
        lookup(self.entries@, token, owner, spender)
    }

    /// An empty store: every allowance is zero.
    pub fn new() -> (r: AllowanceStore)
        ensures
            forall|t: u64, o: u64, sp: u64| r.spec_get(t, o, sp) == 0,
    {
        AllowanceStore { entries: Vec::new() }
    }

    /// The index of the row `lookup` reads for this key, when there is one.
    fn find(&self, token: u64, owner: u64, spender: u64) -> (r: Option<usize>)
        ensures
            match r {
                Some(i) => i < self.entries@.len() && matches_key(self.entries@[i as int], token,
                    owner, spender) && self.spec_get(token, owner, spender)
                    == self.entries@[i as int].amount && (forall|j: int|
                    0 <= j < i ==> !matches_key(#[trigger] self.entries@[j], token, owner,
                    spender)),
                None => self.spec_get(token, owner, spender) == 0 && (forall|j: int|
                    0 <= j < self.entries@.len() ==> !matches_key(#[trigger] self.entries@[j],
                    token, owner, spender)),
            },
    {
        let n = self.entries.len();
        let mut i: usize = 0;
        while i < n
            invariant
                n == self.entries@.len(),
                i <= n,
                forall|j: int|
                    0 <= j < i ==> !matches_key(#[trigger] self.entries@[j], token, owner,
                    spender),
            decreases n - i,
        {
            let e = self.entries[i];
            if e.token == token && e.owner == owner && e.spender == spender {
                proof {
                    lemma_lookup_first_match(self.entries@, i as int, token, owner, spender);
                }
                return Some(i);
            }
            i = i + 1;
        }
        proof {
            lemma_lookup_no_match(self.entries@, token, owner, spender);
        }
        None
    }

    /// The allowance recorded for the key, zero by default.
    pub fn get(&self, token: u64, owner: u64, spender: u64) -> (r: u64)
        ensures
            r == self.spec_get(token, owner, spender),
    {
        match self.find(token, owner, spender) {
            Some(i) => self.entries[i].amount,
            None => 0,
        }
    }

    /// Overwrites the key's allowance with `amount`, whatever was recorded
    /// before — including zero, which revokes a grant.
    pub fn set(&mut self, token: u64, owner: u64, spender: u64, amount: u64)
        ensures
            final(self).spec_get(token, owner, spender) == amount,
            forall|t: u64, o: u64, sp: u64|
                !(t == token && o == owner && sp == spender) ==> #[trigger] final(self).spec_get(
                    t,
                    o,
                    sp,
                ) == old(self).spec_get(t, o, sp),
    {
        let e = AllowanceEntry { token, owner, spender, amount };
        let ghost s = self.entries@;
        match self.find(token, owner, spender) {
            Some(i) => {
                self.entries.set(i, e);
                proof {
                    lemma_lookup_first_match(s.update(i as int, e), i as int, token, owner,
                        spender);
                    assert forall|t: u64, o: u64, sp: u64|
                        !(t == token && o == owner && sp == spender) implies #[trigger] self
                        .spec_get(t, o, sp) == lookup(s, t, o, sp) by {
                        lemma_lookup_update_other(s, i as int, e, t, o, sp);
                    }
                }
            },
            None => {
                self.entries.push(e);
                proof {
                    assert(forall|j: int|
                        0 <= j < s.len() ==> s.push(e)[j] == s[j]);
                    lemma_lookup_first_match(s.push(e), s.len() as int, token, owner, spender);
                    assert forall|t: u64, o: u64, sp: u64|
                        !(t == token && o == owner && sp == spender) implies #[trigger] self
                        .spec_get(t, o, sp) == lookup(s, t, o, sp) by {
                        lemma_lookup_push_other(s, e, t, o, sp);
                    }
                }
            },
        }
    }

    /// Removes `amount` from the key's allowance with overflow-detecting
    /// subtraction; when the allowance is too small the store is left
    /// unchanged.
    pub fn decrease(&mut self, token: u64, owner: u64, spender: u64, amount: u64) -> (r: Result<
        (),
        Error,
    >)
        ensures
            r is Ok <==> amount <= old(self).spec_get(token, owner, spender),
            r is Err ==> r == Err::<(), Error>(Error::InsufficientBalance) && *final(self)
                == *old(self),
            r is Ok ==> final(self).spec_get(token, owner, spender) == old(self).spec_get(token,
                owner, spender) - amount,
            r is Ok ==> forall|t: u64, o: u64, sp: u64|
                !(t == token && o == owner && sp == spender) ==> #[trigger] final(self).spec_get(
                    t,
                    o,
                    sp,
                ) == old(self).spec_get(t, o, sp),
    {
        match self.find(token, owner, spender) {
            Some(i) => {
                let cur = self.entries[i].amount;
                match cur.checked_sub(amount) {
                    Some(new_amount) => {
                        let e = AllowanceEntry { token, owner, spender, amount: new_amount };
                        let ghost s = self.entries@;
                        self.entries.set(i, e);
                        proof {
                            lemma_lookup_first_match(s.update(i as int, e), i as int, token,
                                owner, spender);
                            assert forall|t: u64, o: u64, sp: u64|
                                !(t == token && o == owner && sp == spender) implies #[trigger] self
                                .spec_get(t, o, sp) == lookup(s, t, o, sp) by {
                                lemma_lookup_update_other(s, i as int, e, t, o, sp);
                            }
                        }
                        Ok(())
                    },
                    None => Err(Error::InsufficientBalance),
                }
            },
            None => {
                if amount == 0 {
                    Ok(())
                } else {
                    Err(Error::InsufficientBalance)
                }
            },
        }
    }
}

} // verus!
