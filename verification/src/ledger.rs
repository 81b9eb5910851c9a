//! The operation layer: one `Ledger` value combines the token registry, the
//! balance store and the allowance store, and the four operations — `mint`,
//! `transfer`, `approve`, `transfer_from` — are its atomic transitions. An
//! operation validates every precondition before it mutates anything, so a
//! rejected call leaves the ledger exactly as it was, and every operation
//! preserves well-formedness: the balances of each minted token sum to the
//! supply fixed when it was minted.

use crate::allowances::AllowanceStore;
use crate::balances::BalanceStore;
use crate::registry::TokenRegistry;
use crate::types::Error;
use crate::types::Event;
use crate::types::TokenDetails;
use vstd::prelude::*;

verus! {

/// The combined state of the registry, the balances and the allowances.
pub struct Ledger {
    registry: TokenRegistry,
    balances: BalanceStore,
    allowances: AllowanceStore,
}

/// The registry is the same in both states: same tokens, same counter, same
/// configured bounds.
pub open spec fn registry_unchanged(pre: Ledger, post: Ledger) -> bool {
    &&& forall|t: u64| #[trigger] post.spec_tokens(t) == pre.spec_tokens(t)
    &&& post.spec_last_token_id() == pre.spec_last_token_id()
    &&& post.spec_max_name_len() == pre.spec_max_name_len()
    &&& post.spec_max_symbol_len() == pre.spec_max_symbol_len()
}

/// Every balance is the same in both states.
pub open spec fn balances_unchanged(pre: Ledger, post: Ledger) -> bool {
    forall|t: u64, a: u64| #[trigger] post.spec_balance_of(t, a) == pre.spec_balance_of(t, a)
}

/// Every allowance is the same in both states.
pub open spec fn allowances_unchanged(pre: Ledger, post: Ledger) -> bool {
    forall|t: u64, o: u64, sp: u64| #[trigger] post.spec_allowance(t, o, sp) == pre.spec_allowance(
        t,
        o,
        sp,
    )
}

/// Exactly `amount` of `token_id` moved from `from` to `to`, and no other
/// balance changed. A transfer to oneself moves nothing.
pub open spec fn balances_moved(
    pre: Ledger,
    post: Ledger,
    token_id: u64,
    from: u64,
    to: u64,
    amount: u64,
) -> bool {
    &&& (if from == to {
        post.spec_balance_of(token_id, from) == pre.spec_balance_of(token_id, from)
    } else {
        post.spec_balance_of(token_id, from) == pre.spec_balance_of(token_id, from) - amount
            && post.spec_balance_of(token_id, to) == pre.spec_balance_of(token_id, to) + amount
    })
    &&& forall|t: u64, a: u64|
        !(t == token_id && (a == from || a == to)) ==> #[trigger] post.spec_balance_of(t, a)
            == pre.spec_balance_of(t, a)
}

impl Ledger {
    /// Well-formedness: the registry is internally consistent, and for every
    /// token id the balances sum to the supply the registry records — the
    /// supply fixed at mint time for a minted id, zero for an unminted one.
    pub closed spec fn wf(self) -> bool {
        &&& self.registry.wf()
        &&& forall|t: u64| #[trigger] self.balances.spec_sum(t) == self.spec_supply(t) as int
    }

    /// The metadata of token `id`, if `id` has been minted.
    pub closed spec fn spec_tokens(self, id: u64) -> Option<TokenDetails> {
        self.registry.spec_token(id)
    }

    /// Whether `id` names a minted token.
    pub open spec fn is_minted(self, id: u64) -> bool {
        self.spec_tokens(id) is Some
    }

    /// The supply fixed when `id` was minted; zero for an unminted id.
    pub open spec fn spec_supply(self, id: u64) -> u64 {
        match self.spec_tokens(id) {
            Some(d) => d.supply,
            None => 0u64,
        }
    }

    /// The last token id handed out; zero before the first mint.
    pub closed spec fn spec_last_token_id(self) -> u64 {
        self.registry.spec_last_token_id()
    }

    /// The quantity of `token_id` held by `account`; zero by default.
    pub closed spec fn spec_balance_of(self, token_id: u64, account: u64) -> u64 {
        self.balances.spec_get(token_id, account)
    }

    /// The total quantity of `token_id` over all accounts.
    pub closed spec fn spec_token_sum(self, token_id: u64) -> int {
        self.balances.spec_sum(token_id)
    }

    /// The quantity of `token_id` that `owner` permits `spender` to move.
    pub closed spec fn spec_allowance(self, token_id: u64, owner: u64, spender: u64) -> u64 {
        self.allowances.spec_get(token_id, owner, spender)
    }

    /// The configured maximum length of a token name, in bytes.
    pub closed spec fn spec_max_name_len(self) -> usize {
        self.registry.spec_max_name_len()
    }

    /// The configured maximum length of a token symbol, in bytes.
    pub closed spec fn spec_max_symbol_len(self) -> usize {
        self.registry.spec_max_symbol_len()
    }

    /// Whether a mint with these arguments is owed success: a positive
    /// supply, metadata within the configured bounds, and room left in the
    /// token-id counter.
    pub open spec fn mint_ok(self, name: Seq<u8>, symbol: Seq<u8>, supply: u64) -> bool {
        supply > 0 && name.len() <= self.spec_max_name_len() && symbol.len()
            <= self.spec_max_symbol_len() && self.spec_last_token_id() < u64::MAX
    }

    /// An empty ledger with the given metadata length bounds: no tokens, no
    /// balances, no allowances.
    pub fn new(max_name_len: usize, max_symbol_len: usize) -> (r: Ledger)
        ensures
            r.wf(),
            r.spec_last_token_id() == 0,
            forall|t: u64| #[trigger] r.spec_tokens(t) is None,
            forall|t: u64, a: u64| r.spec_balance_of(t, a) == 0,
            forall|t: u64, o: u64, sp: u64| r.spec_allowance(t, o, sp) == 0,
            r.spec_max_name_len() == max_name_len,
            r.spec_max_symbol_len() == max_symbol_len,
    {
        let r = Ledger {
            registry: TokenRegistry::new(max_name_len, max_symbol_len),
            balances: BalanceStore::new(),
            allowances: AllowanceStore::new(),
        };
        proof {
            assert forall|t: u64| #[trigger] r.balances.spec_sum(t) == r.spec_supply(t) as int by {
                assert(!r.is_minted(t));
            }
        }
        r
    }

    /// The metadata of token `id`, when `id` has been minted.
    pub fn tokens(&self, id: u64) -> (r: Option<&TokenDetails>)
        ensures
            match r {
                Some(d) => self.spec_tokens(id) == Some(*d),
                None => self.spec_tokens(id) is None,
            },
    {
        self.registry.get(id)
    }

    /// The last token id handed out.
    pub fn last_token_id(&self) -> (r: u64)
        ensures
            r == self.spec_last_token_id(),
    {
        self.registry.last_token_id()
    }

    /// The quantity of `token_id` held by `account`, zero by default.
    pub fn balance_of(&self, token_id: u64, account: u64) -> (r: u64)
        ensures
            r == self.spec_balance_of(token_id, account),
    {
        self.balances.get(token_id, account)
    }

    /// The quantity of `token_id` that `owner` permits `spender` to move,
    /// zero by default.
    pub fn allowance(&self, token_id: u64, owner: u64, spender: u64) -> (r: u64)
        ensures
            r == self.spec_allowance(token_id, owner, spender),
    {
        self.allowances.get(token_id, owner, spender)
    }

    /// Creates a new token class and credits its whole supply to the minter.
    /// A zero supply is rejected as `NoneValue`, over-long metadata as
    /// `LengthExceeded`, and an exhausted token-id counter as
    /// `TokenIdOverflow`; a rejected mint mutates nothing.
    pub fn mint(&mut self, minter: u64, name: Vec<u8>, symbol: Vec<u8>, supply: u64) -> (r: Result<
        Event,
        Error,
    >)
        requires
            old(self).wf(),
        ensures
            final(self).wf(),
            r is Ok <==> old(self).mint_ok(name@, symbol@, supply),
            allowances_unchanged(*old(self), *final(self)),
            final(self).spec_max_name_len() == old(self).spec_max_name_len(),
            final(self).spec_max_symbol_len() == old(self).spec_max_symbol_len(),
            supply == 0 ==> r == Err::<Event, Error>(Error::NoneValue) && *final(self) == *old(self),
            supply > 0 && name@.len() > old(self).spec_max_name_len() ==> r == Err::<Event, Error>(
                Error::LengthExceeded,
            ) && *final(self) == *old(self),
            supply > 0 && name@.len() <= old(self).spec_max_name_len() && symbol@.len() > old(self).spec_max_symbol_len() ==> r == Err::<Event, Error>(Error::LengthExceeded) && *final(self) == *old(self),
            supply > 0 && name@.len() <= old(self).spec_max_name_len() && symbol@.len() <= old(self).spec_max_symbol_len() && old(self).spec_last_token_id() == u64::MAX ==> r == Err::<
                Event,
                Error,
            >(Error::TokenIdOverflow) && *final(self) == *old(self),
            old(self).mint_ok(name@, symbol@, supply) ==> r == Ok::<Event, Error>(
                (Event::TokenMinted {
                    token_id: (old(self).spec_last_token_id() + 1) as u64,
                    who: minter,
                }),
            ),
            old(self).mint_ok(name@, symbol@, supply) ==> final(self).spec_last_token_id() == old(self).spec_last_token_id() + 1,
            old(self).mint_ok(name@, symbol@, supply) ==> (final(self).spec_tokens(
                (old(self).spec_last_token_id() + 1) as u64,
            ) matches Some(d) && d.name@ == name@ && d.symbol@ == symbol@ && d.supply == supply),
            old(self).mint_ok(name@, symbol@, supply) ==> forall|t: u64|
                t != old(self).spec_last_token_id() + 1 ==> #[trigger] final(self).spec_tokens(t)
                    == old(self).spec_tokens(t),
            old(self).mint_ok(name@, symbol@, supply) ==> final(self).spec_balance_of(
                (old(self).spec_last_token_id() + 1) as u64,
                minter,
            ) == supply,
            old(self).mint_ok(name@, symbol@, supply) ==> forall|t: u64, a: u64|
                !(t == old(self).spec_last_token_id() + 1 && a == minter)
                    ==> #[trigger] final(self).spec_balance_of(t, a) == old(self).spec_balance_of(
                    t,
                    a,
                ),
    {
        match self.registry.allocate_token(name, symbol, supply) {
            Err(e) => Err(e),
            Ok(token_id) => {
                proof {
                    old(self).registry.lemma_ids_bounded(token_id);
                    old(self).balances.lemma_get_le_sum(token_id, minter);
                    assert(old(self).balances.spec_sum(token_id) == old(self).spec_supply(
                        token_id,
                    ) as int);
                    assert(old(self).spec_balance_of(token_id, minter) == 0);
                }
                match self.balances.credit(token_id, minter, supply) {
                    Err(e) => Err(e),
                    Ok(()) => {
                        proof {
                            assert forall|t: u64| #[trigger] self.balances.spec_sum(t)
                                == self.spec_supply(t) as int by {
                                assert(old(self).balances.spec_sum(t) == old(self).spec_supply(
                                    t,
                                ) as int);
                                if t != token_id {
                                    assert(self.spec_tokens(t) == old(self).spec_tokens(t));
                                }
                            }
                        }
                        Ok(Event::TokenMinted { token_id, who: minter })
                    },
                }
            },
        }
    }

    /// Moves `amount` of `token_id` from `from` to `to`: the shared
    /// primitive behind `transfer` and `transfer_from`. The debit is
    /// validated before either store write, and under well-formedness the
    /// following credit is proved unable to overflow — the two balances
    /// together never exceed the token's supply — so the debit-credit pair
    /// commits as one atomic unit and can never strand a half-done
    /// transfer.
    pub fn _transfer(&mut self, token_id: u64, from: u64, to: u64, amount: u64) -> (r: Result<
        (),
        Error,
    >)
        requires
            old(self).wf(),
        ensures
            final(self).wf(),
            r is Ok <==> amount <= old(self).spec_balance_of(token_id, from),
            r is Err ==> r == Err::<(), Error>(Error::InsufficientBalance) && *final(self) == *old(self),
            r is Ok ==> balances_moved(*old(self), *final(self), token_id, from, to, amount),
            registry_unchanged(*old(self), *final(self)),
            allowances_unchanged(*old(self), *final(self)),
    {
        let from_balance = self.balances.get(token_id, from);
        if amount > from_balance {
            return Err(Error::InsufficientBalance);
        }
        proof {
            assert(old(self).balances.spec_sum(token_id) == old(self).spec_supply(
                token_id,
            ) as int);
            if from != to {
                old(self).balances.lemma_pair_le_sum(token_id, from, to);
            } else {
                old(self).balances.lemma_get_le_sum(token_id, from);
            }
        }
        match self.balances.debit(token_id, from, amount) {
            Err(e) => Err(e),
            Ok(()) => {
                match self.balances.credit(token_id, to, amount) {
                    Err(e) => Err(e),
                    Ok(()) => {
                        proof {
                            assert forall|t: u64| #[trigger] self.balances.spec_sum(t)
                                == self.spec_supply(t) as int by {
                                assert(old(self).balances.spec_sum(t) == old(self).spec_supply(
                                    t,
                                ) as int);
                            }
                        }
                        Ok(())
                    },
                }
            },
        }
    }

    /// Moves `amount` of `token_id` from the caller's account to `to`. The
    /// token need not exist: balances default to zero, so a debit from an
    /// unfunded account fails with `InsufficientBalance` and nothing
    /// changes.
    pub fn transfer(&mut self, from: u64, to: u64, token_id: u64, amount: u64) -> (r: Result<
        Event,
        Error,
    >)
        requires
            old(self).wf(),
        ensures
            final(self).wf(),
            amount > old(self).spec_balance_of(token_id, from) ==> r == Err::<Event, Error>(
                Error::InsufficientBalance,
            ) && *final(self) == *old(self),
            amount <= old(self).spec_balance_of(token_id, from) ==> r == Ok::<Event, Error>(
                (Event::Transferred { from, to, amount }),
            ) && balances_moved(*old(self), *final(self), token_id, from, to, amount),
            registry_unchanged(*old(self), *final(self)),
            allowances_unchanged(*old(self), *final(self)),
    {
        match self._transfer(token_id, from, to, amount) {
            Err(e) => Err(e),
            Ok(()) => Ok(Event::Transferred { from, to, amount }),
        }
    }

    /// Overwrites the allowance of (`token_id`, `owner`, `spender`) with
    /// `amount`, whatever was granted before — lowering or zeroing included.
    /// The token must exist: an unminted id is rejected as `NoneToken` and
    /// nothing changes.
    pub fn approve(&mut self, owner: u64, spender: u64, token_id: u64, amount: u64) -> (r: Result<
        Event,
        Error,
    >)
        requires
            old(self).wf(),
        ensures
            final(self).wf(),
            !old(self).is_minted(token_id) ==> r == Err::<Event, Error>(Error::NoneToken)
                && *final(self) == *old(self),
            old(self).is_minted(token_id) ==> r == Ok::<Event, Error>(
                (Event::Approved { token_id, owner, spender, amount }),
            ) && final(self).spec_allowance(token_id, owner, spender) == amount,
            old(self).is_minted(token_id) ==> forall|t: u64, o: u64, sp: u64|
                !(t == token_id && o == owner && sp == spender) ==> #[trigger] final(self).spec_allowance(t, o, sp) == old(self).spec_allowance(t, o, sp),
            registry_unchanged(*old(self), *final(self)),
            balances_unchanged(*old(self), *final(self)),
    {
        if self.registry.get(token_id).is_none() {
            return Err(Error::NoneToken);
        }
        self.allowances.set(token_id, owner, spender, amount);
        Ok(Event::Approved { token_id, owner, spender, amount })
    }

    /// Moves `amount` of `token_id` out of `owner`'s balance to `recipient`
    /// on the strength of the allowance granted to `spender`, then lowers
    /// that allowance by exactly `amount`. A zero allowance is rejected as
    /// `NotApproved`; an allowance or a balance smaller than `amount` as
    /// `InsufficientBalance`; a rejected call mutates nothing.
    pub fn transfer_from(
        &mut self,
        spender: u64,
        token_id: u64,
        owner: u64,
        recipient: u64,
        amount: u64,
    ) -> (r: Result<Event, Error>)
        requires
            old(self).wf(),
        ensures
            final(self).wf(),
            r is Ok <==> 0 < old(self).spec_allowance(token_id, owner, spender) && amount <= old(
                self,
            ).spec_allowance(token_id, owner, spender) && amount <= old(self).spec_balance_of(
                token_id,
                owner,
            ),
            old(self).spec_allowance(token_id, owner, spender) == 0 ==> r == Err::<Event, Error>(
                Error::NotApproved,
            ) && *final(self) == *old(self),
            0 < old(self).spec_allowance(token_id, owner, spender) < amount ==> r == Err::<
                Event,
                Error,
            >(Error::InsufficientBalance) && *final(self) == *old(self),
            0 < amount <= old(self).spec_allowance(token_id, owner, spender) && old(self).spec_balance_of(token_id, owner) < amount ==> r == Err::<Event, Error>(
                Error::InsufficientBalance,
            ) && *final(self) == *old(self),
            0 < old(self).spec_allowance(token_id, owner, spender) && amount <= old(self).spec_allowance(token_id, owner, spender) && amount <= old(self).spec_balance_of(
                token_id,
                owner,
            ) ==> r == Ok::<Event, Error>(
                (Event::TransferredFrom { spender, from: owner, to: recipient, amount }),
            ) && final(self).spec_allowance(token_id, owner, spender) == old(self).spec_allowance(
                token_id,
                owner,
                spender,
            ) - amount && balances_moved(*old(self), *final(self), token_id, owner, recipient,
                amount),
            r is Ok ==> forall|t: u64, o: u64, sp: u64|
                !(t == token_id && o == owner && sp == spender) ==> #[trigger] final(self).spec_allowance(t, o, sp) == old(self).spec_allowance(t, o, sp),
            registry_unchanged(*old(self), *final(self)),
    {
        let granted = self.allowances.get(token_id, owner, spender);
        if granted == 0 {
            return Err(Error::NotApproved);
        }
        if granted < amount {
            return Err(Error::InsufficientBalance);
        }
        let owner_balance = self.balances.get(token_id, owner);
        if owner_balance < amount {
            return Err(Error::InsufficientBalance);
        }
        match self._transfer(token_id, owner, recipient, amount) {
            Err(e) => Err(e),
            Ok(()) => {
                let ghost mid = *self;
                proof {
                    assert(mid.spec_allowance(token_id, owner, spender) == old(
                        self,
                    ).spec_allowance(token_id, owner, spender));
                }
                match self.allowances.decrease(token_id, owner, spender, amount) {
                    Err(e) => Err(e),
                    Ok(()) => {
                        proof {
                            assert forall|t: u64, o: u64, sp: u64|
                                !(t == token_id && o == owner && sp == spender)
                                    implies #[trigger] self.spec_allowance(t, o, sp) == old(
                                self,
                            ).spec_allowance(t, o, sp) by {
                                assert(mid.spec_allowance(t, o, sp) == old(self).spec_allowance(
                                    t,
                                    o,
                                    sp,
                                ));
                            }
                            assert forall|t: u64, a: u64|
                                !(t == token_id && (a == owner || a == recipient))
                                    implies #[trigger] self.spec_balance_of(t, a) == old(
                                self,
                            ).spec_balance_of(t, a) by {
                                assert(mid.spec_balance_of(t, a) == old(self).spec_balance_of(
                                    t,
                                    a,
                                ));
                            }
                            assert(mid.spec_balance_of(token_id, owner) == self.spec_balance_of(
                                token_id,
                                owner,
                            ));
                            assert(mid.spec_balance_of(token_id, recipient)
                                == self.spec_balance_of(token_id, recipient));
                            assert(balances_moved(*old(self), *self, token_id, owner, recipient,
                                amount));
                            assert forall|t: u64| #[trigger] self.spec_tokens(t) == old(
                                self,
                            ).spec_tokens(t) by {
                                assert(mid.spec_tokens(t) == old(self).spec_tokens(t));
                            }
                            assert(mid.spec_last_token_id() == self.spec_last_token_id());
                            assert(mid.spec_max_name_len() == self.spec_max_name_len());
                            assert(mid.spec_max_symbol_len() == self.spec_max_symbol_len());
                        }
                        Ok(Event::TransferredFrom { spender, from: owner, to: recipient, amount })
                    },
                }
            },
        }
    }

    /// Conservation: in every well-formed ledger — and each operation both
    /// requires and re-establishes well-formedness — the balances of a
    /// minted token sum to exactly the supply fixed at mint time, and the
    /// balances of an unminted token id sum to zero.
    pub proof fn lemma_conservation(l: Ledger, token_id: u64)
        requires
            l.wf(),
        ensures
            l.is_minted(token_id) ==> l.spec_token_sum(token_id) == l.spec_supply(
                token_id,
            ) as int,
            !l.is_minted(token_id) ==> l.spec_token_sum(token_id) == 0,
    {
        assert(l.balances.spec_sum(token_id) == l.spec_supply(token_id) as int);
    }

    /// No account holds any quantity of an unminted token id.
    pub proof fn lemma_unminted_balance(l: Ledger, token_id: u64, account: u64)
        requires
            l.wf(),
            !l.is_minted(token_id),
        ensures
            l.spec_balance_of(token_id, account) == 0,
    {
        l.balances.lemma_get_le_sum(token_id, account);
        assert(l.balances.spec_sum(token_id) == l.spec_supply(token_id) as int);
    }

    /// Token ids never collide: every id above the counter is fresh, and
    /// each successful mint returns the incremented counter, so repeated
    /// mints yield strictly increasing, never-reused ids.
    pub proof fn lemma_fresh_token_ids(l: Ledger, token_id: u64)
        requires
            l.wf(),
            token_id > l.spec_last_token_id() || token_id == 0,
        ensures
            !l.is_minted(token_id),
    {
        l.registry.lemma_ids_bounded(token_id);
    }
}

} // verus!
