//! The token registry: metadata for every minted token, keyed by a token id
//! that a single counter assigns. Ids start at one, grow strictly, and are
//! never reused; allocation fails rather than letting the counter wrap.

use crate::types::Error;
use crate::types::TokenDetails;
use vstd::prelude::*;

verus! {

/// One registered token: its id and its immutable metadata.
pub struct TokenRecord {
    pub id: u64,
    pub details: TokenDetails,
}

/// Maps a token id to its metadata and remembers the last id handed out,
/// together with the configured bounds on metadata lengths.
pub struct TokenRegistry {
    last_id: u64,
    records: Vec<TokenRecord>,
    max_name_len: usize,
    max_symbol_len: usize,
}

/// The metadata recorded for `id`: the first matching record, if any.
spec fn lookup(s: Seq<TokenRecord>, id: u64) -> Option<TokenDetails>
    decreases s.len(),
{
    if s.len() == 0 {
        None
    } else if s[0].id == id {
        Some(s[0].details)
    } else {
        lookup(s.drop_first(), id)
    }
}

proof fn lemma_lookup_first_match(s: Seq<TokenRecord>, i: int)
    requires
        0 <= i < s.len(),
        forall|j: int| 0 <= j < i ==> s[j].id != s[i].id,
    ensures
        lookup(s, s[i].id) == Some(s[i].details),
    decreases i,
{
    if i > 0 {
        assert(s.drop_first()[i - 1] == s[i]);
        assert(forall|j: int| 0 <= j < i - 1 ==> s.drop_first()[j] == s[j + 1]);
        lemma_lookup_first_match(s.drop_first(), i - 1);
    }
}

proof fn lemma_lookup_no_match(s: Seq<TokenRecord>, id: u64)
    requires
        forall|j: int| 0 <= j < s.len() ==> s[j].id != id,
    ensures
        lookup(s, id) is None,
    decreases s.len(),
{
    if s.len() > 0 {
        assert(forall|j: int|
            0 <= j < s.drop_first().len() ==> s.drop_first()[j] == s[j + 1]);
        lemma_lookup_no_match(s.drop_first(), id);
    }
}

proof fn lemma_lookup_push_other(s: Seq<TokenRecord>, e: TokenRecord, id: u64)
    requires
        e.id != id,
    ensures
        lookup(s.push(e), id) == lookup(s, id),
    decreases s.len(),
{
    if s.len() == 0 {
        assert(s.push(e).drop_first() =~= Seq::<TokenRecord>::empty());
        assert(lookup(Seq::<TokenRecord>::empty(), id) is None);
    } else {
        assert(s.push(e).drop_first() =~= s.drop_first().push(e));
        lemma_lookup_push_other(s.drop_first(), e, id);
    }
}

impl TokenRegistry {
    /// Internal consistency: record ids are at least one, bounded by the
    /// counter, strictly increasing in allocation order, and every record
    /// respects the configured length bounds and has a positive supply.
    pub closed spec fn wf(self) -> bool {
        &&& forall|i: int|
            0 <= i < self.records@.len() ==> 1 <= #[trigger] self.records@[i].id <= self.last_id
        &&& forall|i: int, j: int|
            0 <= i < j < self.records@.len() ==> #[trigger] self.records@[i].id < #[trigger] self.records@[j].id
        &&& forall|i: int|
            0 <= i < self.records@.len() ==> (#[trigger] self.records@[i].details.name@.len()
                <= self.max_name_len && self.records@[i].details.symbol@.len()
                <= self.max_symbol_len && self.records@[i].details.supply > 0)
    }

    /// The last token id handed out; zero before the first allocation.
    pub closed spec fn spec_last_token_id(self) -> u64 {
        self.last_id
    }

    /// The metadata recorded for `id`, if `id` has been allocated.
    pub closed spec fn spec_token(self, id: u64) -> Option<TokenDetails> {
        lookup(self.records@, id)
    }

    /// Whether `id` names a minted token.
    pub open spec fn is_minted(self, id: u64) -> bool {
        self.spec_token(id) is Some
    }

    /// The supply fixed when `id` was minted; zero for an unminted id.
    pub open spec fn spec_supply(self, id: u64) -> u64 {
        match self.spec_token(id) {
            Some(d) => d.supply,
            None => 0u64,
        }
    }

    /// The configured maximum length of a token name, in bytes.
    pub closed spec fn spec_max_name_len(self) -> usize {
        self.max_name_len
    }

    /// The configured maximum length of a token symbol, in bytes.
    pub closed spec fn spec_max_symbol_len(self) -> usize {
        self.max_symbol_len
    }

    /// No id above the counter names a minted token; minted ids are positive.
    pub proof fn lemma_ids_bounded(self, id: u64)
        requires
            self.wf(),
        ensures
            id > self.spec_last_token_id() ==> !self.is_minted(id),
            id == 0 ==> !self.is_minted(id),
    {
        if id > self.last_id || id == 0 {
            assert(forall|j: int|
                0 <= j < self.records@.len() ==> self.records@[j].id != id);
            lemma_lookup_no_match(self.records@, id);
        }
    }

    /// Minted metadata respects the configured bounds and has a positive
    /// supply.
    pub proof fn lemma_minted_details(self, id: u64)
        requires
            self.wf(),
            self.is_minted(id),
        ensures
            (match self.spec_token(id) {
                Some(d) => d.name@.len() <= self.spec_max_name_len() && d.symbol@.len()
                    <= self.spec_max_symbol_len() && d.supply > 0,
                None => false,
            }),
    {
        assert(forall|i: int|
            0 <= i < self.records@.len() ==> (#[trigger] self.records@[i].details.name@.len()
                <= self.max_name_len && self.records@[i].details.symbol@.len()
                <= self.max_symbol_len && self.records@[i].details.supply > 0));
        lemma_lookup_bounds(self.records@, id, self.max_name_len, self.max_symbol_len);
    }

    /// An empty registry with the given metadata length bounds.
    pub fn new(max_name_len: usize, max_symbol_len: usize) -> (r: TokenRegistry)
        ensures
            r.wf(),
            r.spec_last_token_id() == 0,
            forall|id: u64| #[trigger] r.spec_token(id) is None,
            r.spec_max_name_len() == max_name_len,
            r.spec_max_symbol_len() == max_symbol_len,
    {
        TokenRegistry { last_id: 0, records: Vec::new(), max_name_len, max_symbol_len }
    }

    /// The index of the record for `id`, when there is one.
    fn find(&self, id: u64) -> (r: Option<usize>)
        ensures
            match r {
                Some(i) => i < self.records@.len() && self.records@[i as int].id == id
                    && self.spec_token(id) == Some(self.records@[i as int].details),
                None => self.spec_token(id) is None,
            },
    {
        let n = self.records.len();
        let mut i: usize = 0;
        while i < n
            invariant
                n == self.records@.len(),
                i <= n,
                forall|j: int| 0 <= j < i ==> self.records@[j].id != id,
            decreases n - i,
        {
            if self.records[i].id == id {
                proof {
                    lemma_lookup_first_match(self.records@, i as int);
                }
                return Some(i);
            }
            i = i + 1;
        }
        proof {
            lemma_lookup_no_match(self.records@, id);
        }
        None
    }

    /// The metadata of token `id`, when `id` has been allocated.
    pub fn get(&self, id: u64) -> (r: Option<&TokenDetails>)
        ensures
            match r {
                Some(d) => self.spec_token(id) == Some(*d),
                None => self.spec_token(id) is None,
            },
    {
        match self.find(id) {
            Some(i) => Some(&self.records[i].details),
            None => None,
        }
    }

    /// Registers a new token under the next id. The metadata must respect
    /// the configured bounds and the supply must be positive; the counter is
    /// advanced with overflow-detecting addition, and a rejected allocation
    /// mutates nothing.
    pub fn allocate_token(&mut self, name: Vec<u8>, symbol: Vec<u8>, initial_supply: u64) -> (r:
        Result<u64, Error>)
        requires
            old(self).wf(),
        ensures
            final(self).wf(),
            final(self).spec_max_name_len() == old(self).spec_max_name_len(),
            final(self).spec_max_symbol_len() == old(self).spec_max_symbol_len(),
            initial_supply == 0 ==> r == Err::<u64, Error>(Error::NoneValue) && *final(self)
                == *old(self),
            initial_supply > 0 && name@.len() > old(self).spec_max_name_len() ==> r == Err::<
                u64,
                Error,
            >(Error::LengthExceeded) && *final(self) == *old(self),
            initial_supply > 0 && name@.len() <= old(self).spec_max_name_len() && symbol@.len()
                > old(self).spec_max_symbol_len() ==> r == Err::<u64, Error>(Error::LengthExceeded)
                && *final(self) == *old(self),
            initial_supply > 0 && name@.len() <= old(self).spec_max_name_len() && symbol@.len()
                <= old(self).spec_max_symbol_len() && old(self).spec_last_token_id() == u64::MAX
                ==> r == Err::<u64, Error>(Error::TokenIdOverflow) && *final(self) == *old(self),
            initial_supply > 0 && name@.len() <= old(self).spec_max_name_len() && symbol@.len()
                <= old(self).spec_max_symbol_len() && old(self).spec_last_token_id() < u64::MAX
                ==> {
                let id = (old(self).spec_last_token_id() + 1) as u64;
                &&& r == Ok::<u64, Error>(id)
                &&& final(self).spec_last_token_id() == id
                &&& (final(self).spec_token(id) matches Some(d) && d.name@ == name@ && d.symbol@
                    == symbol@ && d.supply == initial_supply)
                &&& forall|t: u64|
                    t != id ==> #[trigger] final(self).spec_token(t) == old(self).spec_token(t)
            },
    {
        if initial_supply == 0 {
            return Err(Error::NoneValue);
        }
        if name.len() > self.max_name_len {
            return Err(Error::LengthExceeded);
        }
        if symbol.len() > self.max_symbol_len {
            return Err(Error::LengthExceeded);
        }
        match self.last_id.checked_add(1) {
            None => Err(Error::TokenIdOverflow),
            Some(id) => {
                let details = TokenDetails { name, symbol, supply: initial_supply };
                let e = TokenRecord { id, details };
                let ghost s = self.records@;
                self.records.push(e);
                self.last_id = id;
                proof {
                    assert(s.push(e)[s.len() as int] == e);
                    assert(forall|j: int| 0 <= j < s.len() ==> s.push(e)[j] == s[j]);
                    lemma_lookup_first_match(s.push(e), s.len() as int);
                    assert forall|t: u64| t != id implies #[trigger] self.spec_token(t) == lookup(
                        s,
                        t,
                    ) by {
                        lemma_lookup_push_other(s, e, t);
                    }
                }
                Ok(id)
            },
        }
    }

    /// The last token id handed out.
    pub fn last_token_id(&self) -> (r: u64)
        ensures
            r == self.spec_last_token_id(),
    {
        self.last_id
    }
}

/// A looked-up record satisfies the per-record bounds that hold of every
/// record.
proof fn lemma_lookup_bounds(s: Seq<TokenRecord>, id: u64, max_name: usize, max_symbol: usize)
    requires
        forall|i: int|
            0 <= i < s.len() ==> (#[trigger] s[i].details.name@.len() <= max_name
                && s[i].details.symbol@.len() <= max_symbol && s[i].details.supply > 0),
        lookup(s, id) is Some,
    ensures
        (match lookup(s, id) {
            Some(d) => d.name@.len() <= max_name && d.symbol@.len() <= max_symbol && d.supply > 0,
            None => true,
        }),
    decreases s.len(),
{
    if s.len() > 0 && !(s[0].id == id) {
        assert(forall|j: int|
            0 <= j < s.drop_first().len() ==> s.drop_first()[j] == s[j + 1]);
        lemma_lookup_bounds(s.drop_first(), id, max_name, max_symbol);
    }
}

} // verus!
