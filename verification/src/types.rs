//! Shared value types of the ledger engine: token identifiers and balances
//! are plain unsigned integers, token metadata is a pair of bounded byte
//! strings plus the supply fixed at mint time, and every operation reports
//! either a structured notification or one of the error kinds below.

use vstd::prelude::*;

verus! {

/// The reasons an operation can be rejected. A rejected operation performs
/// no state mutation at all.
#[derive(Clone, Copy, Debug, PartialEq, Eq)]
pub enum Error {
    /// A mint was requested with zero supply.
    NoneValue,
    /// The token-id counter could not be incremented further.
    TokenIdOverflow,
    /// A credit would exceed the balance type's representable range.
    TokenBalanceOverflow,
    /// A debit exceeds the source's available quantity (a balance or an
    /// allowance, depending on the operation).
    InsufficientBalance,
    /// A delegated transfer was attempted with a zero allowance.
    NotApproved,
    /// An operation referenced a token id absent from the registry.
    NoneToken,
    /// A token name or symbol is longer than its configured maximum.
    LengthExceeded,
}

/// The notification a successful operation emits, returned to the caller so
/// the engine stays free of any event-log plumbing.
#[derive(Clone, Copy, Debug, PartialEq, Eq)]
pub enum Event {
    TokenMinted { token_id: u64, who: u64 },
    Transferred { from: u64, to: u64, amount: u64 },
    Approved { token_id: u64, owner: u64, spender: u64, amount: u64 },
    TransferredFrom { spender: u64, from: u64, to: u64, amount: u64 },
}

/// Metadata of one token class, created at mint time and immutable
/// thereafter.
#[derive(Debug, PartialEq, Eq)]
pub struct TokenDetails {
    pub name: Vec<u8>,
    pub symbol: Vec<u8>,
    pub supply: u64,
}

impl TokenDetails {
    pub fn new(name: Vec<u8>, symbol: Vec<u8>, supply: u64) -> (r: TokenDetails)
        ensures
            r.name@ == name@,
            r.symbol@ == symbol@,
            r.supply == supply,
    {
        TokenDetails { name, symbol, supply }
    }
}

} // verus!
