//! A verified multi-asset ledger engine.
//!
//! The engine creates fungible token classes, tracks per-account balances for
//! each token, and supports delegated transfers through owner-approved
//! allowances. All state lives in an explicit [`ledger::Ledger`] value; every
//! operation is an atomic state transition whose behaviour is pinned down by
//! its contract, and the conservation invariant — the balances of a minted
//! token always sum to its supply — is proved to hold after every operation.

pub mod allowances;
pub mod balances;
pub mod ledger;
pub mod registry;
pub mod types;
pub mod weights;

pub use allowances::AllowanceStore;
pub use balances::BalanceStore;
pub use ledger::Ledger;
pub use registry::TokenRegistry;
pub use types::Error;
pub use types::Event;
pub use types::TokenDetails;
pub use weights::DbWeight;
pub use weights::SubstrateWeight;
pub use weights::Weight;
