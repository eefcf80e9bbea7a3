//! A verified multi-asset ledger: one deployment manages many independent
//! token lines, each either fungible (many holders, divisible amounts) or an
//! NFT (exactly one holder, fixed at one unit).  The crate holds the ledger,
//! permission and history engine: token curation and configuration, the
//! balance store with its conservation invariants, the admin / curator /
//! minter authorization model, the per-(owner, token, spender) permission and
//! allowance store with expiry, and the append-only transaction log with a
//! per-address index for paginated history.
//!
//! The host environment (durable storage, message en/decoding, credential
//! checking) is out of scope: every operation is a function from an explicit
//! [`state::ContractState`] plus plain inputs to a new state and a result.

pub mod error;
pub mod expiration;
pub mod handles;
pub mod laws;
pub mod metadata;
pub mod msg;
pub mod permissions;
pub mod queries;
pub mod receiver;
pub mod state;
pub mod state_structs;
pub mod txhistory;
pub mod util;
