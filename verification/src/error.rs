//! The error kinds that ledger operations return.  Every failure is reported
//! to the caller; nothing is retried or swallowed inside the library.

use vstd::prelude::*;

verus! {

/// Why an operation was refused.
#[derive(Clone, Copy, Debug, PartialEq, Eq, Structural)]
pub enum Error {
    /// A token line, permission entry or stored record that the call needs is
    /// absent.
    NotFound,
    /// The token line to be curated already exists.
    AlreadyExists,
    /// A malformed name, symbol or decimals value, or an NFT curated with
    /// other than one holder of exactly one unit.
    Validation,
    /// The caller lacks the admin, curator, minter, owner or spender standing
    /// the call requires.  Transfers also report a missing token line this
    /// way, so that probing cannot reveal which token lines exist.
    Unauthorized,
    /// An admin-only call after the admin slot was permanently cleared.
    NoAdmin,
    /// The debited holder owns less than the amount to remove.
    InsufficientFunds,
    /// The spender's remaining transfer allowance, carried along, is below
    /// the requested amount.
    InsufficientAllowance { available: u128 },
    /// The spender's transfer allowance has lapsed.
    Expired,
    /// A balance, allowance or total supply would pass the largest
    /// representable amount, or a total supply would drop below zero.
    Overflow,
}

} // verus!
