//! The logical clock and the expiry discipline of granted permissions.

use vstd::prelude::*;

verus! {

/// The slice of block metadata that the ledger reads: a monotonic logical
/// clock, as a block height and a block time in seconds.
#[derive(Clone, Copy, Debug, PartialEq, Eq, Structural)]
pub struct BlockInfo {
    pub height: u64,
    pub time: u64,
}

/// When a granted right lapses.  `Never` is the default: a right that was
/// granted without an expiry stays valid until revoked.
#[derive(Clone, Copy, Debug, PartialEq, Eq, Structural)]
pub enum Expiration {
    Never,
    AtHeight(u64),
    AtTime(u64),
}

impl Expiration {
    /// An expiry has elapsed once the clock reaches it: at the named height
    /// or time the right is already gone.
    pub open spec fn spec_is_expired(self, block: BlockInfo) -> bool {
        match self {
            Expiration::Never => false,
            Expiration::AtHeight(h) => block.height >= h,
            Expiration::AtTime(t) => block.time >= t,
        }
    }

    pub fn is_expired(&self, block: &BlockInfo) -> (r: bool)
        ensures
            r == self.spec_is_expired(*block),
    {
        match self {
            Expiration::Never => false,
            Expiration::AtHeight(h) => block.height >= *h,
            Expiration::AtTime(t) => block.time >= *t,
        }
    }
}

impl Default for Expiration {
    fn default() -> (r: Self)
        ensures
            r == Expiration::Never,
    {
        Expiration::Never
    }
}

} // verus!
