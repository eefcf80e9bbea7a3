//! The notification a `send` hands to a registered recipient contract.  The
//! library builds the notification as plain values; encoding and dispatch
//! belong to the host layer.

use vstd::prelude::*;

use crate::util::opt_view;

verus! {

/// What a recipient contract is told about a transfer it received.
#[derive(Debug, PartialEq)]
pub struct Snip1155ReceiveMsg {
    /// The principal that called the send.
    pub sender: String,
    pub token_id: String,
    /// The holder the units left.
    pub from: String,
    pub amount: u128,
    pub memo: Option<String>,
    /// Opaque bytes the sender chose to hand through.
    pub msg: Option<Vec<u8>>,
}

impl Snip1155ReceiveMsg {
    pub fn new(
        sender: String,
        token_id: String,
        from: String,
        amount: u128,
        memo: Option<String>,
        msg: Option<Vec<u8>>,
    ) -> (r: Self)
        ensures
            r == (Snip1155ReceiveMsg { sender, token_id, from, amount, memo, msg }),
    {
        Self { sender, token_id, from, amount, memo, msg }
    }
}

/// Two notifications that read the same, field for field.
pub open spec fn receive_msg_eqv(a: Snip1155ReceiveMsg, b: Snip1155ReceiveMsg) -> bool {
    &&& a.sender@ == b.sender@
    &&& a.token_id@ == b.token_id@
    &&& a.from@ == b.from@
    &&& a.amount == b.amount
    &&& opt_view(a.memo) == opt_view(b.memo)
    &&& (match (a.msg, b.msg) {
        (Some(x), Some(y)) => x@ == y@,
        (None, None) => true,
        _ => false,
    })
}

/// A notification addressed to the recipient contract that is to receive
/// it, under the code hash it is called with.
#[derive(Debug, PartialEq)]
pub struct ReceiverCallback {
    pub contract_addr: String,
    pub code_hash: String,
    pub msg: Snip1155ReceiveMsg,
}

} // verus!
