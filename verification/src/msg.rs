//! The plain records the operation entry points take and return.

use vstd::prelude::*;

use crate::state_structs::CurateTokenId;

verus! {

/// What the deployment is instantiated with.
#[derive(Debug)]
pub struct InitMsg {
    /// `false`: the deployment never has an admin.  `true` with `admin`
    /// unset: the instantiating principal becomes admin.
    pub has_admin: bool,
    pub admin: Option<String>,
    pub curators: Vec<String>,
    pub initial_tokens: Vec<CurateTokenId>,
}

/// Whether an operation went through.
#[derive(Clone, Copy, Debug, PartialEq, Eq, Structural)]
pub enum ResponseStatus {
    Success,
    Failure,
}

/// The acknowledgement an operation returns on success.
#[derive(Clone, Copy, Debug, PartialEq, Eq, Structural)]
pub enum HandleAnswer {
    CurateTokenIds { status: ResponseStatus },
    MintTokens { status: ResponseStatus },
    BurnTokens { status: ResponseStatus },
    ChangeMetadata { status: ResponseStatus },
    Transfer { status: ResponseStatus },
    BatchTransfer { status: ResponseStatus },
    Send { status: ResponseStatus },
    BatchSend { status: ResponseStatus },
    GivePermission { status: ResponseStatus },
    RevokePermission { status: ResponseStatus },
    RegisterReceive { status: ResponseStatus },
    AddCurators { status: ResponseStatus },
    RemoveCurators { status: ResponseStatus },
    AddMinters { status: ResponseStatus },
    RemoveMinters { status: ResponseStatus },
    ChangeAdmin { status: ResponseStatus },
    RemoveAdmin { status: ResponseStatus },
}

/// One item of a batch transfer.
#[derive(Debug)]
pub struct TransferAction {
    pub token_id: String,
    /// The holder the units leave; the caller needs an allowance from this
    /// principal unless it is the caller itself.
    pub from: String,
    pub recipient: String,
    pub amount: u128,
    pub memo: Option<String>,
}

/// One item of a batch send: a transfer plus the receiver notification.
#[derive(Debug)]
pub struct SendAction {
    pub token_id: String,
    pub from: String,
    pub recipient: String,
    /// Overrides the recipient's registered code hash for the notification.
    pub recipient_code_hash: Option<String>,
    pub amount: u128,
    /// Opaque bytes handed through to the recipient contract.
    pub msg: Option<Vec<u8>>,
    pub memo: Option<String>,
}

/// Pads `message` with spaces at the end, up to a multiple of `block_size`,
/// so that a response's length does not leak its content.
pub fn space_pad(block_size: usize, message: &mut Vec<u8>)
    requires
        block_size > 0,
    ensures
        final(message)@.len() >= old(message)@.len(),
        final(message)@.len() < old(message)@.len() + block_size,
        (final(message)@.len() as int) % (block_size as int) == 0,
        final(message)@.subrange(0, old(message)@.len() as int) == old(message)@,
        forall|i: int|
            old(message)@.len() <= i < final(message)@.len() ==> final(message)@[i] == 32u8,
{
    let len: usize = message.len();
    let surplus: usize = len % block_size;
    if surplus == 0 {
        proof {
            assert(message@.subrange(0, message@.len() as int) =~= message@);
        }
        return ;
    }
    let missing: usize = block_size - surplus;
    let mut k: usize = 0;
    while k < missing
        invariant
            k <= missing,
            message@.len() == len + k,
            message@.subrange(0, len as int) == old(message)@,
            forall|i: int| len <= i < message@.len() ==> message@[i] == 32u8,
            len % block_size == surplus,
            missing == block_size - surplus,
            0 < surplus < block_size,
        decreases missing - k,
    {
        message.push(32u8);
        proof {
            assert(message@.subrange(0, len as int) =~= old(message)@);
        }
        k = k + 1;
    }
    proof {
        assert((len + missing) % (block_size as int) == 0) by {
            let bs = block_size as int;
            let q = len as int / bs;
            assert(len as int == q * bs + surplus) by {
                vstd::arithmetic::div_mod::lemma_fundamental_div_mod(len as int, bs);
            }
            assert(len + missing == (q + 1) * bs) by {
                assert((q + 1) * bs == q * bs + bs) by (nonlinear_arith);
            }
            vstd::arithmetic::div_mod::lemma_mod_multiples_basic(q + 1, bs);
        }
    }
}

} // verus!
