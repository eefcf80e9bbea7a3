//! The append-only transaction log and its per-address index.  Every
//! successful mint, burn and transfer appends one immutable record here; the
//! per-address index lets a principal's history be paged through without
//! scanning the whole log.

use vstd::prelude::*;

use crate::expiration::BlockInfo;
use crate::state::ContractState;
use crate::util::{clone_opt_string, opt_view};

verus! {

/// What one logged transaction did.
#[derive(Debug, PartialEq)]
pub enum TxAction {
    Mint { minter: String, recipient: String, amount: u128 },
    /// In the base policy the burner is the owner, so `burner` is `None`;
    /// the slot is kept for policies that let others burn.
    Burn { burner: Option<String>, owner: String, amount: u128 },
    /// A transfer or send; `sender` names the spender where a delegate
    /// moved the funds.
    Transfer { from: String, sender: Option<String>, recipient: String, amount: u128 },
}

/// One immutable record of the transaction log.
#[derive(Debug, PartialEq)]
pub struct Tx {
    /// Dense and monotonic: entry `i` of the log carries id `i`.
    pub tx_id: u64,
    pub block_height: u64,
    pub block_time: u64,
    pub token_id: String,
    pub action: TxAction,
    pub memo: Option<String>,
}

/// One record of the per-address index: `address` took part in transaction
/// `tx_id`.
#[derive(Debug, PartialEq)]
pub struct AddrTxId {
    pub address: String,
    pub tx_id: u64,
}

/// Two actions that read the same, field for field.
pub open spec fn action_eqv(a: TxAction, b: TxAction) -> bool {
    match (a, b) {
        (
            TxAction::Mint { minter: m1, recipient: r1, amount: a1 },
            TxAction::Mint { minter: m2, recipient: r2, amount: a2 },
        ) => m1@ == m2@ && r1@ == r2@ && a1 == a2,
        (
            TxAction::Burn { burner: b1, owner: o1, amount: a1 },
            TxAction::Burn { burner: b2, owner: o2, amount: a2 },
        ) => opt_view(b1) == opt_view(b2) && o1@ == o2@ && a1 == a2,
        (
            TxAction::Transfer { from: f1, sender: s1, recipient: r1, amount: a1 },
            TxAction::Transfer { from: f2, sender: s2, recipient: r2, amount: a2 },
        ) => f1@ == f2@ && opt_view(s1) == opt_view(s2) && r1@ == r2@ && a1 == a2,
        _ => false,
    }
}

/// Two log records that read the same, field for field.
pub open spec fn tx_eqv(a: Tx, b: Tx) -> bool {
    &&& a.tx_id == b.tx_id
    &&& a.block_height == b.block_height
    &&& a.block_time == b.block_time
    &&& a.token_id@ == b.token_id@
    &&& action_eqv(a.action, b.action)
    &&& opt_view(a.memo) == opt_view(b.memo)
}

impl Clone for TxAction {
    fn clone(&self) -> (r: Self)
        ensures
            action_eqv(r, *self),
    {
        match self {
            TxAction::Mint { minter, recipient, amount } => TxAction::Mint {
                minter: minter.clone(),
                recipient: recipient.clone(),
                amount: *amount,
            },
            TxAction::Burn { burner, owner, amount } => TxAction::Burn {
                burner: clone_opt_string(burner),
                owner: owner.clone(),
                amount: *amount,
            },
            TxAction::Transfer { from, sender, recipient, amount } => TxAction::Transfer {
                from: from.clone(),
                sender: clone_opt_string(sender),
                recipient: recipient.clone(),
                amount: *amount,
            },
        }
    }
}

impl Clone for Tx {
    fn clone(&self) -> (r: Self)
        ensures
            tx_eqv(r, *self),
    {
        Tx {
            tx_id: self.tx_id,
            block_height: self.block_height,
            block_time: self.block_time,
            token_id: self.token_id.clone(),
            action: self.action.clone(),
            memo: clone_opt_string(&self.memo),
        }
    }
}

/// The ids of the transactions `address` took part in, oldest first.
pub open spec fn tx_ids_for(s: Seq<AddrTxId>, address: Seq<char>) -> Seq<u64>
    decreases s.len(),
{
    if s.len() == 0 {
        Seq::empty()
    } else {
        let rest = tx_ids_for(s.drop_last(), address);
        if s.last().address@ == address {
            rest.push(s.last().tx_id)
        } else {
            rest
        }
    }
}

/// One address's index entries carry strictly increasing transaction ids.
pub open spec fn addr_index_increasing(s: Seq<AddrTxId>) -> bool {
    forall|i: int, j: int|
        0 <= i < j < s.len() && (#[trigger] s[i]).address@ == (#[trigger] s[j]).address@
            ==> s[i].tx_id < s[j].tx_id
}

/// Every index entry points below `n`.
pub open spec fn addr_index_bounded(s: Seq<AddrTxId>, n: int) -> bool {
    forall|i: int| 0 <= i < s.len() ==> (#[trigger] s[i]).tx_id < n
}

/// Whether `v` is recorded for `address` somewhere in the index.
pub open spec fn id_from_index(s: Seq<AddrTxId>, address: Seq<char>, v: u64) -> bool {
    exists|i: int| 0 <= i < s.len() && (#[trigger] s[i]).address@ == address && s[i].tx_id == v
}

/// Under the index invariants, a principal's id list is strictly
/// increasing, bounded by the log length, and drawn from the index entries.
pub proof fn lemma_tx_ids_for(s: Seq<AddrTxId>, address: Seq<char>, n: int)
    requires
        addr_index_bounded(s, n),
        addr_index_increasing(s),
    ensures
        forall|k: int|
            0 <= k < tx_ids_for(s, address).len() ==> #[trigger] tx_ids_for(s, address)[k] < n,
        forall|k1: int, k2: int|
            0 <= k1 < k2 < tx_ids_for(s, address).len() ==> tx_ids_for(s, address)[k1] < tx_ids_for(
                s,
                address,
            )[k2],
        forall|k: int|
            0 <= k < tx_ids_for(s, address).len() ==> id_from_index(
                s,
                address,
                #[trigger] tx_ids_for(s, address)[k],
            ),
    decreases s.len(),
{
    if s.len() > 0 {
        let rest = tx_ids_for(s.drop_last(), address);
        let ids = tx_ids_for(s, address);
        assert(forall|i: int| 0 <= i < s.len() - 1 ==> s.drop_last()[i] == s[i]);
        assert(addr_index_bounded(s.drop_last(), n));
        assert(addr_index_increasing(s.drop_last()));
        lemma_tx_ids_for(s.drop_last(), address, n);
        assert forall|k: int| 0 <= k < rest.len() implies id_from_index(s, address, rest[k]) by {
            assert(id_from_index(s.drop_last(), address, rest[k]));
            let i = choose|i: int|
                0 <= i < s.drop_last().len() && (#[trigger] s.drop_last()[i]).address@ == address
                    && s.drop_last()[i].tx_id == rest[k];
            assert(s[i].address@ == address && s[i].tx_id == rest[k]);
        }
        if s.last().address@ == address {
            assert(s[s.len() - 1].address@ == address);
            assert forall|k1: int, k2: int| 0 <= k1 < k2 < ids.len() implies ids[k1]
                < ids[k2] by {
                if k2 < ids.len() - 1 {
                    assert(ids[k1] == rest[k1] && ids[k2] == rest[k2]);
                } else {
                    assert(ids[k2] == s.last().tx_id);
                    assert(ids[k1] == rest[k1]);
                    assert(id_from_index(s.drop_last(), address, rest[k1]));
                    let i = choose|i: int|
                        0 <= i < s.drop_last().len() && (#[trigger] s.drop_last()[i]).address@
                            == address && s.drop_last()[i].tx_id == rest[k1];
                    assert(s[i].address@ == address);
                    assert(s[i].tx_id < s[s.len() - 1].tx_id);
                }
            }
        }
    }
}

/// Appends one index record; only the named address's id list grows, and
/// the per-address ordering is kept.
fn append_tx_for_addr(ids: &mut Vec<AddrTxId>, tx_id: u64, address: &String)
    requires
        addr_index_increasing(old(ids)@),
        forall|i: int|
            0 <= i < old(ids)@.len() && (#[trigger] old(ids)@[i]).address@ == address@ ==> old(
                ids,
            )@[i].tx_id < tx_id,
    ensures
        final(ids)@.len() == old(ids)@.len() + 1,
        forall|i: int| 0 <= i < old(ids)@.len() ==> final(ids)@[i] == old(ids)@[i],
        final(ids)@.last().tx_id == tx_id,
        final(ids)@.last().address@ == address@,
        addr_index_increasing(final(ids)@),
        tx_ids_for(final(ids)@, address@) == tx_ids_for(old(ids)@, address@).push(tx_id),
        forall|a: Seq<char>|
            a != address@ ==> tx_ids_for(final(ids)@, a) == tx_ids_for(old(ids)@, a),
{
    let entry = AddrTxId { address: address.clone(), tx_id };
    proof {
        let u = old(ids)@.push(entry);
        assert(u.drop_last() =~= old(ids)@);
        assert forall|i: int, j: int|
            0 <= i < j < u.len() && (#[trigger] u[i]).address@ == (#[trigger] u[j]).address@
                implies u[i].tx_id < u[j].tx_id by {
            assert(u[i] == old(ids)@[i]);
            if j == u.len() - 1 {
                assert(u[j] == entry);
            } else {
                assert(u[j] == old(ids)@[j]);
            }
        }
    }
    ids.push(entry);
}

impl ContractState {
    /// The log and index invariants alone: the counter equals the log
    /// length, ids are dense, and each address's index entries point into
    /// the log in strictly increasing order.
    pub open spec fn tx_log_wf(self) -> bool {
        &&& self.config.tx_cnt == self.txs@.len()
        &&& forall|i: int| 0 <= i < self.txs@.len() ==> (#[trigger] self.txs@[i]).tx_id == i
        &&& addr_index_bounded(self.addr_tx_ids@, self.txs@.len() as int)
        &&& addr_index_increasing(self.addr_tx_ids@)
    }

    /// Everything outside the log, the index and the counter is untouched.
    pub open spec fn only_log_changed(self, other: ContractState) -> bool {
        &&& self.config.admin == other.config.admin
        &&& self.config.curators == other.config.curators
        &&& self.config.token_id_list == other.config.token_id_list
        &&& self.config.contract_address == other.config.contract_address
        &&& self.tokens == other.tokens
        &&& self.balances == other.balances
        &&& self.owner_history == other.owner_history
        &&& self.permissions == other.permissions
        &&& self.permission_keys == other.permission_keys
        &&& self.receiver_hashes == other.receiver_hashes
        &&& self.block == other.block
    }

    /// The log grew by one record under the old counter value, the counter
    /// moved up by one, and exactly the participants' id lists each gained
    /// that id.
    pub open spec fn tx_log_extended(
        self,
        new: ContractState,
        participants: Set<Seq<char>>,
    ) -> bool {
        &&& new.txs@.len() == self.txs@.len() + 1
        &&& new.txs@.drop_last() == self.txs@
        &&& new.txs@.last().tx_id == self.config.tx_cnt
        &&& new.config.tx_cnt == self.config.tx_cnt + 1
        &&& forall|a: Seq<char>|
            participants.contains(a) ==> tx_ids_for(new.addr_tx_ids@, a) == tx_ids_for(
                self.addr_tx_ids@,
                a,
            ).push(self.config.tx_cnt)
        &&& forall|a: Seq<char>|
            !participants.contains(a) ==> tx_ids_for(new.addr_tx_ids@, a) == tx_ids_for(
                self.addr_tx_ids@,
                a,
            )
    }

    /// What every append to the log guarantees: the log was extended for
    /// the participants and nothing else changed.
    pub open spec fn logged_tx(self, new: ContractState, participants: Set<Seq<char>>) -> bool {
        &&& self.tx_log_extended(new, participants)
        &&& self.only_log_changed(new)
    }

    /// Logs a mint of `amount` of `token_id` to `recipient` by `minter`.
    pub fn store_mint(
        &mut self,
        block: &BlockInfo,
        token_id: &String,
        minter: &String,
        recipient: &String,
        amount: u128,
        memo: Option<String>,
    )
        requires
            old(self).tx_log_wf(),
        ensures
            final(self).tx_log_wf(),
            old(self).logged_tx(*final(self), set![minter@, recipient@]),
            ({
                let tx = final(self).txs@.last();
                &&& tx.block_height == block.height
                &&& tx.block_time == block.time
                &&& tx.token_id@ == token_id@
                &&& opt_view(tx.memo) == opt_view(memo)
                &&& tx.action matches TxAction::Mint { minter: m, recipient: r, amount: am }
                    && m@ == minter@ && r@ == recipient@ && am == amount
            }),
    {
        let tx_id = push_tx_record(
            self,
            block,
            token_id,
            TxAction::Mint { minter: minter.clone(), recipient: recipient.clone(), amount },
            memo,
        );
        append_tx_for_addr(&mut self.addr_tx_ids, tx_id, recipient);
        if *minter != *recipient {
            append_tx_for_addr(&mut self.addr_tx_ids, tx_id, minter);
        }
        proof {
            assert(addr_index_bounded(self.addr_tx_ids@, self.txs@.len() as int));
        }
    }

    /// Logs a burn of `amount` of `token_id` from `owner`; `burner` names a
    /// third-party burner where a policy allows one.
    pub fn store_burn(
        &mut self,
        block: &BlockInfo,
        token_id: &String,
        burner: Option<&String>,
        owner: &String,
        amount: u128,
        memo: Option<String>,
    )
        requires
            old(self).tx_log_wf(),
        ensures
            final(self).tx_log_wf(),
            old(self).logged_tx(
                *final(self),
                match burner {
                    Some(b) => set![owner@, b@],
                    None => set![owner@],
                },
            ),
            ({
                let tx = final(self).txs@.last();
                &&& tx.block_height == block.height
                &&& tx.block_time == block.time
                &&& tx.token_id@ == token_id@
                &&& opt_view(tx.memo) == opt_view(memo)
                &&& tx.action matches TxAction::Burn { burner: b, owner: o, amount: am } && o@
                    == owner@ && am == amount && (match (b, burner) {
                    (Some(x), Some(y)) => x@ == y@,
                    (None, None) => true,
                    _ => false,
                })
            }),
    {
        let burner_owned: Option<String> = match burner {
            Some(b) => Some(b.clone()),
            None => None,
        };
        let tx_id = push_tx_record(
            self,
            block,
            token_id,
            TxAction::Burn { burner: burner_owned, owner: owner.clone(), amount },
            memo,
        );
        append_tx_for_addr(&mut self.addr_tx_ids, tx_id, owner);
        match burner {
            Some(b) => {
                if *b != *owner {
                    append_tx_for_addr(&mut self.addr_tx_ids, tx_id, b);
                }
            },
            None => {},
        }
        proof {
            assert(addr_index_bounded(self.addr_tx_ids@, self.txs@.len() as int));
        }
    }

    /// Logs a transfer of `amount` of `token_id` from `from` to
    /// `recipient`; `sender` names the spender where a delegate moved it.
    pub fn store_transfer(
        &mut self,
        block: &BlockInfo,
        token_id: &String,
        from: &String,
        sender: Option<&String>,
        recipient: &String,
        amount: u128,
        memo: Option<String>,
    )
        requires
            old(self).tx_log_wf(),
        ensures
            final(self).tx_log_wf(),
            old(self).logged_tx(
                *final(self),
                match sender {
                    Some(s) => set![from@, recipient@, s@],
                    None => set![from@, recipient@],
                },
            ),
            ({
                let tx = final(self).txs@.last();
                &&& tx.block_height == block.height
                &&& tx.block_time == block.time
                &&& tx.token_id@ == token_id@
                &&& opt_view(tx.memo) == opt_view(memo)
                &&& tx.action matches TxAction::Transfer {
                    from: f,
                    sender: s,
                    recipient: r,
                    amount: am,
                } && f@ == from@ && r@ == recipient@ && am == amount && (match (s, sender) {
                    (Some(x), Some(y)) => x@ == y@,
                    (None, None) => true,
                    _ => false,
                })
            }),
    {
        let sender_owned: Option<String> = match sender {
            Some(s) => Some(s.clone()),
            None => None,
        };
        let tx_id = push_tx_record(
            self,
            block,
            token_id,
            TxAction::Transfer {
                from: from.clone(),
                sender: sender_owned,
                recipient: recipient.clone(),
                amount,
            },
            memo,
        );
        append_tx_for_addr(&mut self.addr_tx_ids, tx_id, from);
        if *recipient != *from {
            append_tx_for_addr(&mut self.addr_tx_ids, tx_id, recipient);
        }
        match sender {
            Some(s) => {
                if *s != *from && *s != *recipient {
                    append_tx_for_addr(&mut self.addr_tx_ids, tx_id, s);
                }
            },
            None => {},
        }
        proof {
            assert(addr_index_bounded(self.addr_tx_ids@, self.txs@.len() as int));
        }
    }
}

/// Returns one page of the transactions `address` took part in, newest
/// first, together with the total count of its log entries.  A page past
/// the available data is empty, and the returned records carry strictly
/// decreasing transaction ids.
pub fn get_txs(state: &ContractState, address: &String, page: u32, page_size: u32) -> (r: (
    Vec<Tx>,
    u64,
))
    requires
        state.wf(),
    ensures
        ({
            let ids = tx_ids_for(state.addr_tx_ids@, address@);
            let pg = crate::util::page_desc(ids, page as int, page_size as int);
            &&& r.1 == ids.len()
            &&& r.0@.len() == pg.len()
            &&& forall|k: int|
                0 <= k < pg.len() ==> (#[trigger] r.0@[k]).tx_id == pg[k] && tx_eqv(
                    r.0@[k],
                    state.txs@[pg[k] as int],
                )
            &&& forall|k1: int, k2: int|
                0 <= k1 < k2 < r.0@.len() ==> (#[trigger] r.0@[k1]).tx_id > (
                #[trigger] r.0@[k2]).tx_id
        }),
{
    let mut ids: Vec<u64> = Vec::new();
    let mut i: usize = 0;
    proof {
        assert(state.addr_tx_ids@.subrange(0, 0) =~= Seq::<AddrTxId>::empty());
    }
    while i < state.addr_tx_ids.len()
        invariant
            i <= state.addr_tx_ids@.len(),
            ids@ == tx_ids_for(state.addr_tx_ids@.subrange(0, i as int), address@),
            state.wf(),
        decreases state.addr_tx_ids@.len() - i,
    {
        proof {
            assert(state.addr_tx_ids@.subrange(0, i as int + 1).drop_last()
                =~= state.addr_tx_ids@.subrange(0, i as int));
            assert(state.addr_tx_ids@.subrange(0, i as int + 1).last()
                == state.addr_tx_ids@[i as int]);
        }
        if state.addr_tx_ids[i].address == *address {
            ids.push(state.addr_tx_ids[i].tx_id);
        }
        i = i + 1;
    }
    proof {
        assert(state.addr_tx_ids@.subrange(0, state.addr_tx_ids@.len() as int)
            =~= state.addr_tx_ids@);
        lemma_tx_ids_for(state.addr_tx_ids@, address@, state.txs@.len() as int);
    }
    let total: u64 = ids.len() as u64;
    proof {
        vstd::arithmetic::mul::lemma_mul_upper_bound(
            page as int,
            u32::MAX as int,
            page_size as int,
            u32::MAX as int,
        );
    }
    let skip: u64 = (page as u64) * (page_size as u64);
    let ghost idseq = tx_ids_for(state.addr_tx_ids@, address@);
    let ghost pg = crate::util::page_desc(idseq, page as int, page_size as int);
    let mut out: Vec<Tx> = Vec::new();
    let mut k: u64 = 0;
    while k < (page_size as u64) && skip + k < total
        invariant
            state.wf(),
            ids@ == idseq,
            total == idseq.len(),
            skip == (page as u64) * (page_size as u64),
            skip == page as int * page_size as int,
            pg == crate::util::page_desc(idseq, page as int, page_size as int),
            k <= page_size as u64,
            skip + k <= total || k == 0,
            out@.len() == k,
            forall|a: int, b: int|
                0 <= a < b < idseq.len() ==> idseq[a] < idseq[b],
            forall|a: int| 0 <= a < idseq.len() ==> #[trigger] idseq[a] < state.txs@.len(),
            forall|j: int|
                0 <= j < k ==> (#[trigger] out@[j]).tx_id == idseq[total - 1 - skip - j]
                    && tx_eqv(out@[j], state.txs@[idseq[total - 1 - skip - j] as int]),
        decreases (page_size as u64) - k,
    {
        let idx64: u64 = total - 1 - skip - k;
        let n_ids: usize = ids.len();
        assert(idx64 < n_ids as u64);
        let idx: usize = idx64 as usize;
        let tid: u64 = ids[idx];
        let n_txs: usize = state.txs.len();
        assert(tid < n_txs as u64);
        let tx = state.txs[tid as usize].clone();
        proof {
            assert(out@.push(tx).drop_last() =~= out@);
        }
        out.push(tx);
        k = k + 1;
    }
    proof {
        if skip >= total || page_size == 0 {
            assert(pg.len() == 0);
        } else {
            assert(k == if (page_size as u64) <= total - skip {
                page_size as u64
            } else {
                (total - skip) as u64
            });
            assert(pg.len() == k);
            assert forall|j: int| 0 <= j < pg.len() implies (#[trigger] out@[j]).tx_id == pg[j]
                && tx_eqv(out@[j], state.txs@[pg[j] as int]) by {
                assert(pg[j] == idseq[idseq.len() - 1 - (page as int * page_size as int) - j]);
            }
        }
        assert forall|k1: int, k2: int| 0 <= k1 < k2 < out@.len() implies (
        #[trigger] out@[k1]).tx_id > (#[trigger] out@[k2]).tx_id by {
            assert(out@[k1].tx_id == idseq[total - 1 - skip - k1]);
            assert(out@[k2].tx_id == idseq[total - 1 - skip - k2]);
            assert(idseq[total - 1 - skip - k2] < idseq[total - 1 - skip - k1]);
        }
    }
    (out, total)
}

/// Appends the record itself to the log and advances the counter, returning
/// the id it was stored under.
fn push_tx_record(
    state: &mut ContractState,
    block: &BlockInfo,
    token_id: &String,
    action: TxAction,
    memo: Option<String>,
) -> (tx_id: u64)
    requires
        old(state).tx_log_wf(),
    ensures
        tx_id == old(state).config.tx_cnt,
        final(state).txs@.len() == old(state).txs@.len() + 1,
        final(state).txs@.drop_last() == old(state).txs@,
        final(state).config.tx_cnt == old(state).config.tx_cnt + 1,
        final(state).config.tx_cnt == final(state).txs@.len(),
        ({
            let tx = final(state).txs@.last();
            &&& tx.tx_id == old(state).config.tx_cnt
            &&& tx.block_height == block.height
            &&& tx.block_time == block.time
            &&& tx.token_id@ == token_id@
            &&& tx.action == action
            &&& opt_view(tx.memo) == opt_view(memo)
        }),
        final(state).addr_tx_ids == old(state).addr_tx_ids,
        old(state).only_log_changed(*final(state)),
        forall|i: int|
            0 <= i < final(state).txs@.len() ==> (#[trigger] final(state).txs@[i]).tx_id == i,
{
    let tx_id: u64 = state.config.tx_cnt;
    let tx = Tx {
        tx_id,
        block_height: block.height,
        block_time: block.time,
        token_id: token_id.clone(),
        action,
        memo,
    };
    proof {
        assert(old(state).txs@.push(tx).drop_last() =~= old(state).txs@);
    }
    state.txs.push(tx);
    let n: usize = state.txs.len();
    assert(n == old(state).txs@.len() + 1);
    state.config.tx_cnt = tx_id + 1;
    tx_id
}

} // verus!
