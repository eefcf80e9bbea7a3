//! The library's standing guarantees, stated and proved once over the
//! state invariant and the operation contracts.

use vstd::prelude::*;

use crate::permissions::{default_permission, find_perm};
use crate::state::{bal_of, lemma_find_amount, lemma_sum_two_entries, sum_for, ContractState};
use crate::expiration::BlockInfo;
use crate::handles::{transfer_effects, transfer_err};
use crate::error::Error;

verus! {

/// Conservation of value: in every well-formed state — and every operation
/// of this library both requires and re-establishes well-formedness — the
/// balances of each curated token line sum exactly to its recorded total
/// supply.
pub proof fn lemma_conservation(s: ContractState, t: Seq<char>)
    requires
        s.wf(),
        s.spec_token(t) is Some,
    ensures
        sum_for(s.balances@, t) == s.spec_token(t).unwrap().total_supply as int,
{
    crate::state::lemma_find_token(s.tokens@, t);
    let i = choose|i: int|
        0 <= i < s.tokens@.len() && (#[trigger] s.tokens@[i]).info.token_id@ == t && crate::state::find_token(
            s.tokens@,
            t,
        ) == Some(s.tokens@[i]);
    assert(sum_for(s.balances@, s.tokens@[i].info.token_id@) == s.tokens@[i].total_supply as int);
}

/// An NFT token line never has more than one unit in circulation: in every
/// well-formed state its supply is at most one, so no two distinct holders
/// can both own a positive balance, and no holder owns more than one unit.
pub proof fn lemma_nft_single_holder(s: ContractState, t: Seq<char>, a1: Seq<char>, a2: Seq<char>)
    requires
        s.wf(),
        s.spec_token(t) is Some,
        s.spec_token(t).unwrap().info.token_config.spec_is_nft(),
        a1 != a2,
    ensures
        s.spec_token(t).unwrap().total_supply <= 1,
        bal_of(s.balances@, t, a1) <= 1,
        !(bal_of(s.balances@, t, a1) > 0 && bal_of(s.balances@, t, a2) > 0),
{
    lemma_conservation(s, t);
    crate::state::lemma_find_token(s.tokens@, t);
    let ti = choose|i: int|
        0 <= i < s.tokens@.len() && (#[trigger] s.tokens@[i]).info.token_id@ == t && crate::state::find_token(
            s.tokens@,
            t,
        ) == Some(s.tokens@[i]);
    assert(s.tokens@[ti].info.token_config.spec_is_nft());
    let supply = s.spec_token(t).unwrap().total_supply as int;
    assert(supply <= 1);
    lemma_find_amount(s.balances@, t, a1);
    lemma_find_amount(s.balances@, t, a2);
    if bal_of(s.balances@, t, a1) > 0 {
        let i1 = choose|i: int|
            0 <= i < s.balances@.len() && (#[trigger] s.balances@[i]).token_id@ == t
                && s.balances@[i].address@ == a1 && s.balances@[i].amount == crate::state::find_amount(
                s.balances@,
                t,
                a1,
            ).unwrap();
        crate::state::lemma_sum_entry_bound(s.balances@, t, i1);
        if bal_of(s.balances@, t, a2) > 0 {
            let i2 = choose|i: int|
                0 <= i < s.balances@.len() && (#[trigger] s.balances@[i]).token_id@ == t
                    && s.balances@[i].address@ == a2 && s.balances@[i].amount
                    == crate::state::find_amount(s.balances@, t, a2).unwrap();
            assert(i1 != i2);
            if i1 < i2 {
                lemma_sum_two_entries(s.balances@, t, i1, i2);
            } else {
                lemma_sum_two_entries(s.balances@, t, i2, i1);
            }
        }
    }
}

/// Consuming a transfer allowance: a delegate that moves `amount` leaves
/// exactly the old allowance minus `amount`, and a second transfer of more
/// than the remainder is refused.
pub proof fn lemma_allowance_consumed_exactly(
    pre: ContractState,
    post: ContractState,
    blk: BlockInfo,
    sender: Seq<char>,
    t: Seq<char>,
    from: Seq<char>,
    recipient: Seq<char>,
    amount: u128,
    memov: Option<Seq<char>>,
    amount2: u128,
    recipient2: Seq<char>,
    blk2: BlockInfo,
)
    requires
        from != sender,
        transfer_err(pre, blk, sender, t, from, recipient, amount) is None,
        transfer_effects(pre, post, blk, sender, t, from, recipient, amount, memov),
    ensures
        ({
            let before = find_perm(pre.permissions@, from, t, sender).unwrap().trfer_allowance_perm;
            let after = find_perm(post.permissions@, from, t, sender).unwrap().trfer_allowance_perm;
            &&& after == before - amount
            &&& (amount2 > after ==> transfer_err(post, blk2, sender, t, from, recipient2, amount2)
                is Some)
        }),
{
    let p = find_perm(pre.permissions@, from, t, sender).unwrap();
    assert(find_perm(post.permissions@, from, t, sender) == Some(
        crate::permissions::Permission {
            trfer_allowance_perm: (p.trfer_allowance_perm - amount) as u128,
            ..p
        },
    ));
}

/// A revoked permission reads as the all-denied default: no view-balance
/// right, no view-private-metadata right, and a zero allowance, whatever
/// the clock says.  `query_permission` returns exactly this stored record.
pub proof fn lemma_revocation_observable(
    s: ContractState,
    owner: Seq<char>,
    token_id: Seq<char>,
    spender: Seq<char>,
)
    requires
        s.spec_permission(owner, token_id, spender) == Some(default_permission()),
    ensures
        ({
            let p = s.spec_permission(owner, token_id, spender).unwrap();
            &&& !p.view_balance_perm
            &&& !p.view_pr_metadata_perm
            &&& p.trfer_allowance_perm == 0
            &&& !p.spec_check_view_balance(s.block)
            &&& !p.spec_check_view_pr_metadata(s.block)
            &&& (forall|a2: u128|
                a2 > 0 && owner != spender ==> transfer_err(
                    s,
                    s.block,
                    spender,
                    token_id,
                    owner,
                    owner,
                    a2,
                ) == Some(Error::InsufficientAllowance { available: 0u128 }))
        }),
{
    let p = s.spec_permission(owner, token_id, spender).unwrap();
    assert(p == default_permission());
    assert forall|a2: u128| a2 > 0 && owner != spender implies transfer_err(
        s,
        s.block,
        spender,
        token_id,
        owner,
        owner,
        a2,
    ) == Some(Error::InsufficientAllowance { available: 0u128 }) by {
        assert(p.trfer_allowance_perm < a2);
    }
}

} // verus!
