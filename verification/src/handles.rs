//! The operation entry points: curation, minting, burning, transfers and
//! sends, permission grants and revocations, metadata changes, and the
//! admin / curator / minter management.  Each is one atomic step on an
//! explicit [`ContractState`]; the host persists the state and discards it
//! when an operation fails.

use vstd::prelude::*;
use vstd::string::StringSliceAdditionalSpecFns;

use crate::error::Error;
use crate::expiration::{BlockInfo, Expiration};
use crate::msg::{HandleAnswer, ResponseStatus};
use crate::permissions::{
    default_permission, find_perm, lemma_find_perm_update, may_load_any_permission,
    new_permission, perm_index, update_permission, PermEntry, Permission,
};
use crate::state::{
    add_balance, bal_of, balance_index, balances_unique, current_owner, find_amount, find_token,
    has_token, lemma_find_amount, lemma_find_token, lemma_find_token_update, lemma_sum_absent,
    sum_for, token_index, tokens_unique, sub_balance, ContractState, TokenEntry,
};
use crate::state_structs::{ContractConfig, Env, TknConf};
use crate::util::{seq_has_string, seq_without_string, contains_string, remove_string};

verus! {

/// `post` arises from `pre` by applying one step of `rel` for each item of
/// `items`, in order.  The batch operations promise exactly this chain.
pub open spec fn chained<T>(
    rel: spec_fn(ContractState, ContractState, T) -> bool,
    pre: ContractState,
    post: ContractState,
    items: Seq<T>,
) -> bool
    decreases items.len(),
{
    if items.len() == 0 {
        post == pre
    } else {
        exists|mid: ContractState|
            #[trigger] rel(pre, mid, items.first()) && chained(rel, mid, post, items.drop_first())
    }
}

/// Extending a chain by one more step at its end.
pub proof fn lemma_chained_snoc<T>(
    rel: spec_fn(ContractState, ContractState, T) -> bool,
    pre: ContractState,
    mid: ContractState,
    post: ContractState,
    items: Seq<T>,
    x: T,
)
    requires
        chained(rel, pre, mid, items),
        rel(mid, post, x),
    ensures
        chained(rel, pre, post, items.push(x)),
    decreases items.len(),
{
    let ext = items.push(x);
    assert(ext.len() == items.len() + 1);
    if items.len() == 0 {
        assert(mid == pre);
        assert(ext.first() == x);
        assert(ext.drop_first() =~= Seq::<T>::empty());
        assert(chained(rel, post, post, ext.drop_first()));
        assert(rel(pre, post, ext.first()) && chained(rel, post, post, ext.drop_first()));
        assert(exists|m: ContractState|
            rel(pre, m, ext.first()) && chained(rel, m, post, ext.drop_first()));
    } else {
        assert(exists|m1: ContractState|
            #[trigger] rel(pre, m1, items.first()) && chained(rel, m1, mid, items.drop_first()));
        let m1 = choose|m1: ContractState|
            rel(pre, m1, items.first()) && chained(rel, m1, mid, items.drop_first());
        lemma_chained_snoc(rel, m1, mid, post, items.drop_first(), x);
        assert(ext.first() == items.first());
        assert(ext.drop_first() =~= items.drop_first().push(x));
        assert(rel(pre, m1, ext.first()) && chained(rel, m1, post, ext.drop_first()));
        assert(exists|m: ContractState|
            rel(pre, m, ext.first()) && chained(rel, m, post, ext.drop_first()));
    }
}

/// `a` is `b` with at most its curator set changed.
pub open spec fn eq_except_curators(a: ContractState, b: ContractState) -> bool {
    a == ContractState { config: ContractConfig { curators: a.config.curators, ..b.config }, ..b }
}

/// The state `s` with only its logical clock moved to `b`: what a refused
/// operation leaves behind.
pub open spec fn with_block(s: ContractState, b: BlockInfo) -> ContractState {
    ContractState { block: b, ..s }
}

/// Why an admin-only call fails: `NoAdmin` once the admin slot was cleared,
/// `Unauthorized` for any caller but the admin.
pub open spec fn admin_check(config: ContractConfig, sender: Seq<char>) -> Option<Error> {
    match config.admin {
        None => Some(Error::NoAdmin),
        Some(a) => if a@ == sender {
            None
        } else {
            Some(Error::Unauthorized)
        },
    }
}

/// Checks that the caller is the configured admin.
pub fn verify_admin(contract_config: &ContractConfig, env: &Env) -> (r: Result<(), Error>)
    ensures
        match r {
            Ok(_) => admin_check(*contract_config, env.sender@) is None,
            Err(e) => admin_check(*contract_config, env.sender@) == Some(e),
        },
{
    match &contract_config.admin {
        Some(admin) => {
            if *admin == env.sender {
                Ok(())
            } else {
                Err(Error::Unauthorized)
            }
        },
        None => Err(Error::NoAdmin),
    }
}

/// Checks that the caller is one of the configured curators.
pub fn verify_curator(contract_config: &ContractConfig, env: &Env) -> (r: Result<(), Error>)
    ensures
        match r {
            Ok(_) => seq_has_string(contract_config.curators@, env.sender@),
            Err(e) => e == Error::Unauthorized && !seq_has_string(
                contract_config.curators@,
                env.sender@,
            ),
        },
{
    if contains_string(&contract_config.curators, &env.sender) {
        Ok(())
    } else {
        Err(Error::Unauthorized)
    }
}

/// The expected error of the balance-change primitive, `None` where it
/// succeeds.  The checks run in this order: NFT restrictions, the debited
/// holder's funds, the credited holder's headroom, the total supply.
pub open spec fn change_balance_err(
    pre: ContractState,
    t: Seq<char>,
    rf: Option<Seq<char>>,
    at: Option<Seq<char>>,
    amount: u128,
) -> Option<Error> {
    let entry = pre.spec_token(t).unwrap();
    let is_nft = entry.info.token_config.spec_is_nft();
    if is_nft && rf is None {
        Some(Error::Validation)
    } else if is_nft && amount != 1 {
        Some(Error::Validation)
    } else if rf is Some && find_amount(pre.balances@, t, rf.unwrap()) is None {
        Some(Error::NotFound)
    } else if rf is Some && bal_of(pre.balances@, t, rf.unwrap()) < amount {
        Some(Error::InsufficientFunds)
    } else if at is Some && eff_to_balance(pre, t, rf, at.unwrap(), amount) + amount > u128::MAX {
        Some(Error::Overflow)
    } else if rf is None && at is Some && entry.total_supply + amount > u128::MAX {
        Some(Error::Overflow)
    } else if rf is Some && at is None && entry.total_supply < amount {
        Some(Error::Overflow)
    } else {
        None
    }
}

/// The credited holder's balance as the credit sees it: after the debit,
/// where both sides name the same holder.
pub open spec fn eff_to_balance(
    pre: ContractState,
    t: Seq<char>,
    rf: Option<Seq<char>>,
    to: Seq<char>,
    amount: u128,
) -> int {
    if rf == Some(to) {
        bal_of(pre.balances@, t, to) - amount
    } else {
        bal_of(pre.balances@, t, to) as int
    }
}

/// What a successful balance change does: the debited and credited holders'
/// balances move by `amount`, every other balance is untouched, the token
/// line's supply moves where units were created or destroyed, an NFT credit
/// appends its new owner, and nothing else changes.
pub open spec fn change_balance_ok(
    pre: ContractState,
    post: ContractState,
    t: Seq<char>,
    rf: Option<Seq<char>>,
    at: Option<Seq<char>>,
    amount: u128,
) -> bool {
    let entry = pre.spec_token(t).unwrap();
    let is_nft = entry.info.token_config.spec_is_nft();
    let new_supply = if rf is None && at is Some {
        entry.total_supply + amount
    } else if rf is Some && at is None {
        entry.total_supply - amount
    } else {
        entry.total_supply as int
    };
    &&& (match rf {
        Some(f) => find_amount(post.balances@, t, f) == Some(
            (bal_of(pre.balances@, t, f) - amount + if at == Some(f) {
                amount as int
            } else {
                0int
            }) as u128,
        ),
        None => true,
    })
    &&& (match at {
        Some(a) => find_amount(post.balances@, t, a) == Some(
            (eff_to_balance(pre, t, rf, a, amount) + amount) as u128,
        ),
        None => true,
    })
    &&& forall|tk: Seq<char>, ad: Seq<char>|
        !(tk == t && (rf == Some(ad) || at == Some(ad))) ==> find_amount(post.balances@, tk, ad)
            == find_amount(pre.balances@, tk, ad)
    &&& (match post.spec_token(t) {
        Some(e2) => e2.info == entry.info && e2.total_supply == new_supply,
        None => false,
    })
    &&& forall|id: Seq<char>| id != t ==> post.spec_token(id) == pre.spec_token(id)
    &&& post.tokens@.len() == pre.tokens@.len()
    &&& (if is_nft && at is Some {
        &&& current_owner(post.owner_history@, t) == at
        &&& forall|t2: Seq<char>|
            t2 != t ==> current_owner(post.owner_history@, t2) == current_owner(
                pre.owner_history@,
                t2,
            )
        &&& post.owner_history@.len() == pre.owner_history@.len() + 1
    } else {
        post.owner_history == pre.owner_history
    })
    &&& post.config == pre.config
    &&& post.permissions == pre.permissions
    &&& post.permission_keys == pre.permission_keys
    &&& post.txs == pre.txs
    &&& post.addr_tx_ids == pre.addr_tx_ids
    &&& post.receiver_hashes == pre.receiver_hashes
    &&& post.block == pre.block
}

/// The sole primitive through which balances and supplies change.  `None`
/// for `remove_from` mints; `None` for `add_to` burns; both set transfers.
/// The caller has already checked that the token line exists.
pub fn exec_change_balance(
    state: &mut ContractState,
    token_id: &String,
    remove_from: Option<&String>,
    add_to: Option<&String>,
    amount: u128,
) -> (r: Result<(), Error>)
    requires
        old(state).wf(),
        has_token(old(state).tokens@, token_id@),
    ensures
        final(state).wf(),
        match r {
            Ok(_) => {
                &&& change_balance_err(
                    *old(state),
                    token_id@,
                    match remove_from {
                        Some(f) => Some(f@),
                        None => None,
                    },
                    match add_to {
                        Some(a) => Some(a@),
                        None => None,
                    },
                    amount,
                ) is None
                &&& change_balance_ok(
                    *old(state),
                    *final(state),
                    token_id@,
                    match remove_from {
                        Some(f) => Some(f@),
                        None => None,
                    },
                    match add_to {
                        Some(a) => Some(a@),
                        None => None,
                    },
                    amount,
                )
            },
            Err(e) => {
                &&& change_balance_err(
                    *old(state),
                    token_id@,
                    match remove_from {
                        Some(f) => Some(f@),
                        None => None,
                    },
                    match add_to {
                        Some(a) => Some(a@),
                        None => None,
                    },
                    amount,
                ) == Some(e)
                &&& *final(state) == *old(state)
            },
        },
{
    let ghost rf: Option<Seq<char>> = match remove_from {
        Some(f) => Some(f@),
        None => None,
    };
    let ghost at: Option<Seq<char>> = match add_to {
        Some(a) => Some(a@),
        None => None,
    };
    let tkn_idx = match token_index(&state.tokens, token_id) {
        Some(i) => i,
        None => {
            // the caller has checked that the token line exists
            proof {
                assert(false);
            }
            return Err(Error::NotFound);
        },
    };
    let is_nft = state.tokens[tkn_idx].info.token_config.is_nft();

    // NFT restrictions: minted only at curation, and always exactly one unit.
    if is_nft && remove_from.is_none() {
        return Err(Error::Validation);
    }
    if is_nft && amount != 1 {
        return Err(Error::Validation);
    }

    // The debited holder must exist and own enough.
    let from_bal: u128 = match remove_from {
        Some(f) => {
            match balance_index(&state.balances, token_id, f) {
                Some(bi) => {
                    let b = state.balances[bi].amount;
                    if b < amount {
                        return Err(Error::InsufficientFunds);
                    }
                    b
                },
                None => {
                    return Err(Error::NotFound);
                },
            }
        },
        None => 0u128,
    };

    // The credited holder's balance, as it will stand after the debit, must
    // have room for the credit.
    match add_to {
        Some(a) => {
            let mut eff: u128 = match balance_index(&state.balances, token_id, a) {
                Some(bi) => state.balances[bi].amount,
                None => 0u128,
            };
            match remove_from {
                Some(f) => {
                    if *f == *a {
                        eff = eff - amount;
                    }
                },
                None => {},
            }
            assert(eff as int == eff_to_balance(*old(state), token_id@, rf, a@, amount));
            if eff.checked_add(amount).is_none() {
                return Err(Error::Overflow);
            }
        },
        None => {},
    }

    // The total supply moves where units are created or destroyed.
    let old_supply: u128 = state.tokens[tkn_idx].total_supply;
    let new_supply: u128 = match (remove_from.is_some(), add_to.is_some()) {
        (false, true) => {
            match old_supply.checked_add(amount) {
                Some(v) => v,
                None => {
                    return Err(Error::Overflow);
                },
            }
        },
        (true, false) => {
            match old_supply.checked_sub(amount) {
                Some(v) => v,
                None => {
                    return Err(Error::Overflow);
                },
            }
        },
        _ => old_supply,
    };

    // All checks passed: write the debit, the credit, the ownership step and
    // the supply.
    match remove_from {
        Some(f) => {
            match sub_balance(&mut state.balances, token_id, f, amount) {
                Ok(_) => {},
                Err(_) => {
                    // the debited holder's funds were checked above
                    proof {
                        assert(false);
                    }
                    return Err(Error::InsufficientFunds);
                },
            }
        },
        None => {},
    }
    let ghost mid = *state;
    match add_to {
        Some(a) => {
            match add_balance(&mut state.balances, token_id, a, amount) {
                Ok(_) => {},
                Err(_) => {
                    // the credited holder's headroom was checked above
                    proof {
                        assert(bal_of(mid.balances@, token_id@, a@) as int == eff_to_balance(
                            *old(state),
                            token_id@,
                            rf,
                            a@,
                            amount,
                        ));
                        assert(false);
                    }
                    return Err(Error::Overflow);
                },
            }
            if is_nft {
                state.append_new_owner(token_id, a);
            }
        },
        None => {},
    }
    let ghost pre_supply = *state;
    proof {
        lemma_find_token_update(
            state.tokens@,
            tkn_idx as int,
            TokenEntry { total_supply: new_supply, ..state.tokens@[tkn_idx as int] },
        );
    }
    let te = &mut state.tokens[tkn_idx];
    te.total_supply = new_supply;
    proof {
        restore_wf(*old(state), *final(state), token_id@, tkn_idx as int, rf, at, amount);
    }
    Ok(())
}

/// Re-establishes the state invariant after one balance change: the touched
/// token line's sum moved exactly as its supply did, and every other token
/// line is untouched.
proof fn restore_wf(
    pre: ContractState,
    post: ContractState,
    t: Seq<char>,
    tkn_idx: int,
    rf: Option<Seq<char>>,
    at: Option<Seq<char>>,
    amount: u128,
)
    requires
        pre.wf(),
        0 <= tkn_idx < pre.tokens@.len(),
        pre.tokens@[tkn_idx].info.token_id@ == t,
        post.tokens@ == pre.tokens@.update(
            tkn_idx,
            TokenEntry {
                total_supply: post.tokens@[tkn_idx].total_supply,
                ..pre.tokens@[tkn_idx]
            },
        ),
        post.tokens@[tkn_idx].total_supply as int == sum_for(post.balances@, t),
        forall|tk: Seq<char>| tk != t ==> sum_for(post.balances@, tk) == sum_for(pre.balances@, tk),
        balances_unique(post.balances@),
        forall|j: int|
            0 <= j < post.balances@.len() ==> ((#[trigger] post.balances@[j]).token_id@ == t || (j
                < pre.balances@.len() && post.balances@[j].token_id@
                == pre.balances@[j].token_id@)),
        pre.tokens@[tkn_idx].info.token_config.spec_is_nft() ==> post.tokens@[tkn_idx].total_supply
            <= 1,
        post.config == pre.config,
        post.txs == pre.txs,
        post.addr_tx_ids == pre.addr_tx_ids,
        post.permissions == pre.permissions,
    ensures
        post.wf(),
{
    assert(tokens_unique(post.tokens@)) by {
        assert forall|a: int, b: int|
            0 <= a < b < post.tokens@.len() implies (#[trigger] post.tokens@[a]).info.token_id@
            != (#[trigger] post.tokens@[b]).info.token_id@ by {
            assert(post.tokens@[a].info.token_id@ == pre.tokens@[a].info.token_id@);
            assert(post.tokens@[b].info.token_id@ == pre.tokens@[b].info.token_id@);
        }
    }
    assert forall|i: int| 0 <= i < post.balances@.len() implies has_token(
        post.tokens@,
        (#[trigger] post.balances@[i]).token_id@,
    ) by {
        lemma_find_token(pre.tokens@, post.balances@[i].token_id@);
        lemma_find_token(post.tokens@, post.balances@[i].token_id@);
        if post.balances@[i].token_id@ == t {
            assert(post.tokens@[tkn_idx].info.token_id@ == t);
        } else {
            assert(post.balances@[i].token_id@ == pre.balances@[i].token_id@);
            assert(has_token(pre.tokens@, pre.balances@[i].token_id@));
            let k = choose|k: int|
                0 <= k < pre.tokens@.len() && (#[trigger] pre.tokens@[k]).info.token_id@
                    == pre.balances@[i].token_id@ && find_token(
                    pre.tokens@,
                    pre.balances@[i].token_id@,
                ) == Some(pre.tokens@[k]);
            assert(post.tokens@[k].info.token_id@ == pre.balances@[i].token_id@);
        }
    }
    assert forall|i: int| 0 <= i < post.tokens@.len() implies sum_for(
        post.balances@,
        (#[trigger] post.tokens@[i]).info.token_id@,
    ) == post.tokens@[i].total_supply as int by {
        if i != tkn_idx {
            assert(post.tokens@[i] == pre.tokens@[i]);
            assert(pre.tokens@[i].info.token_id@ != t);
        }
    }
    assert forall|i: int|
        0 <= i < post.tokens@.len() && (#[trigger] post.tokens@[i]).info.token_config.spec_is_nft()
            implies post.tokens@[i].total_supply <= 1 by {
        if i != tkn_idx {
            assert(post.tokens@[i] == pre.tokens@[i]);
        }
    }
    assert forall|i: int| 0 <= i < post.tokens@.len() implies post.config.token_id_list@[i]@ == (
    #[trigger] post.tokens@[i]).info.token_id@ by {
        if i != tkn_idx {
            assert(post.tokens@[i] == pre.tokens@[i]);
        } else {
            assert(post.tokens@[i].info.token_id@ == pre.tokens@[i].info.token_id@);
        }
    }
}

/// Re-establishes the state invariant after one registry entry's
/// information changed without touching its token_id, its supply or its
/// fungible / NFT nature.
proof fn wf_after_token_update(pre: ContractState, post: ContractState, tkn_idx: int)
    requires
        pre.wf(),
        0 <= tkn_idx < pre.tokens@.len(),
        post.tokens@ == pre.tokens@.update(tkn_idx, post.tokens@[tkn_idx]),
        post.tokens@[tkn_idx].info.token_id@ == pre.tokens@[tkn_idx].info.token_id@,
        post.tokens@[tkn_idx].total_supply == pre.tokens@[tkn_idx].total_supply,
        post.tokens@[tkn_idx].info.token_config.spec_is_nft()
            == pre.tokens@[tkn_idx].info.token_config.spec_is_nft(),
        post.config == pre.config,
        post.balances == pre.balances,
        post.permissions == pre.permissions,
        post.txs == pre.txs,
        post.addr_tx_ids == pre.addr_tx_ids,
    ensures
        post.wf(),
{
    assert(tokens_unique(post.tokens@)) by {
        assert forall|a: int, b: int|
            0 <= a < b < post.tokens@.len() implies (#[trigger] post.tokens@[a]).info.token_id@
            != (#[trigger] post.tokens@[b]).info.token_id@ by {
            assert(post.tokens@[a].info.token_id@ == pre.tokens@[a].info.token_id@);
            assert(post.tokens@[b].info.token_id@ == pre.tokens@[b].info.token_id@);
        }
    }
    assert forall|i: int| 0 <= i < post.balances@.len() implies has_token(
        post.tokens@,
        (#[trigger] post.balances@[i]).token_id@,
    ) by {
        lemma_find_token(pre.tokens@, pre.balances@[i].token_id@);
        lemma_find_token(post.tokens@, pre.balances@[i].token_id@);
        assert(has_token(pre.tokens@, pre.balances@[i].token_id@));
        let k = choose|k: int|
            0 <= k < pre.tokens@.len() && (#[trigger] pre.tokens@[k]).info.token_id@
                == pre.balances@[i].token_id@ && find_token(
                pre.tokens@,
                pre.balances@[i].token_id@,
            ) == Some(pre.tokens@[k]);
        assert(post.tokens@[k].info.token_id@ == pre.balances@[i].token_id@);
    }
    assert forall|i: int| 0 <= i < post.tokens@.len() implies sum_for(
        post.balances@,
        (#[trigger] post.tokens@[i]).info.token_id@,
    ) == post.tokens@[i].total_supply as int by {
        assert(post.tokens@[i].info.token_id@ == pre.tokens@[i].info.token_id@);
        if i != tkn_idx {
            assert(post.tokens@[i] == pre.tokens@[i]);
        }
    }
    assert forall|i: int|
        0 <= i < post.tokens@.len() && (#[trigger] post.tokens@[i]).info.token_config.spec_is_nft()
            implies post.tokens@[i].total_supply <= 1 by {
        if i != tkn_idx {
            assert(post.tokens@[i] == pre.tokens@[i]);
        }
    }
    assert forall|i: int| 0 <= i < post.tokens@.len() implies post.config.token_id_list@[i]@ == (
    #[trigger] post.tokens@[i]).info.token_id@ by {
        if i != tkn_idx {
            assert(post.tokens@[i] == pre.tokens@[i]);
        }
    }
}

/// The permission that a grant leaves in place: each provided field
/// overwrites the stored one, each omitted field keeps it.
pub open spec fn merged_permission(
    oldp: Permission,
    view_balance: Option<bool>,
    view_balance_expiry: Option<Expiration>,
    view_private_metadata: Option<bool>,
    view_private_metadata_expiry: Option<Expiration>,
    transfer: Option<u128>,
    transfer_expiry: Option<Expiration>,
) -> Permission {
    Permission {
        view_balance_perm: match view_balance {
            Some(x) => x,
            None => oldp.view_balance_perm,
        },
        view_balance_exp: match view_balance_expiry {
            Some(x) => x,
            None => oldp.view_balance_exp,
        },
        view_pr_metadata_perm: match view_private_metadata {
            Some(x) => x,
            None => oldp.view_pr_metadata_perm,
        },
        view_pr_metadata_exp: match view_private_metadata_expiry {
            Some(x) => x,
            None => oldp.view_pr_metadata_exp,
        },
        trfer_allowance_perm: match transfer {
            Some(x) => x,
            None => oldp.trfer_allowance_perm,
        },
        trfer_allowance_exp: match transfer_expiry {
            Some(x) => x,
            None => oldp.trfer_allowance_exp,
        },
    }
}

/// Grants or updates what the caller allows `allowed_address` on
/// `token_id`: each provided field overwrites the stored value, omitted
/// fields keep their old values, and a first-ever grant starts from the
/// all-denied default.  It never fails, and does not reveal whether the
/// token line exists.
pub fn try_give_permission(
    state: &mut ContractState,
    env: &Env,
    allowed_address: String,
    token_id: String,
    view_balance: Option<bool>,
    view_balance_expiry: Option<Expiration>,
    view_private_metadata: Option<bool>,
    view_private_metadata_expiry: Option<Expiration>,
    transfer: Option<u128>,
    transfer_expiry: Option<Expiration>,
) -> (r: Result<HandleAnswer, Error>)
    requires
        old(state).wf(),
    ensures
        final(state).wf(),
        r == Ok::<HandleAnswer, Error>(
            HandleAnswer::GivePermission { status: ResponseStatus::Success },
        ),
        final(state).spec_permission(env.sender@, token_id@, allowed_address@) == Some(
            merged_permission(
                match old(state).spec_permission(env.sender@, token_id@, allowed_address@) {
                    Some(p) => p,
                    None => default_permission(),
                },
                view_balance,
                view_balance_expiry,
                view_private_metadata,
                view_private_metadata_expiry,
                transfer,
                transfer_expiry,
            ),
        ),
        forall|o: Seq<char>, t: Seq<char>, a: Seq<char>|
            !(o == env.sender@ && t == token_id@ && a == allowed_address@) ==> final(
                state
            ).spec_permission(o, t, a) == old(state).spec_permission(o, t, a),
        final(state).config == old(state).config,
        final(state).tokens == old(state).tokens,
        final(state).balances == old(state).balances,
        final(state).owner_history == old(state).owner_history,
        final(state).txs == old(state).txs,
        final(state).addr_tx_ids == old(state).addr_tx_ids,
        final(state).receiver_hashes == old(state).receiver_hashes,
        final(state).block == env.block,
        old(state).spec_permission(env.sender@, token_id@, allowed_address@) is Some ==> final(
            state
        ).permission_keys == old(state).permission_keys,
{
    state.block = env.block;
    let permission_op = may_load_any_permission(state, &env.sender, &token_id, &allowed_address);
    let base: Permission = match permission_op {
        Some(p) => p,
        None => Permission::default(),
    };
    let updated = Permission {
        view_balance_perm: match view_balance {
            Some(x) => x,
            None => base.view_balance_perm,
        },
        view_balance_exp: match view_balance_expiry {
            Some(x) => x,
            None => base.view_balance_exp,
        },
        view_pr_metadata_perm: match view_private_metadata {
            Some(x) => x,
            None => base.view_pr_metadata_perm,
        },
        view_pr_metadata_exp: match view_private_metadata_expiry {
            Some(x) => x,
            None => base.view_pr_metadata_exp,
        },
        trfer_allowance_perm: match transfer {
            Some(x) => x,
            None => base.trfer_allowance_perm,
        },
        trfer_allowance_exp: match transfer_expiry {
            Some(x) => x,
            None => base.trfer_allowance_exp,
        },
    };
    match permission_op {
        Some(_) => {
            match update_permission(state, &env.sender, &token_id, &allowed_address, &updated) {
                Ok(_) => {},
                Err(_) => {
                    // the entry was just loaded, so the update cannot miss
                    proof {
                        assert(false);
                    }
                    return Err(Error::NotFound);
                },
            }
        },
        None => {
            new_permission(state, &env.sender, &token_id, &allowed_address, &updated);
        },
    }
    Ok(HandleAnswer::GivePermission { status: ResponseStatus::Success })
}

/// Resets the permission `owner` granted `allowed_address` on `token_id`
/// back to the all-denied default.  Only the owner or the spender itself
/// may revoke; the entry must exist, and it is reset in place, never
/// removed.
pub fn try_revoke_permission(
    state: &mut ContractState,
    env: &Env,
    token_id: String,
    owner: String,
    allowed_address: String,
) -> (r: Result<HandleAnswer, Error>)
    requires
        old(state).wf(),
    ensures
        final(state).wf(),
        match r {
            Ok(a) => {
                &&& a == HandleAnswer::RevokePermission { status: ResponseStatus::Success }
                &&& (env.sender@ == owner@ || env.sender@ == allowed_address@)
                &&& old(state).spec_permission(owner@, token_id@, allowed_address@) is Some
                &&& final(state).spec_permission(owner@, token_id@, allowed_address@) == Some(
                    default_permission(),
                )
                &&& forall|o: Seq<char>, t: Seq<char>, a: Seq<char>|
                    !(o == owner@ && t == token_id@ && a == allowed_address@) ==> final(
                        state
                    ).spec_permission(o, t, a) == old(state).spec_permission(o, t, a)
                &&& final(state).config == old(state).config
                &&& final(state).tokens == old(state).tokens
                &&& final(state).balances == old(state).balances
                &&& final(state).owner_history == old(state).owner_history
                &&& final(state).txs == old(state).txs
                &&& final(state).addr_tx_ids == old(state).addr_tx_ids
                &&& final(state).receiver_hashes == old(state).receiver_hashes
                &&& final(state).permission_keys == old(state).permission_keys
                &&& final(state).block == env.block
            },
            Err(e) => {
                &&& *final(state) == with_block(*old(state), env.block)
                &&& if !(env.sender@ == owner@ || env.sender@ == allowed_address@) {
                    e == Error::Unauthorized
                } else {
                    e == Error::NotFound && old(state).spec_permission(
                        owner@,
                        token_id@,
                        allowed_address@,
                    ) is None
                }
            },
        },
{
    state.block = env.block;
    if !(env.sender == owner) && !(env.sender == allowed_address) {
        return Err(Error::Unauthorized);
    }
    let reset = Permission::default();
    match update_permission(state, &owner, &token_id, &allowed_address, &reset) {
        Ok(_) => Ok(HandleAnswer::RevokePermission { status: ResponseStatus::Success }),
        Err(e) => Err(e),
    }
}

/// Hands the admin role to `new_admin`; only the current admin may.
pub fn try_change_admin(state: &mut ContractState, env: &Env, new_admin: String) -> (r: Result<
    HandleAnswer,
    Error,
>)
    requires
        old(state).wf(),
    ensures
        final(state).wf(),
        match r {
            Ok(a) => {
                &&& a == HandleAnswer::ChangeAdmin { status: ResponseStatus::Success }
                &&& admin_check(old(state).config, env.sender@) is None
                &&& *final(state) == ContractState {
                    config: ContractConfig { admin: Some(new_admin), ..old(state).config },
                    block: env.block,
                    ..*old(state)
                }
            },
            Err(e) => {
                &&& admin_check(old(state).config, env.sender@) == Some(e)
                &&& *final(state) == with_block(*old(state), env.block)
            },
        },
{
    state.block = env.block;
    match verify_admin(&state.config, env) {
        Ok(_) => {},
        Err(e) => {
            return Err(e);
        },
    }
    state.config.admin = Some(new_admin);
    Ok(HandleAnswer::ChangeAdmin { status: ResponseStatus::Success })
}

/// Permanently clears the admin slot.  The caller must be the admin and
/// must repeat the current admin and contract address, a safeguard against
/// calling this by accident.
pub fn try_remove_admin(
    state: &mut ContractState,
    env: &Env,
    current_admin: String,
    contract_address: String,
) -> (r: Result<HandleAnswer, Error>)
    requires
        old(state).wf(),
    ensures
        final(state).wf(),
        match r {
            Ok(a) => {
                &&& a == HandleAnswer::RemoveAdmin { status: ResponseStatus::Success }
                &&& admin_check(old(state).config, env.sender@) is None
                &&& old(state).config.admin matches Some(ad) && ad@ == current_admin@
                &&& old(state).config.contract_address@ == contract_address@
                &&& *final(state) == ContractState {
                    config: ContractConfig { admin: None, ..old(state).config },
                    block: env.block,
                    ..*old(state)
                }
            },
            Err(e) => {
                &&& *final(state) == with_block(*old(state), env.block)
                &&& match admin_check(old(state).config, env.sender@) {
                    Some(e2) => e == e2,
                    None => e == Error::Validation && !(old(state).config.admin matches Some(ad)
                        && ad@ == current_admin@ && old(state).config.contract_address@
                        == contract_address@),
                }
            },
        },
{
    state.block = env.block;
    match verify_admin(&state.config, env) {
        Ok(_) => {},
        Err(e) => {
            return Err(e);
        },
    }
    let admin_matches = match &state.config.admin {
        Some(a) => *a == current_admin,
        None => false,
    };
    if !admin_matches || !(contract_address == state.config.contract_address) {
        return Err(Error::Validation);
    }
    state.config.admin = None;
    Ok(HandleAnswer::RemoveAdmin { status: ResponseStatus::Success })
}

/// Appends the given principals to the curator set; admin only.  Duplicate
/// additions accumulate verbatim.
pub fn try_add_curators(state: &mut ContractState, env: &Env, add_curators: Vec<String>) -> (r:
    Result<HandleAnswer, Error>)
    requires
        old(state).wf(),
    ensures
        final(state).wf(),
        match r {
            Ok(a) => {
                &&& a == HandleAnswer::AddCurators { status: ResponseStatus::Success }
                &&& admin_check(old(state).config, env.sender@) is None
                &&& final(state).config.curators@ == old(state).config.curators@ + add_curators@
                &&& final(state).config.admin == old(state).config.admin
                &&& final(state).config.token_id_list == old(state).config.token_id_list
                &&& final(state).config.tx_cnt == old(state).config.tx_cnt
                &&& final(state).config.contract_address == old(state).config.contract_address
                &&& final(state).tokens == old(state).tokens
                &&& final(state).balances == old(state).balances
                &&& final(state).owner_history == old(state).owner_history
                &&& final(state).permissions == old(state).permissions
                &&& final(state).permission_keys == old(state).permission_keys
                &&& final(state).txs == old(state).txs
                &&& final(state).addr_tx_ids == old(state).addr_tx_ids
                &&& final(state).receiver_hashes == old(state).receiver_hashes
                &&& final(state).block == env.block
            },
            Err(e) => {
                &&& admin_check(old(state).config, env.sender@) == Some(e)
                &&& *final(state) == with_block(*old(state), env.block)
            },
        },
{
    state.block = env.block;
    match verify_admin(&state.config, env) {
        Ok(_) => {},
        Err(e) => {
            return Err(e);
        },
    }
    let ghost snap = *state;
    let ghost orig = state.config.curators@;
    let mut i: usize = 0;
    while i < add_curators.len()
        invariant
            i <= add_curators@.len(),
            state.config.curators@ == orig + add_curators@.subrange(0, i as int),
            eq_except_curators(*state, snap),
            snap.wf(),
        decreases add_curators@.len() - i,
    {
        state.config.curators.push(add_curators[i].clone());
        proof {
            assert(orig + add_curators@.subrange(0, i as int + 1) =~= (orig
                + add_curators@.subrange(0, i as int)).push(add_curators@[i as int]));
        }
        i = i + 1;
    }
    proof {
        assert(add_curators@.subrange(0, add_curators@.len() as int) =~= add_curators@);
        assert(final(state).wf());
    }
    Ok(HandleAnswer::AddCurators { status: ResponseStatus::Success })
}

/// The curator set with every occurrence of each named principal removed,
/// one removal pass per name, in order.
pub open spec fn seq_without_many(s: Seq<String>, xs: Seq<String>) -> Seq<String>
    decreases xs.len(),
{
    if xs.len() == 0 {
        s
    } else {
        seq_without_many(seq_without_string(s, xs.first()@), xs.drop_first())
    }
}

/// Removes every occurrence of each given principal from the curator set;
/// admin only.  One listing removes all matching entries.
pub fn try_remove_curators(
    state: &mut ContractState,
    env: &Env,
    remove_curators: Vec<String>,
) -> (r: Result<HandleAnswer, Error>)
    requires
        old(state).wf(),
    ensures
        final(state).wf(),
        match r {
            Ok(a) => {
                &&& a == HandleAnswer::RemoveCurators { status: ResponseStatus::Success }
                &&& admin_check(old(state).config, env.sender@) is None
                &&& final(state).config.curators@ == seq_without_many(
                    old(state).config.curators@,
                    remove_curators@,
                )
                &&& final(state).config.admin == old(state).config.admin
                &&& final(state).config.token_id_list == old(state).config.token_id_list
                &&& final(state).config.tx_cnt == old(state).config.tx_cnt
                &&& final(state).config.contract_address == old(state).config.contract_address
                &&& final(state).tokens == old(state).tokens
                &&& final(state).balances == old(state).balances
                &&& final(state).owner_history == old(state).owner_history
                &&& final(state).permissions == old(state).permissions
                &&& final(state).permission_keys == old(state).permission_keys
                &&& final(state).txs == old(state).txs
                &&& final(state).addr_tx_ids == old(state).addr_tx_ids
                &&& final(state).receiver_hashes == old(state).receiver_hashes
                &&& final(state).block == env.block
            },
            Err(e) => {
                &&& admin_check(old(state).config, env.sender@) == Some(e)
                &&& *final(state) == with_block(*old(state), env.block)
            },
        },
{
    state.block = env.block;
    match verify_admin(&state.config, env) {
        Ok(_) => {},
        Err(e) => {
            return Err(e);
        },
    }
    let ghost snap = *state;
    let ghost orig = state.config.curators@;
    let mut i: usize = 0;
    proof {
        assert(remove_curators@.skip(0) =~= remove_curators@);
    }
    while i < remove_curators.len()
        invariant
            i <= remove_curators@.len(),
            seq_without_many(state.config.curators@, remove_curators@.skip(i as int))
                == seq_without_many(orig, remove_curators@),
            eq_except_curators(*state, snap),
            snap.wf(),
        decreases remove_curators@.len() - i,
    {
        proof {
            assert(remove_curators@.skip(i as int).first() == remove_curators@[i as int]);
            assert(remove_curators@.skip(i as int).drop_first() =~= remove_curators@.skip(
                i as int + 1,
            ));
        }
        remove_string(&mut state.config.curators, &remove_curators[i]);
        i = i + 1;
    }
    proof {
        assert(remove_curators@.skip(remove_curators@.len() as int) =~= Seq::<String>::empty());
        assert(final(state).wf());
    }
    Ok(HandleAnswer::RemoveCurators { status: ResponseStatus::Success })
}

/// The token line's configuration switches are untouched and only its
/// minter list became `minters`; everything else about the entry is the
/// old value.
pub open spec fn token_with_minters(
    e_old: TokenEntry,
    e_new: TokenEntry,
    minters: Seq<String>,
) -> bool {
    &&& e_new.info.token_id == e_old.info.token_id
    &&& e_new.info.name == e_old.info.name
    &&& e_new.info.symbol == e_old.info.symbol
    &&& e_new.info.public_metadata == e_old.info.public_metadata
    &&& e_new.info.private_metadata == e_old.info.private_metadata
    &&& e_new.info.curator == e_old.info.curator
    &&& e_new.total_supply == e_old.total_supply
    &&& e_new.info.token_config.spec_is_nft() == e_old.info.token_config.spec_is_nft()
    &&& e_new.info.token_config.spec_minters() == minters
    &&& e_new.info.token_config.spec_decimals() == e_old.info.token_config.spec_decimals()
    &&& e_new.info.token_config.spec_public_total_supply()
        == e_old.info.token_config.spec_public_total_supply()
    &&& e_new.info.token_config.spec_owner_is_public()
        == e_old.info.token_config.spec_owner_is_public()
    &&& e_new.info.token_config.spec_enable_mint() == e_old.info.token_config.spec_enable_mint()
    &&& e_new.info.token_config.spec_enable_burn() == e_old.info.token_config.spec_enable_burn()
    &&& e_new.info.token_config.spec_minter_may_update_metadata()
        == e_old.info.token_config.spec_minter_may_update_metadata()
    &&& e_new.info.token_config.spec_owner_may_update_metadata()
        == e_old.info.token_config.spec_owner_may_update_metadata()
}

/// Everything but the token registry and the clock is the old value.
pub open spec fn only_tokens_changed(pre: ContractState, post: ContractState) -> bool {
    &&& post.config == pre.config
    &&& post.balances == pre.balances
    &&& post.owner_history == pre.owner_history
    &&& post.permissions == pre.permissions
    &&& post.permission_keys == pre.permission_keys
    &&& post.txs == pre.txs
    &&& post.addr_tx_ids == pre.addr_tx_ids
    &&& post.receiver_hashes == pre.receiver_hashes
}

/// Appends the given principals to one token line's minter list.  The
/// admin alone may amend minter lists; duplicate additions are stored
/// verbatim.
pub fn try_add_minters(
    state: &mut ContractState,
    env: &Env,
    token_id: String,
    add_minters: Vec<String>,
) -> (r: Result<HandleAnswer, Error>)
    requires
        old(state).wf(),
    ensures
        final(state).wf(),
        match r {
            Ok(a) => {
                &&& a == HandleAnswer::AddMinters { status: ResponseStatus::Success }
                &&& old(state).spec_token(token_id@) is Some
                &&& admin_check(old(state).config, env.sender@) is None
                &&& final(state).spec_token(token_id@) is Some
                &&& token_with_minters(
                    old(state).spec_token(token_id@).unwrap(),
                    final(state).spec_token(token_id@).unwrap(),
                    old(state).spec_token(token_id@).unwrap().info.token_config.spec_minters()
                        + add_minters@,
                )
                &&& forall|id: Seq<char>|
                    id != token_id@ ==> final(state).spec_token(id) == old(state).spec_token(id)
                &&& only_tokens_changed(*old(state), *final(state))
                &&& final(state).block == env.block
            },
            Err(e) => {
                &&& *final(state) == with_block(*old(state), env.block)
                &&& if old(state).spec_token(token_id@) is None {
                    e == Error::NotFound
                } else {
                    admin_check(old(state).config, env.sender@) == Some(e)
                }
            },
        },
{
    state.block = env.block;
    let tkn_idx = match token_index(&state.tokens, &token_id) {
        Some(i) => i,
        None => {
            return Err(Error::NotFound);
        },
    };
    match verify_admin(&state.config, env) {
        Ok(_) => {},
        Err(e) => {
            return Err(e);
        },
    }
    let mut flat = state.tokens[tkn_idx].info.token_config.flatten();
    let ghost flat0 = flat;
    let ghost base = flat.minters@;
    let mut i: usize = 0;
    while i < add_minters.len()
        invariant
            i <= add_minters@.len(),
            flat.minters@ == base + add_minters@.subrange(0, i as int),
            flat == (crate::state_structs::TknConfFlat { minters: flat.minters, ..flat0 }),
        decreases add_minters@.len() - i,
    {
        flat.minters.push(add_minters[i].clone());
        proof {
            assert(base + add_minters@.subrange(0, i as int + 1) =~= (base
                + add_minters@.subrange(0, i as int)).push(add_minters@[i as int]));
        }
        i = i + 1;
    }
    proof {
        assert(add_minters@.subrange(0, add_minters@.len() as int) =~= add_minters@);
    }
    let new_conf = flat.to_enum();
    let ghost snap = *state;
    proof {
        lemma_find_token_update(
            state.tokens@,
            tkn_idx as int,
            TokenEntry {
                info: crate::state_structs::TknInfo {
                    token_config: new_conf,
                    ..state.tokens@[tkn_idx as int].info
                },
                ..state.tokens@[tkn_idx as int]
            },
        );
    }
    let te = &mut state.tokens[tkn_idx];
    te.info.token_config = new_conf;
    proof {
        wf_after_token_update(snap, *final(state), tkn_idx as int);
    }
    Ok(HandleAnswer::AddMinters { status: ResponseStatus::Success })
}

/// Removes every occurrence of each given principal from one token line's
/// minter list; admin only.
pub fn try_remove_minters(
    state: &mut ContractState,
    env: &Env,
    token_id: String,
    remove_minters: Vec<String>,
) -> (r: Result<HandleAnswer, Error>)
    requires
        old(state).wf(),
    ensures
        final(state).wf(),
        match r {
            Ok(a) => {
                &&& a == HandleAnswer::RemoveMinters { status: ResponseStatus::Success }
                &&& old(state).spec_token(token_id@) is Some
                &&& admin_check(old(state).config, env.sender@) is None
                &&& final(state).spec_token(token_id@) is Some
                &&& token_with_minters(
                    old(state).spec_token(token_id@).unwrap(),
                    final(state).spec_token(token_id@).unwrap(),
                    seq_without_many(
                        old(state).spec_token(token_id@).unwrap().info.token_config.spec_minters(),
                        remove_minters@,
                    ),
                )
                &&& forall|id: Seq<char>|
                    id != token_id@ ==> final(state).spec_token(id) == old(state).spec_token(id)
                &&& only_tokens_changed(*old(state), *final(state))
                &&& final(state).block == env.block
            },
            Err(e) => {
                &&& *final(state) == with_block(*old(state), env.block)
                &&& if old(state).spec_token(token_id@) is None {
                    e == Error::NotFound
                } else {
                    admin_check(old(state).config, env.sender@) == Some(e)
                }
            },
        },
{
    state.block = env.block;
    let tkn_idx = match token_index(&state.tokens, &token_id) {
        Some(i) => i,
        None => {
            return Err(Error::NotFound);
        },
    };
    match verify_admin(&state.config, env) {
        Ok(_) => {},
        Err(e) => {
            return Err(e);
        },
    }
    let mut flat = state.tokens[tkn_idx].info.token_config.flatten();
    let ghost flat0 = flat;
    let ghost base = flat.minters@;
    let mut i: usize = 0;
    proof {
        assert(remove_minters@.skip(0) =~= remove_minters@);
    }
    while i < remove_minters.len()
        invariant
            i <= remove_minters@.len(),
            seq_without_many(flat.minters@, remove_minters@.skip(i as int)) == seq_without_many(
                base,
                remove_minters@,
            ),
            flat == (crate::state_structs::TknConfFlat { minters: flat.minters, ..flat0 }),
        decreases remove_minters@.len() - i,
    {
        proof {
            assert(remove_minters@.skip(i as int).first() == remove_minters@[i as int]);
            assert(remove_minters@.skip(i as int).drop_first() =~= remove_minters@.skip(
                i as int + 1,
            ));
        }
        remove_string(&mut flat.minters, &remove_minters[i]);
        i = i + 1;
    }
    proof {
        assert(remove_minters@.skip(remove_minters@.len() as int) =~= Seq::<String>::empty());
    }
    let new_conf = flat.to_enum();
    let ghost snap = *state;
    proof {
        lemma_find_token_update(
            state.tokens@,
            tkn_idx as int,
            TokenEntry {
                info: crate::state_structs::TknInfo {
                    token_config: new_conf,
                    ..state.tokens@[tkn_idx as int].info
                },
                ..state.tokens@[tkn_idx as int]
            },
        );
    }
    let te = &mut state.tokens[tkn_idx];
    te.info.token_config = new_conf;
    proof {
        wf_after_token_update(snap, *final(state), tkn_idx as int);
    }
    Ok(HandleAnswer::RemoveMinters { status: ResponseStatus::Success })
}

/// Whether the caller may change this token line's metadata: the current
/// holder where the configuration lets holders update, or a minter where
/// it lets minters update.
pub open spec fn metadata_update_allowed(pre: ContractState, env: Env, t: Seq<char>) -> bool {
    let e = pre.spec_token(t).unwrap();
    let owner = current_owner(pre.owner_history@, t);
    let is_owner = match owner {
        Some(o) => o == env.sender@,
        None => env.sender@.len() == 0,
    };
    let is_minter = seq_has_string(e.info.token_config.spec_minters(), env.sender@);
    ||| is_owner && e.info.token_config.spec_owner_may_update_metadata()
    ||| is_minter && e.info.token_config.spec_minter_may_update_metadata()
}

/// Replaces a token line's public and/or private metadata; a field left
/// unset keeps the stored blob.  Permitted for the current holder or a
/// minter, as the token line's configuration allows.
pub fn try_change_metadata(
    state: &mut ContractState,
    env: &Env,
    token_id: String,
    public_metadata: Option<crate::metadata::Metadata>,
    private_metadata: Option<crate::metadata::Metadata>,
) -> (r: Result<HandleAnswer, Error>)
    requires
        old(state).wf(),
    ensures
        final(state).wf(),
        match r {
            Ok(a) => {
                &&& a == HandleAnswer::ChangeMetadata { status: ResponseStatus::Success }
                &&& old(state).spec_token(token_id@) is Some
                &&& metadata_update_allowed(*old(state), *env, token_id@)
                &&& ({
                    let e_old = old(state).spec_token(token_id@).unwrap();
                    let e_new = final(state).spec_token(token_id@).unwrap();
                    &&& final(state).spec_token(token_id@) is Some
                    &&& e_new.info.token_id == e_old.info.token_id
                    &&& e_new.info.name == e_old.info.name
                    &&& e_new.info.symbol == e_old.info.symbol
                    &&& e_new.info.token_config == e_old.info.token_config
                    &&& e_new.info.curator == e_old.info.curator
                    &&& e_new.total_supply == e_old.total_supply
                    &&& e_new.info.public_metadata == (match public_metadata {
                        Some(_) => public_metadata,
                        None => e_old.info.public_metadata,
                    })
                    &&& e_new.info.private_metadata == (match private_metadata {
                        Some(_) => private_metadata,
                        None => e_old.info.private_metadata,
                    })
                })
                &&& forall|id: Seq<char>|
                    id != token_id@ ==> final(state).spec_token(id) == old(state).spec_token(id)
                &&& only_tokens_changed(*old(state), *final(state))
                &&& final(state).block == env.block
            },
            Err(e) => {
                &&& *final(state) == with_block(*old(state), env.block)
                &&& if old(state).spec_token(token_id@) is None {
                    e == Error::NotFound
                } else {
                    e == Error::Unauthorized && !metadata_update_allowed(
                        *old(state),
                        *env,
                        token_id@,
                    )
                }
            },
        },
{
    state.block = env.block;
    let tkn_idx = match token_index(&state.tokens, &token_id) {
        Some(i) => i,
        None => {
            return Err(Error::NotFound);
        },
    };
    let owner_op = state.may_get_current_owner(&token_id);
    let is_owner = match &owner_op {
        Some(o) => *o == env.sender,
        None => env.sender.as_str().is_empty(),
    };
    let is_minter = state.tokens[tkn_idx].info.token_config.has_minter(&env.sender);
    let conf = &state.tokens[tkn_idx].info.token_config;
    let owner_may = match conf {
        TknConf::Fungible { .. } => false,
        TknConf::Nft { owner_may_update_metadata, .. } => *owner_may_update_metadata,
    };
    let minter_may = match conf {
        TknConf::Fungible { minter_may_update_metadata, .. } => *minter_may_update_metadata,
        TknConf::Nft { minter_may_update_metadata, .. } => *minter_may_update_metadata,
    };
    let allow_update = is_owner && owner_may || is_minter && minter_may;
    if !allow_update {
        return Err(Error::Unauthorized);
    }
    let ghost snap = *state;
    proof {
        lemma_find_token_update(
            state.tokens@,
            tkn_idx as int,
            TokenEntry {
                info: crate::state_structs::TknInfo {
                    public_metadata: match public_metadata {
                        Some(_) => public_metadata,
                        None => state.tokens@[tkn_idx as int].info.public_metadata,
                    },
                    private_metadata: match private_metadata {
                        Some(_) => private_metadata,
                        None => state.tokens@[tkn_idx as int].info.private_metadata,
                    },
                    ..state.tokens@[tkn_idx as int].info
                },
                ..state.tokens@[tkn_idx as int]
            },
        );
    }
    let te = &mut state.tokens[tkn_idx];
    match public_metadata {
        Some(m) => {
            te.info.public_metadata = Some(m);
        },
        None => {},
    }
    match private_metadata {
        Some(m) => {
            te.info.private_metadata = Some(m);
        },
        None => {},
    }
    proof {
        wf_after_token_update(snap, *final(state), tkn_idx as int);
    }
    Ok(HandleAnswer::ChangeMetadata { status: ResponseStatus::Success })
}

/// Records the code hash under which the calling contract wants transfer
/// notifications.
pub fn try_register_receive(state: &mut ContractState, env: &Env, code_hash: String) -> (r: Result<
    HandleAnswer,
    Error,
>)
    requires
        old(state).wf(),
    ensures
        final(state).wf(),
        r == Ok::<HandleAnswer, Error>(
            HandleAnswer::RegisterReceive { status: ResponseStatus::Success },
        ),
        crate::state::find_receiver(final(state).receiver_hashes@, env.sender@) == Some(
            code_hash@,
        ),
        forall|a: Seq<char>|
            a != env.sender@ ==> crate::state::find_receiver(final(state).receiver_hashes@, a)
                == crate::state::find_receiver(old(state).receiver_hashes@, a),
        final(state).config == old(state).config,
        final(state).tokens == old(state).tokens,
        final(state).balances == old(state).balances,
        final(state).owner_history == old(state).owner_history,
        final(state).permissions == old(state).permissions,
        final(state).permission_keys == old(state).permission_keys,
        final(state).txs == old(state).txs,
        final(state).addr_tx_ids == old(state).addr_tx_ids,
        final(state).block == env.block,
{
    state.block = env.block;
    crate::state::set_receiver_hash(&mut state.receiver_hashes, &env.sender, code_hash);
    Ok(HandleAnswer::RegisterReceive { status: ResponseStatus::Success })
}

/// The expected error of one transfer, `None` where it succeeds.  A
/// delegate's allowance is checked first — lapsed, then too small; a
/// missing token line and a missing permission then share one error, so
/// that probing transfers cannot reveal which token lines exist; what
/// remains are the balance-change errors.
pub open spec fn transfer_err(
    pre: ContractState,
    blk: BlockInfo,
    sender: Seq<char>,
    t: Seq<char>,
    from: Seq<char>,
    recipient: Seq<char>,
    amount: u128,
) -> Option<Error> {
    let perm = find_perm(pre.permissions@, from, t, sender);
    if from != sender && perm is Some && perm.unwrap().trfer_allowance_exp.spec_is_expired(blk) {
        Some(Error::Expired)
    } else if from != sender && perm is Some && perm.unwrap().trfer_allowance_perm < amount {
        Some(Error::InsufficientAllowance { available: perm.unwrap().trfer_allowance_perm })
    } else if (from != sender && perm is None) || find_token(pre.tokens@, t) is None {
        Some(Error::Unauthorized)
    } else {
        change_balance_err(pre, t, Some(from), Some(recipient), amount)
    }
}

/// What one successful transfer does: the units move, a delegate's
/// allowance is consumed by exactly the transferred amount, an NFT records
/// its new owner, and one transfer record is logged for the holder and the
/// recipient.
pub open spec fn transfer_effects(
    pre: ContractState,
    post: ContractState,
    blk: BlockInfo,
    sender: Seq<char>,
    t: Seq<char>,
    from: Seq<char>,
    recipient: Seq<char>,
    amount: u128,
    memov: Option<Seq<char>>,
) -> bool {
    let entry = pre.spec_token(t).unwrap();
    let is_nft = entry.info.token_config.spec_is_nft();
    &&& (if from != sender {
        let p = find_perm(pre.permissions@, from, t, sender).unwrap();
        find_perm(post.permissions@, from, t, sender) == Some(
            Permission {
                trfer_allowance_perm: (p.trfer_allowance_perm - amount) as u128,
                ..p
            },
        )
    } else {
        post.permissions == pre.permissions
    })
    &&& forall|o: Seq<char>, t2: Seq<char>, a: Seq<char>|
        !(o == from && t2 == t && a == sender) ==> find_perm(post.permissions@, o, t2, a)
            == find_perm(pre.permissions@, o, t2, a)
    &&& post.permission_keys == pre.permission_keys
    &&& find_amount(post.balances@, t, from) == Some(
        (bal_of(pre.balances@, t, from) - amount + if recipient == from {
            amount as int
        } else {
            0int
        }) as u128,
    )
    &&& find_amount(post.balances@, t, recipient) == Some(
        (eff_to_balance(pre, t, Some(from), recipient, amount) + amount) as u128,
    )
    &&& forall|tk: Seq<char>, ad: Seq<char>|
        !(tk == t && (ad == from || ad == recipient)) ==> find_amount(post.balances@, tk, ad)
            == find_amount(pre.balances@, tk, ad)
    &&& (match post.spec_token(t) {
        Some(e2) => e2.info == entry.info && e2.total_supply == entry.total_supply,
        None => false,
    })
    &&& forall|id: Seq<char>| id != t ==> post.spec_token(id) == pre.spec_token(id)
    &&& (if is_nft {
        &&& current_owner(post.owner_history@, t) == Some(recipient)
        &&& forall|t2: Seq<char>|
            t2 != t ==> current_owner(post.owner_history@, t2) == current_owner(
                pre.owner_history@,
                t2,
            )
    } else {
        post.owner_history == pre.owner_history
    })
    &&& pre.tx_log_extended(post, set![from, recipient])
    &&& ({
        let tx = post.txs@.last();
        &&& tx.block_height == blk.height
        &&& tx.block_time == blk.time
        &&& tx.token_id@ == t
        &&& crate::util::opt_view(tx.memo) == memov
        &&& tx.action matches crate::txhistory::TxAction::Transfer {
            from: f,
            sender: s,
            recipient: r,
            amount: am,
        } && f@ == from && s is None && r@ == recipient && am == amount
    })
    &&& post.config.admin == pre.config.admin
    &&& post.config.curators == pre.config.curators
    &&& post.config.token_id_list == pre.config.token_id_list
    &&& post.config.contract_address == pre.config.contract_address
    &&& post.receiver_hashes == pre.receiver_hashes
    &&& post.block == pre.block
}

/// Moves `amount` of `token_id` from `from` to `recipient`.  A caller other
/// than `from` spends its transfer allowance, which must stand unexpired
/// and large enough, and is consumed by exactly the amount moved.  Shared
/// by the transfer and send paths.
pub fn impl_transfer(
    state: &mut ContractState,
    env: &Env,
    token_id: &String,
    from: &String,
    recipient: &String,
    amount: u128,
    memo: Option<String>,
) -> (r: Result<(), Error>)
    requires
        old(state).wf(),
    ensures
        final(state).wf(),
        match r {
            Ok(_) => {
                &&& transfer_err(
                    *old(state),
                    env.block,
                    env.sender@,
                    token_id@,
                    from@,
                    recipient@,
                    amount,
                ) is None
                &&& transfer_effects(
                    *old(state),
                    *final(state),
                    env.block,
                    env.sender@,
                    token_id@,
                    from@,
                    recipient@,
                    amount,
                    crate::util::opt_view(memo),
                )
            },
            Err(e) => {
                &&& transfer_err(
                    *old(state),
                    env.block,
                    env.sender@,
                    token_id@,
                    from@,
                    recipient@,
                    amount,
                ) == Some(e)
                &&& *final(state) == *old(state)
            },
        },
{
    let needs_perm = !(*from == env.sender);
    let mut consumed: Option<(usize, Permission)> = None;
    if needs_perm {
        match perm_index(&state.permissions, from, token_id, &env.sender) {
            None => {},
            Some(pi) => {
                let p = state.permissions[pi].permission;
                if p.trfer_allowance_exp.is_expired(&env.block) {
                    return Err(Error::Expired);
                }
                if p.trfer_allowance_perm < amount {
                    return Err(Error::InsufficientAllowance { available: p.trfer_allowance_perm });
                }
                consumed = Some(
                    (
                        pi,
                        Permission {
                            trfer_allowance_perm: p.trfer_allowance_perm - amount,
                            ..p
                        },
                    ),
                );
            },
        }
    }
    let mut throw_err = needs_perm && consumed.is_none();
    match token_index(&state.tokens, token_id) {
        Some(_) => {},
        None => {
            throw_err = true;
        },
    }
    if throw_err {
        return Err(Error::Unauthorized);
    }
    match exec_change_balance(state, token_id, Some(from), Some(recipient), amount) {
        Ok(_) => {},
        Err(e) => {
            return Err(e);
        },
    }
    let ghost mid1 = *state;
    match consumed {
        Some((pi, np)) => {
            proof {
                lemma_find_perm_update(
                    state.permissions@,
                    pi as int,
                    PermEntry { permission: np, ..state.permissions@[pi as int] },
                );
            }
            let pe = &mut state.permissions[pi];
            pe.permission = np;
        },
        None => {},
    }
    let ghost mid2 = *state;
    proof {
        assert(mid2.wf());
    }
    state.store_transfer(&env.block, token_id, from, None, recipient, amount, memo);
    proof {
        assert(final(state).wf());
    }
    Ok(())
}

/// Transfers `amount` of `token_id` from `from` to `recipient`; the entry
/// point of a single transfer.
pub fn try_transfer(
    state: &mut ContractState,
    env: &Env,
    token_id: String,
    from: String,
    recipient: String,
    amount: u128,
    memo: Option<String>,
) -> (r: Result<HandleAnswer, Error>)
    requires
        old(state).wf(),
    ensures
        final(state).wf(),
        match r {
            Ok(a) => {
                &&& a == HandleAnswer::Transfer { status: ResponseStatus::Success }
                &&& transfer_err(
                    *old(state),
                    env.block,
                    env.sender@,
                    token_id@,
                    from@,
                    recipient@,
                    amount,
                ) is None
                &&& transfer_effects(
                    with_block(*old(state), env.block),
                    *final(state),
                    env.block,
                    env.sender@,
                    token_id@,
                    from@,
                    recipient@,
                    amount,
                    crate::util::opt_view(memo),
                )
            },
            Err(e) => {
                &&& transfer_err(
                    *old(state),
                    env.block,
                    env.sender@,
                    token_id@,
                    from@,
                    recipient@,
                    amount,
                ) == Some(e)
                &&& *final(state) == with_block(*old(state), env.block)
            },
        },
{
    state.block = env.block;
    match impl_transfer(state, env, &token_id, &from, &recipient, amount, memo) {
        Ok(_) => Ok(HandleAnswer::Transfer { status: ResponseStatus::Success }),
        Err(e) => Err(e),
    }
}

/// One step of a batch transfer: the action succeeded and had exactly the
/// effects of a single transfer.
pub open spec fn transfer_action_rel(env: Env) -> spec_fn(
    ContractState,
    ContractState,
    crate::msg::TransferAction,
) -> bool {
    |pre: ContractState, post: ContractState, action: crate::msg::TransferAction|
        {
            &&& transfer_err(
                pre,
                env.block,
                env.sender@,
                action.token_id@,
                action.from@,
                action.recipient@,
                action.amount,
            ) is None
            &&& transfer_effects(
                pre,
                post,
                env.block,
                env.sender@,
                action.token_id@,
                action.from@,
                action.recipient@,
                action.amount,
                crate::util::opt_view(action.memo),
            )
        }
}

/// Applies a list of transfers in order; the first failure stops the
/// batch, whose partial writes the host then discards.
pub fn try_batch_transfer(
    state: &mut ContractState,
    env: &Env,
    actions: Vec<crate::msg::TransferAction>,
) -> (r: Result<HandleAnswer, Error>)
    requires
        old(state).wf(),
    ensures
        final(state).wf(),
        match r {
            Ok(a) => {
                &&& a == HandleAnswer::BatchTransfer { status: ResponseStatus::Success }
                &&& chained(
                    transfer_action_rel(*env),
                    with_block(*old(state), env.block),
                    *final(state),
                    actions@,
                )
            },
            Err(e) => exists|i: int|
                0 <= i < actions@.len() && #[trigger] chained(
                    transfer_action_rel(*env),
                    with_block(*old(state), env.block),
                    *final(state),
                    actions@.subrange(0, i),
                ) && transfer_err(
                    *final(state),
                    env.block,
                    env.sender@,
                    actions@[i].token_id@,
                    actions@[i].from@,
                    actions@[i].recipient@,
                    actions@[i].amount,
                ) == Some(e),
        },
        actions@.len() == 0 ==> r is Ok,
{
    state.block = env.block;
    let ghost start = *state;
    let mut i: usize = 0;
    proof {
        assert(actions@.subrange(0, 0) =~= Seq::<crate::msg::TransferAction>::empty());
    }
    while i < actions.len()
        invariant
            i <= actions@.len(),
            state.wf(),
            chained(transfer_action_rel(*env), start, *state, actions@.subrange(0, i as int)),
            start == with_block(*old(state), env.block),
        decreases actions@.len() - i,
    {
        let ghost before = *state;
        let action = &actions[i];
        let memo = crate::util::clone_opt_string(&action.memo);
        match impl_transfer(
            state,
            env,
            &action.token_id,
            &action.from,
            &action.recipient,
            action.amount,
            memo,
        ) {
            Ok(_) => {},
            Err(e) => {
                return Err(e);
            },
        }
        proof {
            assert(transfer_action_rel(*env)(before, *state, actions@[i as int]));
            lemma_chained_snoc(
                transfer_action_rel(*env),
                start,
                before,
                *state,
                actions@.subrange(0, i as int),
                actions@[i as int],
            );
            assert(actions@.subrange(0, i as int).push(actions@[i as int]) =~= actions@.subrange(
                0,
                i as int + 1,
            ));
        }
        i = i + 1;
    }
    proof {
        assert(actions@.subrange(0, actions@.len() as int) =~= actions@);
    }
    Ok(HandleAnswer::BatchTransfer { status: ResponseStatus::Success })
}

/// The code hash a send notifies the recipient under: the override carried
/// by the action, else the recipient's registration, else none.
pub open spec fn send_hash(pre: ContractState, action: crate::msg::SendAction) -> Option<
    Seq<char>,
> {
    match action.recipient_code_hash {
        Some(h) => Some(h@),
        None => crate::state::find_receiver(pre.receiver_hashes@, action.recipient@),
    }
}

/// The notification a send builds: addressed to the recipient under hash
/// `h`, naming the caller, the debited holder and what moved.
pub open spec fn callback_built(
    cb: crate::receiver::ReceiverCallback,
    env: Env,
    action: crate::msg::SendAction,
    h: Seq<char>,
) -> bool {
    &&& cb.contract_addr@ == action.recipient@
    &&& cb.code_hash@ == h
    &&& cb.msg.sender@ == env.sender@
    &&& cb.msg.token_id == action.token_id
    &&& cb.msg.from == action.from
    &&& cb.msg.amount == action.amount
    &&& crate::util::opt_view(cb.msg.memo) == crate::util::opt_view(action.memo)
    &&& cb.msg.msg == action.msg
}

/// One send: the transfer of one action, plus at most one notification
/// appended for the recipient.
pub fn impl_send(
    state: &mut ContractState,
    env: &Env,
    messages: &mut Vec<crate::receiver::ReceiverCallback>,
    action: crate::msg::SendAction,
) -> (r: Result<(), Error>)
    requires
        old(state).wf(),
    ensures
        final(state).wf(),
        match r {
            Ok(_) => {
                &&& transfer_err(
                    *old(state),
                    env.block,
                    env.sender@,
                    action.token_id@,
                    action.from@,
                    action.recipient@,
                    action.amount,
                ) is None
                &&& transfer_effects(
                    *old(state),
                    *final(state),
                    env.block,
                    env.sender@,
                    action.token_id@,
                    action.from@,
                    action.recipient@,
                    action.amount,
                    crate::util::opt_view(action.memo),
                )
                &&& (match send_hash(*old(state), action) {
                    Some(h) => final(messages)@.len() == old(messages)@.len() + 1
                        && final(messages)@.drop_last() == old(messages)@ && callback_built(
                        final(messages)@.last(),
                        *env,
                        action,
                        h,
                    ),
                    None => *final(messages) == *old(messages),
                })
            },
            Err(e) => {
                &&& transfer_err(
                    *old(state),
                    env.block,
                    env.sender@,
                    action.token_id@,
                    action.from@,
                    action.recipient@,
                    action.amount,
                ) == Some(e)
                &&& *final(state) == *old(state)
                &&& *final(messages) == *old(messages)
            },
        },
{
    let memo_clone = crate::util::clone_opt_string(&action.memo);
    match impl_transfer(
        state,
        env,
        &action.token_id,
        &action.from,
        &action.recipient,
        action.amount,
        memo_clone,
    ) {
        Ok(_) => {},
        Err(e) => {
            return Err(e);
        },
    }
    let hash_opt: Option<String> = match action.recipient_code_hash {
        Some(h) => Some(h),
        None => crate::state::get_receiver_hash(&state.receiver_hashes, &action.recipient),
    };
    match hash_opt {
        Some(h) => {
            let cb = crate::receiver::ReceiverCallback {
                contract_addr: action.recipient,
                code_hash: h,
                msg: crate::receiver::Snip1155ReceiveMsg::new(
                    env.sender.clone(),
                    action.token_id,
                    action.from,
                    action.amount,
                    action.memo,
                    action.msg,
                ),
            };
            proof {
                assert(old(messages)@.push(cb).drop_last() =~= old(messages)@);
            }
            messages.push(cb);
        },
        None => {},
    }
    Ok(())
}

/// Sends `amount` of one token line and notifies a registered recipient;
/// the entry point of a single send.
pub fn try_send(state: &mut ContractState, env: &Env, action: crate::msg::SendAction) -> (r:
    Result<(HandleAnswer, Vec<crate::receiver::ReceiverCallback>), Error>)
    requires
        old(state).wf(),
    ensures
        final(state).wf(),
        match r {
            Ok(p) => {
                &&& p.0 == HandleAnswer::Send { status: ResponseStatus::Success }
                &&& transfer_err(
                    *old(state),
                    env.block,
                    env.sender@,
                    action.token_id@,
                    action.from@,
                    action.recipient@,
                    action.amount,
                ) is None
                &&& transfer_effects(
                    with_block(*old(state), env.block),
                    *final(state),
                    env.block,
                    env.sender@,
                    action.token_id@,
                    action.from@,
                    action.recipient@,
                    action.amount,
                    crate::util::opt_view(action.memo),
                )
                &&& (match send_hash(*old(state), action) {
                    Some(h) => p.1@.len() == 1 && callback_built(p.1@[0], *env, action, h),
                    None => p.1@.len() == 0,
                })
            },
            Err(e) => {
                &&& transfer_err(
                    *old(state),
                    env.block,
                    env.sender@,
                    action.token_id@,
                    action.from@,
                    action.recipient@,
                    action.amount,
                ) == Some(e)
                &&& *final(state) == with_block(*old(state), env.block)
            },
        },
{
    state.block = env.block;
    let mut messages: Vec<crate::receiver::ReceiverCallback> = Vec::new();
    match impl_send(state, env, &mut messages, action) {
        Ok(_) => {},
        Err(e) => {
            return Err(e);
        },
    }
    Ok((HandleAnswer::Send { status: ResponseStatus::Success }, messages))
}

/// One step of a batch send, as far as the ledger state goes: the action's
/// transfer succeeded with its usual effects.
pub open spec fn send_action_rel(env: Env) -> spec_fn(
    ContractState,
    ContractState,
    crate::msg::SendAction,
) -> bool {
    |pre: ContractState, post: ContractState, action: crate::msg::SendAction|
        {
            &&& transfer_err(
                pre,
                env.block,
                env.sender@,
                action.token_id@,
                action.from@,
                action.recipient@,
                action.amount,
            ) is None
            &&& transfer_effects(
                pre,
                post,
                env.block,
                env.sender@,
                action.token_id@,
                action.from@,
                action.recipient@,
                action.amount,
                crate::util::opt_view(action.memo),
            )
        }
}

/// The notifications a batch of sends returns: one per action whose
/// recipient is reachable, in action order.  Registrations do not change
/// during a batch, so they are read against the starting state.
pub open spec fn callbacks_match(
    pre: ContractState,
    env: Env,
    actions: Seq<crate::msg::SendAction>,
    cbs: Seq<crate::receiver::ReceiverCallback>,
) -> bool
    decreases actions.len(),
{
    if actions.len() == 0 {
        cbs.len() == 0
    } else {
        match send_hash(pre, actions.first()) {
            Some(h) => cbs.len() >= 1 && callback_built(cbs.first(), env, actions.first(), h)
                && callbacks_match(pre, env, actions.drop_first(), cbs.drop_first()),
            None => callbacks_match(pre, env, actions.drop_first(), cbs),
        }
    }
}

/// Extending a notification list by one more action at its end.
proof fn lemma_callbacks_snoc(
    pre: ContractState,
    env: Env,
    actions: Seq<crate::msg::SendAction>,
    cbs: Seq<crate::receiver::ReceiverCallback>,
    action: crate::msg::SendAction,
    cb_opt: Option<crate::receiver::ReceiverCallback>,
)
    requires
        callbacks_match(pre, env, actions, cbs),
        match send_hash(pre, action) {
            Some(h) => cb_opt matches Some(cb) && callback_built(cb, env, action, h),
            None => cb_opt is None,
        },
    ensures
        callbacks_match(
            pre,
            env,
            actions.push(action),
            match cb_opt {
                Some(cb) => cbs.push(cb),
                None => cbs,
            },
        ),
    decreases actions.len(),
{
    let ext = actions.push(action);
    let cbs2 = match cb_opt {
        Some(cb) => cbs.push(cb),
        None => cbs,
    };
    if actions.len() == 0 {
        assert(cbs.len() == 0);
        assert(ext.first() == action);
        assert(ext.drop_first() =~= Seq::<crate::msg::SendAction>::empty());
        match cb_opt {
            Some(cb) => {
                assert(cbs2.first() == cb);
                assert(cbs2.drop_first() =~= Seq::<crate::receiver::ReceiverCallback>::empty());
                assert(callbacks_match(pre, env, ext.drop_first(), cbs2.drop_first()));
            },
            None => {
                assert(callbacks_match(pre, env, ext.drop_first(), cbs2));
            },
        }
    } else {
        assert(ext.first() == actions.first());
        assert(ext.drop_first() =~= actions.drop_first().push(action));
        match send_hash(pre, actions.first()) {
            Some(h) => {
                lemma_callbacks_snoc(pre, env, actions.drop_first(), cbs.drop_first(), action, cb_opt);
                match cb_opt {
                    Some(cb) => {
                        assert(cbs2.first() == cbs.first());
                        assert(cbs2.drop_first() =~= cbs.drop_first().push(cb));
                    },
                    None => {},
                }
            },
            None => {
                lemma_callbacks_snoc(pre, env, actions.drop_first(), cbs, action, cb_opt);
            },
        }
    }
}

/// Applies a list of sends in order, collecting the notifications; the
/// first failure stops the batch, whose partial writes the host then
/// discards.
pub fn try_batch_send(
    state: &mut ContractState,
    env: &Env,
    actions: Vec<crate::msg::SendAction>,
) -> (r: Result<(HandleAnswer, Vec<crate::receiver::ReceiverCallback>), Error>)
    requires
        old(state).wf(),
    ensures
        final(state).wf(),
        match r {
            Ok(p) => {
                &&& p.0 == HandleAnswer::BatchSend { status: ResponseStatus::Success }
                &&& chained(
                    send_action_rel(*env),
                    with_block(*old(state), env.block),
                    *final(state),
                    actions@,
                )
                &&& callbacks_match(with_block(*old(state), env.block), *env, actions@, p.1@)
            },
            Err(e) => exists|i: int|
                0 <= i < actions@.len() && #[trigger] chained(
                    send_action_rel(*env),
                    with_block(*old(state), env.block),
                    *final(state),
                    actions@.subrange(0, i),
                ) && transfer_err(
                    *final(state),
                    env.block,
                    env.sender@,
                    actions@[i].token_id@,
                    actions@[i].from@,
                    actions@[i].recipient@,
                    actions@[i].amount,
                ) == Some(e),
        },
        actions@.len() == 0 ==> r is Ok,
{
    state.block = env.block;
    let ghost start = *state;
    let ghost rel = send_action_rel(*env);
    let mut messages: Vec<crate::receiver::ReceiverCallback> = Vec::new();
    let mut remaining = actions;
    proof {
        assert(actions@.subrange(0, 0) =~= Seq::<crate::msg::SendAction>::empty());
        assert(actions@.subrange(0, actions@.len() as int) =~= actions@);
    }
    while remaining.len() > 0
        invariant
            remaining@.len() <= actions@.len(),
            remaining@ == actions@.subrange(actions@.len() - remaining@.len(), actions@.len() as int),
            state.wf(),
            chained(rel, start, *state, actions@.subrange(0, actions@.len() - remaining@.len())),
            rel == send_action_rel(*env),
            start == with_block(*old(state), env.block),
            callbacks_match(
                start,
                *env,
                actions@.subrange(0, actions@.len() - remaining@.len()),
                messages@,
            ),
            state.receiver_hashes == start.receiver_hashes,
        decreases remaining@.len(),
    {
        let ghost before = *state;
        let ghost cbs_before = messages@;
        let ghost i = actions@.len() - remaining@.len();
        let action = remaining.remove(0);
        proof {
            assert(action == actions@[i as int]);
            assert(remaining@ =~= actions@.subrange(i as int + 1, actions@.len() as int));
        }
        match impl_send(state, env, &mut messages, action) {
            Ok(_) => {},
            Err(e) => {
                proof {
                    assert(chained(
                        send_action_rel(*env),
                        with_block(*old(state), env.block),
                        *state,
                        actions@.subrange(0, i),
                    ));
                }
                return Err(e);
            },
        }
        proof {
            assert(rel(before, *state, actions@[i as int]));
            lemma_chained_snoc(
                rel,
                start,
                before,
                *state,
                actions@.subrange(0, i as int),
                actions@[i as int],
            );
            assert(actions@.subrange(0, i as int).push(actions@[i as int]) =~= actions@.subrange(
                0,
                i as int + 1,
            ));
            let cb_opt: Option<crate::receiver::ReceiverCallback> = if messages@.len()
                > cbs_before.len() {
                Some(messages@.last())
            } else {
                None
            };
            assert(send_hash(before, actions@[i as int]) == send_hash(start, actions@[i as int]));
            if messages@.len() > cbs_before.len() {
                assert(messages@ =~= cbs_before.push(messages@.last()));
            } else {
                assert(messages@ == cbs_before);
            }
            lemma_callbacks_snoc(
                start,
                *env,
                actions@.subrange(0, i as int),
                cbs_before,
                actions@[i as int],
                cb_opt,
            );
        }
    }
    Ok((HandleAnswer::BatchSend { status: ResponseStatus::Success }, messages))
}

/// A display name is 3 to 30 bytes of UTF-8.
pub open spec fn spec_valid_name(name: Seq<char>) -> bool {
    3 <= vstd::utf8::encode_utf8(name).len() <= 30
}

/// A ticker symbol is 3 to 6 uppercase ASCII letters.
pub open spec fn spec_valid_symbol(symbol: Seq<char>) -> bool {
    let b = vstd::utf8::encode_utf8(symbol);
    &&& 3 <= b.len() <= 6
    &&& forall|i: int| 0 <= i < b.len() ==> 65 <= #[trigger] b[i] <= 90
}

pub fn is_valid_name(name: &str) -> (r: bool)
    ensures
        r == spec_valid_name(name@),
{
    let bytes = name.as_bytes();
    let len: usize = bytes.len();
    3 <= len && len <= 30
}

pub fn is_valid_symbol(symbol: &str) -> (r: bool)
    ensures
        r == spec_valid_symbol(symbol@),
{
    let bytes = symbol.as_bytes();
    let len: usize = bytes.len();
    if !(3 <= len && len <= 6) {
        return false;
    }
    let mut i: usize = 0;
    while i < len
        invariant
            i <= len,
            len == bytes@.len(),
            bytes@ == symbol.spec_bytes(),
            3 <= len <= 6,
            forall|j: int| 0 <= j < i ==> 65 <= #[trigger] bytes@[j] <= 90,
        decreases len - i,
    {
        let b = bytes[i];
        if b < 65 || b > 90 {
            return false;
        }
        i = i + 1;
    }
    true
}

/// The sum of the amounts of a balance list.
pub open spec fn sum_amounts(bals: Seq<crate::state_structs::TokenIdBalance>) -> int
    decreases bals.len(),
{
    if bals.len() == 0 {
        0
    } else {
        sum_amounts(bals.drop_last()) + bals.last().amount as int
    }
}

/// The expected error of curating one token line, `None` where it
/// succeeds: the token_id must be fresh; an NFT takes exactly one holder of
/// exactly one unit; name, symbol and decimals must be well formed; and the
/// initial amounts must fit the largest representable total supply.
pub open spec fn curate_err(pre: ContractState, item: crate::state_structs::CurateTokenId) -> Option<
    Error,
> {
    let t = item.token_info.token_id@;
    let is_nft = item.token_info.token_config.spec_is_nft();
    if find_token(pre.tokens@, t) is Some {
        Some(Error::AlreadyExists)
    } else if is_nft && item.balances@.len() != 1 {
        Some(Error::Validation)
    } else if is_nft && item.balances@[0].amount != 1 {
        Some(Error::Validation)
    } else if !spec_valid_name(item.token_info.name@) {
        Some(Error::Validation)
    } else if !spec_valid_symbol(item.token_info.symbol@) {
        Some(Error::Validation)
    } else if item.token_info.token_config.spec_decimals() > 18 {
        Some(Error::Validation)
    } else if sum_amounts(item.balances@) > u128::MAX {
        Some(Error::Overflow)
    } else {
        None
    }
}

/// The registry gained exactly the new token line, stored with the caller
/// as curator and a supply of zero, and its token_id was appended to the
/// curated list; nothing else changed.
pub open spec fn token_inserted(
    pre: ContractState,
    post: ContractState,
    env: Env,
    item: crate::state_structs::CurateTokenId,
) -> bool {
    let t = item.token_info.token_id@;
    &&& (match post.spec_token(t) {
        Some(e) => {
            &&& e.info.token_id == item.token_info.token_id
            &&& e.info.name == item.token_info.name
            &&& e.info.symbol == item.token_info.symbol
            &&& e.info.token_config == item.token_info.token_config
            &&& e.info.public_metadata == item.token_info.public_metadata
            &&& e.info.private_metadata == item.token_info.private_metadata
            &&& e.info.curator@ == env.sender@
            &&& e.total_supply == 0
        },
        None => false,
    })
    &&& forall|id: Seq<char>| id != t ==> post.spec_token(id) == pre.spec_token(id)
    &&& post.tokens@.len() == pre.tokens@.len() + 1
    &&& post.config.token_id_list@.len() == pre.config.token_id_list@.len() + 1
    &&& forall|k: int|
        0 <= k < pre.config.token_id_list@.len() ==> post.config.token_id_list@[k] == pre.config.token_id_list@[k]
    &&& post.config.token_id_list@.last() == item.token_info.token_id
    &&& post.config.admin == pre.config.admin
    &&& post.config.curators == pre.config.curators
    &&& post.config.tx_cnt == pre.config.tx_cnt
    &&& post.config.contract_address == pre.config.contract_address
    &&& post.balances == pre.balances
    &&& post.owner_history == pre.owner_history
    &&& post.permissions == pre.permissions
    &&& post.permission_keys == pre.permission_keys
    &&& post.txs == pre.txs
    &&& post.addr_tx_ids == pre.addr_tx_ids
    &&& post.receiver_hashes == pre.receiver_hashes
    &&& post.block == pre.block
}

/// One minted initial balance: the holder was credited, the supply grew by
/// the amount, an NFT recorded its first owner, and one mint record naming
/// the caller as minter was logged.
pub open spec fn mint_step(
    pre: ContractState,
    post: ContractState,
    env: Env,
    t: Seq<char>,
    address: Seq<char>,
    amount: u128,
    memov: Option<Seq<char>>,
) -> bool {
    exists|mid: ContractState|
        {
            &&& #[trigger] change_balance_ok(pre, mid, t, None, Some(address), amount)
            &&& mid.logged_tx(post, set![env.sender@, address])
            &&& ({
                let tx = post.txs@.last();
                &&& tx.block_height == env.block.height
                &&& tx.block_time == env.block.time
                &&& tx.token_id@ == t
                &&& crate::util::opt_view(tx.memo) == memov
                &&& tx.action matches crate::txhistory::TxAction::Mint {
                    minter: m,
                    recipient: r,
                    amount: am,
                } && m@ == env.sender@ && r@ == address && am == amount
            })
        }
}

/// One step of writing a curated token line's initial balances.
pub open spec fn curate_balance_rel(env: Env, t: Seq<char>, memov: Option<Seq<char>>) -> spec_fn(
    ContractState,
    ContractState,
    crate::state_structs::TokenIdBalance,
) -> bool {
    |pre: ContractState, post: ContractState, b: crate::state_structs::TokenIdBalance|
        {
            &&& find_token(pre.tokens@, t) is Some
            &&& bal_of(pre.balances@, t, b.address@) + b.amount <= u128::MAX
            &&& pre.spec_token(t).unwrap().total_supply + b.amount <= u128::MAX
            &&& (pre.spec_token(t).unwrap().info.token_config.spec_is_nft() ==> b.amount == 1
                && pre.spec_token(t).unwrap().total_supply == 0)
            &&& mint_step(pre, post, env, t, b.address@, b.amount, memov)
        }
}

/// Writes one initial balance of a freshly curated token line: credits the
/// holder, grows the supply, records an NFT's first owner, and logs the
/// mint.
fn curate_mint_balance(
    state: &mut ContractState,
    env: &Env,
    token_id: &String,
    address: &String,
    amount: u128,
    memo: Option<String>,
) -> (r: Result<(), Error>)
    requires
        old(state).wf(),
        has_token(old(state).tokens@, token_id@),
        old(state).spec_token(token_id@).unwrap().info.token_config.spec_is_nft() ==> amount == 1
            && old(state).spec_token(token_id@).unwrap().total_supply == 0,
    ensures
        final(state).wf(),
        match r {
            Ok(_) => {
                &&& bal_of(old(state).balances@, token_id@, address@) + amount <= u128::MAX
                &&& old(state).spec_token(token_id@).unwrap().total_supply + amount <= u128::MAX
                &&& mint_step(
                    *old(state),
                    *final(state),
                    *env,
                    token_id@,
                    address@,
                    amount,
                    crate::util::opt_view(memo),
                )
                &&& find_amount(final(state).balances@, token_id@, address@) == Some(
                    (bal_of(old(state).balances@, token_id@, address@) + amount) as u128,
                )
                &&& forall|tk: Seq<char>, ad: Seq<char>|
                    !(tk == token_id@ && ad == address@) ==> find_amount(
                        final(state).balances@,
                        tk,
                        ad,
                    ) == find_amount(old(state).balances@, tk, ad)
                &&& (match final(state).spec_token(token_id@) {
                    Some(e2) => e2.info == old(state).spec_token(token_id@).unwrap().info
                        && e2.total_supply == old(state).spec_token(token_id@).unwrap().total_supply
                        + amount,
                    None => false,
                })
                &&& forall|id: Seq<char>|
                    id != token_id@ ==> final(state).spec_token(id) == old(state).spec_token(id)
            },
            Err(e) => {
                &&& e == Error::Overflow
                &&& *final(state) == *old(state)
                &&& (bal_of(old(state).balances@, token_id@, address@) + amount > u128::MAX || old(
                    state,
                ).spec_token(token_id@).unwrap().total_supply + amount > u128::MAX)
            },
        },
{
    let tkn_idx = match token_index(&state.tokens, token_id) {
        Some(i) => i,
        None => {
            // the caller has checked that the token line exists
            proof {
                assert(false);
            }
            return Err(Error::Overflow);
        },
    };
    let is_nft = state.tokens[tkn_idx].info.token_config.is_nft();

    // All checks before any write: the holder's headroom and the supply's.
    let cur_bal: u128 = match balance_index(&state.balances, token_id, address) {
        Some(bi) => state.balances[bi].amount,
        None => 0u128,
    };
    if cur_bal.checked_add(amount).is_none() {
        return Err(Error::Overflow);
    }
    let old_supply: u128 = state.tokens[tkn_idx].total_supply;
    let new_supply: u128 = match old_supply.checked_add(amount) {
        Some(v) => v,
        None => {
            return Err(Error::Overflow);
        },
    };
    match add_balance(&mut state.balances, token_id, address, amount) {
        Ok(_) => {},
        Err(_) => {
            // the holder's headroom was checked above
            proof {
                assert(false);
            }
            return Err(Error::Overflow);
        },
    }
    if is_nft {
        state.append_new_owner(token_id, address);
    }
    proof {
        lemma_find_token_update(
            state.tokens@,
            tkn_idx as int,
            TokenEntry { total_supply: new_supply, ..state.tokens@[tkn_idx as int] },
        );
    }
    let te = &mut state.tokens[tkn_idx];
    te.total_supply = new_supply;
    proof {
        restore_wf(*old(state), *state, token_id@, tkn_idx as int, None, Some(address@), amount);
    }
    let ghost mid = *state;
    state.store_mint(&env.block, token_id, &env.sender, address, amount, memo);
    proof {
        assert(change_balance_ok(*old(state), mid, token_id@, None, Some(address@), amount));
        assert(final(state).wf());
    }
    Ok(())
}

/// Curates one new token line: validates it, stores its information with
/// the caller as curator, writes and logs each initial balance, and
/// appends the token_id to the curated list.
pub fn exec_curate_token_id(
    state: &mut ContractState,
    env: &Env,
    initial_token: crate::state_structs::CurateTokenId,
    memo: Option<String>,
) -> (r: Result<(), Error>)
    requires
        old(state).wf(),
    ensures
        final(state).wf(),
        match r {
            Ok(_) => {
                &&& curate_err(*old(state), initial_token) is None
                &&& exists|mid0: ContractState|
                    #[trigger] token_inserted(*old(state), mid0, *env, initial_token) && chained(
                        curate_balance_rel(
                            *env,
                            initial_token.token_info.token_id@,
                            crate::util::opt_view(memo),
                        ),
                        mid0,
                        *final(state),
                        initial_token.balances@,
                    )
            },
            Err(e) => {
                &&& curate_err(*old(state), initial_token) == Some(e)
                &&& *final(state) == *old(state)
            },
        },
{
    let t_is_nft = initial_token.token_info.token_config.is_nft();
    match token_index(&state.tokens, &initial_token.token_info.token_id) {
        Some(_) => {
            return Err(Error::AlreadyExists);
        },
        None => {},
    }
    if t_is_nft && initial_token.balances.len() != 1 {
        return Err(Error::Validation);
    }
    if t_is_nft && initial_token.balances[0].amount != 1 {
        return Err(Error::Validation);
    }
    if !is_valid_name(initial_token.token_info.name.as_str()) {
        return Err(Error::Validation);
    }
    if !is_valid_symbol(initial_token.token_info.symbol.as_str()) {
        return Err(Error::Validation);
    }
    let flat = initial_token.token_info.token_config.flatten();
    if flat.decimals > 18 {
        return Err(Error::Validation);
    }

    // The initial amounts must fit one total supply.
    match checked_sum_amounts(&initial_token.balances) {
        Some(_) => {},
        None => {
            return Err(Error::Overflow);
        },
    }

    // Store the token line, with the caller recorded as its curator.
    let token_id = initial_token.token_info.token_id.clone();
    let list_entry = token_id.clone();
    let entry = TokenEntry {
        info: crate::state_structs::TknInfo {
            curator: env.sender.clone(),
            ..initial_token.token_info
        },
        total_supply: 0u128,
    };
    proof {
        lemma_find_token(state.tokens@, token_id@);
        lemma_tokens_push_unique(state.tokens@, entry);
        assert(state.tokens@.push(entry).drop_last() =~= state.tokens@);
        assert(state.config.token_id_list@.push(list_entry).drop_last()
            =~= state.config.token_id_list@);
    }
    state.tokens.push(entry);
    state.config.token_id_list.push(list_entry);
    proof {
        wf_after_token_insert(*old(state), *state, token_id@);
        assert forall|j: int|
            0 <= j < state.balances@.len() implies (#[trigger] state.balances@[j]).token_id@
            != token_id@ by {
            if state.balances@[j].token_id@ == token_id@ {
                assert(has_token(old(state).tokens@, token_id@));
            }
        }
        assert forall|a: Seq<char>| bal_of(state.balances@, token_id@, a) == 0 by {
            lemma_find_amount(state.balances@, token_id@, a);
        }
    }
    let ghost mid0 = *state;

    // Write and log each initial balance.
    let ghost rel = curate_balance_rel(*env, token_id@, crate::util::opt_view(memo));
    let mut i: usize = 0;
    proof {
        assert(initial_token.balances@.subrange(0, 0)
            =~= Seq::<crate::state_structs::TokenIdBalance>::empty());
    }
    while i < initial_token.balances.len()
        invariant
            i <= initial_token.balances@.len(),
            state.wf(),
            chained(rel, mid0, *state, initial_token.balances@.subrange(0, i as int)),
            rel == curate_balance_rel(*env, token_id@, crate::util::opt_view(memo)),
            token_id@ == initial_token.token_info.token_id@,
            has_token(state.tokens@, token_id@),
            state.spec_token(token_id@).unwrap().info.token_config
                == initial_token.token_info.token_config,
            t_is_nft == initial_token.token_info.token_config.spec_is_nft(),
            t_is_nft ==> initial_token.balances@.len() == 1,
            t_is_nft ==> initial_token.balances@[0].amount == 1,
            sum_amounts(initial_token.balances@) <= u128::MAX,
            state.spec_token(token_id@).unwrap().total_supply as int == sum_amounts(
                initial_token.balances@.subrange(0, i as int),
            ),
            forall|a: Seq<char>|
                bal_of(state.balances@, token_id@, a) as int <= sum_amounts(
                    initial_token.balances@.subrange(0, i as int),
                ),
        decreases initial_token.balances@.len() - i,
    {
        let ghost before = *state;
        let b_amount = initial_token.balances[i].amount;
        proof {
            lemma_sum_amounts_prefix_step(initial_token.balances@, i as int);
            lemma_sum_amounts_prefix_bound(initial_token.balances@, i as int + 1);
        }
        match curate_mint_balance(
            state,
            env,
            &token_id,
            &initial_token.balances[i].address,
            b_amount,
            crate::util::clone_opt_string(&memo),
        ) {
            Ok(_) => {},
            Err(_) => {
                // the amounts were summed up front, so no write can overflow
                proof {
                    assert(false);
                }
                return Err(Error::Overflow);
            },
        }
        proof {
            assert(rel(before, *state, initial_token.balances@[i as int]));
            lemma_chained_snoc(
                rel,
                mid0,
                before,
                *state,
                initial_token.balances@.subrange(0, i as int),
                initial_token.balances@[i as int],
            );
            assert(initial_token.balances@.subrange(0, i as int).push(
                initial_token.balances@[i as int],
            ) =~= initial_token.balances@.subrange(0, i as int + 1));
            assert forall|a: Seq<char>|
                bal_of(state.balances@, token_id@, a) as int <= sum_amounts(
                    initial_token.balances@.subrange(0, i as int + 1),
                ) by {
                assert(bal_of(before.balances@, token_id@, a) as int <= sum_amounts(
                    initial_token.balances@.subrange(0, i as int),
                ));
                if a == initial_token.balances@[i as int].address@ {
                    assert(find_amount(state.balances@, token_id@, a) == Some(
                        (bal_of(before.balances@, token_id@, a) + b_amount) as u128,
                    ));
                } else {
                    assert(find_amount(state.balances@, token_id@, a) == find_amount(
                        before.balances@,
                        token_id@,
                        a,
                    ));
                }
            }
        }
        i = i + 1;
    }
    proof {
        assert(initial_token.balances@.subrange(0, initial_token.balances@.len() as int)
            =~= initial_token.balances@);
        assert(token_inserted(*old(state), mid0, *env, initial_token));
        assert(chained(
            curate_balance_rel(
                *env,
                initial_token.token_info.token_id@,
                crate::util::opt_view(memo),
            ),
            mid0,
            *state,
            initial_token.balances@,
        ));
    }
    Ok(())
}

/// Adds up a balance list's amounts, `None` where they pass the largest
/// representable amount.
fn checked_sum_amounts(bals: &Vec<crate::state_structs::TokenIdBalance>) -> (r: Option<u128>)
    ensures
        match r {
            Some(v) => v as int == sum_amounts(bals@),
            None => sum_amounts(bals@) > u128::MAX,
        },
{
    let mut total: u128 = 0;
    let mut k: usize = 0;
    while k < bals.len()
        invariant
            k <= bals@.len(),
            total as int == sum_amounts(bals@.subrange(0, k as int)),
        decreases bals@.len() - k,
    {
        proof {
            assert(bals@.subrange(0, k as int + 1).drop_last() =~= bals@.subrange(0, k as int));
            assert(bals@.subrange(0, k as int + 1).last() == bals@[k as int]);
        }
        total = match total.checked_add(bals[k].amount) {
            Some(v) => v,
            None => {
                proof {
                    lemma_sum_amounts_prefix_bound(bals@, k as int + 1);
                }
                return None;
            },
        };
        k = k + 1;
    }
    proof {
        assert(bals@.subrange(0, bals@.len() as int) =~= bals@);
    }
    Some(total)
}

/// A prefix of the amounts sums to at most the whole.
proof fn lemma_sum_amounts_prefix_bound(bals: Seq<crate::state_structs::TokenIdBalance>, k: int)
    requires
        0 <= k <= bals.len(),
    ensures
        sum_amounts(bals.subrange(0, k)) <= sum_amounts(bals),
    decreases bals.len() - k,
{
    if k < bals.len() {
        lemma_sum_amounts_prefix_bound(bals, k + 1);
        assert(bals.subrange(0, k + 1).drop_last() =~= bals.subrange(0, k));
        assert(bals.subrange(0, bals.len() as int) =~= bals);
    } else {
        assert(bals.subrange(0, bals.len() as int) =~= bals);
    }
}

/// Extending a prefix of the amounts by one adds that amount to its sum.
proof fn lemma_sum_amounts_prefix_step(bals: Seq<crate::state_structs::TokenIdBalance>, i: int)
    requires
        0 <= i < bals.len(),
    ensures
        sum_amounts(bals.subrange(0, i + 1)) == sum_amounts(bals.subrange(0, i))
            + bals[i].amount as int,
{
    assert(bals.subrange(0, i + 1).drop_last() =~= bals.subrange(0, i));
    assert(bals.subrange(0, i + 1).last() == bals[i]);
}

/// One step of a curation batch: the item passed validation and had
/// exactly the effects of curating one token line.
pub open spec fn curate_rel(env: Env, memov: Option<Seq<char>>) -> spec_fn(
    ContractState,
    ContractState,
    crate::state_structs::CurateTokenId,
) -> bool {
    |pre: ContractState, post: ContractState, item: crate::state_structs::CurateTokenId|
        {
            &&& curate_err(pre, item) is None
            &&& exists|mid0: ContractState|
                #[trigger] token_inserted(pre, mid0, env, item) && chained(
                    curate_balance_rel(env, item.token_info.token_id@, memov),
                    mid0,
                    post,
                    item.balances@,
                )
        }
}

/// Curates a list of new token lines; only a curator may.  The first
/// failure stops the batch, whose partial writes the host then discards.
pub fn try_curate_token_ids(
    state: &mut ContractState,
    env: &Env,
    initial_tokens: Vec<crate::state_structs::CurateTokenId>,
    memo: Option<String>,
) -> (r: Result<HandleAnswer, Error>)
    requires
        old(state).wf(),
    ensures
        final(state).wf(),
        match r {
            Ok(a) => {
                &&& a == HandleAnswer::CurateTokenIds { status: ResponseStatus::Success }
                &&& seq_has_string(old(state).config.curators@, env.sender@)
                &&& chained(
                    curate_rel(*env, crate::util::opt_view(memo)),
                    with_block(*old(state), env.block),
                    *final(state),
                    initial_tokens@,
                )
            },
            Err(e) => {
                &&& (!seq_has_string(old(state).config.curators@, env.sender@) ==> e
                    == Error::Unauthorized && *final(state) == with_block(*old(state), env.block))
                &&& (seq_has_string(old(state).config.curators@, env.sender@) ==> exists|i: int|
                    0 <= i < initial_tokens@.len() && #[trigger] chained(
                        curate_rel(*env, crate::util::opt_view(memo)),
                        with_block(*old(state), env.block),
                        *final(state),
                        initial_tokens@.subrange(0, i),
                    ) && curate_err(*final(state), initial_tokens@[i]) == Some(e))
            },
        },
        initial_tokens@.len() == 0 && seq_has_string(old(state).config.curators@, env.sender@)
            ==> r is Ok,
{
    state.block = env.block;
    match verify_curator(&state.config, env) {
        Ok(_) => {},
        Err(e) => {
            return Err(e);
        },
    }
    let ghost start = *state;
    let ghost rel = curate_rel(*env, crate::util::opt_view(memo));
    let mut remaining = initial_tokens;
    proof {
        assert(initial_tokens@.subrange(0, 0)
            =~= Seq::<crate::state_structs::CurateTokenId>::empty());
        assert(initial_tokens@.subrange(0, initial_tokens@.len() as int) =~= initial_tokens@);
    }
    while remaining.len() > 0
        invariant
            remaining@.len() <= initial_tokens@.len(),
            remaining@ == initial_tokens@.subrange(
                initial_tokens@.len() - remaining@.len(),
                initial_tokens@.len() as int,
            ),
            state.wf(),
            chained(
                rel,
                start,
                *state,
                initial_tokens@.subrange(0, initial_tokens@.len() - remaining@.len()),
            ),
            rel == curate_rel(*env, crate::util::opt_view(memo)),
            start == with_block(*old(state), env.block),
            seq_has_string(old(state).config.curators@, env.sender@),
        decreases remaining@.len(),
    {
        let ghost before = *state;
        let ghost i = initial_tokens@.len() - remaining@.len();
        let item = remaining.remove(0);
        proof {
            assert(item == initial_tokens@[i as int]);
            assert(remaining@ =~= initial_tokens@.subrange(
                i as int + 1,
                initial_tokens@.len() as int,
            ));
        }
        match exec_curate_token_id(state, env, item, crate::util::clone_opt_string(&memo)) {
            Ok(_) => {},
            Err(e) => {
                proof {
                    assert(chained(
                        curate_rel(*env, crate::util::opt_view(memo)),
                        with_block(*old(state), env.block),
                        *state,
                        initial_tokens@.subrange(0, i),
                    ));
                    assert(curate_err(*state, initial_tokens@[i]) == Some(e));
                }
                return Err(e);
            },
        }
        proof {
            assert(rel(before, *state, initial_tokens@[i as int]));
            lemma_chained_snoc(
                rel,
                start,
                before,
                *state,
                initial_tokens@.subrange(0, i as int),
                initial_tokens@[i as int],
            );
            assert(initial_tokens@.subrange(0, i as int).push(initial_tokens@[i as int])
                =~= initial_tokens@.subrange(0, i as int + 1));
        }
    }
    Ok(HandleAnswer::CurateTokenIds { status: ResponseStatus::Success })
}

/// What a freshly instantiated deployment looks like, before its initial
/// token lines are curated: the admin slot as the message asked, the given
/// curators, and every store empty.
pub open spec fn init_base(base: ContractState, env: Env, msg: crate::msg::InitMsg) -> bool {
    &&& (if !msg.has_admin {
        base.config.admin is None
    } else {
        match msg.admin {
            Some(a) => base.config.admin == Some(a),
            None => base.config.admin matches Some(x) && x@ == env.sender@,
        }
    })
    &&& base.config.curators == msg.curators
    &&& base.config.token_id_list@.len() == 0
    &&& base.config.tx_cnt == 0
    &&& base.config.contract_address@ == env.contract_address@
    &&& base.tokens@.len() == 0
    &&& base.balances@.len() == 0
    &&& base.owner_history@.len() == 0
    &&& base.permissions@.len() == 0
    &&& base.permission_keys@.len() == 0
    &&& base.txs@.len() == 0
    &&& base.addr_tx_ids@.len() == 0
    &&& base.receiver_hashes@.len() == 0
    &&& base.block == env.block
}

/// Instantiates a deployment: sets the admin slot and the curator set, and
/// curates the initial token lines as the instantiating principal.
pub fn init(env: &Env, msg: crate::msg::InitMsg) -> (r: Result<ContractState, Error>)
    ensures
        match r {
            Ok(s) => {
                &&& s.wf()
                &&& exists|base: ContractState|
                    #[trigger] init_base(base, *env, msg) && chained(
                        curate_rel(*env, None),
                        base,
                        s,
                        msg.initial_tokens@,
                    )
            },
            Err(e) => exists|base: ContractState, mid: ContractState, i: int|
                init_base(base, *env, msg) && 0 <= i < msg.initial_tokens@.len() && #[trigger] chained(
                    curate_rel(*env, None),
                    base,
                    mid,
                    msg.initial_tokens@.subrange(0, i),
                ) && curate_err(mid, msg.initial_tokens@[i]) == Some(e),
        },
        msg.initial_tokens@.len() == 0 ==> r is Ok,
{
    let admin: Option<String> = if !msg.has_admin {
        None
    } else {
        match msg.admin {
            Some(a) => Some(a),
            None => Some(env.sender.clone()),
        }
    };
    let mut state = ContractState {
        config: ContractConfig {
            admin,
            curators: msg.curators,
            token_id_list: Vec::new(),
            tx_cnt: 0u64,
            contract_address: env.contract_address.clone(),
        },
        tokens: Vec::new(),
        balances: Vec::new(),
        owner_history: Vec::new(),
        permissions: Vec::new(),
        permission_keys: Vec::new(),
        txs: Vec::new(),
        addr_tx_ids: Vec::new(),
        receiver_hashes: Vec::new(),
        block: env.block,
    };
    let ghost base = state;
    proof {
        assert(base.wf());
        assert(init_base(base, *env, msg));
        assert(msg.initial_tokens@.subrange(0, 0)
            =~= Seq::<crate::state_structs::CurateTokenId>::empty());
        assert(msg.initial_tokens@.subrange(0, msg.initial_tokens@.len() as int)
            =~= msg.initial_tokens@);
    }
    let ghost rel = curate_rel(*env, None);
    let mut remaining = msg.initial_tokens;
    while remaining.len() > 0
        invariant
            remaining@.len() <= msg.initial_tokens@.len(),
            remaining@ == msg.initial_tokens@.subrange(
                msg.initial_tokens@.len() - remaining@.len(),
                msg.initial_tokens@.len() as int,
            ),
            state.wf(),
            chained(
                rel,
                base,
                state,
                msg.initial_tokens@.subrange(
                    0,
                    msg.initial_tokens@.len() - remaining@.len(),
                ),
            ),
            rel == curate_rel(*env, None),
            init_base(base, *env, msg),
        decreases remaining@.len(),
    {
        let ghost before = state;
        let ghost i = msg.initial_tokens@.len() - remaining@.len();
        let item = remaining.remove(0);
        proof {
            assert(item == msg.initial_tokens@[i as int]);
            assert(remaining@ =~= msg.initial_tokens@.subrange(
                i as int + 1,
                msg.initial_tokens@.len() as int,
            ));
        }
        match exec_curate_token_id(&mut state, env, item, None) {
            Ok(_) => {},
            Err(e) => {
                return Err(e);
            },
        }
        proof {
            assert(rel(before, state, msg.initial_tokens@[i as int]));
            lemma_chained_snoc(
                rel,
                base,
                before,
                state,
                msg.initial_tokens@.subrange(0, i as int),
                msg.initial_tokens@[i as int],
            );
            assert(msg.initial_tokens@.subrange(0, i as int).push(
                msg.initial_tokens@[i as int],
            ) =~= msg.initial_tokens@.subrange(0, i as int + 1));
        }
    }
    Ok(state)
}

/// One minted balance of an existing token line.
pub open spec fn mint_balance_rel(env: Env, t: Seq<char>, memov: Option<Seq<char>>) -> spec_fn(
    ContractState,
    ContractState,
    crate::state_structs::TokenIdBalance,
) -> bool {
    |pre: ContractState, post: ContractState, b: crate::state_structs::TokenIdBalance|
        {
            &&& change_balance_err(pre, t, None, Some(b.address@), b.amount) is None
            &&& mint_step(pre, post, env, t, b.address@, b.amount, memov)
        }
}

/// One item of a mint batch: its token line exists with minting enabled,
/// the caller is one of its minters, and each of its balances was minted
/// in order.
pub open spec fn mint_token_rel(env: Env, memov: Option<Seq<char>>) -> spec_fn(
    ContractState,
    ContractState,
    crate::state_structs::TokenAmount,
) -> bool {
    |pre: ContractState, post: ContractState, m: crate::state_structs::TokenAmount|
        {
            &&& find_token(pre.tokens@, m.token_id@) is Some
            &&& (!pre.spec_token(m.token_id@).unwrap().info.token_config.spec_is_nft()
                ==> pre.spec_token(m.token_id@).unwrap().info.token_config.spec_enable_mint())
            &&& seq_has_string(
                pre.spec_token(m.token_id@).unwrap().info.token_config.spec_minters(),
                env.sender@,
            )
            &&& chained(mint_balance_rel(env, m.token_id@, memov), pre, post, m.balances@)
        }
}

/// How one mint item failed: its checks were refused outright, or some
/// prefix of its balances was minted and the next one was refused.
pub open spec fn mint_item_failed(
    pre_item: ContractState,
    post: ContractState,
    env: Env,
    m: crate::state_structs::TokenAmount,
    memov: Option<Seq<char>>,
    e: Error,
) -> bool {
    if find_token(pre_item.tokens@, m.token_id@) is None {
        e == Error::NotFound && post == pre_item
    } else if !pre_item.spec_token(m.token_id@).unwrap().info.token_config.spec_is_nft()
        && !pre_item.spec_token(m.token_id@).unwrap().info.token_config.spec_enable_mint() {
        e == Error::Unauthorized && post == pre_item
    } else if !seq_has_string(
        pre_item.spec_token(m.token_id@).unwrap().info.token_config.spec_minters(),
        env.sender@,
    ) {
        e == Error::Unauthorized && post == pre_item
    } else {
        exists|j: int|
            0 <= j < m.balances@.len() && #[trigger] chained(
                mint_balance_rel(env, m.token_id@, memov),
                pre_item,
                post,
                m.balances@.subrange(0, j),
            ) && change_balance_err(
                post,
                m.token_id@,
                None,
                Some(m.balances@[j].address@),
                m.balances@[j].amount,
            ) == Some(e)
    }
}

/// Mints one balance of an existing token line and logs it.
fn mint_one_balance(
    state: &mut ContractState,
    env: &Env,
    token_id: &String,
    address: &String,
    amount: u128,
    memo: Option<String>,
) -> (r: Result<(), Error>)
    requires
        old(state).wf(),
        has_token(old(state).tokens@, token_id@),
    ensures
        final(state).wf(),
        match r {
            Ok(_) => {
                &&& change_balance_err(*old(state), token_id@, None, Some(address@), amount)
                    is None
                &&& mint_step(
                    *old(state),
                    *final(state),
                    *env,
                    token_id@,
                    address@,
                    amount,
                    crate::util::opt_view(memo),
                )
            },
            Err(e) => {
                &&& change_balance_err(*old(state), token_id@, None, Some(address@), amount)
                    == Some(e)
                &&& *final(state) == *old(state)
            },
        },
{
    match exec_change_balance(state, token_id, None, Some(address), amount) {
        Ok(_) => {},
        Err(e) => {
            return Err(e);
        },
    }
    let ghost mid = *state;
    state.store_mint(&env.block, token_id, &env.sender, address, amount, memo);
    proof {
        assert(change_balance_ok(*old(state), mid, token_id@, None, Some(address@), amount));
        assert(final(state).wf());
    }
    Ok(())
}

/// Mints one batch item: checks the token line, the mint switch and the
/// caller's minter standing, then mints each balance in order.
fn mint_one(
    state: &mut ContractState,
    env: &Env,
    mint_token: crate::state_structs::TokenAmount,
    memo: &Option<String>,
) -> (r: Result<(), Error>)
    requires
        old(state).wf(),
    ensures
        final(state).wf(),
        match r {
            Ok(_) => mint_token_rel(*env, crate::util::opt_view(*memo))(
                *old(state),
                *final(state),
                mint_token,
            ),
            Err(e) => mint_item_failed(
                *old(state),
                *final(state),
                *env,
                mint_token,
                crate::util::opt_view(*memo),
                e,
            ),
        },
{
    let tkn_idx = match token_index(&state.tokens, &mint_token.token_id) {
        Some(i) => i,
        None => {
            return Err(Error::NotFound);
        },
    };
    // A fungible token line must have minting enabled; an NFT line falls
    // through to the balance-change primitive, which refuses any mint of an
    // NFT after curation.
    if !state.tokens[tkn_idx].info.token_config.is_nft()
        && !state.tokens[tkn_idx].info.token_config.enable_mint() {
        return Err(Error::Unauthorized);
    }
    if !state.tokens[tkn_idx].info.token_config.has_minter(&env.sender) {
        return Err(Error::Unauthorized);
    }
    let ghost start = *state;
    let ghost t = mint_token.token_id@;
    let ghost rel = mint_balance_rel(*env, t, crate::util::opt_view(*memo));
    let token_id = mint_token.token_id;
    let mut remaining = mint_token.balances;
    proof {
        assert(mint_token.balances@.subrange(0, 0)
            =~= Seq::<crate::state_structs::TokenIdBalance>::empty());
        assert(mint_token.balances@.subrange(0, mint_token.balances@.len() as int)
            =~= mint_token.balances@);
    }
    while remaining.len() > 0
        invariant
            remaining@.len() <= mint_token.balances@.len(),
            remaining@ == mint_token.balances@.subrange(
                mint_token.balances@.len() - remaining@.len(),
                mint_token.balances@.len() as int,
            ),
            state.wf(),
            chained(
                rel,
                start,
                *state,
                mint_token.balances@.subrange(
                    0,
                    mint_token.balances@.len() - remaining@.len(),
                ),
            ),
            rel == mint_balance_rel(*env, t, crate::util::opt_view(*memo)),
            token_id@ == t,
            t == mint_token.token_id@,
            has_token(state.tokens@, t),
            start == *old(state),
            find_token(old(state).tokens@, t) is Some,
            !old(state).spec_token(t).unwrap().info.token_config.spec_is_nft() ==> old(
                state,
            ).spec_token(t).unwrap().info.token_config.spec_enable_mint(),
            seq_has_string(
                old(state).spec_token(t).unwrap().info.token_config.spec_minters(),
                env.sender@,
            ),
        decreases remaining@.len(),
    {
        let ghost before = *state;
        let ghost i = mint_token.balances@.len() - remaining@.len();
        let b = remaining.remove(0);
        proof {
            assert(b == mint_token.balances@[i as int]);
            assert(remaining@ =~= mint_token.balances@.subrange(
                i as int + 1,
                mint_token.balances@.len() as int,
            ));
        }
        match mint_one_balance(
            state,
            env,
            &token_id,
            &b.address,
            b.amount,
            crate::util::clone_opt_string(memo),
        ) {
            Ok(_) => {},
            Err(e) => {
                proof {
                    assert(chained(
                        mint_balance_rel(
                            *env,
                            mint_token.token_id@,
                            crate::util::opt_view(*memo),
                        ),
                        *old(state),
                        *state,
                        mint_token.balances@.subrange(0, i),
                    ));
                    assert(change_balance_err(
                        *state,
                        mint_token.token_id@,
                        None,
                        Some(mint_token.balances@[i].address@),
                        mint_token.balances@[i].amount,
                    ) == Some(e));
                }
                return Err(e);
            },
        }
        proof {
            assert(rel(before, *state, mint_token.balances@[i as int]));
            lemma_chained_snoc(
                rel,
                start,
                before,
                *state,
                mint_token.balances@.subrange(0, i as int),
                mint_token.balances@[i as int],
            );
            assert(mint_token.balances@.subrange(0, i as int).push(
                mint_token.balances@[i as int],
            ) =~= mint_token.balances@.subrange(0, i as int + 1));
        }
    }
    Ok(())
}

/// Mints the given balances against existing token lines.  For each item
/// the token line must exist with minting enabled and the caller must be
/// one of its minters; the first failure stops the batch.
pub fn try_mint_tokens(
    state: &mut ContractState,
    env: &Env,
    mint_tokens: Vec<crate::state_structs::TokenAmount>,
    memo: Option<String>,
) -> (r: Result<HandleAnswer, Error>)
    requires
        old(state).wf(),
    ensures
        final(state).wf(),
        match r {
            Ok(a) => {
                &&& a == HandleAnswer::MintTokens { status: ResponseStatus::Success }
                &&& chained(
                    mint_token_rel(*env, crate::util::opt_view(memo)),
                    with_block(*old(state), env.block),
                    *final(state),
                    mint_tokens@,
                )
            },
            Err(e) => exists|i: int, pre_item: ContractState|
                0 <= i < mint_tokens@.len() && #[trigger] chained(
                    mint_token_rel(*env, crate::util::opt_view(memo)),
                    with_block(*old(state), env.block),
                    pre_item,
                    mint_tokens@.subrange(0, i),
                ) && mint_item_failed(
                    pre_item,
                    *final(state),
                    *env,
                    mint_tokens@[i],
                    crate::util::opt_view(memo),
                    e,
                ),
        },
        mint_tokens@.len() == 0 ==> r is Ok,
{
    state.block = env.block;
    let ghost start = *state;
    let ghost rel = mint_token_rel(*env, crate::util::opt_view(memo));
    let mut remaining = mint_tokens;
    proof {
        assert(mint_tokens@.subrange(0, 0)
            =~= Seq::<crate::state_structs::TokenAmount>::empty());
        assert(mint_tokens@.subrange(0, mint_tokens@.len() as int) =~= mint_tokens@);
    }
    while remaining.len() > 0
        invariant
            remaining@.len() <= mint_tokens@.len(),
            remaining@ == mint_tokens@.subrange(
                mint_tokens@.len() - remaining@.len(),
                mint_tokens@.len() as int,
            ),
            state.wf(),
            chained(
                rel,
                start,
                *state,
                mint_tokens@.subrange(0, mint_tokens@.len() - remaining@.len()),
            ),
            rel == mint_token_rel(*env, crate::util::opt_view(memo)),
            start == with_block(*old(state), env.block),
        decreases remaining@.len(),
    {
        let ghost before = *state;
        let ghost i = mint_tokens@.len() - remaining@.len();
        let item = remaining.remove(0);
        proof {
            assert(item == mint_tokens@[i as int]);
            assert(remaining@ =~= mint_tokens@.subrange(
                i as int + 1,
                mint_tokens@.len() as int,
            ));
        }
        match mint_one(state, env, item, &memo) {
            Ok(_) => {},
            Err(e) => {
                return Err(e);
            },
        }
        proof {
            assert(rel(before, *state, mint_tokens@[i as int]));
            lemma_chained_snoc(
                rel,
                start,
                before,
                *state,
                mint_tokens@.subrange(0, i as int),
                mint_tokens@[i as int],
            );
            assert(mint_tokens@.subrange(0, i as int).push(mint_tokens@[i as int])
                =~= mint_tokens@.subrange(0, i as int + 1));
        }
    }
    Ok(HandleAnswer::MintTokens { status: ResponseStatus::Success })
}

/// One burned balance: the holder was debited, the supply shrank, and one
/// burn record was logged; in the base policy the burner is the holder.
pub open spec fn burn_step(
    pre: ContractState,
    post: ContractState,
    env: Env,
    t: Seq<char>,
    address: Seq<char>,
    amount: u128,
    memov: Option<Seq<char>>,
) -> bool {
    exists|mid: ContractState|
        {
            &&& #[trigger] change_balance_ok(pre, mid, t, Some(address), None, amount)
            &&& mid.logged_tx(post, set![address])
            &&& ({
                let tx = post.txs@.last();
                &&& tx.block_height == env.block.height
                &&& tx.block_time == env.block.time
                &&& tx.token_id@ == t
                &&& crate::util::opt_view(tx.memo) == memov
                &&& tx.action matches crate::txhistory::TxAction::Burn {
                    burner: b,
                    owner: o,
                    amount: am,
                } && b is None && o@ == address && am == amount
            })
        }
}

/// One burned balance of a burn item: the holder is the caller itself, and
/// the debit went through.
pub open spec fn burn_balance_rel(env: Env, t: Seq<char>, memov: Option<Seq<char>>) -> spec_fn(
    ContractState,
    ContractState,
    crate::state_structs::TokenIdBalance,
) -> bool {
    |pre: ContractState, post: ContractState, b: crate::state_structs::TokenIdBalance|
        {
            &&& b.address@ == env.sender@
            &&& change_balance_err(pre, t, Some(b.address@), None, b.amount) is None
            &&& burn_step(pre, post, env, t, b.address@, b.amount, memov)
        }
}

/// One item of a burn batch: its token line exists with burning enabled,
/// and each of its balances was burned from the caller in order.
pub open spec fn burn_token_rel(env: Env, memov: Option<Seq<char>>) -> spec_fn(
    ContractState,
    ContractState,
    crate::state_structs::TokenAmount,
) -> bool {
    |pre: ContractState, post: ContractState, m: crate::state_structs::TokenAmount|
        {
            &&& find_token(pre.tokens@, m.token_id@) is Some
            &&& pre.spec_token(m.token_id@).unwrap().info.token_config.spec_enable_burn()
            &&& chained(burn_balance_rel(env, m.token_id@, memov), pre, post, m.balances@)
        }
}

/// How one burn item failed: its checks were refused outright, or some
/// prefix of its balances was burned and the next one was refused.
pub open spec fn burn_item_failed(
    pre_item: ContractState,
    post: ContractState,
    env: Env,
    m: crate::state_structs::TokenAmount,
    memov: Option<Seq<char>>,
    e: Error,
) -> bool {
    if find_token(pre_item.tokens@, m.token_id@) is None {
        e == Error::NotFound && post == pre_item
    } else if !pre_item.spec_token(m.token_id@).unwrap().info.token_config.spec_enable_burn() {
        e == Error::Unauthorized && post == pre_item
    } else {
        exists|j: int|
            0 <= j < m.balances@.len() && #[trigger] chained(
                burn_balance_rel(env, m.token_id@, memov),
                pre_item,
                post,
                m.balances@.subrange(0, j),
            ) && (if m.balances@[j].address@ != env.sender@ {
                e == Error::Unauthorized
            } else {
                change_balance_err(
                    post,
                    m.token_id@,
                    Some(m.balances@[j].address@),
                    None,
                    m.balances@[j].amount,
                ) == Some(e)
            })
    }
}

/// Burns one balance, which must belong to the caller, and logs it.
fn burn_one_balance(
    state: &mut ContractState,
    env: &Env,
    token_id: &String,
    address: &String,
    amount: u128,
    memo: Option<String>,
) -> (r: Result<(), Error>)
    requires
        old(state).wf(),
        has_token(old(state).tokens@, token_id@),
    ensures
        final(state).wf(),
        match r {
            Ok(_) => {
                &&& address@ == env.sender@
                &&& change_balance_err(*old(state), token_id@, Some(address@), None, amount)
                    is None
                &&& burn_step(
                    *old(state),
                    *final(state),
                    *env,
                    token_id@,
                    address@,
                    amount,
                    crate::util::opt_view(memo),
                )
            },
            Err(e) => {
                &&& *final(state) == *old(state)
                &&& (if address@ != env.sender@ {
                    e == Error::Unauthorized
                } else {
                    change_balance_err(*old(state), token_id@, Some(address@), None, amount)
                        == Some(e)
                })
            },
        },
{
    if !(*address == env.sender) {
        return Err(Error::Unauthorized);
    }
    match exec_change_balance(state, token_id, Some(address), None, amount) {
        Ok(_) => {},
        Err(e) => {
            return Err(e);
        },
    }
    let ghost mid = *state;
    state.store_burn(&env.block, token_id, None, address, amount, memo);
    proof {
        assert(change_balance_ok(*old(state), mid, token_id@, Some(address@), None, amount));
        assert(final(state).wf());
    }
    Ok(())
}

/// Burns one batch item: checks the token line and its burn switch, then
/// burns each balance, each of which must name the caller.
fn burn_one(
    state: &mut ContractState,
    env: &Env,
    burn_token: crate::state_structs::TokenAmount,
    memo: &Option<String>,
) -> (r: Result<(), Error>)
    requires
        old(state).wf(),
    ensures
        final(state).wf(),
        match r {
            Ok(_) => burn_token_rel(*env, crate::util::opt_view(*memo))(
                *old(state),
                *final(state),
                burn_token,
            ),
            Err(e) => burn_item_failed(
                *old(state),
                *final(state),
                *env,
                burn_token,
                crate::util::opt_view(*memo),
                e,
            ),
        },
{
    let tkn_idx = match token_index(&state.tokens, &burn_token.token_id) {
        Some(i) => i,
        None => {
            return Err(Error::NotFound);
        },
    };
    if !state.tokens[tkn_idx].info.token_config.enable_burn() {
        return Err(Error::Unauthorized);
    }
    let ghost start = *state;
    let ghost t = burn_token.token_id@;
    let ghost rel = burn_balance_rel(*env, t, crate::util::opt_view(*memo));
    let token_id = burn_token.token_id;
    let mut remaining = burn_token.balances;
    proof {
        assert(burn_token.balances@.subrange(0, 0)
            =~= Seq::<crate::state_structs::TokenIdBalance>::empty());
        assert(burn_token.balances@.subrange(0, burn_token.balances@.len() as int)
            =~= burn_token.balances@);
    }
    while remaining.len() > 0
        invariant
            remaining@.len() <= burn_token.balances@.len(),
            remaining@ == burn_token.balances@.subrange(
                burn_token.balances@.len() - remaining@.len(),
                burn_token.balances@.len() as int,
            ),
            state.wf(),
            chained(
                rel,
                start,
                *state,
                burn_token.balances@.subrange(
                    0,
                    burn_token.balances@.len() - remaining@.len(),
                ),
            ),
            rel == burn_balance_rel(*env, t, crate::util::opt_view(*memo)),
            token_id@ == t,
            t == burn_token.token_id@,
            has_token(state.tokens@, t),
            start == *old(state),
            find_token(old(state).tokens@, t) is Some,
            old(state).spec_token(t).unwrap().info.token_config.spec_enable_burn(),
        decreases remaining@.len(),
    {
        let ghost before = *state;
        let ghost i = burn_token.balances@.len() - remaining@.len();
        let b = remaining.remove(0);
        proof {
            assert(b == burn_token.balances@[i as int]);
            assert(remaining@ =~= burn_token.balances@.subrange(
                i as int + 1,
                burn_token.balances@.len() as int,
            ));
        }
        match burn_one_balance(
            state,
            env,
            &token_id,
            &b.address,
            b.amount,
            crate::util::clone_opt_string(memo),
        ) {
            Ok(_) => {},
            Err(e) => {
                proof {
                    assert(chained(
                        burn_balance_rel(
                            *env,
                            burn_token.token_id@,
                            crate::util::opt_view(*memo),
                        ),
                        *old(state),
                        *state,
                        burn_token.balances@.subrange(0, i),
                    ));
                    if burn_token.balances@[i].address@ != env.sender@ {
                        assert(e == Error::Unauthorized);
                    } else {
                        assert(change_balance_err(
                            *state,
                            burn_token.token_id@,
                            Some(burn_token.balances@[i].address@),
                            None,
                            burn_token.balances@[i].amount,
                        ) == Some(e));
                    }
                }
                return Err(e);
            },
        }
        proof {
            assert(rel(before, *state, burn_token.balances@[i as int]));
            lemma_chained_snoc(
                rel,
                start,
                before,
                *state,
                burn_token.balances@.subrange(0, i as int),
                burn_token.balances@[i as int],
            );
            assert(burn_token.balances@.subrange(0, i as int).push(
                burn_token.balances@[i as int],
            ) =~= burn_token.balances@.subrange(0, i as int + 1));
        }
    }
    Ok(())
}

/// Burns the given balances; in the base policy each burned balance must
/// belong to the caller, and the token line must have burning enabled.
/// The first failure stops the batch.
pub fn try_burn_tokens(
    state: &mut ContractState,
    env: &Env,
    burn_tokens: Vec<crate::state_structs::TokenAmount>,
    memo: Option<String>,
) -> (r: Result<HandleAnswer, Error>)
    requires
        old(state).wf(),
    ensures
        final(state).wf(),
        match r {
            Ok(a) => {
                &&& a == HandleAnswer::BurnTokens { status: ResponseStatus::Success }
                &&& chained(
                    burn_token_rel(*env, crate::util::opt_view(memo)),
                    with_block(*old(state), env.block),
                    *final(state),
                    burn_tokens@,
                )
            },
            Err(e) => exists|i: int, pre_item: ContractState|
                0 <= i < burn_tokens@.len() && #[trigger] chained(
                    burn_token_rel(*env, crate::util::opt_view(memo)),
                    with_block(*old(state), env.block),
                    pre_item,
                    burn_tokens@.subrange(0, i),
                ) && burn_item_failed(
                    pre_item,
                    *final(state),
                    *env,
                    burn_tokens@[i],
                    crate::util::opt_view(memo),
                    e,
                ),
        },
        burn_tokens@.len() == 0 ==> r is Ok,
{
    state.block = env.block;
    let ghost start = *state;
    let ghost rel = burn_token_rel(*env, crate::util::opt_view(memo));
    let mut remaining = burn_tokens;
    proof {
        assert(burn_tokens@.subrange(0, 0)
            =~= Seq::<crate::state_structs::TokenAmount>::empty());
        assert(burn_tokens@.subrange(0, burn_tokens@.len() as int) =~= burn_tokens@);
    }
    while remaining.len() > 0
        invariant
            remaining@.len() <= burn_tokens@.len(),
            remaining@ == burn_tokens@.subrange(
                burn_tokens@.len() - remaining@.len(),
                burn_tokens@.len() as int,
            ),
            state.wf(),
            chained(
                rel,
                start,
                *state,
                burn_tokens@.subrange(0, burn_tokens@.len() - remaining@.len()),
            ),
            rel == burn_token_rel(*env, crate::util::opt_view(memo)),
            start == with_block(*old(state), env.block),
        decreases remaining@.len(),
    {
        let ghost before = *state;
        let ghost i = burn_tokens@.len() - remaining@.len();
        let item = remaining.remove(0);
        proof {
            assert(item == burn_tokens@[i as int]);
            assert(remaining@ =~= burn_tokens@.subrange(
                i as int + 1,
                burn_tokens@.len() as int,
            ));
        }
        match burn_one(state, env, item, &memo) {
            Ok(_) => {},
            Err(e) => {
                return Err(e);
            },
        }
        proof {
            assert(rel(before, *state, burn_tokens@[i as int]));
            lemma_chained_snoc(
                rel,
                start,
                before,
                *state,
                burn_tokens@.subrange(0, i as int),
                burn_tokens@[i as int],
            );
            assert(burn_tokens@.subrange(0, i as int).push(burn_tokens@[i as int])
                =~= burn_tokens@.subrange(0, i as int + 1));
        }
    }
    Ok(HandleAnswer::BurnTokens { status: ResponseStatus::Success })
}

/// Appending a registry entry whose token_id is absent keeps the registry
/// keys unique.
pub proof fn lemma_tokens_push_unique(s: Seq<TokenEntry>, e: TokenEntry)
    requires
        tokens_unique(s),
        find_token(s, e.info.token_id@) is None,
    ensures
        tokens_unique(s.push(e)),
{
    lemma_find_token(s, e.info.token_id@);
    let u = s.push(e);
    assert forall|x: int, y: int| 0 <= x < y < u.len() implies (#[trigger] u[x]).info.token_id@
        != (#[trigger] u[y]).info.token_id@ by {
        if y == u.len() - 1 {
            assert(u[x] == s[x]);
            assert(u[y] == e);
        } else {
            assert(u[x] == s[x]);
            assert(u[y] == s[y]);
        }
    }
}

/// Re-establishes the state invariant after a fresh token line, with no
/// balances and a supply of zero, entered the registry and the curated
/// list.
proof fn wf_after_token_insert(pre: ContractState, post: ContractState, t: Seq<char>)
    requires
        pre.wf(),
        find_token(pre.tokens@, t) is None,
        post.tokens@ == pre.tokens@.push(post.tokens@.last()),
        post.tokens@.last().info.token_id@ == t,
        post.tokens@.last().total_supply == 0,
        post.config.token_id_list@ == pre.config.token_id_list@.push(
            post.config.token_id_list@.last(),
        ),
        post.config.token_id_list@.last()@ == t,
        post.config.admin == pre.config.admin,
        post.config.curators == pre.config.curators,
        post.config.tx_cnt == pre.config.tx_cnt,
        post.config.contract_address == pre.config.contract_address,
        post.balances == pre.balances,
        post.permissions == pre.permissions,
        post.txs == pre.txs,
        post.addr_tx_ids == pre.addr_tx_ids,
    ensures
        post.wf(),
{
    lemma_find_token(pre.tokens@, t);
    lemma_tokens_push_unique(pre.tokens@, post.tokens@.last());
    assert(tokens_unique(post.tokens@));
    assert forall|i: int| 0 <= i < post.balances@.len() implies has_token(
        post.tokens@,
        (#[trigger] post.balances@[i]).token_id@,
    ) by {
        assert(has_token(pre.tokens@, pre.balances@[i].token_id@));
        lemma_find_token(pre.tokens@, pre.balances@[i].token_id@);
        lemma_find_token(post.tokens@, pre.balances@[i].token_id@);
        let k = choose|k: int|
            0 <= k < pre.tokens@.len() && (#[trigger] pre.tokens@[k]).info.token_id@
                == pre.balances@[i].token_id@ && find_token(
                pre.tokens@,
                pre.balances@[i].token_id@,
            ) == Some(pre.tokens@[k]);
        assert(post.tokens@[k] == pre.tokens@[k]);
        assert(post.tokens@[k].info.token_id@ == pre.balances@[i].token_id@);
    }
    assert forall|i: int| 0 <= i < post.tokens@.len() implies sum_for(
        post.balances@,
        (#[trigger] post.tokens@[i]).info.token_id@,
    ) == post.tokens@[i].total_supply as int by {
        if i < pre.tokens@.len() {
            assert(post.tokens@[i] == pre.tokens@[i]);
        } else {
            assert(post.tokens@[i] == post.tokens@.last());
            assert forall|j: int|
                0 <= j < post.balances@.len() implies (#[trigger] post.balances@[j]).token_id@
                != t by {
                if post.balances@[j].token_id@ == t {
                    assert(has_token(pre.tokens@, t));
                }
            }
            lemma_sum_absent(post.balances@, t);
        }
    }
    assert forall|i: int|
        0 <= i < post.tokens@.len() && (#[trigger] post.tokens@[i]).info.token_config.spec_is_nft()
            implies post.tokens@[i].total_supply <= 1 by {
        if i < pre.tokens@.len() {
            assert(post.tokens@[i] == pre.tokens@[i]);
        }
    }
    assert forall|i: int| 0 <= i < post.tokens@.len() implies post.config.token_id_list@[i]@ == (
    #[trigger] post.tokens@[i]).info.token_id@ by {
        if i < pre.tokens@.len() {
            assert(post.tokens@[i] == pre.tokens@[i]);
            assert(post.config.token_id_list@[i] == pre.config.token_id_list@[i]);
        }
    }
}

} // verus!
