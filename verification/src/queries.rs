//! The read-only queries: contract information, balances, transaction
//! history, permissions, and per-token-line information.  A caller's
//! identity is assumed to have been established by the host's credential
//! layer; the permission checks here are the ledger's own.

use vstd::prelude::*;

use crate::error::Error;
use crate::metadata::opt_metadata_view;
use crate::permissions::{
    find_perm, may_load_any_permission, perm_keys_for, Permission, PermissionKey,
};
use crate::state::{bal_of, balance_index, current_owner, find_receiver, token_index,
    ContractState};
use crate::state_structs::{conf_eqv, TknInfo};
use crate::txhistory::{get_txs, tx_ids_for, Tx};
use crate::util::{clone_string_vec, clone_opt_string, opt_view, page_desc};

verus! {

/// What a query returns.
#[derive(Debug, PartialEq)]
pub enum QueryAnswer {
    ContractInfo { admin: Option<String>, curators: Vec<String>, all_token_ids: Vec<String> },
    Balance { amount: u128 },
    TransactionHistory { txs: Vec<Tx>, total: Option<u64> },
    Permission(Option<Permission>),
    AllPermissions {
        permission_keys: Vec<PermissionKey>,
        permissions: Vec<Permission>,
        total: u64,
    },
    /// Public information; the private metadata is always withheld.
    TokenIdPublicInfo { token_id_info: TknInfo, total_supply: Option<u128>, owner: Option<String> },
    /// As the public query, but the private metadata is included for a
    /// viewer that holds units or an unexpired viewing right.
    TokenIdPrivateInfo {
        token_id_info: TknInfo,
        total_supply: Option<u128>,
        owner: Option<String>,
    },
    RegisteredCodeHash { code_hash: Option<String> },
}

/// The deployment's public configuration: its admin, its curators, and
/// every token_id ever curated.
pub fn query_contract_info(state: &ContractState) -> (r: QueryAnswer)
    ensures
        r matches QueryAnswer::ContractInfo { admin, curators, all_token_ids } && opt_view(admin)
            == opt_view(state.config.admin) && curators@ == state.config.curators@
            && all_token_ids@ == state.config.token_id_list@,
{
    QueryAnswer::ContractInfo {
        admin: clone_opt_string(&state.config.admin),
        curators: clone_string_vec(&state.config.curators),
        all_token_ids: clone_string_vec(&state.config.token_id_list),
    }
}

/// Whether `viewer` may see `owner`'s balance: the owner itself always,
/// anyone else only with an unexpired view-balance right on the token line.
pub open spec fn view_balance_allowed(
    s: ContractState,
    owner: Seq<char>,
    viewer: Seq<char>,
    token_id: Seq<char>,
) -> bool {
    ||| owner == viewer
    ||| (match find_perm(s.permissions@, owner, token_id, viewer) {
        Some(p) => p.spec_check_view_balance(s.block),
        None => false,
    })
}

/// The balance of `owner` in `token_id`, for an allowed viewer; an absent
/// entry reads as zero.
pub fn query_balance(
    state: &ContractState,
    owner: &String,
    viewer: &String,
    token_id: String,
) -> (r: Result<QueryAnswer, Error>)
    requires
        state.wf(),
    ensures
        match r {
            Ok(a) => {
                &&& view_balance_allowed(*state, owner@, viewer@, token_id@)
                &&& a matches QueryAnswer::Balance { amount } && amount == state.spec_balance(
                    token_id@,
                    owner@,
                )
            },
            Err(e) => {
                &&& e == Error::Unauthorized
                &&& !view_balance_allowed(*state, owner@, viewer@, token_id@)
            },
        },
{
    if !(*owner == *viewer) {
        let permission_op = may_load_any_permission(state, owner, &token_id, viewer);
        match permission_op {
            None => {
                return Err(Error::Unauthorized);
            },
            Some(perm) => {
                if !perm.check_view_balance_perm(&state.block) {
                    return Err(Error::Unauthorized);
                }
            },
        }
    }
    let amount: u128 = match balance_index(&state.balances, &token_id, owner) {
        Some(i) => state.balances[i].amount,
        None => 0u128,
    };
    Ok(QueryAnswer::Balance { amount })
}

/// One page of the transactions `account` took part in, newest first, with
/// the total count; a principal with no history gets an empty page.
pub fn query_transactions(
    state: &ContractState,
    account: &String,
    page: u32,
    page_size: u32,
) -> (r: QueryAnswer)
    requires
        state.wf(),
    ensures
        r matches QueryAnswer::TransactionHistory { txs, total } && ({
            let ids = tx_ids_for(state.addr_tx_ids@, account@);
            let pg = page_desc(ids, page as int, page_size as int);
            &&& total == Some(ids.len() as u64)
            &&& txs@.len() == pg.len()
            &&& forall|k: int|
                0 <= k < pg.len() ==> (#[trigger] txs@[k]).tx_id == pg[k]
                    && crate::txhistory::tx_eqv(txs@[k], state.txs@[pg[k] as int])
            &&& forall|k1: int, k2: int|
                0 <= k1 < k2 < txs@.len() ==> (#[trigger] txs@[k1]).tx_id > (
                #[trigger] txs@[k2]).tx_id
        }),
{
    let (txs, total) = get_txs(state, account, page, page_size);
    QueryAnswer::TransactionHistory { txs, total: Some(total) }
}

/// The permission `owner` granted `allowed_addr` on `token_id`, dormant
/// ones included; `None` where none was ever created.
pub fn query_permission(
    state: &ContractState,
    token_id: String,
    owner: String,
    allowed_addr: String,
) -> (r: QueryAnswer)
    requires
        state.wf(),
    ensures
        r == QueryAnswer::Permission(state.spec_permission(owner@, token_id@, allowed_addr@)),
{
    let permission = may_load_any_permission(state, &owner, &token_id, &allowed_addr);
    QueryAnswer::Permission(permission)
}

/// Two permission keys that read the same.
pub open spec fn pkey_eqv(a: PermissionKey, b: PermissionKey) -> bool {
    a.token_id@ == b.token_id@ && a.allowed_addr@ == b.allowed_addr@
}

/// One page of the (token_id, spender) pairs `owner` has granted under,
/// newest first, with the total count of recorded pairs.
pub fn list_owner_permission_keys(
    state: &ContractState,
    owner: &String,
    page: u32,
    page_size: u32,
) -> (r: (Vec<PermissionKey>, u64))
    requires
        state.wf(),
    ensures
        ({
            let ks = perm_keys_for(state.permission_keys@, owner@);
            let pg = page_desc(ks, page as int, page_size as int);
            &&& r.1 == ks.len()
            &&& r.0@.len() == pg.len()
            &&& forall|k: int| 0 <= k < pg.len() ==> pkey_eqv(#[trigger] r.0@[k], pg[k])
        }),
{
    let mut keys: Vec<PermissionKey> = Vec::new();
    let mut i: usize = 0;
    proof {
        assert(state.permission_keys@.subrange(0, 0)
            =~= Seq::<crate::permissions::OwnerPermKey>::empty());
    }
    while i < state.permission_keys.len()
        invariant
            i <= state.permission_keys@.len(),
            keys@.len() == perm_keys_for(
                state.permission_keys@.subrange(0, i as int),
                owner@,
            ).len(),
            forall|j: int|
                0 <= j < keys@.len() ==> pkey_eqv(
                    #[trigger] keys@[j],
                    perm_keys_for(state.permission_keys@.subrange(0, i as int), owner@)[j],
                ),
        decreases state.permission_keys@.len() - i,
    {
        proof {
            assert(state.permission_keys@.subrange(0, i as int + 1).drop_last()
                =~= state.permission_keys@.subrange(0, i as int));
            assert(state.permission_keys@.subrange(0, i as int + 1).last()
                == state.permission_keys@[i as int]);
        }
        if state.permission_keys[i].owner == *owner {
            keys.push(state.permission_keys[i].key.clone());
        }
        i = i + 1;
    }
    proof {
        assert(state.permission_keys@.subrange(0, state.permission_keys@.len() as int)
            =~= state.permission_keys@);
    }
    let total: u64 = keys.len() as u64;
    proof {
        vstd::arithmetic::mul::lemma_mul_upper_bound(
            page as int,
            u32::MAX as int,
            page_size as int,
            u32::MAX as int,
        );
    }
    let skip: u64 = (page as u64) * (page_size as u64);
    let ghost ks = perm_keys_for(state.permission_keys@, owner@);
    let ghost pg = page_desc(ks, page as int, page_size as int);
    let mut out: Vec<PermissionKey> = Vec::new();
    let mut k: u64 = 0;
    while k < (page_size as u64) && skip + k < total
        invariant
            keys@.len() == ks.len(),
            forall|j: int| 0 <= j < ks.len() ==> pkey_eqv(#[trigger] keys@[j], ks[j]),
            total == ks.len(),
            skip == (page as u64) * (page_size as u64),
            skip == page as int * page_size as int,
            pg == page_desc(ks, page as int, page_size as int),
            k <= page_size as u64,
            skip + k <= total || k == 0,
            out@.len() == k,
            forall|j: int|
                0 <= j < k ==> pkey_eqv(#[trigger] out@[j], ks[total - 1 - skip - j]),
        decreases (page_size as u64) - k,
    {
        let idx64: u64 = total - 1 - skip - k;
        let n_keys: usize = keys.len();
        assert(idx64 < n_keys as u64);
        let idx: usize = idx64 as usize;
        let key = keys[idx].clone();
        proof {
            assert(out@.push(key).drop_last() =~= out@);
        }
        out.push(key);
        k = k + 1;
    }
    proof {
        if skip >= total || page_size == 0 {
            assert(pg.len() == 0);
        } else {
            assert(pg.len() == k);
            assert forall|j: int| 0 <= j < pg.len() implies pkey_eqv(#[trigger] out@[j], pg[j]) by {
                assert(pg[j] == ks[ks.len() - 1 - (page as int * page_size as int) - j]);
                assert(pkey_eqv(out@[j], ks[total - 1 - skip - j]));
            }
        }
    }
    (out, total)
}

/// The keys of `keys` whose permission entry exists, in order.
pub open spec fn keys_with_perm(
    s: ContractState,
    owner: Seq<char>,
    keys: Seq<PermissionKey>,
) -> Seq<PermissionKey>
    decreases keys.len(),
{
    if keys.len() == 0 {
        Seq::empty()
    } else {
        let rest = keys_with_perm(s, owner, keys.drop_last());
        if find_perm(s.permissions@, owner, keys.last().token_id@, keys.last().allowed_addr@)
            is Some {
            rest.push(keys.last())
        } else {
            rest
        }
    }
}

/// The permissions stored under the keys of `keys` that exist, in order.
pub open spec fn perms_of_keys(
    s: ContractState,
    owner: Seq<char>,
    keys: Seq<PermissionKey>,
) -> Seq<Permission>
    decreases keys.len(),
{
    if keys.len() == 0 {
        Seq::empty()
    } else {
        let rest = perms_of_keys(s, owner, keys.drop_last());
        match find_perm(s.permissions@, owner, keys.last().token_id@, keys.last().allowed_addr@) {
            Some(p) => rest.push(p),
            None => rest,
        }
    }
}

/// One page of everything `account` has granted: the recorded pairs, their
/// stored permissions, and the total count of recorded pairs.  The
/// enumeration index may hold duplicates; the permission store is the
/// truth, so pairs without a stored entry are dropped.
pub fn query_all_permissions(
    state: &ContractState,
    account: &String,
    page: u32,
    page_size: u32,
) -> (r: QueryAnswer)
    requires
        state.wf(),
    ensures
        r matches QueryAnswer::AllPermissions { permission_keys, permissions, total } && ({
            let ks = perm_keys_for(state.permission_keys@, account@);
            let pg = page_desc(ks, page as int, page_size as int);
            &&& total == ks.len()
            &&& permission_keys@.len() == keys_with_perm(*state, account@, pg).len()
            &&& forall|j: int|
                0 <= j < permission_keys@.len() ==> pkey_eqv(
                    #[trigger] permission_keys@[j],
                    keys_with_perm(*state, account@, pg)[j],
                )
            &&& permissions@ == perms_of_keys(*state, account@, pg)
        }),
{
    let (pkeys, total) = list_owner_permission_keys(state, account, page, page_size);
    let ghost ks = perm_keys_for(state.permission_keys@, account@);
    let ghost pg = page_desc(ks, page as int, page_size as int);
    let mut permissions: Vec<Permission> = Vec::new();
    let mut valid_pkeys: Vec<PermissionKey> = Vec::new();
    let mut i: usize = 0;
    proof {
        assert(pg.subrange(0, 0) =~= Seq::<PermissionKey>::empty());
    }
    while i < pkeys.len()
        invariant
            state.wf(),
            i <= pkeys@.len(),
            pkeys@.len() == pg.len(),
            forall|j: int| 0 <= j < pg.len() ==> pkey_eqv(#[trigger] pkeys@[j], pg[j]),
            valid_pkeys@.len() == keys_with_perm(*state, account@, pg.subrange(0, i as int)).len(),
            forall|j: int|
                0 <= j < valid_pkeys@.len() ==> pkey_eqv(
                    #[trigger] valid_pkeys@[j],
                    keys_with_perm(*state, account@, pg.subrange(0, i as int))[j],
                ),
            permissions@ == perms_of_keys(*state, account@, pg.subrange(0, i as int)),
        decreases pkeys@.len() - i,
    {
        proof {
            assert(pg.subrange(0, i as int + 1).drop_last() =~= pg.subrange(0, i as int));
            assert(pg.subrange(0, i as int + 1).last() == pg[i as int]);
        }
        let permission = may_load_any_permission(
            state,
            account,
            &pkeys[i].token_id,
            &pkeys[i].allowed_addr,
        );
        match permission {
            Some(p) => {
                permissions.push(p);
                valid_pkeys.push(pkeys[i].clone());
            },
            None => {},
        }
        i = i + 1;
    }
    proof {
        assert(pg.subrange(0, pg.len() as int) =~= pg);
    }
    QueryAnswer::AllPermissions { permission_keys: valid_pkeys, permissions, total }
}

/// The public face of one token line: its stored information with the
/// private metadata withheld, its supply where public, and its owner where
/// public.
pub fn query_token_id_public_info(state: &ContractState, token_id: String) -> (r: Result<
    QueryAnswer,
    Error,
>)
    requires
        state.wf(),
    ensures
        match r {
            Ok(a) => {
                &&& state.spec_token(token_id@) is Some
                &&& ({
                    let e = state.spec_token(token_id@).unwrap();
                    a matches QueryAnswer::TokenIdPublicInfo {
                        token_id_info,
                        total_supply,
                        owner,
                    } && token_id_info.token_id@ == e.info.token_id@ && token_id_info.name@
                        == e.info.name@ && token_id_info.symbol@ == e.info.symbol@ && conf_eqv(
                        token_id_info.token_config,
                        e.info.token_config,
                    ) && opt_metadata_view(token_id_info.public_metadata) == opt_metadata_view(
                        e.info.public_metadata,
                    ) && token_id_info.private_metadata is None && token_id_info.curator@
                        == e.info.curator@ && total_supply == (if e.info.token_config.spec_public_total_supply() {
                        Some(e.total_supply)
                    } else {
                        None
                    }) && opt_view(owner) == (if e.info.token_config.spec_owner_is_public() {
                        current_owner(state.owner_history@, token_id@)
                    } else {
                        None
                    })
                })
            },
            Err(e) => e == Error::NotFound && state.spec_token(token_id@) is None,
        },
{
    let tkn_idx = match token_index(&state.tokens, &token_id) {
        Some(i) => i,
        None => {
            return Err(Error::NotFound);
        },
    };
    let entry = &state.tokens[tkn_idx];
    let owner: Option<String> = if entry.info.token_config.flatten().owner_is_public {
        state.may_get_current_owner(&token_id)
    } else {
        None
    };
    let total_supply: Option<u128> = if entry.info.token_config.flatten().public_total_supply {
        Some(entry.total_supply)
    } else {
        None
    };
    let token_id_info = TknInfo {
        token_id: entry.info.token_id.clone(),
        name: entry.info.name.clone(),
        symbol: entry.info.symbol.clone(),
        token_config: entry.info.token_config.clone(),
        public_metadata: crate::metadata::clone_opt_metadata(&entry.info.public_metadata),
        private_metadata: None,
        curator: entry.info.curator.clone(),
    };
    Ok(QueryAnswer::TokenIdPublicInfo { token_id_info, total_supply, owner })
}

/// Whether `viewer` may see the private metadata of token line `t`: a
/// holder of some of its units always, anyone else only with an unexpired
/// view-private-metadata right from its current owner.
pub open spec fn view_private_metadata_allowed(
    s: ContractState,
    viewer: Seq<char>,
    t: Seq<char>,
) -> bool {
    let owner_or_empty = match current_owner(s.owner_history@, t) {
        Some(o) => o,
        None => Seq::<char>::empty(),
    };
    ||| bal_of(s.balances@, t, viewer) > 0
    ||| (match find_perm(s.permissions@, owner_or_empty, t, viewer) {
        Some(p) => p.spec_check_view_pr_metadata(s.block),
        None => false,
    })
}

/// The private face of one token line, for a viewer that holds units or a
/// viewing right.  A viewer with neither is refused outright where no
/// permission entry exists, and otherwise receives the record with the
/// private metadata withheld when the right does not stand.
pub fn query_token_id_private_info(
    state: &ContractState,
    viewer: &String,
    token_id: String,
) -> (r: Result<QueryAnswer, Error>)
    requires
        state.wf(),
    ensures
        match r {
            Ok(a) => {
                &&& state.spec_token(token_id@) is Some
                &&& ({
                    let e = state.spec_token(token_id@).unwrap();
                    a matches QueryAnswer::TokenIdPrivateInfo {
                        token_id_info,
                        total_supply,
                        owner,
                    } && token_id_info.token_id@ == e.info.token_id@ && token_id_info.name@
                        == e.info.name@ && token_id_info.symbol@ == e.info.symbol@ && conf_eqv(
                        token_id_info.token_config,
                        e.info.token_config,
                    ) && opt_metadata_view(token_id_info.public_metadata) == opt_metadata_view(
                        e.info.public_metadata,
                    ) && opt_metadata_view(token_id_info.private_metadata) == (
                    if view_private_metadata_allowed(*state, viewer@, token_id@) {
                        opt_metadata_view(e.info.private_metadata)
                    } else {
                        None
                    }) && token_id_info.curator@ == e.info.curator@ && total_supply == (
                    if e.info.token_config.spec_public_total_supply() {
                        Some(e.total_supply)
                    } else {
                        None
                    }) && opt_view(owner) == (if e.info.token_config.spec_owner_is_public() {
                        current_owner(state.owner_history@, token_id@)
                    } else {
                        None
                    })
                })
            },
            Err(e) => {
                &&& (e == Error::NotFound && state.spec_token(token_id@) is None) || (e
                    == Error::Unauthorized && state.spec_token(token_id@) is Some)
            },
        },
{
    let tkn_idx = match token_index(&state.tokens, &token_id) {
        Some(i) => i,
        None => {
            return Err(Error::NotFound);
        },
    };
    let entry = &state.tokens[tkn_idx];
    let owner: Option<String> = if entry.info.token_config.flatten().owner_is_public {
        state.may_get_current_owner(&token_id)
    } else {
        None
    };
    let viewer_owns_some = match balance_index(&state.balances, &token_id, viewer) {
        Some(i) => state.balances[i].amount > 0,
        None => false,
    };
    let mut may_view_private = viewer_owns_some;
    if !viewer_owns_some {
        let owner_full = match state.may_get_current_owner(&token_id) {
            Some(o) => o,
            None => String::new(),
        };
        let permission_op = may_load_any_permission(state, &owner_full, &token_id, viewer);
        match permission_op {
            None => {
                return Err(Error::Unauthorized);
            },
            Some(perm) => {
                if perm.check_view_pr_metadata_perm(&state.block) {
                    may_view_private = true;
                }
            },
        }
    }
    let total_supply: Option<u128> = if entry.info.token_config.flatten().public_total_supply {
        Some(entry.total_supply)
    } else {
        None
    };
    let token_id_info = TknInfo {
        token_id: entry.info.token_id.clone(),
        name: entry.info.name.clone(),
        symbol: entry.info.symbol.clone(),
        token_config: entry.info.token_config.clone(),
        public_metadata: crate::metadata::clone_opt_metadata(&entry.info.public_metadata),
        private_metadata: if may_view_private {
            crate::metadata::clone_opt_metadata(&entry.info.private_metadata)
        } else {
            None
        },
        curator: entry.info.curator.clone(),
    };
    Ok(QueryAnswer::TokenIdPrivateInfo { token_id_info, total_supply, owner })
}

/// The code hash `contract` registered for transfer notifications, if any.
pub fn query_registered_code_hash(state: &ContractState, contract: &String) -> (r: QueryAnswer)
    ensures
        r matches QueryAnswer::RegisteredCodeHash { code_hash } && opt_view(code_hash)
            == find_receiver(state.receiver_hashes@, contract@),
{
    let code_hash = crate::state::get_receiver_hash(&state.receiver_hashes, contract);
    QueryAnswer::RegisteredCodeHash { code_hash }
}

} // verus!
