//! The query tests: contract information, balances with view permissions
//! and their expiry, stored permissions, and per-token-line information.

use snip1155::error::Error;
use snip1155::expiration::{BlockInfo, Expiration};
use snip1155::handles::{init, try_add_curators, try_give_permission};
use snip1155::msg::InitMsg;
use snip1155::permissions::Permission;
use snip1155::queries::{
    query_balance, query_contract_info, query_permission, query_token_id_private_info, QueryAnswer,
};
use snip1155::state::ContractState;
use snip1155::state_structs::{CurateTokenId, Env};

fn addr(s: &str) -> String {
    s.to_string()
}

fn env(sender: &str) -> Env {
    Env {
        block: BlockInfo { height: 12345, time: 1571797419 },
        sender: sender.to_string(),
        contract_address: "cosmos2contract".to_string(),
    }
}

fn env_at(sender: &str, height: u64) -> Env {
    Env {
        block: BlockInfo { height, time: 1571797419 },
        sender: sender.to_string(),
        contract_address: "cosmos2contract".to_string(),
    }
}

fn init_helper_default() -> ContractState {
    let e = env("addr0");
    init(
        &e,
        InitMsg {
            has_admin: true,
            admin: None,
            curators: vec![addr("addr0")],
            initial_tokens: vec![CurateTokenId::default()],
        },
    )
    .unwrap()
}

fn curate_addtl_default(state: &mut ContractState) {
    let e = env("addr0");
    let mut c0a = CurateTokenId::default();
    c0a.token_info.token_id = "0a".to_string();
    c0a.token_info.name = "token0a".to_string();
    c0a.token_info.symbol = "TKNO".to_string();
    c0a.balances[0].amount = 800;
    snip1155::handles::try_curate_token_ids(state, &e, vec![c0a], None).unwrap();
}

#[test]
fn test_q_init() {
    let state = init_helper_default();

    match query_contract_info(&state) {
        QueryAnswer::ContractInfo { admin, curators, all_token_ids } => {
            assert_eq!(admin.unwrap(), addr("addr0"));
            assert_eq!(curators, vec![addr("addr0")]);
            assert_eq!(all_token_ids, vec!["0".to_string()]);
        },
        _ => panic!("query error"),
    }

    // a holder reads its own balance
    match query_balance(&state, &addr("addr0"), &addr("addr0"), "0".to_string()).unwrap() {
        QueryAnswer::Balance { amount } => assert_eq!(amount, 1000),
        _ => panic!("query error"),
    }
}

#[test]
fn test_q_permission() {
    let mut state = init_helper_default();

    // addr0 grants addr1 a view-balance right and an allowance of 10
    try_give_permission(
        &mut state,
        &env("addr0"),
        addr("addr1"),
        "0".to_string(),
        Some(true),
        None,
        None,
        None,
        Some(10),
        None,
    )
    .unwrap();

    let expected = Permission {
        view_balance_perm: true,
        view_balance_exp: Expiration::default(),
        view_pr_metadata_perm: false,
        view_pr_metadata_exp: Expiration::default(),
        trfer_allowance_perm: 10,
        trfer_allowance_exp: Expiration::default(),
    };

    // the stored permission is readable by either party of the grant
    match query_permission(&state, "0".to_string(), addr("addr0"), addr("addr1")) {
        QueryAnswer::Permission(perm) => assert_eq!(perm.unwrap_or_default(), expected),
        _ => panic!("query error"),
    }
    match query_permission(&state, "0".to_string(), addr("addr0"), addr("addr1")) {
        QueryAnswer::Permission(perm) => assert_eq!(perm.unwrap_or_default(), expected),
        _ => panic!("query error"),
    }
}

#[test]
fn test_query_balance() {
    let mut state = init_helper_default();
    curate_addtl_default(&mut state);

    // a holder reads its own balance
    match query_balance(&state, &addr("addr0"), &addr("addr0"), "0".to_string()).unwrap() {
        QueryAnswer::Balance { amount } => assert_eq!(amount, 1000),
        _ => panic!("query error"),
    }

    // another principal cannot read it without a view-balance right
    let result = query_balance(&state, &addr("addr0"), &addr("addr1"), "0".to_string());
    assert_eq!(result, Err(Error::Unauthorized));

    // a grant of the wrong rights does not help
    try_give_permission(
        &mut state,
        &env("addr0"),
        addr("addr1"),
        "0".to_string(),
        None,
        None,
        Some(true),
        None,
        Some(1000),
        None,
    )
    .unwrap();
    let result = query_balance(&state, &addr("addr0"), &addr("addr1"), "0".to_string());
    assert_eq!(result, Err(Error::Unauthorized));

    // the right grant, with an expiry one block ahead, lets addr1 read it
    try_give_permission(
        &mut state,
        &env("addr0"),
        addr("addr1"),
        "0".to_string(),
        Some(true),
        Some(Expiration::AtHeight(12346)),
        None,
        None,
        None,
        None,
    )
    .unwrap();
    match query_balance(&state, &addr("addr0"), &addr("addr1"), "0".to_string()).unwrap() {
        QueryAnswer::Balance { amount } => assert_eq!(amount, 1000),
        _ => panic!("query error"),
    }

    // the grant covers only token line "0", not "0a"...
    let result = query_balance(&state, &addr("addr0"), &addr("addr1"), "0a".to_string());
    assert_eq!(result, Err(Error::Unauthorized));

    // ...but addr0 still reads its own "0a" balance
    match query_balance(&state, &addr("addr0"), &addr("addr0"), "0a".to_string()).unwrap() {
        QueryAnswer::Balance { amount } => assert_eq!(amount, 800),
        _ => panic!("query error"),
    }

    // addr2 got no grant at all
    let result = query_balance(&state, &addr("addr0"), &addr("addr2"), "0a".to_string());
    assert_eq!(result, Err(Error::Unauthorized));

    // once the clock passes the expiry — the next handled operation moves
    // it — the right has lapsed
    try_add_curators(&mut state, &env_at("addr0", 12347), vec![]).unwrap();
    let result = query_balance(&state, &addr("addr0"), &addr("addr1"), "0".to_string());
    assert_eq!(result, Err(Error::Unauthorized));

    // the owner still reads its own balance after the grant lapsed
    match query_balance(&state, &addr("addr0"), &addr("addr0"), "0".to_string()).unwrap() {
        QueryAnswer::Balance { amount } => assert_eq!(amount, 1000),
        _ => panic!("query error"),
    }
}

#[test]
fn test_query_tokenid_private_info() {
    let state = init_helper_default();

    // the holder of units of "0" sees the private metadata
    match query_token_id_private_info(&state, &addr("addr0"), "0".to_string()).unwrap() {
        QueryAnswer::TokenIdPrivateInfo { token_id_info, total_supply, owner } => {
            assert_eq!(
                token_id_info.public_metadata.unwrap().token_uri,
                Some("public uri".to_string())
            );
            assert_eq!(
                token_id_info.private_metadata.unwrap().token_uri,
                Some("private uri".to_string())
            );
            assert_eq!(total_supply, Some(1000));
            assert!(owner.is_none());
        },
        _ => panic!("query error"),
    }

    // a principal with no units and no grant is refused
    let result = query_token_id_private_info(&state, &addr("addr1"), "0".to_string());
    assert_eq!(result, Err(Error::Unauthorized));
}

#[test]
fn test_query_all_permissions() {
    let mut state = init_helper_default();

    // addr0 grants two spenders on token line "0"
    try_give_permission(
        &mut state,
        &env("addr0"),
        addr("addr1"),
        "0".to_string(),
        Some(true),
        None,
        None,
        None,
        None,
        None,
    )
    .unwrap();
    try_give_permission(
        &mut state,
        &env("addr0"),
        addr("addr2"),
        "0".to_string(),
        None,
        None,
        None,
        None,
        Some(25),
        None,
    )
    .unwrap();

    // the page lists both grants, newest first
    match snip1155::queries::query_all_permissions(&state, &addr("addr0"), 0, 10) {
        snip1155::queries::QueryAnswer::AllPermissions { permission_keys, permissions, total } => {
            assert_eq!(total, 2);
            assert_eq!(permission_keys.len(), 2);
            assert_eq!(permission_keys[0].allowed_addr, addr("addr2"));
            assert_eq!(permission_keys[1].allowed_addr, addr("addr1"));
            assert_eq!(permissions.len(), 2);
            assert_eq!(permissions[0].trfer_allowance_perm, 25);
            assert!(permissions[1].view_balance_perm);
        },
        _ => panic!("query error"),
    }

    // an updated grant does not add a second index entry
    try_give_permission(
        &mut state,
        &env("addr0"),
        addr("addr1"),
        "0".to_string(),
        Some(false),
        None,
        None,
        None,
        None,
        None,
    )
    .unwrap();
    match snip1155::queries::query_all_permissions(&state, &addr("addr0"), 0, 10) {
        snip1155::queries::QueryAnswer::AllPermissions { permission_keys, total, .. } => {
            assert_eq!(total, 2);
            assert_eq!(permission_keys.len(), 2);
        },
        _ => panic!("query error"),
    }

    // a principal that granted nothing has an empty listing
    match snip1155::queries::query_all_permissions(&state, &addr("addr3"), 0, 10) {
        snip1155::queries::QueryAnswer::AllPermissions { permission_keys, total, .. } => {
            assert_eq!(total, 0);
            assert_eq!(permission_keys.len(), 0);
        },
        _ => panic!("query error"),
    }
}

#[test]
fn test_query_nft_private_info_with_grant() {
    let mut state = init_helper_default();
    let mut curate = CurateTokenId::default();
    curate.token_info.token_id = "N0".to_string();
    curate.token_info.token_config = snip1155::state_structs::TknConf::default_nft();
    curate.balances = vec![snip1155::state_structs::TokenIdBalance {
        address: addr("addr2"),
        amount: 1,
    }];
    snip1155::handles::try_curate_token_ids(&mut state, &env("addr0"), vec![curate], None)
        .unwrap();

    // a stranger with no grant is refused
    let result = query_token_id_private_info(&state, &addr("addr1"), "N0".to_string());
    assert_eq!(result, Err(Error::Unauthorized));

    // the owner grants addr1 a view-private-metadata right
    try_give_permission(
        &mut state,
        &env("addr2"),
        addr("addr1"),
        "N0".to_string(),
        None,
        None,
        Some(true),
        None,
        None,
        None,
    )
    .unwrap();
    match query_token_id_private_info(&state, &addr("addr1"), "N0".to_string()).unwrap() {
        QueryAnswer::TokenIdPrivateInfo { token_id_info, owner, .. } => {
            assert_eq!(
                token_id_info.private_metadata.unwrap().token_uri,
                Some("private uri".to_string())
            );
            assert_eq!(owner, Some(addr("addr2")));
        },
        _ => panic!("query error"),
    }

    // once the owner flips the right off, the metadata is withheld but the
    // record itself is still served
    try_give_permission(
        &mut state,
        &env("addr2"),
        addr("addr1"),
        "N0".to_string(),
        None,
        None,
        Some(false),
        None,
        None,
        None,
    )
    .unwrap();
    match query_token_id_private_info(&state, &addr("addr1"), "N0".to_string()).unwrap() {
        QueryAnswer::TokenIdPrivateInfo { token_id_info, .. } => {
            assert!(token_id_info.private_metadata.is_none());
        },
        _ => panic!("query error"),
    }
}
