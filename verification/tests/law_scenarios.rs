//! Scenario and edge-case tests: the fungible and NFT lifecycle end to
//! end, each error kind, pagination of history, expiry, padding, and the
//! configuration helpers.

use snip1155::error::Error;
use snip1155::expiration::{BlockInfo, Expiration};
use snip1155::handles::{
    init, is_valid_name, is_valid_symbol, try_add_curators, try_burn_tokens,
    try_curate_token_ids, try_give_permission, try_mint_tokens, try_register_receive,
    try_revoke_permission, try_send, try_transfer,
};
use snip1155::msg::{space_pad, InitMsg, SendAction};
use snip1155::queries::{
    query_registered_code_hash, query_token_id_public_info, query_transactions, QueryAnswer,
};
use snip1155::state::{balance_index, ContractState};
use snip1155::state_structs::{CurateTokenId, Env, TknConf, TokenAmount, TokenIdBalance};

fn addr(s: &str) -> String {
    s.to_string()
}

fn env(sender: &str) -> Env {
    Env {
        block: BlockInfo { height: 12345, time: 1571797419 },
        sender: sender.to_string(),
        contract_address: "cosmos2contract".to_string(),
    }
}

fn fresh_state() -> ContractState {
    init(
        &env("addr0"),
        InitMsg {
            has_admin: true,
            admin: None,
            curators: vec![addr("addr0")],
            initial_tokens: vec![],
        },
    )
    .unwrap()
}

fn init_helper_default() -> ContractState {
    init(
        &env("addr0"),
        InitMsg {
            has_admin: true,
            admin: None,
            curators: vec![addr("addr0")],
            initial_tokens: vec![CurateTokenId::default()],
        },
    )
    .unwrap()
}

fn chk_bal(state: &ContractState, token_id: &str, address: &str) -> Option<u128> {
    balance_index(&state.balances, &token_id.to_string(), &address.to_string())
        .map(|i| state.balances[i].amount)
}

fn supply_of(state: &ContractState, token_id: &str) -> Option<u128> {
    match query_token_id_public_info(state, token_id.to_string()).unwrap() {
        QueryAnswer::TokenIdPublicInfo { total_supply, .. } => total_supply,
        _ => panic!("query error"),
    }
}

/// The full lifecycle of a fungible token line beside an NFT line: curate,
/// mint, a refused burn, a consumed allowance, and the one-mint-only rule
/// for NFTs.
#[test]
fn scenario_ledger_lifecycle() {
    let mut state = fresh_state();

    // curate "T0" fungible, burning disabled, with 1000 to addr0
    let mut curate = CurateTokenId::default();
    curate.token_info.token_id = "T0".to_string();
    let mut flat = curate.token_info.token_config.flatten();
    flat.enable_burn = false;
    curate.token_info.token_config = flat.to_enum();
    try_curate_token_ids(&mut state, &env("addr0"), vec![curate], None).unwrap();
    assert_eq!(chk_bal(&state, "T0", "addr0"), Some(1000));
    assert_eq!(supply_of(&state, "T0"), Some(1000));
    assert_eq!(state.config.tx_cnt, 1);

    // mint 10 more to addr0 and 10 to addr1: two log entries appended
    let mint = TokenAmount {
        token_id: "T0".to_string(),
        balances: vec![
            TokenIdBalance { address: addr("addr0"), amount: 10 },
            TokenIdBalance { address: addr("addr1"), amount: 10 },
        ],
    };
    try_mint_tokens(&mut state, &env("addr0"), vec![mint], None).unwrap();
    assert_eq!(chk_bal(&state, "T0", "addr0"), Some(1010));
    assert_eq!(chk_bal(&state, "T0", "addr1"), Some(10));
    assert_eq!(supply_of(&state, "T0"), Some(1020));
    assert_eq!(state.config.tx_cnt, 3);

    // burning is disabled for "T0": refused, balances unchanged
    let burn = TokenAmount {
        token_id: "T0".to_string(),
        balances: vec![TokenIdBalance { address: addr("addr0"), amount: 300 }],
    };
    let result = try_burn_tokens(&mut state, &env("addr0"), vec![burn], None);
    assert_eq!(result, Err(Error::Unauthorized));
    assert_eq!(chk_bal(&state, "T0", "addr0"), Some(1010));
    assert_eq!(supply_of(&state, "T0"), Some(1020));

    // addr0 grants addr2 an allowance of 50; addr2 moves 30 to addr3
    try_give_permission(
        &mut state,
        &env("addr0"),
        addr("addr2"),
        "T0".to_string(),
        None,
        None,
        None,
        None,
        Some(50),
        None,
    )
    .unwrap();
    try_transfer(&mut state, &env("addr2"), "T0".to_string(), addr("addr0"), addr("addr3"), 30, None)
        .unwrap();
    assert_eq!(chk_bal(&state, "T0", "addr0"), Some(980));
    assert_eq!(chk_bal(&state, "T0", "addr3"), Some(30));
    assert_eq!(supply_of(&state, "T0"), Some(1020));

    // the allowance is down to 20, so another 30 is refused
    let result = try_transfer(
        &mut state,
        &env("addr2"),
        "T0".to_string(),
        addr("addr0"),
        addr("addr3"),
        30,
        None,
    );
    assert_eq!(result, Err(Error::InsufficientAllowance { available: 20 }));

    // curate NFT "T1" held by addr0; even a minter cannot mint it again
    let mut curate = CurateTokenId::default();
    curate.token_info.token_id = "T1".to_string();
    curate.token_info.token_config = TknConf::Nft {
        minters: vec![addr("addr0")],
        public_total_supply: true,
        owner_is_public: true,
        enable_burn: true,
        minter_may_update_metadata: true,
        owner_may_update_metadata: true,
    };
    curate.balances = vec![TokenIdBalance { address: addr("addr0"), amount: 1 }];
    try_curate_token_ids(&mut state, &env("addr0"), vec![curate], None).unwrap();
    assert_eq!(chk_bal(&state, "T1", "addr0"), Some(1));
    assert_eq!(supply_of(&state, "T1"), Some(1));

    let mint = TokenAmount {
        token_id: "T1".to_string(),
        balances: vec![TokenIdBalance { address: addr("addr0"), amount: 1 }],
    };
    let result = try_mint_tokens(&mut state, &env("addr0"), vec![mint], None);
    assert_eq!(result, Err(Error::Validation));
    assert_eq!(chk_bal(&state, "T1", "addr0"), Some(1));
    assert_eq!(supply_of(&state, "T1"), Some(1));
}

/// The history of a principal pages newest first, in strictly decreasing
/// tx-id order, with the total count; a page past the data is empty.
#[test]
fn test_history_pagination() {
    let mut state = fresh_state();
    let mut curate = CurateTokenId::default();
    curate.token_info.token_id = "T0".to_string();
    try_curate_token_ids(&mut state, &env("addr0"), vec![curate], None).unwrap();
    let mint = TokenAmount {
        token_id: "T0".to_string(),
        balances: vec![
            TokenIdBalance { address: addr("addr0"), amount: 10 },
            TokenIdBalance { address: addr("addr1"), amount: 10 },
        ],
    };
    try_mint_tokens(&mut state, &env("addr0"), vec![mint], None).unwrap();
    try_transfer(&mut state, &env("addr0"), "T0".to_string(), addr("addr0"), addr("addr3"), 30, None)
        .unwrap();

    // addr0 took part in all four transactions
    match query_transactions(&state, &addr("addr0"), 0, 2) {
        QueryAnswer::TransactionHistory { txs, total } => {
            assert_eq!(total, Some(4));
            assert_eq!(txs.len(), 2);
            assert_eq!(txs[0].tx_id, 3);
            assert_eq!(txs[1].tx_id, 2);
        },
        _ => panic!("query error"),
    }
    match query_transactions(&state, &addr("addr0"), 1, 2) {
        QueryAnswer::TransactionHistory { txs, total } => {
            assert_eq!(total, Some(4));
            assert_eq!(txs.len(), 2);
            assert_eq!(txs[0].tx_id, 1);
            assert_eq!(txs[1].tx_id, 0);
        },
        _ => panic!("query error"),
    }

    // a page past the available data is empty, not an error
    match query_transactions(&state, &addr("addr0"), 99, 2) {
        QueryAnswer::TransactionHistory { txs, total } => {
            assert_eq!(total, Some(4));
            assert_eq!(txs.len(), 0);
        },
        _ => panic!("query error"),
    }

    // addr1 took part only in its mint
    match query_transactions(&state, &addr("addr1"), 0, 10) {
        QueryAnswer::TransactionHistory { txs, total } => {
            assert_eq!(total, Some(1));
            assert_eq!(txs.len(), 1);
            assert_eq!(txs[0].tx_id, 2);
        },
        _ => panic!("query error"),
    }

    // a principal with no history gets an empty page
    match query_transactions(&state, &addr("addr9"), 0, 10) {
        QueryAnswer::TransactionHistory { txs, total } => {
            assert_eq!(total, Some(0));
            assert_eq!(txs.len(), 0);
        },
        _ => panic!("query error"),
    }
}

#[test]
fn test_curate_validation_errors() {
    let mut state = init_helper_default();

    // a name under three bytes is refused
    let mut curate = CurateTokenId::default();
    curate.token_info.token_id = "bad1".to_string();
    curate.token_info.name = "ab".to_string();
    let result = try_curate_token_ids(&mut state, &env("addr0"), vec![curate], None);
    assert_eq!(result, Err(Error::Validation));

    // a lowercase symbol is refused
    let mut curate = CurateTokenId::default();
    curate.token_info.token_id = "bad2".to_string();
    curate.token_info.symbol = "tkn".to_string();
    let result = try_curate_token_ids(&mut state, &env("addr0"), vec![curate], None);
    assert_eq!(result, Err(Error::Validation));

    // more than 18 decimals are refused
    let mut curate = CurateTokenId::default();
    curate.token_info.token_id = "bad3".to_string();
    let mut flat = curate.token_info.token_config.flatten();
    flat.decimals = 19;
    curate.token_info.token_config = flat.to_enum();
    let result = try_curate_token_ids(&mut state, &env("addr0"), vec![curate], None);
    assert_eq!(result, Err(Error::Validation));

    // a taken token_id is refused
    let curate = CurateTokenId::default();
    let result = try_curate_token_ids(&mut state, &env("addr0"), vec![curate], None);
    assert_eq!(result, Err(Error::AlreadyExists));
}

#[test]
fn test_transfer_expired_allowance() {
    let mut state = init_helper_default();

    // an allowance that lapses at the current height is already gone
    try_give_permission(
        &mut state,
        &env("addr0"),
        addr("addr1"),
        "0".to_string(),
        None,
        None,
        None,
        None,
        Some(10),
        Some(Expiration::AtHeight(12345)),
    )
    .unwrap();
    let result = try_transfer(
        &mut state,
        &env("addr1"),
        "0".to_string(),
        addr("addr0"),
        addr("addr1"),
        5,
        None,
    );
    assert_eq!(result, Err(Error::Expired));

    // one block earlier it still stands
    let mut state = init_helper_default();
    try_give_permission(
        &mut state,
        &env("addr0"),
        addr("addr1"),
        "0".to_string(),
        None,
        None,
        None,
        None,
        Some(10),
        Some(Expiration::AtHeight(12346)),
    )
    .unwrap();
    try_transfer(&mut state, &env("addr1"), "0".to_string(), addr("addr0"), addr("addr1"), 5, None)
        .unwrap();
    assert_eq!(chk_bal(&state, "0", "addr1"), Some(5));
}

#[test]
fn test_no_admin() {
    let mut state = init(
        &env("addr0"),
        InitMsg { has_admin: false, admin: None, curators: vec![], initial_tokens: vec![] },
    )
    .unwrap();
    let result = try_add_curators(&mut state, &env("addr0"), vec![addr("addr1")]);
    assert_eq!(result, Err(Error::NoAdmin));
}

#[test]
fn test_mint_overflow() {
    let mut state = fresh_state();
    let mut curate = CurateTokenId::default();
    curate.token_info.token_id = "T0".to_string();
    curate.balances[0].amount = u128::MAX;
    try_curate_token_ids(&mut state, &env("addr0"), vec![curate], None).unwrap();

    let mint = TokenAmount {
        token_id: "T0".to_string(),
        balances: vec![TokenIdBalance { address: addr("addr0"), amount: 1 }],
    };
    let result = try_mint_tokens(&mut state, &env("addr0"), vec![mint], None);
    assert_eq!(result, Err(Error::Overflow));
}

#[test]
fn test_revoke_permission_errors() {
    let mut state = init_helper_default();
    try_give_permission(
        &mut state,
        &env("addr0"),
        addr("addr1"),
        "0".to_string(),
        None,
        None,
        None,
        None,
        Some(10),
        None,
    )
    .unwrap();

    // a stranger can revoke nothing
    let result = try_revoke_permission(
        &mut state,
        &env("addr2"),
        "0".to_string(),
        addr("addr0"),
        addr("addr1"),
    );
    assert_eq!(result, Err(Error::Unauthorized));

    // a permission that was never granted cannot be revoked
    let result = try_revoke_permission(
        &mut state,
        &env("addr0"),
        "0".to_string(),
        addr("addr0"),
        addr("addr2"),
    );
    assert_eq!(result, Err(Error::NotFound));
}

#[test]
fn test_registered_code_hash_and_send_fallback() {
    let mut state = init_helper_default();

    // addr1 registers a code hash for notifications
    try_register_receive(&mut state, &env("addr1"), "addr1_hash".to_string()).unwrap();
    match query_registered_code_hash(&state, &addr("addr1")) {
        QueryAnswer::RegisteredCodeHash { code_hash } => {
            assert_eq!(code_hash, Some("addr1_hash".to_string()));
        },
        _ => panic!("query error"),
    }
    match query_registered_code_hash(&state, &addr("addr2")) {
        QueryAnswer::RegisteredCodeHash { code_hash } => assert_eq!(code_hash, None),
        _ => panic!("query error"),
    }

    // a send without an override picks up the registration
    let (_, messages) = try_send(
        &mut state,
        &env("addr0"),
        SendAction {
            token_id: "0".to_string(),
            from: addr("addr0"),
            recipient: addr("addr1"),
            recipient_code_hash: None,
            amount: 10,
            msg: None,
            memo: None,
        },
    )
    .unwrap();
    assert_eq!(messages.len(), 1);
    assert_eq!(messages[0].code_hash, "addr1_hash".to_string());

    // a send to an unregistered recipient notifies nobody
    let (_, messages) = try_send(
        &mut state,
        &env("addr0"),
        SendAction {
            token_id: "0".to_string(),
            from: addr("addr0"),
            recipient: addr("addr2"),
            recipient_code_hash: None,
            amount: 10,
            msg: None,
            memo: None,
        },
    )
    .unwrap();
    assert_eq!(messages.len(), 0);
}

#[test]
fn test_self_transfer_keeps_balance() {
    let mut state = init_helper_default();
    try_transfer(&mut state, &env("addr0"), "0".to_string(), addr("addr0"), addr("addr0"), 50, None)
        .unwrap();
    assert_eq!(chk_bal(&state, "0", "addr0"), Some(1000));
    // a self-transfer is still logged, once
    assert_eq!(state.config.tx_cnt, 2);
    match query_transactions(&state, &addr("addr0"), 0, 10) {
        QueryAnswer::TransactionHistory { total, .. } => assert_eq!(total, Some(2)),
        _ => panic!("query error"),
    }
}

#[test]
fn test_nft_owner_is_public() {
    let mut state = init_helper_default();
    let mut curate = CurateTokenId::default();
    curate.token_info.token_id = "N0".to_string();
    curate.token_info.token_config = TknConf::default_nft();
    curate.balances = vec![TokenIdBalance { address: addr("addr2"), amount: 1 }];
    try_curate_token_ids(&mut state, &env("addr0"), vec![curate], None).unwrap();

    match query_token_id_public_info(&state, "N0".to_string()).unwrap() {
        QueryAnswer::TokenIdPublicInfo { owner, .. } => {
            assert_eq!(owner, Some(addr("addr2")));
        },
        _ => panic!("query error"),
    }

    // after a transfer the public owner follows the unit
    try_transfer(&mut state, &env("addr2"), "N0".to_string(), addr("addr2"), addr("addr3"), 1, None)
        .unwrap();
    match query_token_id_public_info(&state, "N0".to_string()).unwrap() {
        QueryAnswer::TokenIdPublicInfo { owner, .. } => {
            assert_eq!(owner, Some(addr("addr3")));
        },
        _ => panic!("query error"),
    }
}

#[test]
fn test_space_pad() {
    // a message is padded with spaces up to the next multiple
    let mut data: Vec<u8> = vec![1, 2, 3, 4, 5];
    space_pad(16, &mut data);
    assert_eq!(data.len(), 16);
    assert_eq!(&data[0..5], &[1, 2, 3, 4, 5]);
    assert!(data[5..].iter().all(|b| *b == b' '));

    // an exact multiple stays as it is
    let mut data: Vec<u8> = vec![7; 32];
    space_pad(16, &mut data);
    assert_eq!(data.len(), 32);
    assert!(data.iter().all(|b| *b == 7));
}

#[test]
fn test_expiration() {
    let block = BlockInfo { height: 100, time: 1000 };
    assert!(!Expiration::Never.is_expired(&block));
    assert!(Expiration::AtHeight(100).is_expired(&block));
    assert!(!Expiration::AtHeight(101).is_expired(&block));
    assert!(Expiration::AtTime(1000).is_expired(&block));
    assert!(!Expiration::AtTime(1001).is_expired(&block));
    assert_eq!(Expiration::default(), Expiration::Never);
}

#[test]
fn test_name_and_symbol_validity() {
    assert!(is_valid_name("abc"));
    assert!(is_valid_name("a23456789012345678901234567890"));
    assert!(!is_valid_name("ab"));
    assert!(!is_valid_name("a234567890123456789012345678901"));
    assert!(is_valid_symbol("TKN"));
    assert!(is_valid_symbol("TOKENS"));
    assert!(!is_valid_symbol("TK"));
    assert!(!is_valid_symbol("TOKENSS"));
    assert!(!is_valid_symbol("TKn"));
    assert!(!is_valid_symbol("TK1"));
}

#[test]
fn test_flatten_roundtrip() {
    let conf = TknConf::default_fungible();
    let flat = conf.flatten();
    assert!(!flat.is_nft);
    assert_eq!(flat.decimals, 6);
    assert!(flat.enable_mint);
    assert!(flat.enable_burn);
    assert!(flat.minter_may_update_metadata);
    assert!(!flat.owner_may_update_metadata);
    assert_eq!(flat.minters, vec!["addr0".to_string()]);
    let back = flat.to_enum();
    assert_eq!(back, TknConf::default_fungible());

    let conf = TknConf::default_nft();
    let flat = conf.flatten();
    assert!(flat.is_nft);
    assert_eq!(flat.decimals, 0);
    assert!(!flat.enable_mint);
    assert!(flat.owner_is_public);
    assert!(flat.owner_may_update_metadata);
    assert_eq!(flat.minters, Vec::<String>::new());
    let back = flat.to_enum();
    assert_eq!(back, TknConf::default_nft());
}
