//! The operation tests: curation, minting, burning, transfers, sends,
//! permissions, metadata changes, and admin / curator / minter management.

use snip1155::error::Error;
use snip1155::expiration::{BlockInfo, Expiration};
use snip1155::handles::{
    init, try_add_curators, try_add_minters, try_batch_send, try_batch_transfer, try_burn_tokens,
    try_change_admin, try_change_metadata, try_curate_token_ids, try_give_permission,
    try_mint_tokens, try_remove_admin, try_remove_curators, try_remove_minters,
    try_revoke_permission, try_send, try_transfer,
};
use snip1155::metadata::{Extension, Metadata};
use snip1155::msg::{InitMsg, SendAction, TransferAction};
use snip1155::permissions::Permission;
use snip1155::queries::{query_contract_info, query_permission, query_token_id_public_info, QueryAnswer};
use snip1155::receiver::Snip1155ReceiveMsg;
use snip1155::state::{balance_index, ContractState};
use snip1155::state_structs::{CurateTokenId, Env, TknConf, TokenAmount, TokenIdBalance};

fn addr(s: &str) -> String {
    s.to_string()
}

fn env(sender: &str) -> Env {
    Env {
        block: BlockInfo { height: 12345, time: 1571797419 },
        sender: sender.to_string(),
        contract_address: "cosmos2contract".to_string(),
    }
}

/// Instantiates with addr0 as admin and curator and 1000 of token_id "0"
/// held by addr0.
fn init_helper_default() -> ContractState {
    let e = env("addr0");
    init(
        &e,
        InitMsg {
            has_admin: true,
            admin: None,
            curators: vec![addr("addr0")],
            initial_tokens: vec![CurateTokenId::default()],
        },
    )
    .unwrap()
}

fn chk_bal(state: &ContractState, token_id: &str, address: &str) -> Option<u128> {
    balance_index(&state.balances, &token_id.to_string(), &address.to_string())
        .map(|i| state.balances[i].amount)
}

fn fungible_curate(token_id: &str, name: &str, symbol: &str, holder: &str, amount: u128) -> CurateTokenId {
    let mut c = CurateTokenId::default();
    c.token_info.token_id = token_id.to_string();
    c.token_info.name = name.to_string();
    c.token_info.symbol = symbol.to_string();
    c.balances[0].address = holder.to_string();
    c.balances[0].amount = amount;
    c
}

fn nft_curate(token_id: &str, name: &str, symbol: &str, holder: &str) -> CurateTokenId {
    let mut c = fungible_curate(token_id, name, symbol, holder, 1);
    c.token_info.token_config = TknConf::default_nft();
    c
}

/// Curates 800 of "0a" to addr0, 500 of "1" to addr1, and the NFTs "2" and
/// "2a" to addr2.
fn curate_addtl_default(state: &mut ContractState) {
    let e = env("addr0");
    let items = vec![
        fungible_curate("0a", "token0a", "TKNO", "addr0", 800),
        fungible_curate("1", "token1", "TKNA", "addr1", 500),
        nft_curate("2", "token2", "TKNB", "addr2"),
        nft_curate("2a", "token2a", "TKNBA", "addr2"),
    ];
    try_curate_token_ids(state, &e, items, None).unwrap();
}

fn give_transfer_perm(state: &mut ContractState, sender: &str, spender: &str, token_id: &str, amount: u128) {
    try_give_permission(
        state,
        &env(sender),
        addr(spender),
        token_id.to_string(),
        None,
        None,
        None,
        None,
        Some(amount),
        None,
    )
    .unwrap();
}

fn get_permission(state: &ContractState, token_id: &str, owner: &str, spender: &str) -> Option<Permission> {
    match query_permission(state, token_id.to_string(), addr(owner), addr(spender)) {
        QueryAnswer::Permission(p) => p,
        _ => panic!("query error"),
    }
}

fn minters_of(state: &ContractState, token_id: &str) -> Vec<String> {
    match query_token_id_public_info(state, token_id.to_string()).unwrap() {
        QueryAnswer::TokenIdPublicInfo { token_id_info, .. } => {
            token_id_info.token_config.flatten().minters
        },
        _ => panic!("query error"),
    }
}

#[test]
fn init_sanity() {
    let state = init_helper_default();
    assert_eq!(state.config.admin, Some(addr("addr0")));
    assert_eq!(state.config.curators, vec![addr("addr0")]);
    // one mint happened, so the counter stands at one
    assert_eq!(state.config.tx_cnt, 1u64);
    assert_eq!(chk_bal(&state, "0", "addr0"), Some(1000));
}

#[test]
fn curate_token_id_sanity() {
    let mut state = init_helper_default();
    curate_addtl_default(&mut state);

    assert_eq!(chk_bal(&state, "0", "addr0"), Some(1000));
    assert_eq!(chk_bal(&state, "0a", "addr0"), Some(800));
    assert_eq!(chk_bal(&state, "1", "addr1"), Some(500));
    assert_eq!(chk_bal(&state, "2", "addr2"), Some(1));
    assert_eq!(chk_bal(&state, "2a", "addr2"), Some(1));
    // 1 initial balance, 4 curations
    assert_eq!(state.config.tx_cnt, 5u64);

    assert_eq!(chk_bal(&state, "0", "addr1"), None);
    assert_eq!(chk_bal(&state, "0", "addr2"), None);
    assert_eq!(chk_bal(&state, "0a", "addr1"), None);
    assert_eq!(chk_bal(&state, "0a", "addr2"), None);
    assert_eq!(chk_bal(&state, "1", "addr0"), None);
    assert_eq!(chk_bal(&state, "1", "addr2"), None);
    assert_eq!(chk_bal(&state, "2", "addr1"), None);
    assert_eq!(chk_bal(&state, "2a", "addr1"), None);
}

#[test]
fn test_curate_token_id() {
    let mut state = init_helper_default();
    curate_addtl_default(&mut state);

    // an NFT cannot be curated to more than one holder
    let mut curate = nft_curate("testa", "token0", "TKN", "addr0");
    curate.balances = vec![
        TokenIdBalance { address: addr("addr0"), amount: 1 },
        TokenIdBalance { address: addr("addr1"), amount: 1 },
    ];
    let result = try_curate_token_ids(&mut state, &env("addr0"), vec![curate], None);
    assert_eq!(result, Err(Error::Validation));

    // an NFT's single balance must be exactly one unit
    let mut curate = nft_curate("testb", "token0", "TKN", "addr0");
    curate.balances[0].amount = 2;
    let result = try_curate_token_ids(&mut state, &env("addr0"), vec![curate], None);
    assert_eq!(result, Err(Error::Validation));

    // a non-curator cannot curate
    let curate = fungible_curate("testc", "token0", "TKN", "addr0", 1000);
    let result = try_curate_token_ids(&mut state, &env("addr1"), vec![curate], None);
    assert_eq!(result, Err(Error::Unauthorized));

    assert_eq!(chk_bal(&state, "0", "addr0"), Some(1000));
    assert_eq!(chk_bal(&state, "1", "addr1"), Some(500));
    assert_eq!(chk_bal(&state, "2", "addr2"), Some(1));
    assert_eq!(chk_bal(&state, "2a", "addr2"), Some(1));
    assert_eq!(chk_bal(&state, "testa", "addr0"), None);
    assert_eq!(chk_bal(&state, "testb", "addr0"), None);
    assert_eq!(chk_bal(&state, "testc", "addr0"), None);
    // 1 initial balance, 4 curations, nothing more
    assert_eq!(state.config.tx_cnt, 5u64);
}

#[test]
fn test_mint_tokens() {
    let mut state = init_helper_default();
    curate_addtl_default(&mut state);

    // cannot mint a token line that does not exist
    let mint_non_exist = TokenAmount {
        token_id: "test0".to_string(),
        balances: vec![TokenIdBalance { address: addr("addr0"), amount: 100 }],
    };
    let result = try_mint_tokens(&mut state, &env("addr0"), vec![mint_non_exist], None);
    assert_eq!(result, Err(Error::NotFound));
    assert_eq!(chk_bal(&state, "test0", "addr0"), None);

    // mint more fungible tokens to multiple addresses
    let mint = TokenAmount {
        token_id: "0".to_string(),
        balances: vec![
            TokenIdBalance { address: addr("addr0"), amount: 10 },
            TokenIdBalance { address: addr("addr1"), amount: 10 },
        ],
    };
    try_mint_tokens(&mut state, &env("addr0"), vec![mint], None).unwrap();
    assert_eq!(chk_bal(&state, "0", "addr0"), Some(1010));
    assert_eq!(chk_bal(&state, "0", "addr1"), Some(10));
    // 1 initial balance, 4 curations, 2 mints
    assert_eq!(state.config.tx_cnt, 7u64);

    // a non-minter cannot mint
    let mint = TokenAmount {
        token_id: "0".to_string(),
        balances: vec![
            TokenIdBalance { address: addr("addr0"), amount: 10 },
            TokenIdBalance { address: addr("addr1"), amount: 10 },
        ],
    };
    let result = try_mint_tokens(&mut state, &env("addr1"), vec![mint], None);
    assert_eq!(result, Err(Error::Unauthorized));

    // an NFT with no minters cannot be minted after curation
    let mint = TokenAmount {
        token_id: "2".to_string(),
        balances: vec![TokenIdBalance { address: addr("addr0"), amount: 1 }],
    };
    let result = try_mint_tokens(&mut state, &env("addr0"), vec![mint], None);
    assert_eq!(result, Err(Error::Unauthorized));
    assert_eq!(chk_bal(&state, "0", "addr0"), Some(1010));
    assert_eq!(state.config.tx_cnt, 7u64);
}

#[test]
fn test_burn() {
    let mut state = init_helper_default();
    curate_addtl_default(&mut state);

    assert_eq!(chk_bal(&state, "0", "addr0"), Some(1000));
    assert_eq!(chk_bal(&state, "1", "addr1"), Some(500));
    assert_eq!(chk_bal(&state, "2", "addr2"), Some(1));

    // cannot burn another holder's tokens
    let burn = TokenAmount {
        token_id: "1".to_string(),
        balances: vec![TokenIdBalance { address: addr("addr1"), amount: 501 }],
    };
    let result = try_burn_tokens(&mut state, &env("addr0"), vec![burn], None);
    assert_eq!(result, Err(Error::Unauthorized));

    // cannot burn more than held
    let burn = TokenAmount {
        token_id: "1".to_string(),
        balances: vec![TokenIdBalance { address: addr("addr1"), amount: 501 }],
    };
    let result = try_burn_tokens(&mut state, &env("addr1"), vec![burn], None);
    assert_eq!(result, Err(Error::InsufficientFunds));

    // burning fungible tokens works
    let burn = TokenAmount {
        token_id: "1".to_string(),
        balances: vec![TokenIdBalance { address: addr("addr1"), amount: 300 }],
    };
    try_burn_tokens(&mut state, &env("addr1"), vec![burn], None).unwrap();
    assert_eq!(chk_bal(&state, "1", "addr1"), Some(200));

    // burning an NFT works
    let burn = TokenAmount {
        token_id: "2".to_string(),
        balances: vec![TokenIdBalance { address: addr("addr2"), amount: 1 }],
    };
    try_burn_tokens(&mut state, &env("addr2"), vec![burn], None).unwrap();
    assert_eq!(chk_bal(&state, "2", "addr2"), Some(0));

    // 1 initial balance, 4 curations, 2 burns
    assert_eq!(state.config.tx_cnt, 7u64);
}

fn stored_metadata(state: &ContractState, token_id: &str) -> (Option<Metadata>, Option<Metadata>) {
    for e in state.tokens.iter() {
        if e.info.token_id == token_id {
            return (e.info.public_metadata.clone(), e.info.private_metadata.clone());
        }
    }
    panic!("token not found");
}

fn meta(uri: &str) -> Metadata {
    Metadata { token_uri: Some(uri.to_string()), extension: Some(Extension::default()) }
}

#[test]
fn test_change_metadata_nft() {
    // addr0 admin; addr1 curator; addr2 owner; addr3 new owner of testnft0
    // and minter of testnft2
    let e_admin = env("addr0");
    let mut state = init(
        &e_admin,
        InitMsg {
            has_admin: true,
            admin: None,
            curators: vec![addr("addr1")],
            initial_tokens: vec![],
        },
    )
    .unwrap();

    // one NFT whose owner may change metadata...
    let curate0 = nft_curate("testnft0", "token0", "TKN", "addr2");
    // ...one whose owner may not...
    let mut curate1 = nft_curate("testnft1", "token0", "TKN", "addr2");
    let mut flat = curate1.token_info.token_config.flatten();
    flat.owner_may_update_metadata = false;
    curate1.token_info.token_config = flat.to_enum();
    // ...and one where a minter may (and the owner may not)
    let mut curate2 = nft_curate("testnft2", "token0", "TKN", "addr2");
    let mut flat = curate2.token_info.token_config.flatten();
    flat.minters = vec![addr("addr3")];
    flat.owner_may_update_metadata = false;
    curate2.token_info.token_config = flat.to_enum();

    try_curate_token_ids(&mut state, &env("addr1"), vec![curate0, curate1, curate2], None)
        .unwrap();

    // neither admin, curator nor a stranger may change testnft0's metadata
    let new_public = meta("new public uri for testnft0");
    for who in ["addr0", "addr1", "addr3"] {
        let result = try_change_metadata(
            &mut state,
            &env(who),
            "testnft0".to_string(),
            Some(meta("new public uri for testnft0")),
            None,
        );
        assert_eq!(result, Err(Error::Unauthorized));
    }

    // the owner may not change testnft1's metadata: its config forbids it
    let result = try_change_metadata(&mut state, &env("addr2"), "testnft1".to_string(), None, None);
    assert_eq!(result, Err(Error::Unauthorized));

    // the owner may change testnft0's metadata
    try_change_metadata(
        &mut state,
        &env("addr2"),
        "testnft0".to_string(),
        Some(meta("new public uri for testnft0")),
        None,
    )
    .unwrap();
    let (public, private) = stored_metadata(&state, "testnft0");
    assert_eq!(public, Some(new_public));
    assert_eq!(private, Some(meta("private uri")));

    // move the NFT to a new owner...
    try_transfer(
        &mut state,
        &env("addr2"),
        "testnft0".to_string(),
        addr("addr2"),
        addr("addr3"),
        1,
        None,
    )
    .unwrap();

    // ...the old owner has lost the right...
    let result = try_change_metadata(
        &mut state,
        &env("addr2"),
        "testnft0".to_string(),
        Some(meta("new public uri for testnft0")),
        None,
    );
    assert_eq!(result, Err(Error::Unauthorized));

    // ...and the new owner has it
    try_change_metadata(
        &mut state,
        &env("addr3"),
        "testnft0".to_string(),
        Some(meta("new public uri for testnft0")),
        None,
    )
    .unwrap();

    // testnft2: only the minter may change metadata
    for who in ["addr0", "addr1", "addr2"] {
        let result = try_change_metadata(
            &mut state,
            &env(who),
            "testnft2".to_string(),
            None,
            Some(meta("new private uri for testnft2")),
        );
        assert_eq!(result, Err(Error::Unauthorized));
    }
    try_change_metadata(
        &mut state,
        &env("addr3"),
        "testnft2".to_string(),
        None,
        Some(meta("new private uri for testnft2")),
    )
    .unwrap();
    let (public, private) = stored_metadata(&state, "testnft2");
    assert_eq!(public, Some(meta("public uri")));
    assert_eq!(private, Some(meta("new private uri for testnft2")));
}

#[test]
fn test_change_metadata_fungible() {
    // addr0 admin; addr1 curator; addr2 minter; addr3 holder / later minter
    let e_admin = env("addr0");
    let mut state = init(
        &e_admin,
        InitMsg {
            has_admin: true,
            admin: None,
            curators: vec![addr("addr1")],
            initial_tokens: vec![],
        },
    )
    .unwrap();

    let mut curate0 = fungible_curate("test0", "token0", "TKN", "addr3", 1000);
    let mut flat = curate0.token_info.token_config.flatten();
    flat.minters = vec![addr("addr2")];
    curate0.token_info.token_config = flat.to_enum();

    let mut curate1 = fungible_curate("test1", "token0", "TKN", "addr3", 1000);
    let mut flat = curate1.token_info.token_config.flatten();
    flat.minters = vec![addr("addr2")];
    flat.minter_may_update_metadata = false;
    curate1.token_info.token_config = flat.to_enum();

    try_curate_token_ids(&mut state, &env("addr1"), vec![curate0, curate1], None).unwrap();

    // neither admin, curator nor the holder is a minter of test0
    for who in ["addr0", "addr1", "addr3"] {
        let result = try_change_metadata(
            &mut state,
            &env(who),
            "test0".to_string(),
            Some(meta("new public uri")),
            None,
        );
        assert_eq!(result, Err(Error::Unauthorized));
    }

    // the minter may not change test1's metadata: its config forbids it
    let result = try_change_metadata(&mut state, &env("addr2"), "test1".to_string(), None, None);
    assert_eq!(result, Err(Error::Unauthorized));

    // the minter may change test0's metadata
    try_change_metadata(
        &mut state,
        &env("addr2"),
        "test0".to_string(),
        Some(meta("new public uri")),
        None,
    )
    .unwrap();
    let (public, private) = stored_metadata(&state, "test0");
    assert_eq!(public, Some(meta("new public uri")));
    assert_eq!(private, Some(meta("private uri")));

    // the admin hands the minter role from addr2 to addr3
    try_add_minters(&mut state, &env("addr0"), "test0".to_string(), vec![addr("addr3")]).unwrap();
    try_remove_minters(&mut state, &env("addr0"), "test0".to_string(), vec![addr("addr2")])
        .unwrap();

    // the old minter has lost the right; the new one has it
    let result = try_change_metadata(
        &mut state,
        &env("addr2"),
        "test0".to_string(),
        Some(meta("new public uri")),
        None,
    );
    assert_eq!(result, Err(Error::Unauthorized));
    try_change_metadata(
        &mut state,
        &env("addr3"),
        "test0".to_string(),
        Some(meta("new public uri")),
        None,
    )
    .unwrap();
}

#[test]
fn test_transfer() {
    let mut state = init_helper_default();
    curate_addtl_default(&mut state);

    assert_eq!(chk_bal(&state, "2", "addr2"), Some(1));
    assert_eq!(chk_bal(&state, "2", "addr1"), None);
    assert_eq!(chk_bal(&state, "0", "addr0"), Some(1000));
    assert_eq!(chk_bal(&state, "0", "addr1"), None);

    // transfer fungible units
    try_transfer(&mut state, &env("addr0"), "0".to_string(), addr("addr0"), addr("addr1"), 800, None)
        .unwrap();
    assert_eq!(chk_bal(&state, "0", "addr0"), Some(200));
    assert_eq!(chk_bal(&state, "0", "addr1"), Some(800));

    // cannot transfer someone else's units without an allowance
    let result = try_transfer(
        &mut state,
        &env("addr2"),
        "0".to_string(),
        addr("addr0"),
        addr("addr1"),
        800,
        None,
    );
    assert_eq!(result, Err(Error::Unauthorized));

    // an NFT moves exactly one unit at a time
    let result = try_transfer(
        &mut state,
        &env("addr2"),
        "2".to_string(),
        addr("addr2"),
        addr("addr1"),
        0,
        None,
    );
    assert_eq!(result, Err(Error::Validation));

    // transferring the NFT works
    try_transfer(&mut state, &env("addr2"), "2".to_string(), addr("addr2"), addr("addr1"), 1, None)
        .unwrap();

    assert_eq!(chk_bal(&state, "2", "addr2"), Some(0));
    assert_eq!(chk_bal(&state, "2", "addr1"), Some(1));
    assert_eq!(chk_bal(&state, "0", "addr0"), Some(200));
    assert_eq!(chk_bal(&state, "0", "addr1"), Some(800));
    // 1 initial balance, 4 curations, 2 transfers
    assert_eq!(state.config.tx_cnt, 7u64);
}

#[test]
fn test_send() {
    let mut state = init_helper_default();
    assert_eq!(chk_bal(&state, "0", "addr0"), Some(1000));

    let msg_bytes: Vec<u8> = "msg_str".as_bytes().to_vec();
    let (_, messages) = try_send(
        &mut state,
        &env("addr0"),
        SendAction {
            token_id: "0".to_string(),
            from: addr("addr0"),
            recipient: addr("addr1"),
            recipient_code_hash: Some("addr1_hash".to_string()),
            amount: 800,
            msg: Some(msg_bytes.clone()),
            memo: None,
        },
    )
    .unwrap();
    assert_eq!(chk_bal(&state, "0", "addr0"), Some(200));
    assert_eq!(chk_bal(&state, "0", "addr1"), Some(800));
    assert_eq!(messages.len(), 1);
    assert_eq!(messages[0].contract_addr, addr("addr1"));
    assert_eq!(messages[0].code_hash, "addr1_hash".to_string());
    let expected = Snip1155ReceiveMsg {
        sender: addr("addr0"),
        token_id: "0".to_string(),
        from: addr("addr0"),
        amount: 800,
        memo: None,
        msg: Some(msg_bytes),
    };
    assert_eq!(messages[0].msg, expected);
}

#[test]
fn test_batch_transfer_and_send_sanity() {
    let mut state = init_helper_default();
    curate_addtl_default(&mut state);

    assert_eq!(chk_bal(&state, "0", "addr2"), None);
    assert_eq!(chk_bal(&state, "0a", "addr2"), None);

    try_batch_transfer(
        &mut state,
        &env("addr0"),
        vec![
            TransferAction {
                token_id: "0".to_string(),
                from: addr("addr0"),
                recipient: addr("addr1"),
                amount: 10,
                memo: None,
            },
            TransferAction {
                token_id: "0a".to_string(),
                from: addr("addr0"),
                recipient: addr("addr2"),
                amount: 20,
                memo: None,
            },
        ],
    )
    .unwrap();
    assert_eq!(chk_bal(&state, "0", "addr1"), Some(10));
    assert_eq!(chk_bal(&state, "0a", "addr2"), Some(20));

    let (_, messages) = try_batch_send(
        &mut state,
        &env("addr0"),
        vec![
            SendAction {
                token_id: "0".to_string(),
                from: addr("addr0"),
                recipient: addr("addr1"),
                recipient_code_hash: Some("addr1_hash".to_string()),
                amount: 20,
                msg: Some("test message to b".as_bytes().to_vec()),
                memo: None,
            },
            SendAction {
                token_id: "0a".to_string(),
                from: addr("addr0"),
                recipient: addr("addr2"),
                recipient_code_hash: Some("addr2_hash".to_string()),
                amount: 30,
                msg: Some("test message to c".as_bytes().to_vec()),
                memo: None,
            },
        ],
    )
    .unwrap();

    assert_eq!(chk_bal(&state, "0", "addr1"), Some(30));
    assert_eq!(chk_bal(&state, "0a", "addr2"), Some(50));

    assert_eq!(messages.len(), 2);
    assert_eq!(messages[0].contract_addr, addr("addr1"));
    assert_eq!(messages[0].code_hash, "addr1_hash".to_string());
    assert_eq!(
        messages[0].msg,
        Snip1155ReceiveMsg {
            sender: addr("addr0"),
            token_id: "0".to_string(),
            from: addr("addr0"),
            amount: 20,
            memo: None,
            msg: Some("test message to b".as_bytes().to_vec()),
        }
    );
    assert_eq!(messages[1].contract_addr, addr("addr2"));
    assert_eq!(messages[1].code_hash, "addr2_hash".to_string());
    assert_eq!(
        messages[1].msg,
        Snip1155ReceiveMsg {
            sender: addr("addr0"),
            token_id: "0a".to_string(),
            from: addr("addr0"),
            amount: 30,
            memo: None,
            msg: Some("test message to c".as_bytes().to_vec()),
        }
    );
}

#[test]
fn test_batch_transfer_and_send_errors() {
    let mut state = init_helper_default();

    // "0a" has not been curated, so the batch fails
    let result = try_batch_transfer(
        &mut state,
        &env("addr0"),
        vec![
            TransferAction {
                token_id: "0".to_string(),
                from: addr("addr0"),
                recipient: addr("addr1"),
                amount: 10,
                memo: None,
            },
            TransferAction {
                token_id: "0a".to_string(),
                from: addr("addr0"),
                recipient: addr("addr2"),
                amount: 20,
                memo: None,
            },
        ],
    );
    assert_eq!(result, Err(Error::Unauthorized));
}

#[test]
fn test_transfer_permissions_fungible() {
    let mut state = init_helper_default();
    assert_eq!(chk_bal(&state, "0", "addr0"), Some(1000));

    // no allowance at all
    let result = try_transfer(
        &mut state,
        &env("addr1"),
        "0".to_string(),
        addr("addr0"),
        addr("addr1"),
        10,
        None,
    );
    assert_eq!(result, Err(Error::Unauthorized));

    // an allowance below the amount; a fresh grant replaces the old one
    give_transfer_perm(&mut state, "addr0", "addr1", "0", 11);
    give_transfer_perm(&mut state, "addr0", "addr1", "0", 9);
    let result = try_transfer(
        &mut state,
        &env("addr1"),
        "0".to_string(),
        addr("addr0"),
        addr("addr1"),
        10,
        None,
    );
    assert_eq!(result, Err(Error::InsufficientAllowance { available: 9 }));

    // an allowance granted to a different spender does not help
    give_transfer_perm(&mut state, "addr0", "addr2", "0", 15);
    let result = try_transfer(
        &mut state,
        &env("addr1"),
        "0".to_string(),
        addr("addr0"),
        addr("addr1"),
        10,
        None,
    );
    assert_eq!(result, Err(Error::InsufficientAllowance { available: 9 }));

    // an allowance granted by a different owner does not help
    give_transfer_perm(&mut state, "addr1", "addr1", "0", 10);
    let result = try_transfer(
        &mut state,
        &env("addr1"),
        "0".to_string(),
        addr("addr0"),
        addr("addr1"),
        10,
        None,
    );
    assert_eq!(result, Err(Error::InsufficientAllowance { available: 9 }));

    // addr2's allowance is enough
    try_transfer(&mut state, &env("addr2"), "0".to_string(), addr("addr0"), addr("addr1"), 10, None)
        .unwrap();
    assert_eq!(chk_bal(&state, "0", "addr0"), Some(990));
    assert_eq!(chk_bal(&state, "0", "addr1"), Some(10));

    // the allowance was consumed: a second transfer runs out
    let result = try_transfer(
        &mut state,
        &env("addr2"),
        "0".to_string(),
        addr("addr0"),
        addr("addr1"),
        10,
        None,
    );
    assert_eq!(result, Err(Error::InsufficientAllowance { available: 5 }));

    // other spenders' allowances were not touched
    assert_eq!(get_permission(&state, "0", "addr0", "addr1").unwrap().trfer_allowance_perm, 9);
    assert_eq!(get_permission(&state, "0", "addr0", "addr2").unwrap().trfer_allowance_perm, 5);
    assert_eq!(get_permission(&state, "0", "addr1", "addr1").unwrap().trfer_allowance_perm, 10);

    // the owner transfers its own units regardless of allowances
    try_transfer(&mut state, &env("addr0"), "0".to_string(), addr("addr0"), addr("addr1"), 10, None)
        .unwrap();
    try_transfer(&mut state, &env("addr0"), "0".to_string(), addr("addr0"), addr("addr1"), 10, None)
        .unwrap();
    assert_eq!(chk_bal(&state, "0", "addr0"), Some(970));
    assert_eq!(chk_bal(&state, "0", "addr1"), Some(30));
    // 1 initial balance, 3 transfers
    assert_eq!(state.config.tx_cnt, 4u64);
}

#[test]
fn test_transfer_permissions_nft() {
    let mut state = init_helper_default();
    curate_addtl_default(&mut state);

    // no permission: cannot move someone else's NFT
    let result = try_transfer(
        &mut state,
        &env("addr1"),
        "2".to_string(),
        addr("addr2"),
        addr("addr0"),
        1,
        None,
    );
    assert_eq!(result, Err(Error::Unauthorized));
    assert_eq!(chk_bal(&state, "2", "addr2"), Some(1));
    assert_eq!(chk_bal(&state, "2", "addr0"), None);

    // with an allowance the delegate can move it
    give_transfer_perm(&mut state, "addr2", "addr1", "2", 10);
    try_transfer(&mut state, &env("addr1"), "2".to_string(), addr("addr2"), addr("addr0"), 1, None)
        .unwrap();
    assert_eq!(chk_bal(&state, "2", "addr2"), Some(0));
    assert_eq!(chk_bal(&state, "2", "addr0"), Some(1));

    // a second attempt finds no unit left
    let result = try_transfer(
        &mut state,
        &env("addr1"),
        "2".to_string(),
        addr("addr2"),
        addr("addr0"),
        1,
        None,
    );
    assert_eq!(result, Err(Error::InsufficientFunds));
    assert_eq!(chk_bal(&state, "2", "addr2"), Some(0));
    assert_eq!(chk_bal(&state, "2", "addr0"), Some(1));

    // a fresh grant on "2a"
    give_transfer_perm(&mut state, "addr2", "addr1", "2a", 1);
    assert_eq!(
        get_permission(&state, "2a", "addr2", "addr1"),
        Some(Permission {
            view_balance_perm: false,
            view_balance_exp: Expiration::default(),
            view_pr_metadata_perm: false,
            view_pr_metadata_exp: Expiration::default(),
            trfer_allowance_perm: 1,
            trfer_allowance_exp: Expiration::default(),
        })
    );

    // the owner itself moves "2a" away
    try_transfer(&mut state, &env("addr2"), "2a".to_string(), addr("addr2"), addr("addr0"), 1, None)
        .unwrap();
    assert_eq!(chk_bal(&state, "2a", "addr2"), Some(0));
    assert_eq!(chk_bal(&state, "2a", "addr0"), Some(1));

    // the old owner's grant does not follow the asset to its new owner
    let result = try_transfer(
        &mut state,
        &env("addr1"),
        "2a".to_string(),
        addr("addr0"),
        addr("addr1"),
        1,
        None,
    );
    assert_eq!(result, Err(Error::Unauthorized));
    assert_eq!(chk_bal(&state, "2a", "addr1"), None);
    assert_eq!(chk_bal(&state, "2a", "addr0"), Some(1));
}

#[test]
fn test_revoke_permission_sanity() {
    let mut state = init_helper_default();

    give_transfer_perm(&mut state, "addr0", "addr1", "0", 10);
    assert_eq!(get_permission(&state, "0", "addr0", "addr1").unwrap().trfer_allowance_perm, 10);

    // the spender can renounce the permission it was given
    try_revoke_permission(
        &mut state,
        &env("addr1"),
        "0".to_string(),
        addr("addr0"),
        addr("addr1"),
    )
    .unwrap();
    assert_eq!(get_permission(&state, "0", "addr0", "addr1").unwrap().trfer_allowance_perm, 0);
}

#[test]
fn test_add_remove_curators() {
    let mut state = init_helper_default();

    // a non-curator cannot curate
    let curate = fungible_curate("test0", "token0", "TKN", "addr0", 1000);
    let result = try_curate_token_ids(&mut state, &env("addr1"), vec![curate], None);
    assert_eq!(result, Err(Error::Unauthorized));

    // the admin adds two curators...
    try_add_curators(&mut state, &env("addr0"), vec![addr("addr1"), addr("addr2")]).unwrap();
    assert_eq!(chk_bal(&state, "test0", "addr0"), None);

    // ...and the new curator addr1 can curate
    let curate = fungible_curate("test0", "token0", "TKN", "addr0", 1000);
    try_curate_token_ids(&mut state, &env("addr1"), vec![curate], None).unwrap();
    assert_eq!(chk_bal(&state, "test0", "addr0"), Some(1000));

    // a curator that is not the admin cannot add curators
    let result = try_add_curators(&mut state, &env("addr1"), vec![addr("addr1"), addr("addr2")]);
    assert_eq!(result, Err(Error::Unauthorized));

    // duplicate additions accumulate
    try_add_curators(&mut state, &env("addr0"), vec![addr("addr1"), addr("addr2")]).unwrap();
    try_add_curators(&mut state, &env("addr0"), vec![addr("addr1"), addr("addr2")]).unwrap();
    match query_contract_info(&state) {
        QueryAnswer::ContractInfo { curators, .. } => {
            assert_eq!(
                curators,
                vec![
                    addr("addr0"),
                    addr("addr1"),
                    addr("addr2"),
                    addr("addr1"),
                    addr("addr2"),
                    addr("addr1"),
                    addr("addr2"),
                ]
            );
        },
        _ => panic!("query error"),
    }

    // one removal clears every matching entry; the admin can remove itself
    try_remove_curators(&mut state, &env("addr0"), vec![addr("addr0"), addr("addr1")]).unwrap();
    match query_contract_info(&state) {
        QueryAnswer::ContractInfo { curators, .. } => {
            assert_eq!(curators, vec![addr("addr2"), addr("addr2"), addr("addr2")]);
        },
        _ => panic!("query error"),
    }

    // the removed curators cannot curate any more
    let curate = fungible_curate("test1", "token0", "TKN", "addr0", 1000);
    let result = try_curate_token_ids(&mut state, &env("addr1"), vec![curate], None);
    assert_eq!(result, Err(Error::Unauthorized));
    let curate = fungible_curate("test1", "token0", "TKN", "addr0", 1000);
    let result = try_curate_token_ids(&mut state, &env("addr0"), vec![curate], None);
    assert_eq!(result, Err(Error::Unauthorized));
    assert_eq!(chk_bal(&state, "test1", "addr0"), None);

    // addr2 is still a curator
    let curate = fungible_curate("test1", "token0", "TKN", "addr0", 1000);
    try_curate_token_ids(&mut state, &env("addr2"), vec![curate], None).unwrap();
    assert_eq!(chk_bal(&state, "test1", "addr0"), Some(1000));
}

#[test]
fn test_add_remove_minters() {
    let mut state = init_helper_default();

    // the admin adds curators addr1 and addr2, and addr1 curates test0
    try_add_curators(&mut state, &env("addr0"), vec![addr("addr1"), addr("addr2")]).unwrap();
    let curate = fungible_curate("test0", "token0", "TKN", "addr0", 1000);
    try_curate_token_ids(&mut state, &env("addr1"), vec![curate], None).unwrap();
    assert_eq!(chk_bal(&state, "test0", "addr0"), Some(1000));

    // curating a token line does not make one its minter
    let mint = TokenAmount {
        token_id: "test0".to_string(),
        balances: vec![TokenIdBalance { address: addr("addr0"), amount: 100 }],
    };
    let result = try_mint_tokens(&mut state, &env("addr1"), vec![mint], None);
    assert_eq!(result, Err(Error::Unauthorized));

    // neither another curator nor the token line's curator may amend
    // minters; that is the admin's alone
    let result = try_add_minters(&mut state, &env("addr2"), "test0".to_string(), vec![addr("addr2")]);
    assert_eq!(result, Err(Error::Unauthorized));
    let result = try_add_minters(&mut state, &env("addr1"), "test0".to_string(), vec![addr("addr2")]);
    assert_eq!(result, Err(Error::Unauthorized));

    // the minter list is unchanged, and the curator was recorded
    match query_token_id_public_info(&state, "test0".to_string()).unwrap() {
        QueryAnswer::TokenIdPublicInfo { token_id_info, .. } => {
            assert_eq!(token_id_info.curator, addr("addr1"));
            assert_eq!(token_id_info.token_config.flatten().minters, vec![addr("addr0")]);
        },
        _ => panic!("query error"),
    }

    // the admin adds minters addr2 and addr3, the latter twice
    try_add_minters(
        &mut state,
        &env("addr0"),
        "test0".to_string(),
        vec![addr("addr2"), addr("addr3"), addr("addr3")],
    )
    .unwrap();
    assert_eq!(
        minters_of(&state, "test0"),
        vec![addr("addr0"), addr("addr2"), addr("addr3"), addr("addr3")]
    );

    // minters cannot be amended on a token line that does not exist
    let result =
        try_add_minters(&mut state, &env("addr0"), "test-na".to_string(), vec![addr("addr3")]);
    assert_eq!(result, Err(Error::NotFound));

    // both new minters can mint
    let mint = TokenAmount {
        token_id: "test0".to_string(),
        balances: vec![TokenIdBalance { address: addr("addr0"), amount: 100 }],
    };
    try_mint_tokens(&mut state, &env("addr2"), vec![mint], None).unwrap();
    let mint = TokenAmount {
        token_id: "test0".to_string(),
        balances: vec![TokenIdBalance { address: addr("addr0"), amount: 100 }],
    };
    try_mint_tokens(&mut state, &env("addr3"), vec![mint], None).unwrap();
    assert_eq!(chk_bal(&state, "test0", "addr0"), Some(1200));

    // minters cannot burn another holder's tokens
    let burn = TokenAmount {
        token_id: "test0".to_string(),
        balances: vec![TokenIdBalance { address: addr("addr0"), amount: 500 }],
    };
    let result = try_burn_tokens(&mut state, &env("addr2"), vec![burn], None);
    assert_eq!(result, Err(Error::Unauthorized));

    // minters can change metadata, because the configuration allows it
    try_change_metadata(
        &mut state,
        &env("addr2"),
        "test0".to_string(),
        Some(meta("new public uri")),
        None,
    )
    .unwrap();
    match query_token_id_public_info(&state, "test0".to_string()).unwrap() {
        QueryAnswer::TokenIdPublicInfo { token_id_info, .. } => {
            assert_eq!(
                token_id_info.public_metadata.unwrap().token_uri,
                Some("new public uri".to_string())
            );
        },
        _ => panic!("query error"),
    }

    // no curator can remove minters either
    let result =
        try_remove_minters(&mut state, &env("addr2"), "test0".to_string(), vec![addr("addr2")]);
    assert_eq!(result, Err(Error::Unauthorized));
    let result =
        try_remove_minters(&mut state, &env("addr1"), "test0".to_string(), vec![addr("addr2")]);
    assert_eq!(result, Err(Error::Unauthorized));
    assert_eq!(
        minters_of(&state, "test0"),
        vec![addr("addr0"), addr("addr2"), addr("addr3"), addr("addr3")]
    );

    // the admin removes all minters; one listing removes both addr3 entries
    try_remove_minters(
        &mut state,
        &env("addr0"),
        "test0".to_string(),
        vec![addr("addr0"), addr("addr2"), addr("addr3")],
    )
    .unwrap();
    assert_eq!(minters_of(&state, "test0"), Vec::<String>::new());

    // now nobody can mint
    for who in ["addr0", "addr1", "addr2", "addr3"] {
        let mint = TokenAmount {
            token_id: "test0".to_string(),
            balances: vec![TokenIdBalance { address: addr("addr0"), amount: 100 }],
        };
        let result = try_mint_tokens(&mut state, &env(who), vec![mint], None);
        assert_eq!(result, Err(Error::Unauthorized));
    }
}

#[test]
fn test_change_admin() {
    let mut state = init_helper_default();
    assert_eq!(state.config.admin, Some(addr("addr0")));

    // a non-admin cannot hand over the admin role
    let result = try_change_admin(&mut state, &env("addr1"), addr("addr1"));
    assert_eq!(result, Err(Error::Unauthorized));

    // the admin can
    try_change_admin(&mut state, &env("addr0"), addr("addr1")).unwrap();
    assert_eq!(state.config.admin, Some(addr("addr1")));

    // the old admin has lost the role
    let result = try_add_curators(&mut state, &env("addr0"), vec![addr("addr1")]);
    assert_eq!(result, Err(Error::Unauthorized));

    // the new admin has it
    try_add_curators(&mut state, &env("addr1"), vec![addr("addr1")]).unwrap();
}

#[test]
fn test_remove_admin() {
    let mut state = init_helper_default();

    match query_contract_info(&state) {
        QueryAnswer::ContractInfo { admin, curators, all_token_ids } => {
            assert_eq!(admin, Some(addr("addr0")));
            assert_eq!(curators, vec![addr("addr0")]);
            assert_eq!(all_token_ids, vec!["0".to_string()]);
        },
        _ => panic!("query error"),
    }

    try_add_curators(&mut state, &env("addr0"), vec![addr("addr1")]).unwrap();

    // the safeguard inputs must repeat the current admin and address
    let result = try_remove_admin(
        &mut state,
        &env("addr0"),
        addr("addr1"),
        addr("cosmos2contract"),
    );
    assert_eq!(result, Err(Error::Validation));
    let result = try_remove_admin(&mut state, &env("addr0"), addr("addr0"), addr("wronginput"));
    assert_eq!(result, Err(Error::Validation));

    // a non-admin cannot clear the slot
    let result = try_remove_admin(
        &mut state,
        &env("addr1"),
        addr("addr0"),
        addr("cosmos2contract"),
    );
    assert_eq!(result, Err(Error::Unauthorized));

    // the admin clears the slot
    try_remove_admin(&mut state, &env("addr0"), addr("addr0"), addr("cosmos2contract")).unwrap();

    // admin-only calls now fail with the distinct no-admin error
    let result = try_add_curators(&mut state, &env("addr0"), vec![addr("addr1")]);
    assert_eq!(result, Err(Error::NoAdmin));

    match query_contract_info(&state) {
        QueryAnswer::ContractInfo { admin, curators, all_token_ids } => {
            assert_eq!(admin, None);
            assert_eq!(curators, vec![addr("addr0"), addr("addr1")]);
            assert_eq!(all_token_ids, vec!["0".to_string()]);
        },
        _ => panic!("query error"),
    }
}

#[test]
fn test_instantiate_admin_inputs() {
    // no admin wanted, none named: no admin
    let state = init(
        &env("addr0"),
        InitMsg { has_admin: false, admin: None, curators: vec![], initial_tokens: vec![] },
    )
    .unwrap();
    assert_eq!(state.config.admin, None);

    // no admin wanted: a named one is ignored
    let state = init(
        &env("addr0"),
        InitMsg {
            has_admin: false,
            admin: Some(addr("addr0")),
            curators: vec![],
            initial_tokens: vec![],
        },
    )
    .unwrap();
    assert_eq!(state.config.admin, None);

    // admin wanted, none named: the instantiating principal becomes admin
    let state = init(
        &env("addr0"),
        InitMsg { has_admin: true, admin: None, curators: vec![], initial_tokens: vec![] },
    )
    .unwrap();
    assert_eq!(state.config.admin, Some(addr("addr0")));

    // admin wanted and named: the named principal becomes admin
    let state = init(
        &env("addr0"),
        InitMsg {
            has_admin: true,
            admin: Some(addr("addr1")),
            curators: vec![],
            initial_tokens: vec![],
        },
    )
    .unwrap();
    assert_eq!(state.config.admin, Some(addr("addr1")));
}

#[test]
fn test_receiver_sanity() {
    let mut state = init_helper_default();

    let msg_bytes: Vec<u8> = "msg_str".as_bytes().to_vec();
    let (_, messages) = try_send(
        &mut state,
        &env("addr0"),
        SendAction {
            token_id: "0".to_string(),
            from: addr("addr0"),
            recipient: addr("addr1"),
            recipient_code_hash: Some("addr1_hash".to_string()),
            amount: 800,
            msg: Some(msg_bytes.clone()),
            memo: Some("some memo".to_string()),
        },
    )
    .unwrap();
    assert_eq!(messages.len(), 1);
    assert_eq!(messages[0].contract_addr, addr("addr1"));
    assert_eq!(messages[0].code_hash, "addr1_hash".to_string());
    let expected = Snip1155ReceiveMsg {
        sender: addr("addr0"),
        token_id: "0".to_string(),
        from: addr("addr0"),
        amount: 800,
        memo: Some("some memo".to_string()),
        msg: Some(msg_bytes),
    };
    assert_eq!(messages[0].msg, expected);
}
