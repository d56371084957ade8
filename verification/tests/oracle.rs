use aml_transfer::crypto::{check_passed, secp256k1_sha256_verify, secp256k1_verify_digest};
use aml_transfer::error::ContractError;
use aml_transfer::oracle::contract::{
    apply_oracle_update, execute, execute_oracle_update, execute_send, execute_transfer,
    execute_update_oracle, instantiate, query, OracleState,
};
use aml_transfer::oracle::msg::{
    AdminResponse, AmlStatus, ExecuteMsg, InstantiateMsg, OracleDataEntry, OracleDataResponse,
    OraclePubkeyResponse, QueryMsg, QueryResponse,
};
use aml_transfer::response::{Attribute, BankMsg, Coin, Event, MessageInfo, Response};
use aml_transfer::state::KeyType;

// A message, its secp256k1 signature and the signer's uncompressed key.
const PAYLOAD_HEX: &str = "5c868fedb8026979ebd26f1ba07c27eedf4ff6d10443505a96ecaf21ba8c4f0937b3cd23ffdc3dd429d4cd1905fb8dbcceeff1350020e18b58d2ba70887baa3a9b783ad30d3fbf210331cdd7df8d77defa398cdacdfc2e359c7ba4cae46bb74401deb417f8b912a1aa966aeeba9c39c7dd22479ae2b30719dca2f2206c5eb4b7";
const SIGNATURE_HEX: &str = "207082eb2c3dfa0b454e0906051270ba4074ac93760ba9e7110cd9471475111151eb0dbbc9920e72146fb564f99d039802bf6ef2561446eb126ef364d21ee9c4";
const PUBKEY_HEX: &str = "04051c1ee2190ecfb174bfe4f90763f2b4ff7517b70a2aec1876ebcfd644c4633fb03f3cfbd94b1f376e34592d9d41ccaf640bb751b00a1fadeb0c01157769eb73";

// A second message with its signature under a compressed key.
const PAYLOAD2_HEX: &str = "0a93010a90010a1c2f636f736d6f732e62616e6b2e763162657461312e4d736753656e6412700a2d636f736d6f7331706b707472653766646b6c366766727a6c65736a6a766878686c63337234676d6d6b38727336122d636f736d6f7331717970717870713971637273737a673270767871367273307a716733797963356c7a763778751a100a0575636f736d12073132333435363712650a4e0a460a1f2f636f736d6f732e63727970746f2e736563703235366b312e5075624b657912230a21034f04181eeba35391b858633a765c4a0c189697b40d216354d50890d350c7029012040a02080112130a0d0a0575636f736d12043230303010c09a0c1a0c73696d642d74657374696e672001";
const SIGNATURE2_HEX: &str = "c9dd20e07464d3a688ff4b710b1fbc027e495e797cfa0b4804da2ed117959227772de059808f765aa29b8f92edf30f4c2c5a438e30d3fe6897daa7141e3ce6f9";
const PUBKEY2_HEX: &str = "034f04181eeba35391b858633a765c4a0c189697b40d216354d50890d350c70290";

fn unhex(text: &str) -> Vec<u8> {
    let digits: Vec<u8> = text.chars().map(|c| c.to_digit(16).unwrap() as u8).collect();
    digits.chunks(2).map(|pair| pair[0] * 16 + pair[1]).collect()
}

fn caller(sender: &str) -> MessageInfo {
    MessageInfo { sender: sender.to_string(), funds: vec![] }
}

fn caller_with(sender: &str, funds: Vec<Coin>) -> MessageInfo {
    MessageInfo { sender: sender.to_string(), funds }
}

fn entry(wallet: &str, reason: &str, risk_score: Option<u64>) -> OracleDataEntry {
    OracleDataEntry { wallet: wallet.to_string(), reason: reason.to_string(), risk_score }
}

fn attribute(key: &str, value: &str) -> Attribute {
    Attribute { key: key.to_string(), value: value.to_string() }
}

fn attributes_only(attributes: Vec<Attribute>) -> Response {
    Response { messages: vec![], attributes, events: vec![] }
}

fn event_only(ty: &str, attributes: Vec<Attribute>) -> Response {
    Response {
        messages: vec![],
        attributes: vec![],
        events: vec![Event { ty: ty.to_string(), attributes }],
    }
}

fn start(key_type: &str) -> OracleState {
    let msg = InstantiateMsg { oracle_pubkey: unhex(PUBKEY_HEX), oracle_key_type: key_type.to_string() };
    instantiate(caller("admin"), msg).unwrap().0
}

fn start_flagging(entries: Vec<OracleDataEntry>) -> OracleState {
    let mut state = start("secp256k1");
    apply_oracle_update(&mut state, caller("oracle"), entries, true).unwrap();
    state
}

fn oracle_key(state: &OracleState) -> OraclePubkeyResponse {
    match query(state, QueryMsg::GetOraclePubkey {}) {
        QueryResponse::OraclePubkey(key) => key,
        other => panic!("unexpected answer {:?}", other),
    }
}

fn oracle_data(state: &OracleState) -> Vec<OracleDataEntry> {
    match query(state, QueryMsg::GetOracleData {}) {
        QueryResponse::OracleData(OracleDataResponse { data }) => data,
        other => panic!("unexpected answer {:?}", other),
    }
}

fn check_aml(state: &OracleState, wallet: &str) -> AmlStatus {
    match query(state, QueryMsg::CheckAML { wallet: wallet.to_string() }) {
        QueryResponse::Aml(status) => status,
        other => panic!("unexpected answer {:?}", other),
    }
}

#[test]
fn instantiate_with_ecdsa_reports_secp256k1() {
    let state = start("ecdsa");
    assert_eq!(
        oracle_key(&state),
        OraclePubkeyResponse { pubkey: unhex(PUBKEY_HEX), key_type: "secp256k1".to_string() }
    );
    assert_eq!(state.key_type(), KeyType::Secp256k1);
}

#[test]
fn instantiate_normalizes_every_alias() {
    for (alias, name) in [
        ("K256", "secp256k1"),
        ("SECP256K1", "secp256k1"),
        ("ED", "ed25519"),
        ("Ed25519", "ed25519"),
    ] {
        assert_eq!(oracle_key(&start(alias)).key_type, name);
    }
}

#[test]
fn instantiate_makes_the_caller_admin() {
    let state = start("secp256k1");
    assert_eq!(
        query(&state, QueryMsg::GetAdmin {}),
        QueryResponse::Admin(AdminResponse { admin: "admin".to_string() })
    );
    assert_eq!(state.admin(), "admin");
    assert_eq!(state.pubkey(), &unhex(PUBKEY_HEX));
    assert_eq!(oracle_data(&state), vec![]);
}

#[test]
fn instantiate_reports_what_it_stored() {
    let msg = InstantiateMsg { oracle_pubkey: vec![1, 2, 3], oracle_key_type: "k256".to_string() };
    let (_, response) = instantiate(caller("creator"), msg).unwrap();
    assert_eq!(
        response,
        attributes_only(vec![
            attribute("action", "instantiate"),
            attribute("admin", "creator"),
            attribute("oracle_pubkey", "AQID"),
            attribute("oracle_key_type", "secp256k1"),
        ])
    );
}

#[test]
fn instantiate_rejects_an_unknown_key_type() {
    for name in ["rsa", "", "secp256k1!", "ed 25519"] {
        let msg = InstantiateMsg { oracle_pubkey: vec![1], oracle_key_type: name.to_string() };
        assert_eq!(instantiate(caller("admin"), msg).err(), Some(ContractError::InvalidKeyType));
    }
}

#[test]
fn keys_are_reported_in_padded_base64() {
    for (key, text) in [
        (vec![], ""),
        (vec![0], "AA=="),
        (vec![255, 254], "//4="),
        (vec![1, 2, 3], "AQID"),
        (vec![0xfb, 0xff, 0xbf, 0x3e], "+/+/Pg=="),
    ] {
        let msg = InstantiateMsg { oracle_pubkey: key.clone(), oracle_key_type: "ed".to_string() };
        let (mut state, response) = instantiate(caller("admin"), msg).unwrap();
        assert_eq!(response.attributes[2], attribute("oracle_pubkey", text));
        let response = execute_update_oracle(&mut state, caller("admin"), key, None).unwrap();
        assert_eq!(response.events[0].attributes[2], attribute("new_pubkey", text));
    }
}

#[test]
fn signature_over_the_digest_is_accepted() {
    assert!(secp256k1_sha256_verify(&unhex(PUBKEY_HEX), &unhex(PAYLOAD_HEX), &unhex(SIGNATURE_HEX)));
    assert!(secp256k1_sha256_verify(
        &unhex(PUBKEY2_HEX),
        &unhex(PAYLOAD2_HEX),
        &unhex(SIGNATURE2_HEX)
    ));
}

#[test]
fn signature_is_checked_against_a_given_digest() {
    let digest = unhex("5ae8317d34d1e595e3fa7247db80c0af4320cce1116de187f8f7e2e099c0d8d0");
    assert!(secp256k1_verify_digest(&unhex(PUBKEY_HEX), &digest, &unhex(SIGNATURE_HEX)));
    let mut other = digest.clone();
    other[31] ^= 1;
    assert!(!secp256k1_verify_digest(&unhex(PUBKEY_HEX), &other, &unhex(SIGNATURE_HEX)));
    // a digest of another length is no digest
    assert!(!secp256k1_verify_digest(&unhex(PUBKEY_HEX), &digest[..31], &unhex(SIGNATURE_HEX)));
    assert!(!secp256k1_verify_digest(&unhex(PUBKEY_HEX), &unhex(PAYLOAD_HEX), &unhex(SIGNATURE_HEX)));
}

#[test]
fn every_refusal_has_its_message() {
    assert_eq!(ContractError::Unauthorized.message(), "unauthorized");
    assert_eq!(
        ContractError::InvalidKeyType.message(),
        "invalid key type: use 'secp256k1' or 'ed25519'"
    );
    assert_eq!(ContractError::SignatureInvalid.message(), "oracle signature invalid");
    assert_eq!(ContractError::InvalidRecipient.message(), "invalid recipient address");
    assert_eq!(ContractError::InvalidAmount.message(), "no funds or zero amount");
}

#[test]
fn signature_is_bound_to_payload_and_key() {
    let key = unhex(PUBKEY_HEX);
    let payload = unhex(PAYLOAD_HEX);
    let signature = unhex(SIGNATURE_HEX);
    let mut other_payload = payload.clone();
    other_payload[0] ^= 1;
    assert!(!secp256k1_sha256_verify(&key, &other_payload, &signature));
    let mut other_signature = signature.clone();
    other_signature[10] ^= 1;
    assert!(!secp256k1_sha256_verify(&key, &payload, &other_signature));
    assert!(!secp256k1_sha256_verify(&unhex(PUBKEY2_HEX), &payload, &signature));
    assert!(!secp256k1_sha256_verify(&key, &unhex(PAYLOAD2_HEX), &signature));
}

#[test]
fn malformed_inputs_fail_the_check() {
    let key = unhex(PUBKEY_HEX);
    let payload = unhex(PAYLOAD_HEX);
    let signature = unhex(SIGNATURE_HEX);
    assert!(!secp256k1_sha256_verify(&key, &payload, &signature[..63]));
    assert!(!secp256k1_sha256_verify(&key, &payload, &[]));
    assert!(!secp256k1_sha256_verify(&key[..64], &payload, &signature));
    assert!(!secp256k1_sha256_verify(&[], &payload, &signature));
    assert!(!secp256k1_sha256_verify(&[], &[], &[]));
    // a key of the right length under the wrong first byte
    let mut mislabelled = key.clone();
    mislabelled[0] = 2;
    assert!(!secp256k1_sha256_verify(&mislabelled, &payload, &signature));
    let mut compressed = unhex(PUBKEY2_HEX);
    compressed[0] = 4;
    assert!(!secp256k1_sha256_verify(&compressed, &unhex(PAYLOAD2_HEX), &unhex(SIGNATURE2_HEX)));
    // a signature with a byte too many
    let mut long = signature.clone();
    long.push(0);
    assert!(!secp256k1_sha256_verify(&key, &payload, &long));
}

#[test]
fn a_check_passes_only_on_a_clear_yes() {
    assert!(check_passed(&Ok(true)));
    assert!(!check_passed(&Ok(false)));
    assert!(!check_passed(&Err(cosmwasm_crypto::CryptoError::invalid_signature_format())));
    assert!(!check_passed(&Err(cosmwasm_crypto::CryptoError::generic_err("broken"))));
}

#[test]
fn state_verifies_with_its_own_key() {
    let state = start("k256");
    assert!(state.verify(&unhex(PAYLOAD_HEX), &unhex(SIGNATURE_HEX)));
    assert!(!state.verify(&unhex(PAYLOAD2_HEX), &unhex(SIGNATURE2_HEX)));
}

#[test]
fn ed25519_key_accepts_nothing() {
    let state = start("ed25519");
    assert!(!state.verify(&unhex(PAYLOAD_HEX), &unhex(SIGNATURE_HEX)));
}

#[test]
fn signed_dataset_flags_and_later_dataset_unflags() {
    let mut state = start("ecdsa");
    let response = execute_oracle_update(
        &mut state,
        caller("oracle"),
        unhex(PAYLOAD_HEX),
        vec![entry("W1", "sanctions", Some(80))],
        unhex(SIGNATURE_HEX),
    )
    .unwrap();
    assert_eq!(
        response,
        event_only(
            "oracle_data_update",
            vec![
                attribute("action", "oracle_data_update"),
                attribute("sender", "oracle"),
                attribute("entries", "bulk_updated"),
            ]
        )
    );
    assert_eq!(
        check_aml(&state, "W1"),
        AmlStatus {
            wallet: "W1".to_string(),
            reason: "sanctions".to_string(),
            status: "AML check failed".to_string()
        }
    );
    assert_eq!(state.check_wallet("W1"), Some(&entry("W1", "sanctions", Some(80))));

    execute_oracle_update(
        &mut state,
        caller("oracle"),
        unhex(PAYLOAD_HEX),
        vec![entry("W2", "fraud", None)],
        unhex(SIGNATURE_HEX),
    )
    .unwrap();
    assert_eq!(
        check_aml(&state, "W1"),
        AmlStatus {
            wallet: "W1".to_string(),
            reason: "No suspicious activity".to_string(),
            status: "OK".to_string()
        }
    );
    assert_eq!(state.check_wallet("W1"), None);
    assert_eq!(oracle_data(&state), vec![entry("W2", "fraud", None)]);
}

#[test]
fn dataset_with_invalid_signature_leaves_the_registry() {
    let mut state = start_flagging(vec![entry("W1", "sanctions", None), entry("W0", "fraud", Some(3))]);
    let before = oracle_data(&state);
    let state_before = state.clone();
    let mut signature = unhex(SIGNATURE_HEX);
    signature[0] ^= 0x40;
    let result = execute_oracle_update(
        &mut state,
        caller("oracle"),
        unhex(PAYLOAD_HEX),
        vec![entry("W9", "mixer", None)],
        signature,
    );
    assert_eq!(result, Err(ContractError::SignatureInvalid));
    assert_eq!(oracle_data(&state), before);
    assert_eq!(state, state_before);
    assert_eq!(before, vec![entry("W0", "fraud", Some(3)), entry("W1", "sanctions", None)]);

    let result = execute_oracle_update(
        &mut state,
        caller("oracle"),
        unhex(PAYLOAD_HEX),
        vec![],
        vec![],
    );
    assert_eq!(result, Err(ContractError::SignatureInvalid));
    assert_eq!(oracle_data(&state), before);
}

#[test]
fn dataset_under_an_ed25519_key_is_refused() {
    let mut state = start("ed");
    let result = execute_oracle_update(
        &mut state,
        caller("oracle"),
        unhex(PAYLOAD_HEX),
        vec![entry("W1", "sanctions", None)],
        unhex(SIGNATURE_HEX),
    );
    assert_eq!(result, Err(ContractError::SignatureInvalid));
    assert_eq!(oracle_data(&state), vec![]);
}

#[test]
fn dataset_goes_through_execute() {
    let mut state = start("secp256k1");
    let msg = ExecuteMsg::OracleDataUpdate {
        payload: unhex(PAYLOAD_HEX),
        data: vec![entry("b", "2", None), entry("a", "1", None), entry("b", "3", Some(9))],
        signature: unhex(SIGNATURE_HEX),
    };
    assert!(execute(&mut state, caller("oracle"), msg, false).is_ok());
    assert_eq!(oracle_data(&state), vec![entry("a", "1", None), entry("b", "3", Some(9))]);
}

#[test]
fn unverified_dataset_is_refused_whatever_it_holds() {
    let mut state = start_flagging(vec![entry("W1", "sanctions", None)]);
    let result = apply_oracle_update(&mut state, caller("oracle"), vec![], false);
    assert_eq!(result, Err(ContractError::SignatureInvalid));
    assert_eq!(oracle_data(&state), vec![entry("W1", "sanctions", None)]);
}

#[test]
fn rotation_by_a_stranger_is_unauthorized() {
    let mut state = start("secp256k1");
    let before = state.clone();
    let result =
        execute_update_oracle(&mut state, caller("mallory"), vec![9, 9], Some("ed".to_string()));
    assert_eq!(result, Err(ContractError::Unauthorized));
    assert_eq!(state, before);
    assert_eq!(
        oracle_key(&state),
        OraclePubkeyResponse { pubkey: unhex(PUBKEY_HEX), key_type: "secp256k1".to_string() }
    );
    // the caller is tested before the key type
    let result =
        execute_update_oracle(&mut state, caller("mallory"), vec![9, 9], Some("rsa".to_string()));
    assert_eq!(result, Err(ContractError::Unauthorized));
    let result = execute_update_oracle(&mut state, caller("Admin"), vec![9, 9], None);
    assert_eq!(result, Err(ContractError::Unauthorized));
}

#[test]
fn admin_guard_passes_the_admin_alone() {
    let state = start("secp256k1");
    assert_eq!(state.require_admin("admin"), Ok(()));
    for stranger in ["", "Admin", "admin ", "mallory"] {
        assert_eq!(state.require_admin(stranger), Err(ContractError::Unauthorized));
    }
}

#[test]
fn rotation_with_an_unknown_key_type_changes_nothing() {
    let mut state = start_flagging(vec![entry("W1", "sanctions", None)]);
    let before = state.clone();
    let result =
        execute_update_oracle(&mut state, caller("admin"), vec![9, 9], Some("rsa".to_string()));
    assert_eq!(result, Err(ContractError::InvalidKeyType));
    assert_eq!(state, before);
    assert_eq!(
        oracle_key(&state),
        OraclePubkeyResponse { pubkey: unhex(PUBKEY_HEX), key_type: "secp256k1".to_string() }
    );
}

#[test]
fn rotation_replaces_key_and_type() {
    let mut state = start("secp256k1");
    let response =
        execute_update_oracle(&mut state, caller("admin"), vec![1, 2, 3], Some("ED".to_string()))
            .unwrap();
    assert_eq!(
        response,
        event_only(
            "oracle_admin_update",
            vec![
                attribute("action", "oracle_update"),
                attribute("admin", "admin"),
                attribute("new_pubkey", "AQID"),
                attribute("new_key_type", "ed25519"),
            ]
        )
    );
    assert_eq!(
        oracle_key(&state),
        OraclePubkeyResponse { pubkey: vec![1, 2, 3], key_type: "ed25519".to_string() }
    );
}

#[test]
fn rotation_without_a_key_type_keeps_the_type() {
    let mut state = start("ed25519");
    let msg = ExecuteMsg::UpdateOracle { new_pubkey: unhex(PUBKEY2_HEX), new_key_type: None };
    let response = execute(&mut state, caller("admin"), msg, false).unwrap();
    assert_eq!(response.events[0].attributes[3], attribute("new_key_type", "ed25519"));
    assert_eq!(
        oracle_key(&state),
        OraclePubkeyResponse { pubkey: unhex(PUBKEY2_HEX), key_type: "ed25519".to_string() }
    );
}

#[test]
fn rotated_key_is_the_one_that_verifies() {
    let mut state = start("secp256k1");
    execute_update_oracle(&mut state, caller("admin"), unhex(PUBKEY2_HEX), None).unwrap();
    assert!(!state.verify(&unhex(PAYLOAD_HEX), &unhex(SIGNATURE_HEX)));
    assert!(state.verify(&unhex(PAYLOAD2_HEX), &unhex(SIGNATURE2_HEX)));
}

#[test]
fn send_reports_a_flagged_sender_first() {
    let state = start_flagging(vec![entry("alice", "sanctions", None), entry("bob", "fraud", None)]);
    let info = caller_with("alice", vec![Coin::new(5, "ustake")]);
    let response = execute_send(&state, info, "bob".to_string(), false).unwrap();
    assert_eq!(
        response,
        attributes_only(vec![
            attribute("flagged_wallet", "alice"),
            attribute("reason", "sanctions"),
            attribute("status", "AML check failed"),
        ])
    );
}

#[test]
fn send_reports_a_flagged_recipient() {
    let state = start_flagging(vec![entry("bob", "fraud", Some(4))]);
    let response = execute_send(&state, caller("alice"), "bob".to_string(), false).unwrap();
    assert_eq!(
        response,
        attributes_only(vec![
            attribute("flagged_wallet", "bob"),
            attribute("reason", "fraud"),
            attribute("status", "AML check failed"),
        ])
    );
}

#[test]
fn send_needs_a_valid_recipient() {
    let state = start("secp256k1");
    let info = caller_with("alice", vec![Coin::new(5, "ustake")]);
    assert_eq!(
        execute_send(&state, info, "bob".to_string(), false),
        Err(ContractError::InvalidRecipient)
    );
}

#[test]
fn send_needs_funds() {
    let state = start("secp256k1");
    assert_eq!(
        execute_send(&state, caller("alice"), "bob".to_string(), true),
        Err(ContractError::InvalidAmount)
    );
}

#[test]
fn send_holds_back_a_large_amount() {
    let state = start("secp256k1");
    let info = caller_with(
        "alice",
        vec![Coin::new(20000, "uatom"), Coin::new(10001, "ustake"), Coin::new(99999, "ustake")],
    );
    let response = execute_send(&state, info, "bob".to_string(), true).unwrap();
    assert_eq!(
        response,
        attributes_only(vec![
            attribute("sender", "alice"),
            attribute("recipient", "bob"),
            attribute("amount", "10001"),
            attribute("status", "AML check failed"),
            attribute("reason", "suspiciously large amount"),
        ])
    );
}

#[test]
fn send_pays_the_attached_funds() {
    let mut state = start("secp256k1");
    let funds = vec![Coin::new(10000, "ustake"), Coin::new(20000, "uatom")];
    let msg = ExecuteMsg::Send { recipient: "bob".to_string() };
    let response = execute(&mut state, caller_with("alice", funds.clone()), msg, true).unwrap();
    assert_eq!(
        response,
        Response {
            messages: vec![BankMsg::Send { to_address: "bob".to_string(), amount: funds }],
            attributes: vec![attribute("status", "success")],
            events: vec![Event {
                ty: "send".to_string(),
                attributes: vec![
                    attribute("action", "send"),
                    attribute("from", "alice"),
                    attribute("to", "bob"),
                    attribute("amount", "[Coin { 10000 \"ustake\" }, Coin { 20000 \"uatom\" }]"),
                ],
            }],
        }
    );
}

#[test]
fn transfer_reports_flagged_parties() {
    let state = start_flagging(vec![entry("alice", "sanctions", None), entry("bob", "fraud", None)]);
    let response = execute_transfer(&state, caller("alice"), "bob".to_string(), 1).unwrap();
    assert_eq!(response.attributes[0], attribute("flagged_wallet", "alice"));
    assert_eq!(response.attributes[1], attribute("reason", "sanctions"));
    let response = execute_transfer(&state, caller("carol"), "bob".to_string(), 1).unwrap();
    assert_eq!(
        response,
        attributes_only(vec![
            attribute("flagged_wallet", "bob"),
            attribute("reason", "fraud"),
            attribute("status", "AML check failed"),
        ])
    );
}

#[test]
fn transfer_holds_back_a_large_amount() {
    let state = start("secp256k1");
    let response = execute_transfer(&state, caller("alice"), "bob".to_string(), 10001).unwrap();
    assert_eq!(
        response,
        attributes_only(vec![
            attribute("sender", "alice"),
            attribute("recipient", "bob"),
            attribute("amount", "10001"),
            attribute("status", "AML check failed"),
            attribute("reason", "suspiciously large amount"),
        ])
    );
}

#[test]
fn transfer_of_the_limit_goes_ahead() {
    let mut state = start("secp256k1");
    let msg = ExecuteMsg::Transfer { recipient: "bob".to_string(), amount: 10000 };
    let response = execute(&mut state, caller("alice"), msg, false).unwrap();
    assert_eq!(
        response,
        attributes_only(vec![
            attribute("action", "transfer"),
            attribute("status", "success"),
            attribute("to", "bob"),
            attribute("amount", "10000"),
        ])
    );
}

#[test]
fn balance_is_kept_by_the_host() {
    let state = start("secp256k1");
    assert_eq!(
        query(&state, QueryMsg::GetBalance { address: "alice".to_string() }),
        QueryResponse::Balance(0)
    );
}

#[test]
fn restored_state_answers_as_before() {
    let entries = vec![entry("W2", "fraud", None), entry("W1", "sanctions", Some(1))];
    let state = OracleState::restore(
        "admin".to_string(),
        unhex(PUBKEY_HEX),
        KeyType::Secp256k1,
        &entries,
    );
    assert_eq!(state.records(), vec![entry("W1", "sanctions", Some(1)), entry("W2", "fraud", None)]);
    assert_eq!(state.admin(), "admin");
    assert!(state.verify(&unhex(PAYLOAD_HEX), &unhex(SIGNATURE_HEX)));
}
