use starknet_graph::rpc::client::{
    event_transaction_hashes, interpret_rpc_reply, needs_block_scan,
    parse_block_number, rpc_endpoint_or_default, scan_start_block, second_degree_addresses,
    scan_block, transaction_from_reply, transactions_in_blocks, RpcCall, RpcErrorObject, RpcReply,
};
use starknet_graph::errors::AppError;
use starknet_graph::json::JsonValue;
use starknet_graph::models::Transaction;

fn text(s: &str) -> JsonValue {
    JsonValue::Str(s.to_string())
}

fn object(members: Vec<(&str, JsonValue)>) -> JsonValue {
    JsonValue::Object(members.into_iter().map(|(k, v)| (k.to_string(), v)).collect())
}

fn deploy(hash: &str, contract: &str) -> JsonValue {
    object(vec![("transaction_hash", text(hash)), ("type", text("DEPLOY")), ("contract_address", text(contract))])
}

fn invoke(hash: &str, sender: &str, recipient: &str) -> JsonValue {
    object(vec![
        ("transaction_hash", text(hash)),
        ("type", text("INVOKE")),
        ("sender_address", text(sender)),
        ("calldata", JsonValue::Array(vec![text("0x1"), text(recipient)])),
    ])
}

fn detail(e: AppError) -> String {
    match e {
        AppError::RpcError(m) => m,
        other => panic!("expected an RPC error, got {:?}", other),
    }
}

#[test]
fn endpoint_falls_back_to_the_public_one() {
    assert_eq!(rpc_endpoint_or_default(None), "https://starknet-mainnet.infura.io/v3/your-api-key");
    assert_eq!(rpc_endpoint_or_default(Some("http://node".to_string())), "http://node");
}

#[test]
fn calls_name_their_methods() {
    assert_eq!(RpcCall::GetEvents { address: "0x1".to_string() }.method(), "starknet_getEvents");
    assert_eq!(RpcCall::GetTransactionByHash { hash: "0x1".to_string() }.method(), "starknet_getTransactionByHash");
    assert_eq!(RpcCall::BlockHashAndNumber.method(), "starknet_blockHashAndNumber");
    assert_eq!(RpcCall::GetBlockWithTxs { block_number: 3 }.method(), "starknet_getBlockWithTxs");
}

#[test]
fn replies_are_judged_error_first() {
    let both = RpcReply {
        result: Some(text("ignored")),
        error: Some(RpcErrorObject { code: -32602, message: "Invalid params".to_string() }),
    };
    assert_eq!(detail(interpret_rpc_reply(both).unwrap_err()), "RPC error: Invalid params (-32602)");
    let ok = RpcReply { result: Some(text("0x5")), error: None };
    assert!(matches!(interpret_rpc_reply(ok), Ok(JsonValue::Str(s)) if s == "0x5"));
    let empty = RpcReply { result: None, error: None };
    assert_eq!(detail(interpret_rpc_reply(empty).unwrap_err()), "No result in response");
}

#[test]
fn block_numbers_are_hexadecimal_strings() {
    let answer = object(vec![("block_hash", text("0xabc")), ("block_number", text("0x3e8"))]);
    assert_eq!(parse_block_number(&answer).unwrap(), 1000);
    let numeric = object(vec![("block_number", JsonValue::Number("1000".to_string()))]);
    assert_eq!(detail(parse_block_number(&numeric).unwrap_err()), "Missing block number");
    let bad = object(vec![("block_number", text("0xnope"))]);
    assert_eq!(detail(parse_block_number(&bad).unwrap_err()), "Failed to parse block number: invalid digit found in string");
    let empty = object(vec![("block_number", text("0x"))]);
    assert_eq!(
        detail(parse_block_number(&empty).unwrap_err()),
        "Failed to parse block number: cannot parse integer from empty string"
    );
}

#[test]
fn event_hashes_are_listed_in_order() {
    let answer = object(vec![(
        "events",
        JsonValue::Array(vec![
            object(vec![("transaction_hash", text("0x1"))]),
            object(vec![("block_number", JsonValue::Number("4".to_string()))]),
            object(vec![("transaction_hash", text("0x2"))]),
        ]),
    )]);
    assert_eq!(event_transaction_hashes(&answer), vec!["0x1".to_string(), "0x2".to_string()]);
    assert!(event_transaction_hashes(&JsonValue::Null).is_empty());
}

#[test]
fn transaction_replies_are_read_or_passed_on() {
    let t = transaction_from_reply(Ok(deploy("0x1", "0xc1"))).unwrap();
    assert_eq!(t.hash, "0x1");
    assert_eq!(detail(transaction_from_reply(Err(AppError::RpcError("timeout".to_string()))).unwrap_err()), "timeout");
    assert_eq!(
        detail(transaction_from_reply(Ok(object(vec![("type", text("INVOKE"))]))).unwrap_err()),
        "Missing transaction hash"
    );
}

#[test]
fn block_scan_bounds() {
    assert!(needs_block_scan(9));
    assert!(!needs_block_scan(10));
    assert_eq!(scan_start_block(5000), 4000);
    assert_eq!(scan_start_block(1000), 0);
    assert_eq!(scan_start_block(1001), 1);
}

#[test]
fn block_transactions_that_concern_the_address_are_kept() {
    let blocks = vec![
        object(vec![(
            "transactions",
            JsonValue::Array(vec![
                invoke("0x1", "0xme", "0xyou"),
                invoke("0x2", "0xother", "0xme"),
                invoke("0x3", "0xother", "0xthird"),
                object(vec![("sender_address", text("0xme")), ("type", text("INVOKE"))]),
            ]),
        )]),
        object(vec![("number", JsonValue::Number("2".to_string()))]),
        object(vec![("transactions", JsonValue::Array(vec![invoke("0x4", "0xme", "0xme")]))]),
    ];
    let found = transactions_in_blocks(&blocks, "0xme");
    let hashes: Vec<&str> = found.iter().map(|t| t.hash.as_str()).collect();
    assert_eq!(hashes, vec!["0x1", "0x2", "0x4"]);
}

fn transfer(from: &str, to: &str) -> Transaction {
    Transaction { hash: "0xh".to_string(), from_address: from.to_string(), to_address: to.to_string(), value_wei: 0, gas_used_wei: 0 }
}

#[test]
fn second_degree_addresses_exclude_the_wallet_and_zero() {
    let txs = vec![transfer("0xme", "0xa"), transfer("0xb", "0xme"), transfer("0xa", "0x0"), transfer("0xc", "0xb")];
    assert_eq!(second_degree_addresses(&txs, "0xme", 2), vec!["0xa".to_string(), "0xb".to_string(), "0xc".to_string()]);
    assert!(second_degree_addresses(&txs, "0xme", 1).is_empty());
}

fn serde(v: &JsonValue) -> serde_json::Value {
    match v {
        JsonValue::Null => serde_json::Value::Null,
        JsonValue::Bool(b) => serde_json::Value::Bool(*b),
        JsonValue::Number(n) => serde_json::Value::Number(n.parse().unwrap()),
        JsonValue::Str(s) => serde_json::Value::String(s.clone()),
        JsonValue::Array(items) => serde_json::Value::Array(items.iter().map(serde).collect()),
        JsonValue::Object(m) => serde_json::Value::Object(m.iter().map(|(k, v)| (k.clone(), serde(v))).collect()),
    }
}

#[test]
fn call_parameters_match_the_node_protocol() {
    let filter = RpcCall::GetEvents { address: "0xme".to_string() }.params();
    assert_eq!(
        serde(&filter),
        serde_json::from_str::<serde_json::Value>(
            r#"[{"address":"0xme","from_block":{"block_number":0},"to_block":"latest","page_size":50,"keys":[]}]"#
        )
        .unwrap()
    );
    assert_eq!(serde(&RpcCall::GetTransactionByHash { hash: "0x1".to_string() }.params()).to_string(), r#"["0x1"]"#);
    assert_eq!(serde(&RpcCall::BlockHashAndNumber.params()).to_string(), "[]");
    assert_eq!(serde(&RpcCall::GetBlockWithTxs { block_number: 1234 }.params()).to_string(), r#"[{"block_number":1234}]"#);
}

#[test]
fn scanning_a_block_reports_unreadable_transactions() {
    let block = object(vec![(
        "transactions",
        JsonValue::Array(vec![
            invoke("0x1", "0xme", "0xyou"),
            object(vec![("sender_address", text("0xme")), ("type", text("INVOKE"))]),
            object(vec![("sender_address", text("0xother"))]),
        ]),
    )]);
    let (found, failures) = scan_block(&block, "0xme");
    assert_eq!(found.len(), 1);
    assert_eq!(found[0].hash, "0x1");
    assert_eq!(failures.len(), 1);
    assert_eq!(failures[0].message(), "RPC error: Missing transaction hash");
}
