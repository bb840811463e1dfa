use starknet_graph::errors::AppError;
use starknet_graph::json::JsonValue;
use starknet_graph::models::Transaction;
use starknet_graph::rpc::transaction_utils::parse_transaction_from_response;
use starknet_graph::api::transactions::{
    build_transaction_graph, build_transaction_graph_with_ids, edge_label, transaction_graph_response, validate_wallet_address,
};

fn text(s: &str) -> JsonValue {
    JsonValue::Str(s.to_string())
}

fn object(members: Vec<(&str, JsonValue)>) -> JsonValue {
    JsonValue::Object(members.into_iter().map(|(k, v)| (k.to_string(), v)).collect())
}

fn rpc_detail(r: Result<Transaction, AppError>) -> String {
    match r {
        Err(AppError::RpcError(m)) => m,
        other => panic!("expected an RPC error, got {:?}", other),
    }
}

#[test]
fn invoke_transaction_is_read_from_calldata() {
    let tx = object(vec![
        ("transaction_hash", text("0xabc")),
        ("type", text("INVOKE")),
        ("sender_address", text("0xsender")),
        ("calldata", JsonValue::Array(vec![text("0x1"), text("0xrecipient"), text("0x0xde0b6b3a7640000")])),
        ("max_fee", text("0x2386f26fc10000")),
    ]);
    let t = parse_transaction_from_response(&tx).unwrap();
    assert_eq!(t.hash, "0xabc");
    assert_eq!(t.from_address, "0xsender");
    assert_eq!(t.to_address, "0xrecipient");
    assert_eq!(t.value_wei, 1_000_000_000_000_000_000);
    assert_eq!(t.gas_used_wei, 10_000_000_000_000_000);
}

#[test]
fn invoke_with_short_or_odd_calldata_defaults() {
    let tx = object(vec![
        ("transaction_hash", text("0x1")),
        ("type", text("INVOKE")),
        ("sender_address", text("0xs")),
        ("calldata", JsonValue::Array(vec![text("0x1"), JsonValue::Number("5".to_string()), JsonValue::Null])),
        ("max_fee", text("not hex")),
    ]);
    let t = parse_transaction_from_response(&tx).unwrap();
    assert_eq!(t.to_address, "0x0");
    assert_eq!(t.value_wei, 0);
    assert_eq!(t.gas_used_wei, 0);

    let short = object(vec![
        ("transaction_hash", text("0x1")),
        ("type", text("INVOKE")),
        ("sender_address", text("0xs")),
        ("calldata", JsonValue::Array(vec![text("0x1")])),
    ]);
    let t = parse_transaction_from_response(&short).unwrap();
    assert_eq!(t.to_address, "0x0");
    assert_eq!(t.value_wei, 0);
    assert_eq!(t.gas_used_wei, 21000);
}

#[test]
fn declare_and_deploy_name_their_sender() {
    let declare = object(vec![
        ("transaction_hash", text("0x2")),
        ("type", text("DECLARE")),
        ("sender_address", text("0xdeclarer")),
        ("calldata", JsonValue::Array(vec![text("0x1"), text("0xignored"), text("0x5")])),
    ]);
    let t = parse_transaction_from_response(&declare).unwrap();
    assert_eq!(t.from_address, "0xdeclarer");
    assert_eq!(t.to_address, "0x0");
    assert_eq!(t.value_wei, 0);

    let deploy = object(vec![
        ("transaction_hash", text("0x3")),
        ("type", text("DEPLOY")),
        ("contract_address", text("0xcontract")),
    ]);
    let t = parse_transaction_from_response(&deploy).unwrap();
    assert_eq!(t.from_address, "0xcontract");
    assert_eq!(t.to_address, "0x0");
}

#[test]
fn malformed_transactions_are_refused_with_the_reason() {
    let no_hash = object(vec![("type", text("INVOKE"))]);
    assert_eq!(rpc_detail(parse_transaction_from_response(&no_hash)), "Missing transaction hash");
    let no_type = object(vec![("transaction_hash", text("0x1"))]);
    assert_eq!(rpc_detail(parse_transaction_from_response(&no_type)), "Missing transaction type");
    let no_sender = object(vec![("transaction_hash", text("0x1")), ("type", text("INVOKE"))]);
    assert_eq!(rpc_detail(parse_transaction_from_response(&no_sender)), "Missing sender address");
    let no_contract = object(vec![("transaction_hash", text("0x1")), ("type", text("DEPLOY"))]);
    assert_eq!(rpc_detail(parse_transaction_from_response(&no_contract)), "Missing contract address");
    let l1 = object(vec![("transaction_hash", text("0x1")), ("type", text("L1_HANDLER"))]);
    assert_eq!(rpc_detail(parse_transaction_from_response(&l1)), "Unsupported transaction type: L1_HANDLER");
    assert_eq!(rpc_detail(parse_transaction_from_response(&JsonValue::Null)), "Missing transaction hash");
}

#[test]
fn last_occurrence_of_a_key_counts() {
    let tx = object(vec![
        ("transaction_hash", text("0xfirst")),
        ("transaction_hash", text("0xsecond")),
        ("type", text("DEPLOY")),
        ("contract_address", text("0xc")),
    ]);
    assert_eq!(parse_transaction_from_response(&tx).unwrap().hash, "0xsecond");
}

fn tx(from: &str, to: &str, value_wei: u64, gas_used_wei: u64) -> Transaction {
    Transaction {
        hash: "0xh".to_string(),
        from_address: from.to_string(),
        to_address: to.to_string(),
        value_wei,
        gas_used_wei,
    }
}

fn is_random_uuid(s: &str) -> bool {
    let c: Vec<char> = s.chars().collect();
    c.len() == 36
        && (0..36).all(|i| {
            if [8, 13, 18, 23].contains(&i) {
                c[i] == '-'
            } else {
                c[i].is_ascii_digit() || ('a'..='f').contains(&c[i])
            }
        })
        && c[14] == '4'
        && ['8', '9', 'a', 'b'].contains(&c[19])
}

#[test]
fn graph_numbers_wallets_by_first_appearance() {
    let txs = vec![tx("0xa", "0xtarget", 5, 7), tx("0xtarget", "0xb", 0, 21000), tx("0xb", "0xa", u64::MAX, 1)];
    let graph = build_transaction_graph(txs, "0xtarget");
    let nodes: Vec<(u64, &str, u8)> = graph.nodes.iter().map(|n| (n.id, n.label.as_str(), n.group)).collect();
    assert_eq!(nodes, vec![(106, "0xtarget", 1), (107, "0xa", 1), (108, "0xb", 1)]);
    let edges: Vec<(u64, u64, u64)> = graph.edges.iter().map(|e| (e.from, e.to, e.gas_wei)).collect();
    assert_eq!(edges, vec![(107, 106, 7), (106, 108, 21000), (108, 107, 1)]);
    for e in &graph.edges {
        assert_eq!(e.label, "0.00 ETH");
        assert!(e.arrows.to.enabled);
        assert_eq!(e.arrows.to.scale_factor_percent, 50);
        assert!(is_random_uuid(&e.id), "{}", e.id);
    }
    assert_ne!(graph.edges[0].id, graph.edges[1].id);
}

#[test]
fn graph_of_no_transactions_is_the_target_alone() {
    let response = transaction_graph_response(Vec::new(), "0xabc");
    assert_eq!(response.counter, 76);
    assert_eq!(response.graph.nodes.len(), 1);
    assert_eq!(response.graph.nodes[0].id, 106);
    assert_eq!(response.graph.nodes[0].label, "0xabc");
    assert!(response.graph.edges.is_empty());
}

#[test]
fn edge_labels_match_the_float_formatting() {
    for wei in [0u64, 1, 1_000_000_000_000_000_000, u64::MAX] {
        let eth = wei as f64 / 1e18;
        assert_eq!(edge_label(wei), format!("{:.2} ETH", eth / 1e18));
    }
}

#[test]
fn wallet_addresses_need_0x_and_66_bytes() {
    let good = format!("0x{}", "a".repeat(64));
    assert!(validate_wallet_address(&good).is_ok());
    let short = format!("0x{}", "a".repeat(63));
    match validate_wallet_address(&short) {
        Err(AppError::InvalidAddress(m)) => assert_eq!(m, format!("Invalid StarkNet address format: {}", short)),
        other => panic!("unexpected {:?}", other),
    }
    let no_prefix = format!("1x{}", "a".repeat(64));
    assert!(validate_wallet_address(&no_prefix).is_err());
    let wide = format!("0x{}é", "a".repeat(62));
    assert_eq!(wide.len(), 66);
    assert!(validate_wallet_address(&wide).is_ok());
    assert!(validate_wallet_address("").is_err());
}

#[test]
fn edges_take_the_given_identifiers_in_order() {
    let txs = vec![tx("0xa", "0xb", 0, 0), tx("0xb", "0xa", 0, 0), tx("0xa", "0xa", 0, 0)];
    let ids = vec!["id-0".to_string(), "id-1".to_string(), "id-2".to_string()];
    let graph = build_transaction_graph_with_ids(txs, "0xa", ids);
    let got: Vec<&str> = graph.edges.iter().map(|e| e.id.as_str()).collect();
    assert_eq!(got, vec!["id-0", "id-1", "id-2"]);
    let edges: Vec<(u64, u64)> = graph.edges.iter().map(|e| (e.from, e.to)).collect();
    assert_eq!(edges, vec![(106, 107), (107, 106), (106, 106)]);
}
