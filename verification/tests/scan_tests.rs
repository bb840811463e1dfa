use starknet_graph::errors::AppError;
use starknet_graph::json::JsonValue;
use starknet_graph::models::Transaction;
use starknet_graph::rpc::client::RpcCall;
use starknet_graph::rpc::scan::{AddressScan, GraphLookup, GraphStep, ScanStep};

fn text(s: &str) -> JsonValue {
    JsonValue::Str(s.to_string())
}

fn object(members: Vec<(&str, JsonValue)>) -> JsonValue {
    JsonValue::Object(members.into_iter().map(|(k, v)| (k.to_string(), v)).collect())
}

fn deploy(hash: &str) -> JsonValue {
    object(vec![("transaction_hash", text(hash)), ("type", text("DEPLOY")), ("contract_address", text("0xc"))])
}

fn invoke(hash: &str, sender: &str, recipient: &str) -> JsonValue {
    object(vec![
        ("transaction_hash", text(hash)),
        ("type", text("INVOKE")),
        ("sender_address", text(sender)),
        ("calldata", JsonValue::Array(vec![text("0x1"), text(recipient)])),
    ])
}

fn events(hashes: &[&str]) -> JsonValue {
    object(vec![(
        "events",
        JsonValue::Array(hashes.iter().map(|h| object(vec![("transaction_hash", text(h))])).collect()),
    )])
}

fn describe(call: &RpcCall) -> String {
    match call {
        RpcCall::GetEvents { address } => format!("events {}", address),
        RpcCall::GetTransactionByHash { hash } => format!("tx {}", hash),
        RpcCall::BlockHashAndNumber => "latest".to_string(),
        RpcCall::GetBlockWithTxs { block_number } => format!("block {}", block_number),
    }
}

/// Runs a lookup against a node that answers each call with `node`.
fn run(address: &str, node: impl Fn(&RpcCall) -> Result<JsonValue, AppError>) -> (Vec<String>, Result<Vec<Transaction>, AppError>) {
    let (calls, _, result) = run_logged(address, node);
    (calls, result)
}

/// Runs a lookup and also collects the errors of the skipped transactions.
fn run_logged(
    address: &str,
    node: impl Fn(&RpcCall) -> Result<JsonValue, AppError>,
) -> (Vec<String>, Vec<String>, Result<Vec<Transaction>, AppError>) {
    let (mut scan, mut call) = AddressScan::start(address.to_string());
    let mut calls = Vec::new();
    let mut skipped = Vec::new();
    loop {
        calls.push(describe(&call));
        let (step, errors) = scan.on_reply(node(&call));
        skipped.extend(errors.iter().map(|e| e.message()));
        match step {
            ScanStep::Call(s, c) => {
                scan = s;
                call = c;
            }
            ScanStep::Done(result) => return (calls, skipped, result),
        }
    }
}

fn hashes(r: &Result<Vec<Transaction>, AppError>) -> Vec<String> {
    r.as_ref().unwrap().iter().map(|t| t.hash.clone()).collect()
}

#[test]
fn enough_event_transactions_skip_the_block_scan() {
    let ids: Vec<String> = (0..10).map(|i| format!("0x{}", i)).collect();
    let refs: Vec<&str> = ids.iter().map(|s| s.as_str()).collect();
    let (calls, result) = run("0xme", |call| match call {
        RpcCall::GetEvents { .. } => Ok(events(&refs)),
        RpcCall::GetTransactionByHash { hash } => Ok(deploy(hash)),
        _ => panic!("no other call is expected"),
    });
    assert_eq!(calls.len(), 11);
    assert_eq!(hashes(&result), ids);
}

#[test]
fn few_event_transactions_lead_to_a_block_scan() {
    let (calls, result) = run("0xme", |call| match call {
        RpcCall::GetEvents { .. } => Ok(events(&["0xa", "0xbad", "0xb"])),
        RpcCall::GetTransactionByHash { hash } if hash == "0xbad" => Err(AppError::RpcError("gone".to_string())),
        RpcCall::GetTransactionByHash { hash } => Ok(deploy(hash)),
        RpcCall::BlockHashAndNumber => Ok(object(vec![("block_number", text("0x3ea"))])),
        RpcCall::GetBlockWithTxs { block_number } => Ok(object(vec![(
            "transactions",
            JsonValue::Array(vec![invoke(&format!("0xblk{}", block_number), "0xme", "0xyou"), invoke("0xno", "0xx", "0xy")]),
        )])),
    });
    let mut expected: Vec<String> = ["events 0xme", "tx 0xa", "tx 0xbad", "tx 0xb", "latest"].iter().map(|s| s.to_string()).collect();
    expected.extend((2..=1002).map(|n| format!("block {}", n)));
    assert_eq!(calls, expected);
    let found = hashes(&result);
    assert_eq!(found.len(), 2 + 1001);
    assert_eq!(found[0], "0xa");
    assert_eq!(found[1], "0xb");
    assert_eq!(found[2], "0xblk2");
    assert_eq!(found[1002], "0xblk1002");
}

#[test]
fn failures_outside_transaction_fetches_end_the_lookup() {
    let (_, result) = run("0xme", |_| Err(AppError::RpcError("down".to_string())));
    assert!(matches!(result, Err(AppError::RpcError(m)) if m == "down"));

    let (_, result) = run("0xme", |call| match call {
        RpcCall::GetEvents { .. } => Ok(events(&[])),
        RpcCall::BlockHashAndNumber => Ok(object(vec![("block_number", JsonValue::Number("7".to_string()))])),
        _ => panic!("no other call is expected"),
    });
    assert!(matches!(result, Err(AppError::RpcError(m)) if m == "Missing block number"));

    let (calls, result) = run("0xme", |call| match call {
        RpcCall::GetEvents { .. } => Ok(events(&[])),
        RpcCall::BlockHashAndNumber => Ok(object(vec![("block_number", text("0x2"))])),
        RpcCall::GetBlockWithTxs { block_number } if *block_number == 1 => Err(AppError::RpcError("block".to_string())),
        RpcCall::GetBlockWithTxs { .. } => Ok(object(vec![])),
        _ => panic!("no other call is expected"),
    });
    assert_eq!(calls, vec!["events 0xme", "latest", "block 0", "block 1"]);
    assert!(matches!(result, Err(AppError::RpcError(m)) if m == "block"));
}

#[test]
fn skipped_transactions_are_reported() {
    let (_, skipped, result) = run_logged("0xme", |call| match call {
        RpcCall::GetEvents { .. } => Ok(events(&["0xa", "0xgone"])),
        RpcCall::GetTransactionByHash { hash } if hash == "0xgone" => Err(AppError::RpcError("gone".to_string())),
        RpcCall::GetTransactionByHash { hash } => Ok(deploy(hash)),
        RpcCall::BlockHashAndNumber => Ok(object(vec![("block_number", text("0x0"))])),
        RpcCall::GetBlockWithTxs { .. } => Ok(object(vec![(
            "transactions",
            JsonValue::Array(vec![
                object(vec![("sender_address", text("0xme")), ("type", text("INVOKE"))]),
                invoke("0xok", "0xme", "0xyou"),
            ]),
        )])),
    });
    assert_eq!(skipped, vec!["RPC error: gone".to_string(), "RPC error: Missing transaction hash".to_string()]);
    assert_eq!(hashes(&result), vec!["0xa", "0xok"]);
}

fn transfer(hash: &str, from: &str, to: &str) -> Transaction {
    Transaction { hash: hash.to_string(), from_address: from.to_string(), to_address: to.to_string(), value_wei: 0, gas_used_wei: 0 }
}

fn run_graph(
    address: &str,
    depth: usize,
    lookup: impl Fn(&str) -> Result<Vec<Transaction>, AppError>,
) -> (Vec<String>, Result<Vec<Transaction>, AppError>) {
    let (mut g, mut next) = GraphLookup::start(address.to_string(), depth);
    let mut asked = Vec::new();
    loop {
        asked.push(next.clone());
        match g.on_result(lookup(&next)) {
            GraphStep::Lookup(ng, na) => {
                g = ng;
                next = na;
            }
            GraphStep::Done(r) => return (asked, r),
        }
    }
}

#[test]
fn graph_lookup_follows_related_addresses() {
    let (asked, result) = run_graph("0xme", 2, |a| match a {
        "0xme" => Ok(vec![transfer("t1", "0xme", "0xa"), transfer("t2", "0xb", "0x0")]),
        "0xa" => Ok(vec![transfer("t3", "0xa", "0xc")]),
        "0xb" => Ok(vec![]),
        _ => panic!("unexpected lookup {}", a),
    });
    assert_eq!(asked, vec!["0xme", "0xa", "0xb"]);
    assert_eq!(hashes(&result), vec!["t1", "t2", "t3"]);

    let (asked, result) = run_graph("0xme", 1, |_| Ok(vec![transfer("t1", "0xme", "0xa")]));
    assert_eq!(asked, vec!["0xme"]);
    assert_eq!(hashes(&result), vec!["t1"]);

    let (asked, result) = run_graph("0xme", 2, |a| match a {
        "0xme" => Ok(vec![transfer("t1", "0xa", "0xb")]),
        "0xa" => Err(AppError::RpcError("down".to_string())),
        _ => panic!("the lookup stops at the first failure"),
    });
    assert_eq!(asked, vec!["0xme", "0xa"]);
    assert!(matches!(result, Err(AppError::RpcError(m)) if m == "down"));
}

#[test]
fn depths_on_the_same_side_of_one_look_up_the_same() {
    let node = |a: &str| match a {
        "0xme" => Ok(vec![transfer("t1", "0xme", "0xa")]),
        "0xa" => Ok(vec![transfer("t2", "0xa", "0xb")]),
        _ => panic!("no third degree: {}", a),
    };
    let (asked0, r0) = run_graph("0xme", 0, node);
    let (asked1, r1) = run_graph("0xme", 1, node);
    assert_eq!(asked0, asked1);
    assert_eq!(hashes(&r0), hashes(&r1));
    let (asked2, r2) = run_graph("0xme", 2, node);
    let (asked7, r7) = run_graph("0xme", 7, node);
    assert_eq!(asked2, vec!["0xme", "0xa"]);
    assert_eq!(asked2, asked7);
    assert_eq!(hashes(&r2), hashes(&r7));
}
