use starknet_graph::routes::{first_degree_wallets, history_url, related_wallets, related_wallets_json, HistoryEntry};

fn entry(from: &str, to: &str) -> HistoryEntry {
    HistoryEntry { from_address: from.to_string(), to_address: to.to_string() }
}

#[test]
fn history_url_names_the_address() {
    assert_eq!(history_url("http://svc", "0xabc"), "http://svc/get_transaction_history?address=0xabc");
}

#[test]
fn first_degree_wallets_start_with_the_wallet() {
    let first = first_degree_wallets("0xme", &vec![entry("0xa", "0xme"), entry("0xme", "0xb"), entry("0xa", "0xb")]);
    assert_eq!(first, vec!["0xme".to_string(), "0xa".to_string(), "0xb".to_string()]);
}

#[test]
fn related_wallets_exclude_the_wallet() {
    let first = vec!["0xme".to_string(), "0xa".to_string()];
    let histories = vec![vec![entry("0xme", "0xa")], vec![entry("0xa", "0xc"), entry("0xd", "0xme")]];
    assert_eq!(related_wallets("0xme", &first, &histories), vec!["0xa".to_string(), "0xc".to_string(), "0xd".to_string()]);
    let body = related_wallets_json("0xme", &first, &histories);
    assert_eq!(body, r#"["0xa","0xc","0xd"]"#);
    let parsed: Vec<String> = serde_json::from_str(&body).unwrap();
    assert_eq!(parsed, vec!["0xa", "0xc", "0xd"]);
}

#[test]
fn related_wallets_json_escapes_like_serde() {
    let first = vec!["0x\"q\"".to_string()];
    let body = related_wallets_json("0xme", &first, &Vec::new());
    assert_eq!(body, serde_json::to_string(&vec!["0x\"q\"".to_string()]).unwrap());
}

#[test]
fn related_wallets_json_escapes_control_characters_like_serde() {
    let odd = "0x\u{1}\t\\/é\u{7f}".to_string();
    let first = vec![odd.clone(), "0xme".to_string()];
    let body = related_wallets_json("0xme", &first, &Vec::new());
    assert_eq!(body, serde_json::to_string(&vec![odd]).unwrap());
    assert_eq!(body, "[\"0x\\u0001\\t\\\\/é\u{7f}\"]");
    assert_eq!(related_wallets_json("0xme", &vec!["0xme".to_string()], &Vec::new()), "[]");
}
