use starknet_graph::config::{Config, Network};

#[test]
fn test_default_config() {
    let config = Config::from_settings(None, None);
    assert_eq!(config.network, Network::Sepolia);
    assert_eq!(config.rpc_endpoint, "https://starknet-sepolia.public.blastapi.io");
}

#[test]
fn mainnet_is_chosen_in_any_case() {
    let config = Config::from_settings(Some("MainNet".to_string()), None);
    assert_eq!(config.network, Network::Mainnet);
    assert_eq!(config.rpc_endpoint, "https://starknet-mainnet.public.blastapi.io");
}

#[test]
fn unknown_network_falls_back_to_sepolia() {
    let config = Config::from_settings(Some("goerli".to_string()), None);
    assert_eq!(config.network, Network::Sepolia);
    assert_eq!(config.rpc_endpoint, "https://starknet-sepolia.public.blastapi.io");
}

#[test]
fn custom_endpoint_is_kept_when_it_is_a_url() {
    let config = Config::try_from_settings(
        Some("mainnet".to_string()),
        Some("http://localhost:5050/rpc".to_string()),
    )
    .expect("a valid URL is accepted");
    assert_eq!(config.network, Network::Mainnet);
    assert_eq!(config.rpc_endpoint, "http://localhost:5050/rpc");
}

#[test]
fn custom_endpoint_that_is_no_url_is_refused() {
    let config = Config::try_from_settings(None, Some("not a url".to_string()));
    assert!(config.is_none());
}

#[test]
fn network_setting_is_lowercased_by_unicode_rules() {
    assert_eq!(Network::from_setting(Some("MAINNET")), Network::Mainnet);
    assert_eq!(Network::from_setting(Some(" mainnet")), Network::Sepolia);
    assert_eq!(Network::from_setting(None), Network::Sepolia);
}

#[test]
fn lowered_network_names() {
    assert_eq!(Network::from_lowercase("mainnet"), Network::Mainnet);
    assert_eq!(Network::from_lowercase("MAINNET"), Network::Sepolia);
    assert_eq!(Network::from_lowercase("sepolia"), Network::Sepolia);
    assert_eq!(Network::from_lowercase(""), Network::Sepolia);
}
