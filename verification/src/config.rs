//! Which StarkNet network the service talks to, and through which endpoint.

use vstd::prelude::*;

verus! {

/// A StarkNet network.
#[derive(Debug, Clone, Copy, PartialEq, Eq, Structural)]
pub enum Network {
    Mainnet,
    Sepolia,
}

/// The service's settings.
#[derive(Debug)]
pub struct Config {
    pub rpc_endpoint: String,
    pub network: Network,
}

/// Whether `url::Url::parse` accepts a text.
pub uninterp spec fn url_parses(s: Seq<char>) -> bool;

/// `url::Url::parse(s).is_ok()`. The result is named, not stated: it
/// depends on the text alone, and the WHATWG URL grammar that decides it is
/// left to the url crate.
#[verifier::external_body]
fn is_valid_url(s: &str) -> (ok: bool)
    ensures
        ok == url_parses(s@),
{
    url::Url::parse(s).is_ok()
}

/// What `str::to_lowercase` gives for a text.
pub uninterp spec fn lowercase(s: Seq<char>) -> Seq<char>;

/// `str::to_lowercase`: the Unicode lower-case mapping of a text, named and
/// not stated.
#[verifier::external_body]
fn to_lowercase(s: &str) -> (r: String)
    ensures
        r@ == lowercase(s@),
{
    s.to_lowercase()
}

/// The view of an optional text.
pub open spec fn opt_text(o: Option<String>) -> Option<Seq<char>> {
    match o {
        Some(s) => Some(s@),
        None => None,
    }
}

/// The network a setting names: mainnet when it reads "mainnet" in any case,
/// Sepolia for every other value and when it is not set.
pub open spec fn network_named(name: Option<Seq<char>>) -> Network {
    match name {
        Some(n) => if lowercase(n) == "mainnet"@ {
            Network::Mainnet
        } else {
            Network::Sepolia
        },
        None => Network::Sepolia,
    }
}

/// The public endpoint of each network.
pub open spec fn default_endpoint(network: Network) -> Seq<char> {
    match network {
        Network::Mainnet => "https://starknet-mainnet.public.blastapi.io"@,
        Network::Sepolia => "https://starknet-sepolia.public.blastapi.io"@,
    }
}

impl Network {
    /// The network named by a setting once lower-cased: mainnet for
    /// "mainnet", Sepolia for anything else.
    pub fn from_lowercase(lowered: &str) -> (n: Network)
        ensures
            n == if lowered@ == "mainnet"@ {
                Network::Mainnet
            } else {
                Network::Sepolia
            },
    {
        if lowered.to_owned() == String::from_str("mainnet") {
            Network::Mainnet
        } else {
            Network::Sepolia
        }
    }

    /// The network named by a setting (see `network_named`).
    pub fn from_setting(name: Option<&str>) -> (n: Network)
        ensures
            n == network_named(match name {
                Some(s) => Some(s@),
                None => None,
            }),
    {
        match name {
            Some(s) => {
                let lowered = to_lowercase(s);
                Network::from_lowercase(lowered.as_str())
            },
            None => Network::Sepolia,
        }
    }

    /// The public endpoint of the network.
    pub fn default_rpc_endpoint(&self) -> (s: String)
        ensures
            s@ == default_endpoint(*self),
    {
        match self {
            Network::Mainnet => String::from_str("https://starknet-mainnet.public.blastapi.io"),
            Network::Sepolia => String::from_str("https://starknet-sepolia.public.blastapi.io"),
        }
    }
}

impl Config {
    /// The configuration for the given settings: the named network, and the
    /// custom endpoint when one is given, else the network's public endpoint.
    /// A custom endpoint must be a URL.
    pub fn from_settings(network: Option<String>, custom_rpc_endpoint: Option<String>) -> (c: Config)
        requires
            custom_rpc_endpoint matches Some(e) ==> url_parses(e@),
        ensures
            c.network == network_named(opt_text(network)),
            c.rpc_endpoint@ == match custom_rpc_endpoint {
                Some(e) => e@,
                None => default_endpoint(c.network),
            },
    {
        let network = match &network {
            Some(n) => Network::from_setting(Some(n.as_str())),
            None => Network::from_setting(None),
        };
        let rpc_endpoint = match custom_rpc_endpoint {
            Some(endpoint) => endpoint,
            None => network.default_rpc_endpoint(),
        };
        Config { rpc_endpoint, network }
    }

    /// The configuration for the given settings, or nothing when the custom
    /// endpoint is not a URL (which the service refuses to start with).
    pub fn try_from_settings(network: Option<String>, custom_rpc_endpoint: Option<String>) -> (c: Option<Config>)
        ensures
            c is None <==> (custom_rpc_endpoint matches Some(e) && !url_parses(e@)),
            c matches Some(c) ==> c.network == network_named(opt_text(network)) && c.rpc_endpoint@
                == match custom_rpc_endpoint {
                Some(e) => e@,
                None => default_endpoint(c.network),
            },
    {
        let valid = match &custom_rpc_endpoint {
            Some(e) => is_valid_url(e.as_str()),
            None => true,
        };
        if valid {
            Some(Config::from_settings(network, custom_rpc_endpoint))
        } else {
            None
        }
    }
}

} // verus!
