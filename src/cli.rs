use vstd::prelude::*;

use crate::error::Error;

verus! {

/// The clusters that a command can talk to.
#[derive(Debug, Clone, Copy, PartialEq, Eq, Structural)]
pub enum Network {
    Mainnet,
    Testnet,
    Devnet,
    Localnet,
}

/// The RPC endpoint of each cluster.
pub open spec fn cluster_url(n: Network) -> Seq<char> {
    match n {
        Network::Mainnet => "https://api.mainnet-beta.solana.com"@,
        Network::Testnet => "https://api.testnet.solana.com"@,
        Network::Devnet => "https://api.devnet.solana.com"@,
        Network::Localnet => "http://127.0.0.1:8899"@,
    }
}

/// The cluster that a label names, once the label is in lower case.
pub open spec fn network_of_label(s: Seq<char>) -> Option<Network> {
    if s == "mainnet"@ {
        Some(Network::Mainnet)
    } else if s == "testnet"@ {
        Some(Network::Testnet)
    } else if s == "devnet"@ {
        Some(Network::Devnet)
    } else if s == "localnet"@ || s == "local"@ {
        Some(Network::Localnet)
    } else {
        None
    }
}

/// What `str::to_lowercase` makes of a string.
pub uninterp spec fn lower_of(s: Seq<char>) -> Seq<char>;

/// Relies on `str::to_lowercase`: the result depends on the characters alone.
#[verifier::external_body]
fn lowercase(s: &str) -> (r: String)
    ensures
        r@ == lower_of(s@),
{
    s.to_lowercase()
}

impl Network {
    pub fn get_cluster_url(&self) -> (r: &'static str)
        ensures
            r@ == cluster_url(*self),
    {
        proof {
            reveal_strlit("https://api.mainnet-beta.solana.com");
            reveal_strlit("https://api.testnet.solana.com");
            reveal_strlit("https://api.devnet.solana.com");
            reveal_strlit("http://127.0.0.1:8899");
        }
        match self {
            Network::Mainnet => "https://api.mainnet-beta.solana.com",
            Network::Testnet => "https://api.testnet.solana.com",
            Network::Devnet => "https://api.devnet.solana.com",
            Network::Localnet => "http://127.0.0.1:8899",
        }
    }

    /// Reads a label that is already in lower case.
    pub fn from_lowercase_label(s: &String) -> (r: Option<Network>)
        ensures
            r == network_of_label(s@),
    {
        proof {
            reveal_strlit("mainnet");
            reveal_strlit("testnet");
            reveal_strlit("devnet");
            reveal_strlit("localnet");
            reveal_strlit("local");
        }
        if *s == "mainnet".to_owned() {
            Some(Network::Mainnet)
        } else if *s == "testnet".to_owned() {
            Some(Network::Testnet)
        } else if *s == "devnet".to_owned() {
            Some(Network::Devnet)
        } else if *s == "localnet".to_owned() || *s == "local".to_owned() {
            Some(Network::Localnet)
        } else {
            None
        }
    }

    /// Reads a cluster label in any letter case; an unknown label is refused
    /// with `WrongNetwork` holding the label as it was given.
    pub fn parse_label(s: &str) -> (r: Result<Network, Error>)
        ensures
            match network_of_label(lower_of(s@)) {
                Some(n) => r == Ok::<Network, Error>(n),
                None => r matches Err(Error::WrongNetwork(t)) && t@ == s@,
            },
    {
        let lowered = lowercase(s);
        match Network::from_lowercase_label(&lowered) {
            Some(n) => Ok(n),
            None => Err(Error::WrongNetwork(s.to_owned())),
        }
    }
}

impl std::str::FromStr for Network {
    type Err = Error;

    fn from_str(s: &str) -> Result<Network, Error> {
        Network::parse_label(s)
    }
}

} // verus!
