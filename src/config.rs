use vstd::prelude::*;

use crate::amount::{append_decimal, decimal};

verus! {

/// The fixed settings of a run: where the daemon listens, how to log in,
/// the two wallets, the amount to transfer and where to write the report.
pub struct Config {
    pub host: String,
    pub port: u16,
    pub user: String,
    pub password: String,
    pub miner_wallet: String,
    pub trader_wallet: String,
    pub transfer_amount_sat: u64,
    pub output_path: String,
}

/// The text `http://` .
pub open spec fn scheme_text() -> Seq<char> {
    seq!['h', 't', 't', 'p', ':', '/', '/']
}

/// The text `/wallet/` .
pub open spec fn wallet_path_text() -> Seq<char> {
    seq!['/', 'w', 'a', 'l', 'l', 'e', 't', '/']
}

impl Config {
    /// The address of the daemon's node-level endpoint.
    pub open spec fn spec_node_url(&self) -> Seq<char> {
        scheme_text() + self.host@ + seq![':'] + decimal(self.port as nat)
    }

    /// A local regtest daemon on its default port, wallets `Miner` and
    /// `Trader`, a transfer of 20 BTC, the report at `../out.txt`.
    pub fn regtest_default() -> (r: Config)
        ensures
            r.host@ == "127.0.0.1"@,
            r.port == 18443,
            r.user@ == "alice"@,
            r.password@ == "password"@,
            r.miner_wallet@ == "Miner"@,
            r.trader_wallet@ == "Trader"@,
            r.transfer_amount_sat == 2_000_000_000,
            r.output_path@ == "../out.txt"@,
    {
        Config {
            host: String::from_str("127.0.0.1"),
            port: 18443,
            user: String::from_str("alice"),
            password: String::from_str("password"),
            miner_wallet: String::from_str("Miner"),
            trader_wallet: String::from_str("Trader"),
            transfer_amount_sat: 2_000_000_000,
            output_path: String::from_str("../out.txt"),
        }
    }

    /// The address of the daemon's node-level endpoint, `http://host:port`.
    pub fn node_url(&self) -> (r: String)
        ensures
            r@ == self.spec_node_url(),
    {
        let mut s = String::from_str("http://");
        s.append(self.host.as_str());
        s.append(":");
        append_decimal(&mut s, self.port as u64);
        proof {
            reveal_strlit("http://");
            reveal_strlit(":");
            assert(s@ =~= self.spec_node_url());
        }
        s
    }

    /// The address of the endpoint scoped to the wallet `name`.
    pub fn wallet_url(&self, name: &str) -> (r: String)
        ensures
            r@ == self.spec_node_url() + wallet_path_text() + name@,
    {
        let mut s = self.node_url();
        s.append("/wallet/");
        s.append(name);
        proof {
            reveal_strlit("/wallet/");
            assert(s@ =~= self.spec_node_url() + wallet_path_text() + name@);
        }
        s
    }
}

} // verus!
