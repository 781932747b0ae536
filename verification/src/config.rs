//! How the relay is set up.

use vstd::prelude::*;

pub mod laws;

verus! {

pub const DEFAULT_PORT: u16 = 8080;

pub const DEFAULT_LOG_DIR: &'static str = "/data/logs";

pub const DEFAULT_STATE_FILE: &'static str = "/data/rooms.json";

/// The decimal digits.
pub const DIGITS: &'static str = "0123456789";

/// A number in decimal, without leading zeros.
pub open spec fn decimal(n: nat) -> Seq<char>
    decreases n,
{
    let last = DIGITS@[(n % 10) as int];
    if n < 10 {
        seq![last]
    } else {
        decimal(n / 10).push(last)
    }
}

/// A number in decimal.
pub fn decimal_text(n: u16) -> (res: String)
    ensures
        res@ == decimal(n as nat),
    decreases n,
{
    proof {
        reveal_strlit("0123456789");
    }
    let mut res = if n < 10 {
        String::new()
    } else {
        decimal_text(n / 10)
    };
    let digit = n % 10;
    res.append(DIGITS.substring_ascii(digit as usize, digit as usize + 1));
    assert(res@ =~= decimal(n as nat));
    res
}

pub struct Config {
    /// The address to listen on, with its port. It goes before `port`.
    pub addr: Option<String>,
    /// The port to listen on, on every address.
    pub port: u16,
    /// Where crash logs are stored.
    pub log_dir: String,
    /// Where the rooms are saved.
    pub state_file: String,
    /// The proxies whose `X-Forwarded-For` is believed, as a comma-separated
    /// list of networks.
    pub trusted_proxy_cidrs: String,
}

impl Config {
    /// The address to listen on.
    pub fn bind_addr(&self) -> (res: String)
        ensures
            res@ == match self.addr {
                Some(addr) => addr@,
                None => "0.0.0.0:"@ + decimal(self.port as nat),
            },
    {
        match &self.addr {
            Some(addr) => addr.clone(),
            None => {
                let mut res = "0.0.0.0:".to_string();
                res.append(decimal_text(self.port).as_str());
                res
            },
        }
    }
}

} // verus!
