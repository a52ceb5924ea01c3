//! The global server configuration read once when the listener starts:
//! hostname, port and compression, each with its default.

use vstd::prelude::*;
use crate::text::push_char;

verus! {

/// The decimal text of a number: most significant digit first.
pub open spec fn dec_of(n: int) -> Seq<char>
    decreases n,
{
    if n < 10 {
        seq![((48 + (if 0 <= n {
            n
        } else {
            0
        }) % 10) as u8) as char]
    } else {
        dec_of(n / 10).push(((48 + n % 10) as u8) as char)
    }
}

/// Render a port number in decimal.
pub fn u16_to_string(n: u16) -> (r: String)
    ensures
        r@ == dec_of(n as int),
    decreases n,
{
    if n < 10 {
        let mut s = String::new();
        push_char(&mut s, (48 + (n as u8)) as char);
        s
    } else {
        let mut s = u16_to_string(n / 10);
        push_char(&mut s, (48 + ((n % 10) as u8)) as char);
        s
    }
}

/// What the script's server table offered, each field as found.
pub struct ServerConfig {
    pub hostname: Option<String>,
    pub port: Option<u16>,
    pub compression: Option<bool>,
}

/// The default interface the listener binds without a hostname.
pub open spec fn default_hostname() -> Seq<char> {
    "127.0.0.1"@
}

/// The default port the listener binds without one.
pub const DEFAULT_PORT: u16 = 8080;

impl ServerConfig {
    pub open spec fn spec_hostname(&self) -> Seq<char> {
        match self.hostname {
            Some(h) => h@,
            None => default_hostname(),
        }
    }

    pub open spec fn spec_port(&self) -> u16 {
        match self.port {
            Some(p) => p,
            None => DEFAULT_PORT,
        }
    }

    pub open spec fn spec_compression(&self) -> bool {
        match self.compression {
            Some(c) => c,
            None => false,
        }
    }

    /// The address the listener binds: the configured or default hostname,
    /// a colon, and the configured or default port in decimal.
    pub fn listener_address(&self) -> (r: String)
        ensures
            r@ == self.spec_hostname() + ":"@ + dec_of(self.spec_port() as int),
    {
        let mut out = match &self.hostname {
            Some(h) => h.clone(),
            None => String::from_str("127.0.0.1"),
        };
        out.append(":");
        let port = match self.port {
            Some(p) => p,
            None => 8080,
        };
        let digits = u16_to_string(port);
        out.append(digits.as_str());
        out
    }

    /// Whether the table as a whole is wrapped in compression middleware.
    pub fn use_compression(&self) -> (r: bool)
        ensures
            r == self.spec_compression(),
    {
        match self.compression {
            Some(c) => c,
            None => false,
        }
    }
}

} // verus!
