//! The service settings.

use vstd::prelude::*;
use crate::text::{decimal, push_char, push_decimal, push_str};

verus! {

/// Settings of the service: where to listen, the SQLite database, the
/// default cache lifetime in seconds, and whether to serve MCP over stdio
/// instead of HTTP.
#[derive(Debug, Clone)]
pub struct Config {
    pub port: u16,
    pub bind: String,
    pub db_path: String,
    pub default_ttl: u64,
    pub mcp: bool,
}

impl Config {
    /// The address the HTTP server listens on: `bind:port`.
    pub fn listen_address(&self) -> (r: String)
        ensures
            r@ == self.bind@ + seq![':'] + decimal(self.port as nat),
    {
        let mut out = String::new();
        push_str(&mut out, self.bind.as_str());
        push_char(&mut out, ':');
        push_decimal(&mut out, self.port as u128);
        out
    }
}

} // verus!
