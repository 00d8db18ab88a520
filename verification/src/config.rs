//! Process configuration, as loaded from the environment at startup.

use vstd::prelude::*;

use crate::strutil::{dec_str_of, u64_to_dec_str};

verus! {

/// Startup configuration: where to serve, the token secret, and the
/// identity provider's client credentials.
#[derive(Debug)]
pub struct Config {
    pub database_url: String,
    pub server_host: String,
    pub server_port: u16,
    pub jwt_secret: String,
    pub twitch_client_id: String,
    pub twitch_client_secret: String,
    pub twitch_redirect_uri: String,
    pub frontend_url: String,
}

impl Config {
    /// The listen address: host, a colon, and the port in decimal.
    pub fn server_addr(&self) -> (r: String)
        ensures
            r@ == self.server_host@ + ":"@ + dec_str_of(self.server_port as nat),
    {
        let mut r = self.server_host.clone();
        r.append(":");
        let port = u64_to_dec_str(self.server_port as u64);
        r.append(port.as_str());
        r
    }
}

/// Whether a URL names an encrypted scheme: cookies issued for it carry
/// the secure flag.
pub open spec fn is_https_url(s: Seq<char>) -> bool {
    crate::auth_flow::starts_with(s, "https://"@)
}

/// The serving scheme decides the cookie's secure flag; an unparsable
/// frontend setting counts as encrypted, failing closed.
pub fn frontend_is_https(frontend_url: &str) -> (r: bool)
    ensures
        r == is_https_url(frontend_url@),
{
    crate::auth_flow::str_starts_with(frontend_url, "https://")
}

} // verus!
