//! VPN connection settings.
use vstd::prelude::*;
use crate::text::{owned, strings_view};

verus! {

/// Configuration for a VPN connection.
#[derive(Debug, Clone)]
pub struct VpnConfig {
    /// The server address (IP or hostname) to connect to.
    pub server: String,
    /// Private key for WireGuard authentication.
    pub private_key: String,
    /// Port to listen on for WireGuard traffic.
    pub listen_port: u16,
    /// DNS servers to use while connected.
    pub dns_servers: Vec<String>,
}

impl Default for VpnConfig {
    /// No server or key yet, WireGuard's usual port 51820, and Cloudflare's DNS servers.
    fn default() -> (c: Self)
        ensures
            c.server@ == Seq::<char>::empty(),
            c.private_key@ == Seq::<char>::empty(),
            c.listen_port == 51820,
            strings_view(c.dns_servers@) == seq!["1.1.1.1"@, "1.0.0.1"@],
    {
        let mut dns_servers: Vec<String> = Vec::new();
        dns_servers.push(owned("1.1.1.1"));
        dns_servers.push(owned("1.0.0.1"));
        let c = VpnConfig { server: String::new(), private_key: String::new(), listen_port: 51820, dns_servers };
        assert(strings_view(c.dns_servers@) =~= seq!["1.1.1.1"@, "1.0.0.1"@]);
        c
    }
}

} // verus!
