//! Configuration of the DNS-over-HTTPS module.
use vstd::prelude::*;
use crate::text::owned;

verus! {

/// Configuration for the DNS-over-HTTPS module.
#[derive(Debug, Clone)]
pub struct DnsConfig {
    /// The DoH resolver URL (e.g. "https://1.1.1.1/dns-query").
    pub resolver_url: String,
    /// Query timeout in seconds.
    pub timeout_secs: u64,
}

impl Default for DnsConfig {
    /// Cloudflare's resolver, with a five second timeout.
    fn default() -> (c: Self)
        ensures
            c.resolver_url@ == "https://1.1.1.1/dns-query"@,
            c.timeout_secs == 5,
    {
        DnsConfig { resolver_url: owned("https://1.1.1.1/dns-query"), timeout_secs: 5 }
    }
}

} // verus!
