//! DNS leak detection: a reply from one of the known outside DNS servers means that
//! queries are escaping the tunnel.
use vstd::prelude::*;
use crate::engine::mod_trait::ModuleEvent;
use crate::text::{owned, str_eq, strings_view};

verus! {

/// Knows the DNS servers whose replies reveal a leak. Servers are given by the
/// canonical text of their IP address (as `IpAddr`'s `Display` writes it), so two
/// addresses are equal exactly when their texts are.
pub struct DnsLeakDetector {
    known_dns_servers: Vec<String>,
}

impl View for DnsLeakDetector {
    type V = Set<Seq<char>>;

    closed spec fn view(&self) -> Set<Seq<char>> {
        strings_view(self.known_dns_servers@).to_set()
    }
}

impl DnsLeakDetector {
    pub fn new(known_dns_servers: Vec<String>) -> (d: Self)
        ensures
            d@ == strings_view(known_dns_servers@).to_set(),
    {
        DnsLeakDetector { known_dns_servers }
    }

    /// Whether `ip` is one of the known servers.
    pub fn is_known_server(&self, ip: &str) -> (r: bool)
        ensures
            r == self@.contains(ip@),
    {
        let ghost s = strings_view(self.known_dns_servers@);
        let n = self.known_dns_servers.len();
        for i in 0..n
            invariant
                n == self.known_dns_servers@.len(),
                s == strings_view(self.known_dns_servers@),
                forall|j: int| 0 <= j < i ==> s[j] != ip@,
        {
            if str_eq(self.known_dns_servers[i].as_str(), ip) {
                assert(s[i as int] == ip@);
                assert(s.contains(ip@));
                return true;
            }
        }
        assert(!s.contains(ip@));
        false
    }

    /// The event that reports a leak when `dns_server` is a known server answering on
    /// `interface`; `None` otherwise.
    pub fn detect_leak(&self, dns_server: &str, interface: &str) -> (r: Option<ModuleEvent>)
        ensures
            (match r {
                Some(e) => self@.contains(dns_server@) && (e matches ModuleEvent::DnsLeakDetected { dns_server: d, interface: i }
                    && d@ == dns_server@ && i@ == interface@),
                None => !self@.contains(dns_server@),
            }),
    {
        if self.is_known_server(dns_server) {
            Some(ModuleEvent::DnsLeakDetected { dns_server: owned(dns_server), interface: owned(interface) })
        } else {
            None
        }
    }
}

} // verus!
