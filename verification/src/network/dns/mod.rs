//! DNS module: resolves names over DNS-over-HTTPS. The HTTP exchange is the caller's
//! work; the module holds the configuration and the client settings.
pub mod config;
pub mod doh;
pub mod leak;

use vstd::prelude::*;
use crate::engine::mod_trait::{ModuleEvent, ModuleStatus};
use crate::network::dns::config::DnsConfig;
use crate::network::dns::doh::DohClient;
use crate::text::owned;

verus! {

/// State of the DNS module: its status, its configuration and the DoH client that
/// queries the configured resolver.
pub struct DnsModule {
    status: ModuleStatus,
    doh_client: DohClient,
    config: DnsConfig,
}

impl DnsModule {
    /// The current status.
    pub closed spec fn status_view(&self) -> ModuleStatus {
        self.status
    }

    /// The configuration.
    pub closed spec fn config_view(&self) -> DnsConfig {
        self.config
    }

    /// The resolver URL the client queries.
    pub closed spec fn client_url(&self) -> Seq<char> {
        self.doh_client.url()
    }

    /// A DNS module with the default configuration, created; its client queries the
    /// configured resolver.
    pub fn new() -> (m: Self)
        ensures
            m.status_view() == ModuleStatus::Created,
            m.config_view().resolver_url@ == "https://1.1.1.1/dns-query"@,
            m.config_view().timeout_secs == 5,
            m.client_url() == "https://1.1.1.1/dns-query"@,
    {
        let config = DnsConfig::default();
        let doh_client = DohClient::new(config.resolver_url.clone());
        DnsModule { status: ModuleStatus::Created, doh_client, config }
    }

    /// The current DNS configuration.
    pub fn config(&self) -> (c: &DnsConfig)
        ensures
            *c == self.config_view(),
    {
        &self.config
    }

    /// The DoH client.
    pub fn doh_client(&self) -> (c: &DohClient)
        ensures
            c.url() == self.client_url(),
    {
        &self.doh_client
    }

    pub fn id(&self) -> (r: &'static str)
        ensures
            r@ == "dns"@,
    {
        "dns"
    }

    pub fn name(&self) -> (r: &'static str)
        ensures
            r@ == "DNS Module"@,
    {
        "DNS Module"
    }

    pub fn priority(&self) -> (r: u32)
        ensures
            r == 4,
    {
        4
    }

    /// The DNS module depends on no other module.
    pub fn dependencies(&self) -> (r: Vec<String>)
        ensures
            r@.len() == 0,
    {
        Vec::new()
    }

    pub fn status(&self) -> (s: ModuleStatus)
        ensures
            s == self.status_view(),
    {
        self.status.clone()
    }

    /// Marks the module initialized; nothing else changes.
    pub fn initialize(&mut self)
        ensures
            final(self).status_view() == ModuleStatus::Initialized,
            final(self).config_view() == old(self).config_view(),
            final(self).client_url() == old(self).client_url(),
    {
        self.status = ModuleStatus::Initialized;
    }

    /// Marks the module running and returns the event announcing the DoH connection
    /// (server "1.1.1.1").
    pub fn start(&mut self) -> (e: ModuleEvent)
        ensures
            final(self).status_view() == ModuleStatus::Running,
            final(self).config_view() == old(self).config_view(),
            final(self).client_url() == old(self).client_url(),
            (e matches ModuleEvent::DohConnected { server } && server@ == "1.1.1.1"@),
    {
        self.status = ModuleStatus::Running;
        ModuleEvent::DohConnected { server: owned("1.1.1.1") }
    }

    /// Marks the module stopped; nothing else changes.
    pub fn stop(&mut self)
        ensures
            final(self).status_view() == ModuleStatus::Stopped,
            final(self).config_view() == old(self).config_view(),
            final(self).client_url() == old(self).client_url(),
    {
        self.status = ModuleStatus::Stopped;
    }
}

} // verus!
