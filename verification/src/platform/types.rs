//! Plain data exchanged with the operating-system platform.
use vstd::prelude::*;
use crate::network::firewall::rules::{clone_opt, opt_view};

verus! {

/// A network interface of the machine.
#[derive(Debug)]
pub struct NetworkInterface {
    pub name: String,
    pub mac: String,
    pub ip: Option<String>,
    pub is_up: bool,
}

impl Clone for NetworkInterface {
    fn clone(&self) -> (r: Self)
        ensures
            r == *self,
    {
        NetworkInterface { name: self.name.clone(), mac: self.mac.clone(), ip: clone_opt(&self.ip), is_up: self.is_up }
    }
}

/// Whether a platform firewall rule lets traffic through or blocks it.
#[derive(Debug, Clone, Copy, PartialEq, Eq, Structural)]
pub enum FirewallAction {
    Allow,
    Block,
}

/// A firewall rule as the platform applies it; `None` fields match anything.
#[derive(Debug)]
pub struct FirewallRule {
    pub id: String,
    pub action: FirewallAction,
    pub src_ip: Option<String>,
    pub dst_ip: Option<String>,
    pub dst_port: Option<u16>,
    pub protocol: Option<String>,
    pub description: String,
}

/// The abstract content of a platform [`FirewallRule`].
pub struct PlatformRuleView {
    pub id: Seq<char>,
    pub action: FirewallAction,
    pub src_ip: Option<Seq<char>>,
    pub dst_ip: Option<Seq<char>>,
    pub dst_port: Option<u16>,
    pub protocol: Option<Seq<char>>,
    pub description: Seq<char>,
}

impl View for FirewallRule {
    type V = PlatformRuleView;

    open spec fn view(&self) -> PlatformRuleView {
        PlatformRuleView {
            id: self.id@,
            action: self.action,
            src_ip: opt_view(self.src_ip),
            dst_ip: opt_view(self.dst_ip),
            dst_port: self.dst_port,
            protocol: opt_view(self.protocol),
            description: self.description@,
        }
    }
}

impl Clone for FirewallRule {
    fn clone(&self) -> (r: Self)
        ensures
            r == *self,
    {
        FirewallRule {
            id: self.id.clone(),
            action: self.action,
            src_ip: clone_opt(&self.src_ip),
            dst_ip: clone_opt(&self.dst_ip),
            dst_port: self.dst_port,
            protocol: clone_opt(&self.protocol),
            description: self.description.clone(),
        }
    }
}

/// The views of a list of platform rules.
pub open spec fn platform_rules_view(rules: Seq<FirewallRule>) -> Seq<PlatformRuleView> {
    rules.map_values(|r: FirewallRule| r@)
}

/// A WireGuard peer.
#[derive(Debug)]
pub struct WireGuardPeer {
    pub public_key: String,
    pub allowed_ips: Vec<String>,
    pub endpoint: Option<String>,
}

/// The settings of a WireGuard interface.
#[derive(Debug)]
pub struct WireGuardConfig {
    pub interface: String,
    pub private_key: String,
    pub listen_port: u16,
    pub peers: Vec<WireGuardPeer>,
}

} // verus!
