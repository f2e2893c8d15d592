//! Firewall module configuration.
use vstd::prelude::*;

verus! {

/// Default action for unmatched traffic.
#[derive(Debug, Clone, Copy, PartialEq, Eq, Structural)]
pub enum FirewallAction {
    Allow,
    Block,
}

/// A firewall rule configuration entry.
#[derive(Debug, Clone)]
pub struct FirewallRuleConfig {
    /// Unique identifier for this rule.
    pub id: String,
    /// Action to take (allow, block, reject).
    pub action: String,
    /// Direction (inbound, outbound, both).
    pub direction: String,
    /// Source IP or CIDR range.
    pub src_ip: Option<String>,
    /// Destination IP or CIDR range.
    pub dst_ip: Option<String>,
    /// Destination port.
    pub dst_port: Option<u16>,
    /// Protocol (tcp, udp, icmp).
    pub protocol: Option<String>,
    /// Human-readable description.
    pub description: String,
}

/// Configuration for the firewall module.
#[derive(Debug, Clone)]
pub struct FirewallConfig {
    /// Whether the firewall module is enabled.
    pub enabled: bool,
    /// Default action for unmatched traffic.
    pub default_action: FirewallAction,
    /// Whether to log blocked traffic.
    pub log_blocked: bool,
    /// Rules to apply on startup.
    pub rules: Vec<FirewallRuleConfig>,
}

impl Default for FirewallConfig {
    /// Enabled, blocking unmatched traffic, logging blocked traffic, with no rules.
    fn default() -> (c: Self)
        ensures
            c.enabled,
            c.default_action == FirewallAction::Block,
            c.log_blocked,
            c.rules@.len() == 0,
    {
        FirewallConfig { enabled: true, default_action: FirewallAction::Block, log_blocked: true, rules: Vec::new() }
    }
}

} // verus!
