//! The lifecycle status, configuration and events shared by all security modules.
use vstd::prelude::*;
use vstd::std_specs::cmp::PartialEqSpecImpl;

verus! {

/// Lifecycle status of a security module.
#[derive(Debug)]
pub enum ModuleStatus {
    Created,
    Initialized,
    Starting,
    Running,
    Stopping,
    Stopped,
    Failed(String),
}

/// Two statuses are equal when they are the same variant (with the same text for `Failed`).
pub open spec fn same_status(a: ModuleStatus, b: ModuleStatus) -> bool {
    match (a, b) {
        (ModuleStatus::Created, ModuleStatus::Created) => true,
        (ModuleStatus::Initialized, ModuleStatus::Initialized) => true,
        (ModuleStatus::Starting, ModuleStatus::Starting) => true,
        (ModuleStatus::Running, ModuleStatus::Running) => true,
        (ModuleStatus::Stopping, ModuleStatus::Stopping) => true,
        (ModuleStatus::Stopped, ModuleStatus::Stopped) => true,
        (ModuleStatus::Failed(x), ModuleStatus::Failed(y)) => x@ == y@,
        _ => false,
    }
}

impl PartialEq for ModuleStatus {
    fn eq(&self, other: &Self) -> (r: bool) {
        match (self, other) {
            (ModuleStatus::Created, ModuleStatus::Created) => true,
            (ModuleStatus::Initialized, ModuleStatus::Initialized) => true,
            (ModuleStatus::Starting, ModuleStatus::Starting) => true,
            (ModuleStatus::Running, ModuleStatus::Running) => true,
            (ModuleStatus::Stopping, ModuleStatus::Stopping) => true,
            (ModuleStatus::Stopped, ModuleStatus::Stopped) => true,
            (ModuleStatus::Failed(x), ModuleStatus::Failed(y)) => crate::text::str_eq(x.as_str(), y.as_str()),
            _ => false,
        }
    }
}

impl PartialEqSpecImpl for ModuleStatus {
    open spec fn obeys_eq_spec() -> bool {
        true
    }

    open spec fn eq_spec(&self, other: &ModuleStatus) -> bool {
        same_status(*self, *other)
    }
}

impl Clone for ModuleStatus {
    fn clone(&self) -> (r: Self)
        ensures
            r == *self,
    {
        match self {
            ModuleStatus::Created => ModuleStatus::Created,
            ModuleStatus::Initialized => ModuleStatus::Initialized,
            ModuleStatus::Starting => ModuleStatus::Starting,
            ModuleStatus::Running => ModuleStatus::Running,
            ModuleStatus::Stopping => ModuleStatus::Stopping,
            ModuleStatus::Stopped => ModuleStatus::Stopped,
            ModuleStatus::Failed(e) => ModuleStatus::Failed(e.clone()),
        }
    }
}

/// Whether the status is `Running`.
pub fn is_running(s: &ModuleStatus) -> (r: bool)
    ensures
        r == (*s is Running),
{
    match s {
        ModuleStatus::Running => true,
        _ => false,
    }
}

#[verifier::external_type_specification]
#[verifier::external_body]
pub struct ExJsonValue(serde_json::Value);

/// An empty JSON object (`serde_json::Value::Object` around `serde_json::Map::new()`).
/// Trusted: nothing is stated of the value, which the library only stores and hands on.
#[verifier::external_body]
fn empty_json_object() -> serde_json::Value {
    serde_json::Value::Object(serde_json::Map::new())
}

/// Clones a JSON value (serde_json's `Clone` for `Value`).
/// Trusted: nothing is stated of the copy; the library never inspects settings.
pub assume_specification[ <serde_json::Value as std::clone::Clone>::clone ](v: &serde_json::Value) -> serde_json::Value;

/// Per-module configuration.
#[derive(Debug, Clone)]
pub struct ModuleConfig {
    pub enabled: bool,
    pub auto_start: bool,
    /// Module-specific settings, a JSON value.
    pub settings: serde_json::Value,
}

impl Default for ModuleConfig {
    /// Enabled, started automatically, with an empty settings object.
    fn default() -> (c: Self)
        ensures
            c.enabled,
            c.auto_start,
    {
        ModuleConfig { enabled: true, auto_start: true, settings: empty_json_object() }
    }
}

/// Events that modules publish to each other over the event bus.
#[derive(Debug, Clone)]
pub enum ModuleEvent {
    VpnConnected { server: String, ip: String },
    VpnDisconnected { reason: String },
    VpnConnectionFailed { error: String },
    ArpSpoofDetected { attacker_mac: String, victim_ip: String },
    MacChanged { interface: String, old_mac: String, new_mac: String },
    HostnameChanged { old_hostname: String, new_hostname: String },
    ModuleStarted { module_id: String },
    ModuleStopped { module_id: String },
    ModuleFailed { module_id: String, error: String },
    DohConnected { server: String },
    DnsLeakDetected { dns_server: String, interface: String },
    FirewallRuleAdded { rule_id: String, description: String },
    FirewallRuleRemoved { rule_id: String },
    FirewallRuleBlocked { src_ip: String, dst_port: u16 },
}

} // verus!
