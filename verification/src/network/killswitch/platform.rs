//! Per-system kill switch back ends. Applying and removing the blocking rule is not
//! wired to the system firewall yet: both succeed without doing anything.
use vstd::prelude::*;
use crate::platform::types::FirewallRule;

verus! {

/// Kill switch back end for Linux (iptables).
pub struct LinuxKillSwitch;

impl LinuxKillSwitch {
    pub fn new() -> (k: Self) {
        LinuxKillSwitch
    }

    /// Applies the blocking rule; succeeds without doing anything yet.
    pub fn apply_rule(&self, rule: &FirewallRule) -> (r: Result<(), String>)
        ensures
            r is Ok,
    {
        Ok(())
    }

    /// Removes the rule `rule_id`; succeeds without doing anything yet.
    pub fn remove_rule(&self, rule_id: &str) -> (r: Result<(), String>)
        ensures
            r is Ok,
    {
        Ok(())
    }
}

/// Kill switch back end for macOS (pf).
pub struct MacOSKillSwitch;

impl MacOSKillSwitch {
    pub fn new() -> (k: Self) {
        MacOSKillSwitch
    }

    /// Applies the blocking rule; succeeds without doing anything yet.
    pub fn apply_rule(&self, rule: &FirewallRule) -> (r: Result<(), String>)
        ensures
            r is Ok,
    {
        Ok(())
    }

    /// Removes the rule `rule_id`; succeeds without doing anything yet.
    pub fn remove_rule(&self, rule_id: &str) -> (r: Result<(), String>)
        ensures
            r is Ok,
    {
        Ok(())
    }
}

/// Kill switch back end for Windows (netsh).
pub struct WindowsKillSwitch;

impl WindowsKillSwitch {
    pub fn new() -> (k: Self) {
        WindowsKillSwitch
    }

    /// Applies the blocking rule; succeeds without doing anything yet.
    pub fn apply_rule(&self, rule: &FirewallRule) -> (r: Result<(), String>)
        ensures
            r is Ok,
    {
        Ok(())
    }

    /// Removes the rule `rule_id`; succeeds without doing anything yet.
    pub fn remove_rule(&self, rule_id: &str) -> (r: Result<(), String>)
        ensures
            r is Ok,
    {
        Ok(())
    }
}

} // verus!
