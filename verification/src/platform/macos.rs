//! The macOS platform. Its operations are not available yet: each one answers
//! "Not implemented", but for the interface list (empty) and the privilege check (no).
use vstd::prelude::*;
use crate::platform::types::{FirewallRule, NetworkInterface};
use crate::text::owned;

verus! {

/// The message every unavailable macOS operation fails with.
pub open spec fn not_implemented() -> Seq<char> {
    "Not implemented"@
}

/// The macOS platform.
pub struct MacOSPlatform;

impl MacOSPlatform {
    pub fn new() -> (p: Self) {
        MacOSPlatform
    }

    /// The network interfaces: none are reported yet.
    pub fn get_network_interfaces(&self) -> (r: Result<Vec<NetworkInterface>, String>)
        ensures
            (r matches Ok(v) && v@.len() == 0),
    {
        Ok(Vec::new())
    }

    pub fn get_active_interface(&self) -> (r: Result<NetworkInterface, String>)
        ensures
            (r matches Err(e) && e@ == not_implemented()),
    {
        Err(owned("Not implemented"))
    }

    pub fn get_mac_address(&self, iface: &str) -> (r: Result<String, String>)
        ensures
            (r matches Err(e) && e@ == not_implemented()),
    {
        Err(owned("Not implemented"))
    }

    pub fn set_mac_address(&mut self, iface: &str, mac: &str) -> (r: Result<(), String>)
        ensures
            (r matches Err(e) && e@ == not_implemented()),
    {
        Err(owned("Not implemented"))
    }

    pub fn restore_mac_address(&mut self, iface: &str) -> (r: Result<(), String>)
        ensures
            (r matches Err(e) && e@ == not_implemented()),
    {
        Err(owned("Not implemented"))
    }

    pub fn get_hostname(&self) -> (r: Result<String, String>)
        ensures
            (r matches Err(e) && e@ == not_implemented()),
    {
        Err(owned("Not implemented"))
    }

    pub fn set_hostname(&mut self, hostname: &str) -> (r: Result<(), String>)
        ensures
            (r matches Err(e) && e@ == not_implemented()),
    {
        Err(owned("Not implemented"))
    }

    pub fn restore_hostname(&mut self) -> (r: Result<(), String>)
        ensures
            (r matches Err(e) && e@ == not_implemented()),
    {
        Err(owned("Not implemented"))
    }

    pub fn add_firewall_rule(&mut self, rule: FirewallRule) -> (r: Result<(), String>)
        ensures
            (r matches Err(e) && e@ == not_implemented()),
    {
        Err(owned("Not implemented"))
    }

    pub fn remove_firewall_rule(&mut self, rule_id: &str) -> (r: Result<(), String>)
        ensures
            (r matches Err(e) && e@ == not_implemented()),
    {
        Err(owned("Not implemented"))
    }

    /// Whether the process has administrator rights: not detected yet, so no.
    pub fn check_admin_privileges(&self) -> (r: Result<bool, String>)
        ensures
            r == Ok::<bool, String>(false),
    {
        Ok(false)
    }

    pub fn request_elevation(&self) -> (r: Result<(), String>)
        ensures
            (r matches Err(e) && e@ == not_implemented()),
    {
        Err(owned("Not implemented"))
    }
}

} // verus!
