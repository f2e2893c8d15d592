use app_security::platform::macos::MacOSPlatform;
use app_security::platform::types::{FirewallAction, FirewallRule, NetworkInterface};

#[test]
fn test_network_interface_clone() {
    let iface = NetworkInterface {
        name: "wlan0".to_string(),
        mac: "AA:BB:CC:DD:EE:FF".to_string(),
        ip: Some("10.0.0.1".to_string()),
        is_up: false,
    };
    let cloned = iface.clone();
    assert_eq!(cloned.name, "wlan0");
    assert_eq!(cloned.is_up, false);
}

#[test]
fn platform_rule_clone_and_action() {
    let rule = FirewallRule {
        id: "rule1".to_string(),
        action: FirewallAction::Block,
        src_ip: Some("10.0.0.1".to_string()),
        dst_ip: None,
        dst_port: Some(22),
        protocol: Some("tcp".to_string()),
        description: "Block SSH".to_string(),
    };
    let copy = rule.clone();
    assert_eq!(copy.id, "rule1");
    assert_eq!(copy.action, FirewallAction::Block);
    assert_ne!(copy.action, FirewallAction::Allow);
    assert_eq!(copy.dst_port, Some(22));
}

#[test]
fn macos_platform_is_not_implemented_yet() {
    let mut p = MacOSPlatform::new();
    assert!(p.get_network_interfaces().unwrap().is_empty());
    assert_eq!(p.get_active_interface().unwrap_err(), "Not implemented");
    assert_eq!(p.get_mac_address("en0").unwrap_err(), "Not implemented");
    assert_eq!(p.set_mac_address("en0", "aa").unwrap_err(), "Not implemented");
    assert_eq!(p.restore_mac_address("en0").unwrap_err(), "Not implemented");
    assert_eq!(p.get_hostname().unwrap_err(), "Not implemented");
    assert_eq!(p.set_hostname("h").unwrap_err(), "Not implemented");
    assert_eq!(p.restore_hostname().unwrap_err(), "Not implemented");
    assert_eq!(p.remove_firewall_rule("r").unwrap_err(), "Not implemented");
    assert_eq!(p.check_admin_privileges(), Ok(false));
    assert_eq!(p.request_elevation().unwrap_err(), "Not implemented");
}
