use app_security::engine::mod_trait::{ModuleEvent, ModuleStatus};
use app_security::network::dns::config::DnsConfig;
use app_security::network::dns::doh::{DohClient, DohError};
use app_security::network::dns::leak::DnsLeakDetector;
use app_security::network::dns::DnsModule;
use app_security::network::killswitch::platform::{LinuxKillSwitch, MacOSKillSwitch, WindowsKillSwitch};
use app_security::network::killswitch::{KillSwitchModule, KillSwitchResponse};
use app_security::network::vpn::config::VpnConfig;
use app_security::network::vpn::wireguard::WireGuardManager;
use app_security::network::vpn::VpnModule;
use app_security::platform::types::FirewallAction;

#[test]
fn config_test_dns_config_default() {
    let config = DnsConfig::default();
    assert_eq!(config.resolver_url, "https://1.1.1.1/dns-query");
    assert_eq!(config.timeout_secs, 5);
}

#[test]
fn config_test_dns_config_custom() {
    let config = DnsConfig { resolver_url: "https://dns.google/dns-query".to_string(), timeout_secs: 10 };
    assert_eq!(config.resolver_url, "https://dns.google/dns-query");
    assert_eq!(config.timeout_secs, 10);
}

#[test]
fn dns_test_test_dns_config_default() {
    let config = DnsConfig::default();
    assert_eq!(config.resolver_url, "https://1.1.1.1/dns-query");
    assert_eq!(config.timeout_secs, 5);
}

#[test]
fn dns_test_test_dns_config_custom() {
    let config = DnsConfig { resolver_url: "https://dns.google/dns-query".to_string(), timeout_secs: 10 };
    assert_eq!(config.resolver_url, "https://dns.google/dns-query");
    assert_eq!(config.timeout_secs, 10);
}

#[test]
fn doh_test_doh_client_creation() {
    let client = DohClient::new("https://1.1.1.1/dns-query".to_string());
    assert_eq!(client.resolver_url(), "https://1.1.1.1/dns-query");
}

#[test]
fn dns_test_test_doh_client_creation() {
    let client = DohClient::new("https://1.1.1.1/dns-query".to_string());
    assert_eq!(client.resolver_url(), "https://1.1.1.1/dns-query");
}

#[test]
fn test_doh_client_custom_url() {
    let client = DohClient::new("https://dns.google/dns-query".to_string());
    assert_eq!(client.resolver_url(), "https://dns.google/dns-query");
}

#[test]
fn test_doh_error_display() {
    let err = DohError::NetworkError("connection refused".to_string());
    assert_eq!(err.to_string(), "Network error: connection refused");
    let err = DohError::EncodingError("bad input".to_string());
    assert_eq!(err.to_string(), "Encoding error: bad input");
    let err = DohError::DecodingError("invalid json".to_string());
    assert_eq!(err.to_string(), "Decoding error: invalid json");
}

#[test]
fn test_doh_error_is_std_error() {
    let err = DohError::NetworkError("test".to_string());
    assert!(err.to_string().contains("Network error"));
}

#[test]
fn doh_query_url_and_answers() {
    let client = DohClient::new("https://1.1.1.1/dns-query".to_string());
    assert_eq!(client.query_url("example.com"), "https://1.1.1.1/dns-query?name=example.com&type=A");
    let answers = DohClient::answer_records(Some(vec![Some("93.184.216.34".to_string()), None, Some("1.2.3.4".to_string())]));
    assert_eq!(answers.unwrap(), vec!["93.184.216.34".to_string(), "1.2.3.4".to_string()]);
    match DohClient::answer_records(None) {
        Err(DohError::DecodingError(m)) => assert_eq!(m, "Missing Answer section"),
        other => panic!("unexpected {:?}", other),
    }
}

#[test]
fn dns_module_lifecycle() {
    let mut module = DnsModule::new();
    assert_eq!(module.id(), "dns");
    assert_eq!(module.name(), "DNS Module");
    assert_eq!(module.priority(), 4);
    assert!(module.dependencies().is_empty());
    assert_eq!(module.status(), ModuleStatus::Created);
    assert_eq!(module.config().resolver_url, "https://1.1.1.1/dns-query");
    assert_eq!(module.doh_client().resolver_url(), "https://1.1.1.1/dns-query");
    module.initialize();
    assert_eq!(module.status(), ModuleStatus::Initialized);
    match module.start() {
        ModuleEvent::DohConnected { server } => assert_eq!(server, "1.1.1.1"),
        other => panic!("unexpected {:?}", other),
    }
    assert_eq!(module.status(), ModuleStatus::Running);
    module.stop();
    assert_eq!(module.status(), ModuleStatus::Stopped);
}

#[test]
fn leak_detector_known_servers() {
    let detector = DnsLeakDetector::new(vec!["8.8.8.8".to_string(), "1.1.1.1".to_string()]);
    assert!(detector.is_known_server("8.8.8.8"));
    assert!(detector.is_known_server("1.1.1.1"));
    assert!(!detector.is_known_server("192.168.1.1"));
}

#[test]
fn leak_detector_reports_leaks() {
    let detector = DnsLeakDetector::new(vec!["8.8.8.8".to_string()]);
    match detector.detect_leak("8.8.8.8", "wlan0") {
        Some(ModuleEvent::DnsLeakDetected { dns_server, interface }) => {
            assert_eq!(dns_server, "8.8.8.8");
            assert_eq!(interface, "wlan0");
        },
        other => panic!("unexpected {:?}", other),
    }
    assert!(detector.detect_leak("192.168.1.1", "eth0").is_none());
}

#[test]
fn killswitch_identity_and_lifecycle() {
    let mut ks = KillSwitchModule::new();
    assert_eq!(ks.id(), "killswitch");
    assert_eq!(ks.name(), "Kill Switch");
    assert_eq!(ks.priority(), 2);
    assert_eq!(ks.dependencies(), vec!["vpn".to_string()]);
    assert_eq!(ks.status(), ModuleStatus::Created);
    ks.initialize();
    assert_eq!(ks.status(), ModuleStatus::Initialized);
    ks.start();
    assert_eq!(ks.status(), ModuleStatus::Running);
    assert!(ks.plan_deactivate().is_none());
    ks.stopped();
    assert_eq!(ks.status(), ModuleStatus::Stopped);
}

#[test]
fn killswitch_activates_and_deactivates() {
    let mut ks = KillSwitchModule::new();
    ks.start();
    let disconnect = ModuleEvent::VpnDisconnected { reason: "lost".to_string() };
    assert_eq!(KillSwitchModule::respond_to(&disconnect), KillSwitchResponse::Activate);
    let rule = ks.plan_activate().unwrap();
    assert_eq!(rule.id, "killswitch-block");
    assert_eq!(rule.action, FirewallAction::Block);
    assert_eq!(rule.description, "Kill switch - block all traffic");
    assert!(rule.src_ip.is_none() && rule.dst_ip.is_none() && rule.dst_port.is_none() && rule.protocol.is_none());
    ks.activated(rule);
    assert!(ks.is_active());
    assert!(ks.plan_activate().is_none());
    let rules = ks.get_firewall_rules();
    assert_eq!(rules.len(), 1);
    assert_eq!(rules[0].id, "killswitch-block");
    assert!(matches!(KillSwitchModule::activation_event(), ModuleEvent::ModuleStarted { module_id } if module_id == "killswitch"));

    let connect = ModuleEvent::VpnConnected { server: "s".to_string(), ip: "10.0.0.1".to_string() };
    assert_eq!(KillSwitchModule::respond_to(&connect), KillSwitchResponse::Deactivate);
    assert_eq!(ks.plan_deactivate(), Some("killswitch-block".to_string()));
    ks.deactivated();
    assert!(!ks.is_active());
    assert!(ks.get_firewall_rules().is_empty());
    assert_eq!(ks.status(), ModuleStatus::Running);
}

#[test]
fn killswitch_ignores_unrelated_events() {
    let event = ModuleEvent::ArpSpoofDetected { attacker_mac: "aa".to_string(), victim_ip: "1".to_string() };
    assert_eq!(KillSwitchModule::respond_to(&event), KillSwitchResponse::Ignore);
    assert_eq!(KillSwitchModule::respond_to(&ModuleEvent::DohConnected { server: "x".to_string() }), KillSwitchResponse::Ignore);
}

#[test]
fn killswitch_backends_succeed() {
    let rule = KillSwitchModule::new().plan_activate().unwrap();
    assert!(LinuxKillSwitch::new().apply_rule(&rule).is_ok());
    assert!(LinuxKillSwitch::new().remove_rule("killswitch-block").is_ok());
    assert!(MacOSKillSwitch::new().apply_rule(&rule).is_ok());
    assert!(MacOSKillSwitch::new().remove_rule("killswitch-block").is_ok());
    assert!(WindowsKillSwitch::new().apply_rule(&rule).is_ok());
    assert!(WindowsKillSwitch::new().remove_rule("killswitch-block").is_ok());
}

#[test]
fn vpn_config_default() {
    let config = VpnConfig::default();
    assert_eq!(config.server, "");
    assert_eq!(config.private_key, "");
    assert_eq!(config.listen_port, 51820);
    assert_eq!(config.dns_servers, vec!["1.1.1.1".to_string(), "1.0.0.1".to_string()]);
}

#[test]
fn wireguard_manager_interface() {
    assert_eq!(WireGuardManager::new("wg0").interface_name(), "wg0");
    assert_eq!(WireGuardManager::new("wg7").interface_name(), "wg7");
}

#[test]
fn vpn_identity_and_lifecycle() {
    let mut vpn = VpnModule::new();
    assert_eq!(vpn.id(), "vpn");
    assert_eq!(vpn.name(), "VPN Module");
    assert_eq!(vpn.priority(), 1);
    assert!(vpn.dependencies().is_empty());
    assert_eq!(vpn.status(), ModuleStatus::Created);
    vpn.initialize();
    assert_eq!(vpn.status(), ModuleStatus::Initialized);
    vpn.start();
    assert_eq!(vpn.status(), ModuleStatus::Running);
    vpn.stopped();
    assert_eq!(vpn.status(), ModuleStatus::Stopped);
}

#[test]
fn vpn_connect_requires_running() {
    let vpn = VpnModule::new();
    assert_eq!(vpn.plan_connect("key").unwrap_err(), "Module not running");
}

#[test]
fn vpn_connect_and_disconnect() {
    let mut vpn = VpnModule::new();
    vpn.start();
    let wg = vpn.plan_connect("private-key").unwrap();
    assert_eq!(wg.interface, "wg0");
    assert_eq!(wg.private_key, "private-key");
    assert_eq!(wg.listen_port, 51820);
    assert!(wg.peers.is_empty());
    match vpn.connected_to("us-east.example.com") {
        ModuleEvent::VpnConnected { server, ip } => {
            assert_eq!(server, "us-east.example.com");
            assert_eq!(ip, "10.0.0.1");
        },
        other => panic!("unexpected {:?}", other),
    }
    assert!(vpn.is_connected());
    assert_eq!(vpn.current_server(), Some("us-east.example.com"));
    assert_eq!(vpn.plan_disconnect(), Some("wg0".to_string()));
    match vpn.disconnected() {
        ModuleEvent::VpnDisconnected { reason } => assert_eq!(reason, "User disconnect"),
        other => panic!("unexpected {:?}", other),
    }
    assert!(!vpn.is_connected());
    assert_eq!(vpn.current_server(), None);
    assert!(vpn.plan_disconnect().is_none());
}

#[test]
fn killswitch_platform_failures_change_nothing() {
    let mut ks = KillSwitchModule::new();
    ks.start();
    let rule = ks.plan_activate().unwrap();
    assert_eq!(ks.finish_activation(rule, Err("denied".to_string())), Err("denied".to_string()));
    assert!(!ks.is_active());
    assert!(ks.get_firewall_rules().is_empty());
    let rule = ks.plan_activate().unwrap();
    assert_eq!(ks.finish_activation(rule, Ok(())), Ok(()));
    assert!(ks.is_active());
    assert_eq!(ks.finish_deactivation(Err("busy".to_string())), Err("busy".to_string()));
    assert!(ks.is_active());
    assert_eq!(ks.get_firewall_rules().len(), 1);
    assert_eq!(ks.finish_deactivation(Ok(())), Ok(()));
    assert!(!ks.is_active());
    assert!(ks.get_firewall_rules().is_empty());
}

#[test]
fn vpn_platform_failures_change_nothing() {
    let mut vpn = VpnModule::new();
    vpn.start();
    assert_eq!(vpn.finish_connect("srv", Err("no wg".to_string())).unwrap_err(), "no wg");
    assert!(!vpn.is_connected());
    assert_eq!(vpn.current_server(), None);
    match vpn.finish_connect("srv", Ok(())).unwrap() {
        ModuleEvent::VpnConnected { server, ip } => {
            assert_eq!(server, "srv");
            assert_eq!(ip, "10.0.0.1");
        },
        other => panic!("unexpected {:?}", other),
    }
    assert_eq!(vpn.finish_disconnect(Err("busy".to_string())).unwrap_err(), "busy");
    assert!(vpn.is_connected());
    assert_eq!(vpn.current_server(), Some("srv"));
    assert!(matches!(vpn.finish_disconnect(Ok(())).unwrap(), ModuleEvent::VpnDisconnected { reason } if reason == "User disconnect"));
    assert!(!vpn.is_connected());
    assert_eq!(vpn.wg_manager().interface_name(), "wg0");
}

#[test]
fn killswitch_reacts_to_vpn_events() {
    let mut ks = KillSwitchModule::new();
    ks.start();
    let down = ModuleEvent::VpnDisconnected { reason: "lost".to_string() };
    let up = ModuleEvent::VpnConnected { server: "vpn.example".to_string(), ip: "10.0.0.1".to_string() };
    let other = ModuleEvent::ArpSpoofDetected { attacker_mac: "aa".to_string(), victim_ip: "10.0.0.2".to_string() };

    assert!(matches!(ks.react(&down, Err("denied".to_string())), Err(e) if e == "denied"));
    assert!(!ks.is_active());
    let started = ks.react(&down, Ok(())).unwrap().unwrap();
    assert!(matches!(started, ModuleEvent::ModuleStarted { module_id } if module_id == "killswitch"));
    assert!(ks.is_active());
    let rules = ks.get_firewall_rules();
    assert_eq!(rules.len(), 1);
    assert_eq!(rules[0].id, "killswitch-block");
    assert_eq!(rules[0].action, FirewallAction::Block);
    assert_eq!(rules[0].description, "Kill switch - block all traffic");

    assert!(matches!(ks.react(&other, Err("not asked".to_string())), Ok(None)));
    assert!(ks.is_active());
    assert_eq!(ks.get_firewall_rules().len(), 1);

    assert!(matches!(ks.react(&up, Err("busy".to_string())), Err(e) if e == "busy"));
    assert!(ks.is_active());
    assert!(matches!(ks.react(&up, Ok(())), Ok(None)));
    assert!(!ks.is_active());
    assert!(ks.get_firewall_rules().is_empty());
    assert!(matches!(ks.react(&up, Err("not asked".to_string())), Ok(None)));
    assert!(!ks.is_active());
}
