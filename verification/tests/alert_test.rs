use app_security::alert::log::{log_records, AlertLogger};
use app_security::alert::types::{Alert, AlertCategory, AlertConfig, AlertSeverity};
use app_security::alert::{alert_content, AlertManager};
use app_security::engine::clock::UtcTimestamp;
use app_security::engine::mod_trait::{ModuleEvent, ModuleStatus};

fn info(title: &str) -> Alert {
    Alert::new(AlertSeverity::Info, title.to_string(), "msg".to_string())
}

fn titles(alerts: &[Alert]) -> Vec<String> {
    alerts.iter().map(|a| a.title.clone()).collect()
}

#[test]
fn test_alert_manager_creation() {
    let manager = AlertManager::new();
    assert_eq!(manager.id(), "alert_manager");
    assert_eq!(manager.name(), "Alert Manager");
    assert_eq!(manager.priority(), 6);
    assert!(manager.dependencies().is_empty());
}

#[test]
fn alert_manager_lifecycle() {
    let mut manager = AlertManager::new();
    assert_eq!(manager.status(), ModuleStatus::Created);
    manager.initialize();
    assert_eq!(manager.status(), ModuleStatus::Initialized);
    manager.start();
    manager.start();
    assert_eq!(manager.status(), ModuleStatus::Running);
    manager.stop();
    manager.stop();
    assert_eq!(manager.status(), ModuleStatus::Stopped);
}

#[test]
fn test_alert_severity_display() {
    assert_eq!(AlertSeverity::Info.to_string(), "INFO");
    assert_eq!(AlertSeverity::Medium.to_string(), "MEDIUM");
    assert_eq!(AlertSeverity::High.to_string(), "HIGH");
    assert_eq!(AlertSeverity::Critical.to_string(), "CRITICAL");
}

#[test]
fn test_alert_severity_ordering() {
    assert!(AlertSeverity::Info < AlertSeverity::Medium);
    assert!(AlertSeverity::Medium < AlertSeverity::High);
    assert!(AlertSeverity::High < AlertSeverity::Critical);
    assert!(AlertSeverity::Info.rank() < AlertSeverity::Critical.rank());
}

#[test]
fn test_alert_creation() {
    let alert = Alert::new(AlertSeverity::High, "Test".to_string(), "Message".to_string());
    assert!(!alert.id.is_empty());
    assert_eq!(alert.severity, AlertSeverity::High);
    assert_eq!(alert.title, "Test");
    assert_eq!(alert.message, "Message");
    assert!(!alert.acknowledged);
}

#[test]
fn alert_ids_are_hyphenated_uuids() {
    let a = info("a");
    let b = info("b");
    assert_eq!(a.id.len(), 36);
    assert_eq!(a.id.matches('-').count(), 4);
    assert_ne!(a.id, b.id);
    assert_eq!(a.category, AlertCategory::General);
}

#[test]
fn test_alert_with_category() {
    let alert = Alert::with_category(AlertSeverity::High, AlertCategory::Vpn, "VPN Alert".to_string(), "Disconnected".to_string());
    assert_eq!(alert.category, AlertCategory::Vpn);
}

#[test]
fn test_alert_display() {
    let alert = Alert::new(AlertSeverity::Critical, "ARP Spoof".to_string(), "Detected attack".to_string());
    let display = alert.to_string();
    assert!(display.contains("CRITICAL"));
    assert!(display.contains("ARP Spoof"));
    assert!(display.contains("Detected attack"));
    assert_eq!(display, "[CRITICAL] ARP Spoof: Detected attack");
}

#[test]
fn test_alert_config_default() {
    let config = AlertConfig::default();
    assert!(config.enabled);
    assert_eq!(config.max_alerts, 1000);
    assert_eq!(config.min_severity, AlertSeverity::Info);
    assert!(config.log_to_file);
    assert!(config.log_file_path.is_none());
    assert_eq!(config.max_age_secs, 86400);
}

#[test]
fn alert_test_test_add_and_get_alerts() {
    let mut manager = AlertManager::new();
    manager.add_alert(Alert::new(AlertSeverity::Critical, "Critical Alert".to_string(), "Something bad".to_string()));
    assert_eq!(manager.alert_count(), 1);
    let alerts = manager.get_alerts();
    assert_eq!(alerts[0].title, "Critical Alert");
}

#[test]
fn test_add_multiple_alerts() {
    let mut manager = AlertManager::new();
    for i in 0..5 {
        manager.add_alert(info(&format!("Alert {}", i)));
    }
    assert_eq!(manager.alert_count(), 5);
}

#[test]
fn alert_test_test_filter_by_severity() {
    let mut manager = AlertManager::new();
    manager.add_alert(Alert::new(AlertSeverity::Critical, "Critical".to_string(), "msg".to_string()));
    manager.add_alert(info("Info"));
    manager.add_alert(Alert::new(AlertSeverity::Critical, "Critical 2".to_string(), "msg".to_string()));
    assert_eq!(manager.get_alerts_by_severity(AlertSeverity::Critical).len(), 2);
    assert_eq!(manager.get_alerts_by_severity(AlertSeverity::Info).len(), 1);
    assert_eq!(manager.get_alerts_by_severity(AlertSeverity::High).len(), 0);
    assert_eq!(titles(&manager.get_alerts_by_severity(AlertSeverity::Critical)), vec!["Critical", "Critical 2"]);
}

#[test]
fn test_count_by_severity() {
    let mut manager = AlertManager::new();
    manager.add_alert(Alert::new(AlertSeverity::High, "H1".to_string(), "msg".to_string()));
    manager.add_alert(Alert::new(AlertSeverity::High, "H2".to_string(), "msg".to_string()));
    manager.add_alert(Alert::new(AlertSeverity::Critical, "C1".to_string(), "msg".to_string()));
    assert_eq!(manager.count_by_severity(AlertSeverity::High), 2);
    assert_eq!(manager.count_by_severity(AlertSeverity::Critical), 1);
    assert_eq!(manager.count_by_severity(AlertSeverity::Info), 0);
}

#[test]
fn alert_test_test_clear_alerts() {
    let mut manager = AlertManager::new();
    for i in 0..3 {
        manager.add_alert(info(&format!("Alert {}", i)));
    }
    assert_eq!(manager.alert_count(), 3);
    manager.clear_alerts();
    assert_eq!(manager.alert_count(), 0);
}

#[test]
fn alert_test_test_recent_alerts() {
    let mut manager = AlertManager::new();
    for i in 0..5 {
        manager.add_alert(info(&format!("Alert {}", i)));
    }
    let recent = manager.recent_alerts(3);
    assert_eq!(recent.len(), 3);
    assert_eq!(recent[0].title, "Alert 4");
    assert_eq!(recent[1].title, "Alert 3");
    assert_eq!(recent[2].title, "Alert 2");
}

#[test]
fn test_recent_alerts_limit() {
    let mut manager = AlertManager::new();
    for i in 0..3 {
        manager.add_alert(info(&format!("Alert {}", i)));
    }
    assert_eq!(manager.recent_alerts(10).len(), 3);
    assert_eq!(manager.recent_alerts(0).len(), 0);
}

#[test]
fn alert_test_test_acknowledge_alert() {
    let mut manager = AlertManager::new();
    let alert = Alert::new(AlertSeverity::High, "Test".to_string(), "msg".to_string());
    let id = alert.id.clone();
    manager.add_alert(alert);
    assert_eq!(manager.unacknowledged_alerts().len(), 1);
    assert!(manager.acknowledge_alert(&id));
    assert_eq!(manager.unacknowledged_alerts().len(), 0);
}

#[test]
fn test_acknowledge_nonexistent_alert() {
    let mut manager = AlertManager::new();
    assert!(!manager.acknowledge_alert("nonexistent-id"));
}

#[test]
fn test_unacknowledged_alerts() {
    let mut manager = AlertManager::new();
    let alert1 = Alert::new(AlertSeverity::High, "Alert 1".to_string(), "msg".to_string());
    let id1 = alert1.id.clone();
    manager.add_alert(alert1);
    manager.add_alert(Alert::new(AlertSeverity::High, "Alert 2".to_string(), "msg".to_string()));
    assert_eq!(manager.unacknowledged_alerts().len(), 2);
    manager.acknowledge_alert(&id1);
    let unacked = manager.unacknowledged_alerts();
    assert_eq!(unacked.len(), 1);
    assert_eq!(unacked[0].title, "Alert 2");
}

#[test]
fn alert_test_test_max_alerts_limit() {
    let config = AlertConfig { max_alerts: 3, ..Default::default() };
    let mut manager = AlertManager::with_config(config);
    for i in 0..5 {
        manager.add_alert(info(&format!("Alert {}", i)));
    }
    assert_eq!(manager.alert_count(), 3);
    let alerts = manager.get_alerts();
    assert_eq!(alerts[0].title, "Alert 2");
    assert_eq!(titles(&alerts), vec!["Alert 2", "Alert 3", "Alert 4"]);
}

fn manager_after(event: ModuleEvent) -> AlertManager {
    let mut manager = AlertManager::new();
    manager.start();
    manager.on_event(&event);
    manager
}

#[test]
fn test_on_event_creates_arp_alert() {
    let manager = manager_after(ModuleEvent::ArpSpoofDetected {
        attacker_mac: "aa:bb:cc:dd:ee:ff".to_string(),
        victim_ip: "192.168.1.1".to_string(),
    });
    assert_eq!(manager.alert_count(), 1);
    let alerts = manager.get_alerts();
    assert_eq!(alerts[0].severity, AlertSeverity::Critical);
    assert!(alerts[0].message.contains("aa:bb:cc:dd:ee:ff"));
    assert_eq!(alerts[0].title, "ARP Spoof Detected");
    assert_eq!(alerts[0].message, "ARP spoofing detected: MAC aa:bb:cc:dd:ee:ff is impersonating IP 192.168.1.1");
}

#[test]
fn test_on_event_creates_vpn_disconnect_alert() {
    let manager = manager_after(ModuleEvent::VpnDisconnected { reason: "Connection lost".to_string() });
    assert_eq!(manager.alert_count(), 1);
    let alerts = manager.get_alerts();
    assert_eq!(alerts[0].severity, AlertSeverity::High);
    assert!(alerts[0].message.contains("Connection lost"));
}

#[test]
fn test_on_event_creates_vpn_failed_alert() {
    let manager = manager_after(ModuleEvent::VpnConnectionFailed { error: "Timeout".to_string() });
    assert_eq!(manager.alert_count(), 1);
    assert_eq!(manager.get_alerts()[0].severity, AlertSeverity::High);
    assert_eq!(manager.get_alerts()[0].message, "Failed to connect to VPN: Timeout");
}

#[test]
fn test_on_event_creates_dns_leak_alert() {
    let manager = manager_after(ModuleEvent::DnsLeakDetected { dns_server: "8.8.8.8".to_string(), interface: "en0".to_string() });
    assert_eq!(manager.alert_count(), 1);
    let alerts = manager.get_alerts();
    assert_eq!(alerts[0].severity, AlertSeverity::High);
    assert!(alerts[0].message.contains("8.8.8.8"));
    assert_eq!(alerts[0].message, "DNS leak detected: 8.8.8.8 responded on interface en0");
}

#[test]
fn test_on_event_creates_firewall_blocked_alert() {
    let manager = manager_after(ModuleEvent::FirewallRuleBlocked { src_ip: "10.0.0.5".to_string(), dst_port: 443 });
    assert_eq!(manager.alert_count(), 1);
    let alerts = manager.get_alerts();
    assert_eq!(alerts[0].severity, AlertSeverity::Medium);
    assert!(alerts[0].message.contains("10.0.0.5"));
    assert_eq!(alerts[0].message, "Firewall blocked traffic from 10.0.0.5 to port 443");
}

#[test]
fn test_on_event_creates_module_failed_alert() {
    let manager = manager_after(ModuleEvent::ModuleFailed { module_id: "dns".to_string(), error: "Connection refused".to_string() });
    assert_eq!(manager.alert_count(), 1);
    assert_eq!(manager.get_alerts()[0].severity, AlertSeverity::High);
    assert_eq!(manager.get_alerts()[0].message, "Module 'dns' failed: Connection refused");
}

#[test]
fn test_on_event_creates_vpn_connected_alert() {
    let manager = manager_after(ModuleEvent::VpnConnected { server: "us-east".to_string(), ip: "1.2.3.4".to_string() });
    assert_eq!(manager.alert_count(), 1);
    assert_eq!(manager.get_alerts()[0].severity, AlertSeverity::Info);
    assert_eq!(manager.get_alerts()[0].message, "Connected to VPN server us-east (IP: 1.2.3.4)");
}

#[test]
fn firewall_rule_added_raises_info_alert() {
    let manager = manager_after(ModuleEvent::FirewallRuleAdded { rule_id: "r1".to_string(), description: "Allow web".to_string() });
    let alerts = manager.get_alerts();
    assert_eq!(alerts[0].severity, AlertSeverity::Info);
    assert_eq!(alerts[0].title, "Firewall Rule Added");
    assert_eq!(alerts[0].message, "Rule 'r1' added: Allow web");
}

#[test]
fn test_on_event_no_alert_for_module_started() {
    let manager = manager_after(ModuleEvent::ModuleStarted { module_id: "dns".to_string() });
    assert_eq!(manager.alert_count(), 0);
}

#[test]
fn test_on_event_no_alert_for_module_stopped() {
    let manager = manager_after(ModuleEvent::ModuleStopped { module_id: "dns".to_string() });
    assert_eq!(manager.alert_count(), 0);
}

#[test]
fn test_multiple_events_create_alerts() {
    let mut manager = AlertManager::new();
    manager.start();
    let events = vec![
        ModuleEvent::ArpSpoofDetected { attacker_mac: "aa:bb:cc:dd:ee:ff".to_string(), victim_ip: "192.168.1.1".to_string() },
        ModuleEvent::VpnDisconnected { reason: "test".to_string() },
        ModuleEvent::DnsLeakDetected { dns_server: "8.8.8.8".to_string(), interface: "en0".to_string() },
        ModuleEvent::FirewallRuleBlocked { src_ip: "10.0.0.1".to_string(), dst_port: 22 },
    ];
    for event in &events {
        manager.on_event(event);
    }
    assert_eq!(manager.alert_count(), 4);
    assert_eq!(manager.count_by_severity(AlertSeverity::Critical), 1);
    assert_eq!(manager.count_by_severity(AlertSeverity::High), 2);
    assert_eq!(manager.count_by_severity(AlertSeverity::Medium), 1);
}

#[test]
fn test_event_to_alert_no_alert_for_module_started() {
    assert!(AlertManager::event_to_alert(&ModuleEvent::ModuleStarted { module_id: "test".to_string() }).is_none());
    assert!(alert_content(&ModuleEvent::DohConnected { server: "1.1.1.1".to_string() }).is_none());
}

#[test]
fn test_with_config() {
    let config = AlertConfig {
        enabled: true,
        max_alerts: 100,
        min_severity: AlertSeverity::High,
        log_to_file: false,
        log_file_path: None,
        max_age_secs: 3600,
    };
    let manager = AlertManager::with_config(config);
    assert_eq!(manager.config().max_alerts, 100);
    assert_eq!(manager.config().min_severity, AlertSeverity::High);
    assert!(!manager.config().log_to_file);
}

#[test]
fn old_alerts_are_dropped() {
    let mut manager = AlertManager::new();
    let mut old = info("old");
    old.timestamp = UtcTimestamp { secs: 1_000, nanos: 0 };
    let fresh = info("fresh");
    manager.add_alert(old);
    manager.add_alert(fresh);
    manager.clear_old_alerts(3600, 0);
    assert_eq!(titles(&manager.get_alerts()), vec!["fresh"]);
    let mut recent = info("recent");
    recent.timestamp.secs -= 2;
    manager.add_alert(recent);
    manager.clear_old_alerts(1, 500_000_000);
    assert_eq!(titles(&manager.get_alerts()), vec!["fresh"]);
    manager.retain_newer_than(UtcTimestamp { secs: i64::MAX, nanos: 0 });
    assert_eq!(manager.alert_count(), 0);
}

fn at(title: &str, secs: i64, nanos: u32) -> Alert {
    let mut a = info(title);
    a.timestamp = UtcTimestamp { secs, nanos };
    a
}

#[test]
fn clearing_at_a_given_moment_keeps_only_later_alerts() {
    let now = UtcTimestamp { secs: 10_000, nanos: 200_000_000 };
    let mut manager = AlertManager::new();
    manager.add_alert(at("at_cutoff", 8_999, 700_000_000));
    manager.add_alert(at("just_after", 8_999, 700_000_001));
    manager.add_alert(at("before", 8_000, 0));
    manager.add_alert(at("now", 10_000, 200_000_000));
    // 1000.5 s before 10000.2 s is 8999.7 s: the nanoseconds borrow a second.
    manager.clear_alerts_older_than(now, 1_000, 500_000_000);
    assert_eq!(titles(&manager.get_alerts()), vec!["just_after", "now"]);
}

#[test]
fn clearing_with_an_age_beyond_the_clock_span_uses_one_day() {
    let now = UtcTimestamp { secs: 100_000, nanos: 0 };
    let mut manager = AlertManager::new();
    manager.add_alert(at("two_days", 100_000 - 2 * 86_400, 0));
    manager.add_alert(at("exactly_one_day", 100_000 - 86_400, 0));
    manager.add_alert(at("half_day", 100_000 - 43_200, 0));
    manager.clear_alerts_older_than(now, u64::MAX, 0);
    assert_eq!(titles(&manager.get_alerts()), vec!["half_day"]);
    let mut other = AlertManager::new();
    other.add_alert(at("two_days", 100_000 - 2 * 86_400, 0));
    other.add_alert(at("ten_days", 100_000 - 10 * 86_400, 0));
    // An age the clock can subtract is taken as it is.
    other.clear_alerts_older_than(now, 5 * 86_400, 0);
    assert_eq!(titles(&other.get_alerts()), vec!["two_days"]);
    // Just past the clock's span: one day.
    other.clear_alerts_older_than(now, 9_223_372_036_854_775, 807_000_001);
    assert_eq!(other.alert_count(), 0);
}

#[test]
fn logger_settings() {
    let logger = AlertLogger::new("/tmp/alerts.json".to_string());
    assert_eq!(logger.log_path(), Some("/tmp/alerts.json"));
    assert!(logger.is_enabled());
    let disabled = AlertLogger::default();
    assert_eq!(disabled.log_path(), None);
    assert!(!disabled.is_enabled());
    let config = AlertConfig { log_to_file: false, ..Default::default() };
    let from_default = AlertLogger::from_config(&config, Some("/data/app-security/alerts.json".to_string()));
    assert_eq!(from_default.log_path(), Some("/data/app-security/alerts.json"));
    assert!(!from_default.is_enabled());
    let config = AlertConfig { log_file_path: Some("/var/log/a.json".to_string()), ..Default::default() };
    let configured = AlertLogger::from_config(&config, Some("/data/x".to_string()));
    assert_eq!(configured.log_path(), Some("/var/log/a.json"));
    assert!(configured.is_enabled());
}

#[test]
fn log_records_skip_empty_lines() {
    assert_eq!(log_records("{\"a\":1}\n\n{\"b\":2}\r\n"), vec!["{\"a\":1}".to_string(), "{\"b\":2}".to_string()]);
    assert!(log_records("").is_empty());
    assert!(log_records("\n\n").is_empty());
}
