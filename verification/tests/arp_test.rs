use app_security::detection::arp::monitor::{ArpConfig, ArpEntry, ArpMonitor, GatewayConfig};
use app_security::detection::arp::{anomaly_event, spoof_event, ArpDetectorModule};
use app_security::engine::mod_trait::{ModuleEvent, ModuleStatus};

fn entry(ip: &str, mac: &str) -> ArpEntry {
    ArpEntry { ip: ip.to_string(), mac: mac.to_string(), interface: "eth0".to_string() }
}

#[test]
fn monitor_test_arp_config_default() {
    let config = ArpConfig::default();
    assert!(config.enabled);
    assert_eq!(config.scan_interval_secs, 5);
    assert!(config.known_gateways.is_empty());
    assert_eq!(config.max_anomalies, 1000);
    assert!(!config.log_all_changes);
}

#[test]
fn arp_test_test_arp_config_default() {
    let config = ArpConfig::default();
    assert!(config.enabled);
    assert_eq!(config.scan_interval_secs, 5);
    assert!(config.known_gateways.is_empty());
    assert_eq!(config.max_anomalies, 1000);
    assert!(!config.log_all_changes);
}

#[test]
fn test_arp_monitor_no_anomaly_for_unknown_ip() {
    let mut monitor = ArpMonitor::new();
    assert!(monitor.check_entry(&entry("192.168.1.100", "aa:bb:cc:dd:ee:ff")).is_none());
}

#[test]
fn test_arp_monitor_detects_mac_change() {
    let mut monitor = ArpMonitor::new();
    monitor.add_known_mapping("192.168.1.1", "11:22:33:44:55:66");
    let anomaly = monitor.check_entry(&entry("192.168.1.1", "aa:bb:cc:dd:ee:ff"));
    assert!(anomaly.is_some());
    let a = anomaly.unwrap();
    assert_eq!(a.ip, "192.168.1.1");
    assert_eq!(a.previous_mac, "11:22:33:44:55:66");
    assert_eq!(a.new_mac, "aa:bb:cc:dd:ee:ff");
    assert!(a.description.is_some());
    assert!(a.description.unwrap().contains("eth0"));
}

#[test]
fn test_arp_monitor_no_anomaly_for_matching_mac() {
    let mut monitor = ArpMonitor::new();
    monitor.add_known_mapping("192.168.1.1", "11:22:33:44:55:66");
    assert!(monitor.check_entry(&entry("192.168.1.1", "11:22:33:44:55:66")).is_none());
}

#[test]
fn test_arp_monitor_tracks_anomalies() {
    let mut monitor = ArpMonitor::new();
    monitor.add_known_mapping("192.168.1.1", "11:22:33:44:55:66");
    monitor.check_entry(&entry("192.168.1.1", "aa:bb:cc:dd:ee:ff"));
    assert_eq!(monitor.anomaly_count(), 1);
}

#[test]
fn test_arp_monitor_max_anomalies() {
    let mut monitor = ArpMonitor::with_max_anomalies(3);
    monitor.add_known_mapping("192.168.1.1", "11:22:33:44:55:66");
    for i in 0..5 {
        monitor.check_entry(&entry("192.168.1.1", &format!("aa:bb:cc:dd:ee:{:02x}", i)));
    }
    assert!(monitor.anomaly_count() <= 4);
}

#[test]
fn monitor_keeps_the_newest_anomalies() {
    let mut monitor = ArpMonitor::with_max_anomalies(3);
    monitor.add_known_mapping("192.168.1.1", "11:22:33:44:55:66");
    for i in 0..5 {
        monitor.check_entry(&entry("192.168.1.1", &format!("aa:bb:cc:dd:ee:{:02x}", i)));
    }
    assert_eq!(monitor.anomaly_count(), 3);
    let macs: Vec<&str> = monitor.anomalies().iter().map(|a| a.new_mac.as_str()).collect();
    assert_eq!(macs, vec!["aa:bb:cc:dd:ee:02", "aa:bb:cc:dd:ee:03", "aa:bb:cc:dd:ee:04"]);
}

#[test]
fn test_arp_monitor_from_config() {
    let config = ArpConfig {
        enabled: true,
        scan_interval_secs: 5,
        known_gateways: vec![
            GatewayConfig { ip: "192.168.1.1".to_string(), mac: "11:22:33:44:55:66".to_string(), description: None },
            GatewayConfig {
                ip: "10.0.0.1".to_string(),
                mac: "aa:bb:cc:dd:ee:ff".to_string(),
                description: Some("Secondary".to_string()),
            },
        ],
        max_anomalies: 500,
        log_all_changes: false,
    };
    let monitor = ArpMonitor::from_config(&config);
    assert_eq!(monitor.known_mapping_count(), 2);
    assert_eq!(monitor.get_expected_mac("192.168.1.1"), Some("11:22:33:44:55:66"));
    assert_eq!(monitor.get_expected_mac("10.0.0.1"), Some("aa:bb:cc:dd:ee:ff"));
}

#[test]
fn test_arp_monitor_remove_mapping() {
    let mut monitor = ArpMonitor::new();
    monitor.add_known_mapping("192.168.1.1", "11:22:33:44:55:66");
    assert!(monitor.has_known_mapping("192.168.1.1"));
    monitor.remove_known_mapping("192.168.1.1");
    assert!(!monitor.has_known_mapping("192.168.1.1"));
}

#[test]
fn test_arp_monitor_check_entries_batch() {
    let mut monitor = ArpMonitor::new();
    monitor.add_known_mapping("192.168.1.1", "11:22:33:44:55:66");
    monitor.add_known_mapping("192.168.1.2", "aa:bb:cc:dd:ee:ff");
    let entries = vec![
        entry("192.168.1.1", "aa:bb:cc:dd:ee:01"),
        entry("192.168.1.2", "aa:bb:cc:dd:ee:ff"),
        entry("192.168.1.3", "ff:ff:ff:ff:ff:ff"),
    ];
    let anomalies = monitor.check_entries(&entries);
    assert_eq!(anomalies.len(), 1);
    assert_eq!(anomalies[0].ip, "192.168.1.1");
}

#[test]
fn test_arp_monitor_clear_anomalies() {
    let mut monitor = ArpMonitor::new();
    monitor.add_known_mapping("192.168.1.1", "11:22:33:44:55:66");
    monitor.check_entry(&entry("192.168.1.1", "aa:bb:cc:dd:ee:ff"));
    assert_eq!(monitor.anomaly_count(), 1);
    monitor.clear_anomalies();
    assert_eq!(monitor.anomaly_count(), 0);
    assert!(monitor.has_known_mapping("192.168.1.1"));
}

#[test]
fn test_arp_monitor_known_mappings() {
    let mut monitor = ArpMonitor::new();
    monitor.add_known_mapping("192.168.1.1", "11:22:33:44:55:66");
    monitor.add_known_mapping("10.0.0.1", "aa:bb:cc:dd:ee:ff");
    let mappings = monitor.known_mappings();
    assert_eq!(mappings.len(), 2);
}

#[test]
fn test_arp_monitor_reset() {
    let mut monitor = ArpMonitor::new();
    monitor.add_known_mapping("192.168.1.1", "11:22:33:44:55:66");
    monitor.check_entry(&entry("192.168.1.1", "aa:bb:cc:dd:ee:ff"));
    assert_eq!(monitor.anomaly_count(), 1);
    monitor.reset();
    assert!(monitor.anomalies().is_empty());
    assert_eq!(monitor.known_mapping_count(), 0);
    assert!(monitor.check_entry(&entry("192.168.1.1", "aa:bb:cc:dd:ee:ff")).is_none());
}

fn gateway_config(gateways: &[(&str, &str)]) -> ArpConfig {
    ArpConfig {
        enabled: true,
        scan_interval_secs: 10,
        known_gateways: gateways
            .iter()
            .map(|(ip, mac)| GatewayConfig { ip: ip.to_string(), mac: mac.to_string(), description: None })
            .collect(),
        max_anomalies: 500,
        log_all_changes: true,
    }
}

#[test]
fn test_with_config_creates_detector() {
    let detector = ArpDetectorModule::with_config(gateway_config(&[("192.168.1.1", "11:22:33:44:55:66")]));
    assert_eq!(detector.config().scan_interval_secs, 10);
    assert!(detector.config().log_all_changes);
    assert_eq!(detector.known_mapping_count(), 1);
    assert!(detector.has_known_mapping("192.168.1.1"));
}

#[test]
fn test_with_config_multiple_gateways() {
    let detector = ArpDetectorModule::with_config(gateway_config(&[
        ("192.168.1.1", "11:22:33:44:55:66"),
        ("10.0.0.1", "aa:bb:cc:dd:ee:ff"),
        ("172.16.0.1", "00:11:22:33:44:55"),
    ]));
    assert_eq!(detector.known_mapping_count(), 3);
}

#[test]
fn test_remove_known_mapping() {
    let mut detector = ArpDetectorModule::new();
    detector.add_known_mapping("192.168.1.1", "11:22:33:44:55:66");
    assert!(detector.has_known_mapping("192.168.1.1"));
    assert_eq!(detector.known_mapping_count(), 1);
    detector.remove_known_mapping("192.168.1.1");
    assert!(!detector.has_known_mapping("192.168.1.1"));
    assert_eq!(detector.known_mapping_count(), 0);
}

#[test]
fn test_has_known_mapping() {
    let detector = ArpDetectorModule::new();
    assert!(!detector.has_known_mapping("192.168.1.1"));
}

#[test]
fn detector_identity_and_lifecycle() {
    let mut detector = ArpDetectorModule::new();
    assert_eq!(detector.id(), "arp_detector");
    assert_eq!(detector.name(), "ARP Spoof Detector");
    assert_eq!(detector.priority(), 3);
    assert!(detector.dependencies().is_empty());
    assert_eq!(detector.status(), ModuleStatus::Created);
    detector.initialize();
    assert_eq!(detector.status(), ModuleStatus::Initialized);
    detector.start();
    assert_eq!(detector.status(), ModuleStatus::Running);
    detector.stop();
    assert_eq!(detector.status(), ModuleStatus::Stopped);
}

#[test]
fn detector_reports_spoofing() {
    let mut detector = ArpDetectorModule::new();
    detector.add_known_mapping("192.168.1.1", "11:22:33:44:55:66");
    assert!(detector.check_arp_entry(&entry("192.168.1.1", "11:22:33:44:55:66")).is_none());
    let anomaly = detector.check_arp_entry(&entry("192.168.1.1", "aa:bb:cc:dd:ee:ff")).unwrap();
    assert_eq!(anomaly.previous_mac, "11:22:33:44:55:66");
    match anomaly_event(&anomaly) {
        ModuleEvent::ArpSpoofDetected { attacker_mac, victim_ip } => {
            assert_eq!(attacker_mac, "aa:bb:cc:dd:ee:ff");
            assert_eq!(victim_ip, "192.168.1.1");
        },
        other => panic!("unexpected {:?}", other),
    }
    assert_eq!(detector.anomaly_count(), 1);
    assert_eq!(detector.anomalies().len(), 1);
    detector.clear_anomalies();
    assert_eq!(detector.anomaly_count(), 0);
    assert!(detector.has_known_mapping("192.168.1.1"));
}

#[test]
fn spoof_event_names_attacker_and_victim() {
    match spoof_event("aa:bb:cc:dd:ee:ff", "192.168.1.1") {
        ModuleEvent::ArpSpoofDetected { attacker_mac, victim_ip } => {
            assert_eq!(attacker_mac, "aa:bb:cc:dd:ee:ff");
            assert_eq!(victim_ip, "192.168.1.1");
        },
        other => panic!("unexpected {:?}", other),
    }
}

#[test]
fn detector_batch_check() {
    let mut detector = ArpDetectorModule::new();
    detector.add_known_mapping("192.168.1.1", "11:22:33:44:55:66");
    detector.add_known_mapping("192.168.1.2", "aa:bb:cc:dd:ee:ff");
    let entries = vec![entry("192.168.1.1", "aa:bb:cc:dd:ee:01"), entry("192.168.1.2", "11:11:11:11:11:11")];
    let anomalies = detector.check_entries(&entries);
    assert_eq!(anomalies.len(), 2);
    assert_eq!(anomalies[0].ip, "192.168.1.1");
    assert_eq!(anomalies[1].ip, "192.168.1.2");
}

#[test]
fn batch_check_records_each_anomaly_in_turn() {
    let mut monitor = ArpMonitor::with_max_anomalies(2);
    monitor.add_known_mapping("192.168.1.1", "11:22:33:44:55:66");
    monitor.check_entry(&entry("192.168.1.1", "aa:aa:aa:aa:aa:00"));
    let found = monitor.check_entries(&[
        entry("192.168.1.1", "aa:aa:aa:aa:aa:01"),
        entry("192.168.1.9", "aa:aa:aa:aa:aa:09"),
        entry("192.168.1.1", "aa:aa:aa:aa:aa:02"),
    ]);
    assert_eq!(found.len(), 2);
    let macs: Vec<&str> = monitor.anomalies().iter().map(|a| a.new_mac.as_str()).collect();
    assert_eq!(macs, vec!["aa:aa:aa:aa:aa:01", "aa:aa:aa:aa:aa:02"]);
}
