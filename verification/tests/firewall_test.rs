use app_security::engine::mod_trait::{ModuleEvent, ModuleStatus};
use app_security::network::firewall::config::{FirewallAction as ConfigAction, FirewallConfig, FirewallRuleConfig};
use app_security::network::firewall::platform::linux::LinuxFirewall;
use app_security::network::firewall::platform::macos::MacOSFirewall;
use app_security::network::firewall::platform::windows::WindowsFirewall;
use app_security::network::firewall::platform::{command_outcome, launch_error, remaining_after_remove, MockFirewallPlatform};
use app_security::network::firewall::rules::{FirewallAction, FirewallDirection, FirewallError, FirewallRule};
use app_security::network::firewall::{FirewallEvent, FirewallModule};

fn rule(
    id: &str,
    action: FirewallAction,
    direction: FirewallDirection,
    src_ip: Option<&str>,
    dst_ip: Option<&str>,
    dst_port: Option<u16>,
    protocol: Option<&str>,
    description: &str,
) -> FirewallRule {
    FirewallRule {
        id: id.to_string(),
        action,
        direction,
        src_ip: src_ip.map(|s| s.to_string()),
        dst_ip: dst_ip.map(|s| s.to_string()),
        dst_port,
        protocol: protocol.map(|s| s.to_string()),
        description: description.to_string(),
    }
}

fn simple(id: &str) -> FirewallRule {
    rule(id, FirewallAction::Allow, FirewallDirection::Inbound, None, None, None, None, id)
}

/// Adds a rule the way the firewall module does: ask the platform whether the id is
/// taken, apply the rule, then record it.
fn add(module: &mut FirewallModule, platform: &mut MockFirewallPlatform, r: FirewallRule) -> Result<ModuleEvent, FirewallError> {
    FirewallModule::check_add_allowed(&r.id, platform.check_rule_exists(&r.id))?;
    platform.add_rule(&r)?;
    Ok(module.rule_added(r))
}

fn remove(module: &mut FirewallModule, platform: &mut MockFirewallPlatform, id: &str) -> Result<ModuleEvent, FirewallError> {
    platform.remove_rule(id)?;
    Ok(module.rule_removed(id))
}

fn load(module: &mut FirewallModule, platform: &mut MockFirewallPlatform, config: FirewallConfig) {
    for r in module.load_config(config) {
        let _ = add(module, platform, r);
    }
}

fn config_rule(id: &str, action: &str, direction: &str) -> FirewallRuleConfig {
    FirewallRuleConfig {
        id: id.to_string(),
        action: action.to_string(),
        direction: direction.to_string(),
        src_ip: None,
        dst_ip: None,
        dst_port: None,
        protocol: None,
        description: id.to_string(),
    }
}

fn config_with(rules: Vec<FirewallRuleConfig>) -> FirewallConfig {
    FirewallConfig { enabled: true, default_action: ConfigAction::Block, log_blocked: true, rules }
}

#[test]
fn test_firewall_rule_creation() {
    let r = rule(
        "test-1",
        FirewallAction::Allow,
        FirewallDirection::Inbound,
        Some("192.168.1.0/24"),
        None,
        Some(443),
        Some("tcp"),
        "Allow HTTPS from LAN",
    );
    assert_eq!(r.id, "test-1");
    assert_eq!(r.action, FirewallAction::Allow);
    assert_eq!(r.direction, FirewallDirection::Inbound);
    assert!(r.src_ip.is_some());
    assert!(r.dst_ip.is_none());
    assert_eq!(r.dst_port, Some(443));
}

#[test]
fn test_firewall_rule_variants() {
    let r = rule(
        "test",
        FirewallAction::Reject,
        FirewallDirection::Both,
        Some("10.0.0.0/8"),
        Some("172.16.0.0/12"),
        Some(8080),
        Some("udp"),
        "Block internal UDP",
    );
    assert_eq!(r.action, FirewallAction::Reject);
    assert_eq!(r.direction, FirewallDirection::Both);
}

#[test]
fn rules_test_firewall_action_equality() {
    assert_eq!(FirewallAction::Allow, FirewallAction::Allow);
    assert_ne!(FirewallAction::Allow, FirewallAction::Block);
    assert_ne!(FirewallAction::Block, FirewallAction::Reject);
}

#[test]
fn firewall_test_test_firewall_action_equality() {
    assert_eq!(FirewallAction::Allow, FirewallAction::Allow);
    assert_ne!(FirewallAction::Allow, FirewallAction::Block);
    assert_ne!(FirewallAction::Block, FirewallAction::Reject);
}

#[test]
fn rules_test_firewall_direction_equality() {
    assert_eq!(FirewallDirection::Inbound, FirewallDirection::Inbound);
    assert_ne!(FirewallDirection::Inbound, FirewallDirection::Outbound);
    assert_ne!(FirewallDirection::Outbound, FirewallDirection::Both);
}

#[test]
fn firewall_test_test_firewall_direction_equality() {
    assert_eq!(FirewallDirection::Inbound, FirewallDirection::Inbound);
    assert_ne!(FirewallDirection::Inbound, FirewallDirection::Outbound);
    assert_ne!(FirewallDirection::Outbound, FirewallDirection::Both);
}

#[test]
fn rules_test_firewall_error_display() {
    let err = FirewallError::RuleNotFound("test-rule".to_string());
    assert_eq!(err.to_string(), "Rule not found: test-rule");
    let err = FirewallError::PlatformError("pfctl failed".to_string());
    assert!(err.to_string().contains("pfctl failed"));
}

#[test]
fn firewall_test_test_firewall_error_display() {
    let err = FirewallError::RuleNotFound("test-rule".to_string());
    assert_eq!(err.to_string(), "Rule not found: test-rule");
    let err = FirewallError::PlatformError("pfctl failed".to_string());
    assert!(err.to_string().contains("pfctl failed"));
}

#[test]
fn firewall_error_texts() {
    assert_eq!(FirewallError::PlatformError("x".to_string()).to_string(), "Platform error: x");
    assert_eq!(FirewallError::RuleAlreadyExists("x".to_string()).to_string(), "Rule already exists: x");
    assert_eq!(FirewallError::InvalidRule("x".to_string()).to_string(), "Invalid rule: x");
    assert_eq!(FirewallError::ServiceUnavailable("x".to_string()).to_string(), "Service unavailable: x");
}

#[test]
fn config_test_default_config() {
    let config = FirewallConfig::default();
    assert!(config.enabled);
    assert_eq!(config.default_action, ConfigAction::Block);
    assert!(config.log_blocked);
    assert!(config.rules.is_empty());
}

#[test]
fn test_firewall_config_default() {
    let config = FirewallConfig::default();
    assert!(config.enabled);
    assert_eq!(config.default_action, ConfigAction::Block);
    assert!(config.log_blocked);
    assert!(config.rules.is_empty());
}

#[test]
fn test_rule_to_iptables_args_allow_inbound() {
    let fw = LinuxFirewall::new();
    let r = rule(
        "allow-in",
        FirewallAction::Allow,
        FirewallDirection::Inbound,
        Some("192.168.1.0/24"),
        None,
        Some(443),
        Some("tcp"),
        "Allow HTTPS from LAN",
    );
    let args = fw.rule_to_iptables_args(&r).unwrap();
    assert_eq!(args[0], "-A");
    assert_eq!(args[1], "INPUT");
    assert!(args.contains(&"-s".to_string()));
    assert!(args.contains(&"192.168.1.0/24".to_string()));
    assert!(args.contains(&"--dport".to_string()));
    assert!(args.contains(&"443".to_string()));
    assert!(args.contains(&"-j".to_string()));
    assert!(args.contains(&"ACCEPT".to_string()));
}

#[test]
fn test_rule_to_iptables_args_block_outbound() {
    let fw = LinuxFirewall::new();
    let r = rule(
        "block-out",
        FirewallAction::Block,
        FirewallDirection::Outbound,
        None,
        Some("10.0.0.0/8"),
        None,
        Some("udp"),
        "Block outbound UDP to internal",
    );
    let args = fw.rule_to_iptables_args(&r).unwrap();
    assert_eq!(args[1], "OUTPUT");
    assert!(args.contains(&"-d".to_string()));
    assert!(args.contains(&"10.0.0.0/8".to_string()));
    assert!(args.contains(&"DROP".to_string()));
}

#[test]
fn test_rule_to_iptables_args_reject_both() {
    let fw = LinuxFirewall::new();
    let r = rule("reject-both", FirewallAction::Reject, FirewallDirection::Both, None, None, None, None, "Reject all");
    let args = fw.rule_to_iptables_args(&r).unwrap();
    assert_eq!(args[1], "FORWARD");
    assert!(args.contains(&"REJECT".to_string()));
}

#[test]
fn test_rule_to_pf_block_inbound() {
    let fw = MacOSFirewall::new();
    let r = rule(
        "block-in",
        FirewallAction::Block,
        FirewallDirection::Inbound,
        Some("10.0.0.0/8"),
        None,
        Some(80),
        Some("tcp"),
        "Block inbound HTTP",
    );
    let pf_rule = fw.rule_to_pf(&r).unwrap();
    assert!(pf_rule.contains("block"));
    assert!(pf_rule.contains("in"));
    assert!(pf_rule.contains("proto tcp"));
    assert!(pf_rule.contains("from 10.0.0.0/8"));
    assert!(pf_rule.contains("port 80"));
    assert!(pf_rule.contains("tag block-in"));
}

#[test]
fn test_rule_to_pf_allow_outbound() {
    let fw = MacOSFirewall::new();
    let r = rule(
        "allow-out",
        FirewallAction::Allow,
        FirewallDirection::Outbound,
        None,
        Some("192.168.1.0/24"),
        Some(443),
        Some("tcp"),
        "Allow HTTPS to LAN",
    );
    let pf_rule = fw.rule_to_pf(&r).unwrap();
    assert!(pf_rule.contains("pass"));
    assert!(pf_rule.contains("out"));
    assert!(pf_rule.contains("from any"));
    assert!(pf_rule.contains("to 192.168.1.0/24"));
}

#[test]
fn test_rule_to_pf_reject_both() {
    let fw = MacOSFirewall::new();
    let r = rule("reject-both", FirewallAction::Reject, FirewallDirection::Both, None, None, None, None, "Reject all");
    let pf_rule = fw.rule_to_pf(&r).unwrap();
    assert!(pf_rule.contains("block return-rst"));
    assert!(pf_rule.contains("in out"));
    assert!(pf_rule.contains("from any"));
    assert!(pf_rule.contains("to any"));
}

#[test]
fn test_rule_to_netsh_args_allow_inbound() {
    let fw = WindowsFirewall::new();
    let r = rule(
        "allow-https",
        FirewallAction::Allow,
        FirewallDirection::Inbound,
        Some("192.168.1.0/24"),
        None,
        Some(443),
        Some("tcp"),
        "Allow HTTPS from LAN",
    );
    let args = fw.rule_to_netsh_args(&r).unwrap();
    assert!(args.contains(&"add".to_string()));
    assert!(args.contains(&"rule".to_string()));
    assert!(args.contains(&"name=allow-https".to_string()));
    assert!(args.contains(&"dir=in".to_string()));
    assert!(args.contains(&"action=allow".to_string()));
    assert!(args.contains(&"protocol=TCP".to_string()));
    assert!(args.contains(&"localport=443".to_string()));
    assert!(args.contains(&"remoteip=192.168.1.0/24".to_string()));
}

#[test]
fn test_rule_to_netsh_args_block_outbound() {
    let fw = WindowsFirewall::new();
    let r = rule(
        "block-out",
        FirewallAction::Block,
        FirewallDirection::Outbound,
        None,
        Some("10.0.0.0/8"),
        None,
        Some("udp"),
        "Block outbound UDP",
    );
    let args = fw.rule_to_netsh_args(&r).unwrap();
    assert!(args.contains(&"dir=out".to_string()));
    assert!(args.contains(&"action=block".to_string()));
    assert!(args.contains(&"protocol=UDP".to_string()));
    assert!(args.contains(&"localip=10.0.0.0/8".to_string()));
}

#[test]
fn test_rule_to_netsh_args_reject() {
    let fw = WindowsFirewall::new();
    let r = rule("reject-all", FirewallAction::Reject, FirewallDirection::Inbound, None, None, None, None, "Reject all inbound");
    let args = fw.rule_to_netsh_args(&r).unwrap();
    assert!(args.contains(&"action=block".to_string()));
}

#[test]
fn test_mock_add_rule() {
    let mut mock = MockFirewallPlatform::new();
    let r = rule("test-1", FirewallAction::Allow, FirewallDirection::Inbound, None, None, Some(443), Some("tcp"), "Allow HTTPS");
    assert!(mock.add_rule(&r).is_ok());
    let rules = mock.list_rules().unwrap();
    assert_eq!(rules.len(), 1);
    assert_eq!(rules[0].id, "test-1");
}

#[test]
fn test_mock_duplicate_rule() {
    let mut mock = MockFirewallPlatform::new();
    let r = rule("dup", FirewallAction::Block, FirewallDirection::Both, None, None, None, None, "Block all");
    assert!(mock.add_rule(&r).is_ok());
    let err = mock.add_rule(&r).unwrap_err();
    assert!(matches!(err, FirewallError::RuleAlreadyExists(_)));
}

#[test]
fn test_mock_remove_rule() {
    let mut mock = MockFirewallPlatform::new();
    let r = rule("removable", FirewallAction::Block, FirewallDirection::Inbound, None, None, None, None, "Remove me");
    mock.add_rule(&r).unwrap();
    assert!(mock.remove_rule("removable").is_ok());
    assert_eq!(mock.list_rules().unwrap().len(), 0);
}

#[test]
fn test_mock_remove_nonexistent() {
    let mut mock = MockFirewallPlatform::new();
    let err = mock.remove_rule("ghost").unwrap_err();
    assert!(matches!(err, FirewallError::RuleNotFound(_)));
}

#[test]
fn test_mock_flush_rules() {
    let mut mock = MockFirewallPlatform::new();
    for i in 0..5 {
        mock.add_rule(&simple(&format!("rule-{}", i))).unwrap();
    }
    assert_eq!(mock.list_rules().unwrap().len(), 5);
    mock.flush_rules().unwrap();
    assert_eq!(mock.list_rules().unwrap().len(), 0);
}

#[test]
fn test_mock_check_rule_exists() {
    let mut mock = MockFirewallPlatform::new();
    assert!(!mock.check_rule_exists("nope").unwrap());
    mock.add_rule(&simple("exists")).unwrap();
    assert!(mock.check_rule_exists("exists").unwrap());
}

#[test]
fn mock_add_then_remove_restores() {
    let mut mock = MockFirewallPlatform::new();
    mock.add_rule(&simple("a")).unwrap();
    mock.add_rule(&simple("b")).unwrap();
    mock.remove_rule("b").unwrap();
    let ids: Vec<String> = mock.get_rules().into_iter().map(|r| r.id).collect();
    assert_eq!(ids, vec!["a".to_string()]);
}

#[test]
fn module_identity_and_lifecycle() {
    let mut module = FirewallModule::new();
    assert_eq!(module.id(), "firewall");
    assert_eq!(module.name(), "Firewall Module");
    assert_eq!(module.priority(), 5);
    assert!(module.dependencies().is_empty());
    assert_eq!(module.status(), ModuleStatus::Created);
    module.initialize();
    assert_eq!(module.status(), ModuleStatus::Initialized);
    module.start();
    assert_eq!(module.status(), ModuleStatus::Running);
    module.stop();
    assert_eq!(module.status(), ModuleStatus::Stopped);
}

#[test]
fn module_add_remove_and_events() {
    let mut module = FirewallModule::new();
    let mut platform = MockFirewallPlatform::new();
    let event = add(&mut module, &mut platform, simple("r1")).unwrap();
    assert!(matches!(event, ModuleEvent::FirewallRuleAdded { rule_id, description } if rule_id == "r1" && description == "r1"));
    add(&mut module, &mut platform, simple("r2")).unwrap();
    assert_eq!(module.rule_count(), 2);
    let dup = add(&mut module, &mut platform, simple("r1")).unwrap_err();
    assert!(matches!(dup, FirewallError::RuleAlreadyExists(id) if id == "r1"));
    assert_eq!(module.rule_count(), 2);
    let event = remove(&mut module, &mut platform, "r1").unwrap();
    assert!(matches!(event, ModuleEvent::FirewallRuleRemoved { rule_id } if rule_id == "r1"));
    assert_eq!(module.rule_count(), 1);
    assert!(matches!(remove(&mut module, &mut platform, "ghost"), Err(FirewallError::RuleNotFound(_))));
    platform.flush_rules().unwrap();
    module.rules_flushed();
    assert_eq!(module.rule_count(), 0);
}

#[test]
fn module_add_checks_platform_answer() {
    assert!(FirewallModule::check_add_allowed("x", Ok(false)).is_ok());
    assert!(matches!(FirewallModule::check_add_allowed("x", Ok(true)), Err(FirewallError::RuleAlreadyExists(id)) if id == "x"));
    assert!(matches!(
        FirewallModule::check_add_allowed("x", Err(FirewallError::PlatformError("down".to_string()))),
        Err(FirewallError::PlatformError(m)) if m == "down"
    ));
}

#[test]
fn module_load_config_applies_rules() {
    let mut module = FirewallModule::new();
    let mut platform = MockFirewallPlatform::new();
    let mut https = config_rule("cfg-https", "allow", "inbound");
    https.dst_port = Some(443);
    let mut dns = config_rule("cfg-dns", "block", "outbound");
    dns.dst_port = Some(53);
    load(&mut module, &mut platform, config_with(vec![https, dns]));
    assert_eq!(module.rule_count(), 2);
}

#[test]
fn module_load_config_skips_invalid_entries() {
    let mut module = FirewallModule::new();
    let mut platform = MockFirewallPlatform::new();
    load(
        &mut module,
        &mut platform,
        config_with(vec![
            config_rule("valid", "allow", "inbound"),
            config_rule("invalid-action", "invalid_action", "inbound"),
            config_rule("invalid-dir", "allow", "bad_direction"),
        ]),
    );
    assert_eq!(module.rule_count(), 1);
}

#[test]
fn module_load_config_variants() {
    let mut module = FirewallModule::new();
    let mut platform = MockFirewallPlatform::new();
    load(
        &mut module,
        &mut platform,
        config_with(vec![
            config_rule("inbound", "allow", "inbound"),
            config_rule("outbound", "allow", "outbound"),
            config_rule("both", "reject", "both"),
        ]),
    );
    let rules = platform.list_rules().unwrap();
    assert_eq!(rules.len(), 3);
    assert_eq!(rules.iter().find(|r| r.id == "inbound").unwrap().direction, FirewallDirection::Inbound);
    assert_eq!(rules.iter().find(|r| r.id == "outbound").unwrap().direction, FirewallDirection::Outbound);
    let both = rules.iter().find(|r| r.id == "both").unwrap();
    assert_eq!(both.direction, FirewallDirection::Both);
    assert_eq!(both.action, FirewallAction::Reject);
}

#[test]
fn firewall_event_converts_to_module_event() {
    let e: ModuleEvent = FirewallEvent::RuleBlocked { src_ip: "10.0.0.5".to_string(), dst_port: 443 }.into();
    assert!(matches!(e, ModuleEvent::FirewallRuleBlocked { src_ip, dst_port } if src_ip == "10.0.0.5" && dst_port == 443));
}

#[test]
fn platform_helpers() {
    assert!(command_outcome("iptables", true, "").is_ok());
    assert!(matches!(command_outcome("iptables", false, "boom"), Err(FirewallError::PlatformError(m)) if m == "iptables failed: boom"));
    assert!(matches!(launch_error("netsh", "no such file"), FirewallError::PlatformError(m) if m == "Failed to execute netsh: no such file"));
    let rules = vec![simple("a"), simple("b"), simple("a")];
    let rest = remaining_after_remove(&rules, "a").unwrap();
    assert_eq!(rest.len(), 1);
    assert_eq!(rest[0].id, "b");
    assert!(matches!(remaining_after_remove(&rules, "z"), Err(FirewallError::RuleNotFound(id)) if id == "z"));
}

#[test]
fn linux_command_arguments() {
    let fw = LinuxFirewall::new();
    let attempts = fw.delete_attempts("r1");
    assert_eq!(attempts.len(), 2);
    assert_eq!(attempts[0], vec!["-D", "INPUT", "-m", "comment", "--comment", "r1", "-j", "DROP"]);
    assert_eq!(attempts[1][1], "OUTPUT");
    assert_eq!(fw.flush_chains(), vec!["INPUT", "OUTPUT", "FORWARD"]);
    assert_eq!(fw.flush_args("INPUT"), vec!["-F", "INPUT"]);
}

#[test]
fn windows_remove_outcomes() {
    let fw = WindowsFirewall::new();
    assert_eq!(fw.delete_rule_args("r1"), vec!["advfirewall", "firewall", "delete", "rule", "name=r1"]);
    assert_eq!(fw.show_rule_args("r1"), vec!["advfirewall", "firewall", "show", "rule", "name=r1"]);
    assert!(fw.remove_outcome("r1", true, "").is_ok());
    assert!(matches!(fw.remove_outcome("r1", false, "No rules match the specified criteria."), Err(FirewallError::RuleNotFound(id)) if id == "r1"));
    assert!(matches!(fw.remove_outcome("r1", false, "rule not found"), Err(FirewallError::RuleNotFound(_))));
    assert!(matches!(fw.remove_outcome("r1", false, "access denied"), Err(FirewallError::PlatformError(m)) if m == "netsh failed: access denied"));
}

#[test]
fn module_finish_steps() {
    let mut module = FirewallModule::new();
    let err = module.finish_add(simple("r1"), Err(FirewallError::PlatformError("down".to_string()))).unwrap_err();
    assert!(matches!(err, FirewallError::PlatformError(m) if m == "down"));
    assert_eq!(module.rule_count(), 0);
    let event = module.finish_add(simple("r1"), Ok(())).unwrap();
    assert!(matches!(event, ModuleEvent::FirewallRuleAdded { rule_id, .. } if rule_id == "r1"));
    assert_eq!(module.rule_count(), 1);
    assert!(module.finish_remove("r1", Err(FirewallError::RuleNotFound("r1".to_string()))).is_err());
    assert_eq!(module.rule_count(), 1);
    assert!(matches!(module.finish_remove("r1", Ok(())).unwrap(), ModuleEvent::FirewallRuleRemoved { rule_id } if rule_id == "r1"));
    assert_eq!(module.rule_count(), 0);
}

#[test]
fn module_add_rule_answered() {
    let mut module = FirewallModule::new();
    let err = module
        .add_rule_answered(simple("r1"), Err(FirewallError::PlatformError("down".to_string())), Ok(()))
        .unwrap_err();
    assert!(matches!(err, FirewallError::PlatformError(m) if m == "down"));
    assert_eq!(module.rule_count(), 0);
    let err = module.add_rule_answered(simple("r1"), Ok(true), Ok(())).unwrap_err();
    assert!(matches!(err, FirewallError::RuleAlreadyExists(id) if id == "r1"));
    assert_eq!(module.rule_count(), 0);
    let err = module
        .add_rule_answered(simple("r1"), Ok(false), Err(FirewallError::PlatformError("refused".to_string())))
        .unwrap_err();
    assert!(matches!(err, FirewallError::PlatformError(m) if m == "refused"));
    assert_eq!(module.rule_count(), 0);
    let event = module.add_rule_answered(simple("r1"), Ok(false), Ok(())).unwrap();
    assert!(matches!(event, ModuleEvent::FirewallRuleAdded { rule_id, description } if rule_id == "r1" && description == "r1"));
    assert_eq!(module.rule_count(), 1);
}
