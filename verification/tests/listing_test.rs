use app_security::network::firewall::platform::linux::LinuxFirewall;
use app_security::network::firewall::platform::macos::MacOSFirewall;
use app_security::network::firewall::platform::windows::{protocol_from_lowercase, WindowsFirewall};
use app_security::network::firewall::rules::{FirewallAction, FirewallDirection, FirewallRule};

#[test]
fn iptables_listing_is_parsed() {
    let stdout = "Chain INPUT (policy ACCEPT)\n\
num  target     prot opt source               destination\n\
1    ACCEPT     0.0.0.0/0            10.0.0.0/8   tcp dpt:443\n\
2    DROP       192.168.1.0/24       0.0.0.0/0\n\
3    LOG        0.0.0.0/0            0.0.0.0/0\n\
4    REJECT     1.2.3.4\n\
\n\
5    REJECT     1.2.3.4              5.6.7.8\n";
    let rules = LinuxFirewall::new().parse_listing(stdout);
    assert_eq!(rules.len(), 3);
    assert_eq!(rules[0].id, "iptables-1");
    assert_eq!(rules[0].action, FirewallAction::Allow);
    assert_eq!(rules[0].direction, FirewallDirection::Inbound);
    assert_eq!(rules[0].src_ip, None);
    assert_eq!(rules[0].dst_ip, Some("10.0.0.0/8".to_string()));
    assert_eq!(rules[0].description, "iptables rule 1");
    assert_eq!(rules[1].id, "iptables-2");
    assert_eq!(rules[1].action, FirewallAction::Block);
    assert_eq!(rules[1].src_ip, Some("192.168.1.0/24".to_string()));
    assert_eq!(rules[1].dst_ip, None);
    assert_eq!(rules[2].id, "iptables-5");
    assert_eq!(rules[2].action, FirewallAction::Reject);
}

#[test]
fn pf_listing_is_parsed() {
    let stdout = "pass in proto tcp from any to any port 443 tag allow-web\n\
block return-rst in out from any to any\n\
block out from 10.0.0.0/8 to any tag no-lan\n\
anchor \"x\" all\n\
pass\n";
    let rules = MacOSFirewall::new().parse_listing(stdout);
    assert_eq!(rules.len(), 3);
    assert_eq!(rules[0].id, "allow-web");
    assert_eq!(rules[0].action, FirewallAction::Allow);
    assert_eq!(rules[0].direction, FirewallDirection::Inbound);
    assert_eq!(rules[0].description, "pass in proto tcp from any to any port 443 tag allow-web");
    assert_eq!(rules[1].id, "rule-1");
    assert_eq!(rules[1].action, FirewallAction::Reject);
    assert_eq!(rules[1].direction, FirewallDirection::Both);
    assert_eq!(rules[2].id, "no-lan");
    assert_eq!(rules[2].action, FirewallAction::Block);
    assert_eq!(rules[2].direction, FirewallDirection::Outbound);
}

#[test]
fn netsh_listing_is_parsed() {
    let stdout = "\n\
Rule Name:                            allow-https\n\
----------------------------------------------------------------------\n\
Enabled:                              Yes\n\
Direction:                            In\n\
Protocol:                             TCP\n\
LocalPort:                            443\n\
RemoteIP:                             192.168.1.0/24\n\
LocalIP:                              Any\n\
Action:                               Allow\n\
\n\
Rule Name:                            block-out\n\
Direction:                            Out\n\
LocalIP:                              10.0.0.0/8\n\
LocalPort:                            Any\n\
Action:                               Block\n\
Ok.\n";
    let rules: Vec<FirewallRule> = WindowsFirewall::new().parse_listing(stdout);
    assert_eq!(rules.len(), 2);
    assert_eq!(rules[0].id, "allow-https");
    assert_eq!(rules[0].description, "allow-https");
    assert_eq!(rules[0].action, FirewallAction::Allow);
    assert_eq!(rules[0].direction, FirewallDirection::Inbound);
    assert_eq!(rules[0].protocol, Some("TCP".to_string()));
    assert_eq!(rules[0].dst_port, Some(443));
    assert_eq!(rules[0].src_ip, Some("192.168.1.0/24".to_string()));
    assert_eq!(rules[0].dst_ip, None);
    assert_eq!(rules[1].id, "block-out");
    assert_eq!(rules[1].action, FirewallAction::Block);
    assert_eq!(rules[1].direction, FirewallDirection::Outbound);
    assert_eq!(rules[1].dst_ip, Some("10.0.0.0/8".to_string()));
    assert_eq!(rules[1].dst_port, None);
}

#[test]
fn netsh_protocol_names_ignore_case() {
    let fw = WindowsFirewall::new();
    let mut rule = FirewallRule {
        id: "r".to_string(),
        action: FirewallAction::Allow,
        direction: FirewallDirection::Inbound,
        src_ip: None,
        dst_ip: None,
        dst_port: None,
        protocol: Some("UDP".to_string()),
        description: "r".to_string(),
    };
    assert!(fw.rule_to_netsh_args(&rule).unwrap().contains(&"protocol=UDP".to_string()));
    rule.protocol = Some("Icmp".to_string());
    assert!(fw.rule_to_netsh_args(&rule).unwrap().contains(&"protocol=ICMPv4".to_string()));
    rule.protocol = Some("gre".to_string());
    assert!(fw.rule_to_netsh_args(&rule).unwrap().contains(&"protocol=gre".to_string()));
}

#[test]
fn netsh_protocol_from_lowercase_form() {
    assert_eq!(protocol_from_lowercase("Tcp", "tcp"), "TCP");
    assert_eq!(protocol_from_lowercase("UDP", "udp"), "UDP");
    assert_eq!(protocol_from_lowercase("ICMP", "icmp"), "ICMPv4");
    assert_eq!(protocol_from_lowercase("GRE", "gre"), "GRE");
    assert_eq!(protocol_from_lowercase("TCP", "TCP"), "TCP");
    assert_eq!(protocol_from_lowercase("x", "tcp"), "TCP");
}
