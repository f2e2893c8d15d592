use app_security::engine::validation::{InputValidator, ValidationError};

#[test]
fn test_valid_mac() {
    assert!(InputValidator::validate_mac("AA:BB:CC:DD:EE:FF").is_ok());
    assert!(InputValidator::validate_mac("00:11:22:33:44:55").is_ok());
}

#[test]
fn test_invalid_mac_format() {
    assert!(InputValidator::validate_mac("not-a-mac").is_err());
    assert!(InputValidator::validate_mac("AA:BB:CC:DD:EE").is_err());
    assert!(InputValidator::validate_mac("").is_err());
}

#[test]
fn test_multicast_mac() {
    assert!(InputValidator::validate_mac("01:00:00:00:00:00").is_err());
    assert!(InputValidator::validate_mac("FF:FF:FF:FF:FF:FF").is_err());
}

#[test]
fn test_valid_hostname() {
    assert!(InputValidator::validate_hostname("mycomputer").is_ok());
    assert!(InputValidator::validate_hostname("my-computer.local").is_ok());
}

#[test]
fn test_invalid_hostname() {
    assert!(InputValidator::validate_hostname("").is_err());
    assert!(InputValidator::validate_hostname("-invalid").is_err());
    assert!(InputValidator::validate_hostname("a".repeat(300).as_str()).is_err());
}

#[test]
fn mac_errors_carry_their_reason() {
    match InputValidator::validate_mac("01:00:00:00:00:00") {
        Err(ValidationError::InvalidMac(m)) => assert_eq!(m, "MAC has multicast bit set: 01:00:00:00:00:00"),
        other => panic!("unexpected {:?}", other),
    }
    match InputValidator::validate_mac("not-a-mac") {
        Err(ValidationError::InvalidMac(m)) => assert_eq!(m, "not-a-mac"),
        other => panic!("unexpected {:?}", other),
    }
    // The multicast bit is the lowest bit of the first octet: 0x02 is fine, 0x03 is not.
    assert!(InputValidator::validate_mac("02:00:00:00:00:00").is_ok());
    assert!(InputValidator::validate_mac("03:00:00:00:00:00").is_err());
    assert!(InputValidator::validate_mac("aa:bb:cc:dd:ee:ff").is_ok());
}

#[test]
fn mac_verdict_from_match_result() {
    assert!(InputValidator::mac_verdict("0A:00:00:00:00:00", Ok(true)).is_ok());
    assert!(InputValidator::mac_verdict("0B:00:00:00:00:00", Ok(true)).is_err());
    match InputValidator::mac_verdict("zz", Ok(false)) {
        Err(ValidationError::InvalidMac(m)) => assert_eq!(m, "zz"),
        other => panic!("unexpected {:?}", other),
    }
    match InputValidator::mac_verdict("zz", Err("bad pattern".to_string())) {
        Err(ValidationError::InvalidMac(m)) => assert_eq!(m, "bad pattern"),
        other => panic!("unexpected {:?}", other),
    }
}

#[test]
fn hostname_errors_carry_their_reason() {
    match InputValidator::validate_hostname("") {
        Err(ValidationError::InvalidHostname(m)) => assert_eq!(m, "empty"),
        other => panic!("unexpected {:?}", other),
    }
    match InputValidator::validate_hostname(&"a".repeat(254)) {
        Err(ValidationError::InvalidHostname(m)) => assert_eq!(m, "too long"),
        other => panic!("unexpected {:?}", other),
    }
    match InputValidator::validate_hostname("-invalid") {
        Err(ValidationError::InvalidHostname(m)) => assert_eq!(m, "-invalid"),
        other => panic!("unexpected {:?}", other),
    }
    // 253 bytes is still allowed when the labels are well formed.
    let label = "a".repeat(63);
    let name = format!("{}.{}.{}.{}", label, label, label, "a".repeat(61));
    assert_eq!(name.len(), 253);
    assert!(InputValidator::validate_hostname(&name).is_ok());
    // Length counts bytes: 127 two-byte characters are 254 bytes.
    match InputValidator::hostname_verdict(&"é".repeat(127), Ok(true)) {
        Err(ValidationError::InvalidHostname(m)) => assert_eq!(m, "too long"),
        other => panic!("unexpected {:?}", other),
    }
}

#[test]
fn validation_error_text() {
    assert_eq!(ValidationError::InvalidMac("x".to_string()).to_string(), "Invalid MAC address format: x");
    assert_eq!(ValidationError::InvalidHostname("x".to_string()).to_string(), "Invalid hostname: x");
    assert_eq!(ValidationError::InvalidIp("x".to_string()).to_string(), "Invalid IP address: x");
    assert_eq!(ValidationError::InvalidInterface("x".to_string()).to_string(), "Invalid interface name: x");
}
