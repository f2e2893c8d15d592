//! Operating-system facing types: network interfaces, platform firewall rules and
//! WireGuard settings, and the macOS platform.
pub mod macos;
pub mod types;
