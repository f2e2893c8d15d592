pub mod dns;
pub mod firewall;
pub mod killswitch;
pub mod vpn;
