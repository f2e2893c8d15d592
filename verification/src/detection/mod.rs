pub mod arp;
