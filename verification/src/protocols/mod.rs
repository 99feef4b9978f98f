pub mod common;
pub mod ip;
pub mod icmp;
pub mod icmpv6;
pub mod ipv6;
pub mod arp;
pub mod ethernet;
pub mod ipsec;
pub mod bgp;
