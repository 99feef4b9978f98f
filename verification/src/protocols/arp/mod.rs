pub mod packet;
pub mod tables;

pub use packet::{
    ArpHandleResult, ArpOperation, ArpPacket, ArpProcessResult, ArpResolveResult, encapsulate_ethernet,
    handle_arp_packet,
};
pub use tables::{AgeResult, ArpCache, ArpConfig, ArpEntry, ArpKey, ArpState};
pub mod resolve;
