pub mod checksum;
pub mod error;
pub mod protocol;

pub use checksum::{calculate_checksum, verify_checksum, add_ipv4_pseudo_header, fold_carry};
pub use error::IpError;
pub use protocol::Ipv4Protocol;
pub mod header;
pub use header::{Ipv4Header, IP_VERSION, IP_MIN_HEADER_LEN, IP_PROTO_ICMP, IP_PROTO_TCP, IP_PROTO_UDP, IP_PROTO_OSPF, IP_PROTO_ESP, IP_PROTO_AH, DEFAULT_TTL};
pub mod fragment;
pub use fragment::{FragmentInfo, ReassemblyKey, ReassemblyEntry, ReassemblyTable, ReassemblyStats, FragmentOverlapPolicy, DEFAULT_REASSEMBLY_TIMEOUT_SECS, DEFAULT_MAX_REASSEMBLY_ENTRIES, DEFAULT_MAX_FRAGMENTS_PER_DATAGRAM};
pub mod config;
pub use config::Ipv4Config;
pub mod packet;
pub use packet::{IpProcessResult, process_ip_packet, encapsulate_ip_datagram, fragment_datagram};
