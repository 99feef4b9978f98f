pub mod config;
pub mod error;
pub mod extension;
pub mod fragment;
pub mod header;
pub mod options;
pub mod packet;
pub mod protocol;

pub use error::Ipv6Error;
pub use header::{DEFAULT_HOP_LIMIT, IPV6_HEADER_LEN, IPV6_MIN_MTU, IPV6_VERSION, Ipv6Header};
pub use protocol::IpProtocol;
pub use config::Ipv6Config;
pub use packet::{Ipv6ProcessResult, encapsulate_ipv6_packet, process_ipv6_packet};
pub use fragment::{
    DEFAULT_MAX_REASSEMBLY_ENTRIES, DEFAULT_REASSEMBLY_TIMEOUT, FragmentCache, FragmentInfo, ReassemblyEntry,
    ReassemblyError, ReassemblyKey, create_fragments,
};
