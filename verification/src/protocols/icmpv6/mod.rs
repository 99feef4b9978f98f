pub mod checksum;
pub mod config;
pub mod error;
pub mod neighbor;
pub mod packet;
pub mod process;
pub mod types;

pub use checksum::{Icmpv6PseudoHeader, calculate_checksum, calculate_icmpv6_checksum, verify_icmpv6_checksum};
pub use config::Icmpv6Config;
pub use error::Icmpv6Error;
pub use neighbor::NeighborCache;
pub use packet::{
    Icmpv6DestUnreachable, Icmpv6Echo, Icmpv6Header, Icmpv6NeighborAdvertisement, Icmpv6NeighborSolicitation,
    Icmpv6Option, Icmpv6Packet, Icmpv6PacketTooBig, Icmpv6ParameterProblem, Icmpv6Redirect,
    Icmpv6RouterAdvertisement, Icmpv6RouterSolicitation, Icmpv6TimeExceeded,
};
pub use process::{Icmpv6Context, Icmpv6ProcessResult, process_icmpv6_packet};
pub use types::{
    ALL_NODES_MULTICAST, ALL_ROUTERS_MULTICAST, DestUnreachableCode, ICMPV6_MIN_LEN,
    ICMPV6_PSEUDO_HEADER_LEN, IPPROTO_ICMPV6, Icmpv6OptionType, Icmpv6Type, NeighborCacheState,
    ParameterProblemCode, SOLICITED_NODE_MULTICAST_PREFIX, TimeExceededCode,
    solicited_node_multicast,
};
