pub mod types;
pub mod error;

pub use types::{IcmpType, DestUnreachableCode, TimeExceededCode, IcmpV6Type, IcmpV6DestUnreachableCode, IcmpV6TimeExceededCode,
    ICMP_TYPE_ECHO_REPLY, ICMP_TYPE_ECHO_REQUEST, ICMP_TYPE_DEST_UNREACHABLE, ICMP_TYPE_TIME_EXCEEDED,
    ICMPV6_TYPE_DEST_UNREACHABLE, ICMPV6_TYPE_PACKET_TOO_BIG, ICMPV6_TYPE_TIME_EXCEEDED, ICMPV6_TYPE_PARAMETER_PROBLEM,
    ICMPV6_TYPE_ECHO_REQUEST, ICMPV6_TYPE_ECHO_REPLY};
pub use error::IcmpError;
pub mod packet;
pub use packet::{IcmpEcho, IcmpDestUnreachable, IcmpTimeExceeded, IcmpParameterProblem, IcmpPacket, IcmpV6Echo, IcmpV6Packet,
    extract_ip_header_plus_data, validate_original_datagram, is_broadcast_addr, is_multicast_addr, ICMP_ORIGINAL_DATAGRAM_MIN_LEN};
pub mod global;
pub use global::{PendingEcho, EchoManager};
pub mod echo;
pub mod process;
pub use echo::{EchoProcessResult, handle_echo_request, handle_echo_reply, register_echo_request, cleanup_echo_timeouts};
pub use process::{IcmpProcessResult, process_icmp_packet, process_icmpv6_packet, create_echo_request, create_echo_reply,
    create_dest_unreachable, create_time_exceeded, create_icmpv6_echo_request, create_icmpv6_echo_reply};
