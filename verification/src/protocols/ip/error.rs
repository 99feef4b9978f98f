use vstd::prelude::*;
use crate::protocols::common::addr::{Ipv4Addr, dotted_quad};
use crate::common::error::{CoreError, CoreErrorKind};
use crate::common::text::{
    bool_text, bool_word, byte_decimal_text, decimal_digits, hex16_text, hex4, join_text, pair_text,
    u16_decimal_text, usize_decimal_text,
};

verus! {

/// Errors of IPv4 processing.
#[derive(Debug)]
pub enum IpError {
    /// The version field is not the expected one.
    InvalidVersion { expected: u8, found: u8 },
    /// The header length field is invalid.
    InvalidHeaderLength { ihl: u8 },
    /// The header checksum does not match.
    ChecksumError { expected: u16, calculated: u16 },
    /// The datagram is shorter than required.
    PacketTooShort { expected: usize, found: usize },
    /// A fragmented datagram where none is handled.
    FragmentedPacket { mf_flag: bool, fragment_offset: u16 },
    /// A fragment overlaps one already held.
    FragmentOverlap { offset: u16 },
    /// A datagram has more fragments than allowed.
    TooManyFragments { count: usize, max: usize },
    /// The reassembly table has no room.
    ReassemblyTableFull,
    /// Reassembly did not finish in time.
    ReassemblyTimeout { id: u16 },
    /// The upper-layer protocol is not supported.
    UnsupportedProtocol { protocol: u8 },
    /// The destination cannot be reached.
    DestinationUnreachable { addr: Ipv4Addr },
    /// The time to live ran out.
    TtlExceeded { ttl: u8 },
    /// The datagram exceeds the MTU and may not be fragmented.
    FragmentationNeeded { mtu: u16, length: u16 },
    /// Any other malformed datagram.
    InvalidPacket { message: String },
}

impl IpError {
    pub fn invalid_version(found: u8) -> (r: Self)
        ensures
            r == (IpError::InvalidVersion { expected: 4, found }),
    {
        IpError::InvalidVersion { expected: 4, found }
    }

    pub fn invalid_header_length(ihl: u8) -> (r: Self)
        ensures
            r == (IpError::InvalidHeaderLength { ihl }),
    {
        IpError::InvalidHeaderLength { ihl }
    }

    pub fn checksum_error(expected: u16, calculated: u16) -> (r: Self)
        ensures
            r == (IpError::ChecksumError { expected, calculated }),
    {
        IpError::ChecksumError { expected, calculated }
    }

    pub fn packet_too_short(expected: usize, found: usize) -> (r: Self)
        ensures
            r == (IpError::PacketTooShort { expected, found }),
    {
        IpError::PacketTooShort { expected, found }
    }

    pub fn fragmented_packet(mf_flag: bool, fragment_offset: u16) -> (r: Self)
        ensures
            r == (IpError::FragmentedPacket { mf_flag, fragment_offset }),
    {
        IpError::FragmentedPacket { mf_flag, fragment_offset }
    }

    pub fn fragment_overlap(offset: u16) -> (r: Self)
        ensures
            r == (IpError::FragmentOverlap { offset }),
    {
        IpError::FragmentOverlap { offset }
    }

    pub fn too_many_fragments(count: usize, max: usize) -> (r: Self)
        ensures
            r == (IpError::TooManyFragments { count, max }),
    {
        IpError::TooManyFragments { count, max }
    }

    pub fn reassembly_table_full() -> (r: Self)
        ensures
            r == IpError::ReassemblyTableFull,
    {
        IpError::ReassemblyTableFull
    }

    pub fn reassembly_timeout(id: u16) -> (r: Self)
        ensures
            r == (IpError::ReassemblyTimeout { id }),
    {
        IpError::ReassemblyTimeout { id }
    }

    pub fn unsupported_protocol(protocol: u8) -> (r: Self)
        ensures
            r == (IpError::UnsupportedProtocol { protocol }),
    {
        IpError::UnsupportedProtocol { protocol }
    }

    pub fn destination_unreachable(addr: Ipv4Addr) -> (r: Self)
        ensures
            r == (IpError::DestinationUnreachable { addr }),
    {
        IpError::DestinationUnreachable { addr }
    }

    pub fn ttl_exceeded(ttl: u8) -> (r: Self)
        ensures
            r == (IpError::TtlExceeded { ttl }),
    {
        IpError::TtlExceeded { ttl }
    }

    pub fn fragmentation_needed(mtu: u16, length: u16) -> (r: Self)
        ensures
            r == (IpError::FragmentationNeeded { mtu, length }),
    {
        IpError::FragmentationNeeded { mtu, length }
    }

    pub fn invalid_packet(message: String) -> (r: Self)
        ensures
            r matches IpError::InvalidPacket { message: m } && m@ == message@,
    {
        IpError::InvalidPacket { message }
    }

    /// The label of the error's kind.
    pub open spec fn label(&self) -> Seq<char> {
        match self {
            IpError::InvalidVersion { .. } => "IP版本无效"@,
            IpError::InvalidHeaderLength { .. } => "IP首部长度无效"@,
            IpError::ChecksumError { .. } => "IP校验和错误"@,
            IpError::PacketTooShort { .. } => "IP数据报长度不足"@,
            IpError::FragmentedPacket { .. } => "IP分片数据报(不支持)"@,
            IpError::FragmentOverlap { .. } => "IP分片重叠"@,
            IpError::TooManyFragments { .. } => "IP分片数量超过限制"@,
            IpError::ReassemblyTableFull => "IP重组表已满"@,
            IpError::ReassemblyTimeout { .. } => "IP重组超时"@,
            IpError::UnsupportedProtocol { .. } => "IP协议不支持"@,
            IpError::DestinationUnreachable { .. } => "IP目的地址不可达"@,
            IpError::TtlExceeded { .. } => "IP TTL超时"@,
            IpError::FragmentationNeeded { .. } => "IP需要分片但DF置位"@,
            IpError::InvalidPacket { .. } => "IP数据包无效"@,
        }
    }

    /// The kind of shared error that the error maps to.
    pub open spec fn spec_core_kind(&self) -> CoreErrorKind {
        match self {
            IpError::FragmentedPacket { .. } => CoreErrorKind::Unsupported,
            IpError::UnsupportedProtocol { .. } => CoreErrorKind::Unsupported,
            _ => CoreErrorKind::Invalid,
        }
    }

    /// Maps the error to the shared error type, carrying the error's text.
    pub fn to_core_error(&self) -> (r: CoreError)
        ensures
            r.kind() == self.spec_core_kind(),
            r.message_view() == ip_error_text(*self),
    {
        let label = self.to_string();
        match self {
            IpError::FragmentedPacket { .. } => CoreError::UnsupportedProtocol(label),
            IpError::UnsupportedProtocol { .. } => CoreError::UnsupportedProtocol(label),
            _ => CoreError::InvalidPacket(label),
        }
    }

    /// The label of the error's kind.
    pub fn message(&self) -> (r: &'static str)
        ensures
            r@ == self.label(),
    {
        match self {
            IpError::InvalidVersion { .. } => "IP版本无效",
            IpError::InvalidHeaderLength { .. } => "IP首部长度无效",
            IpError::ChecksumError { .. } => "IP校验和错误",
            IpError::PacketTooShort { .. } => "IP数据报长度不足",
            IpError::FragmentedPacket { .. } => "IP分片数据报(不支持)",
            IpError::FragmentOverlap { .. } => "IP分片重叠",
            IpError::TooManyFragments { .. } => "IP分片数量超过限制",
            IpError::ReassemblyTableFull => "IP重组表已满",
            IpError::ReassemblyTimeout { .. } => "IP重组超时",
            IpError::UnsupportedProtocol { .. } => "IP协议不支持",
            IpError::DestinationUnreachable { .. } => "IP目的地址不可达",
            IpError::TtlExceeded { .. } => "IP TTL超时",
            IpError::FragmentationNeeded { .. } => "IP需要分片但DF置位",
            IpError::InvalidPacket { .. } => "IP数据包无效",
        }
    }
}

/// The text of an IPv4 error.
pub open spec fn ip_error_text(e: IpError) -> Seq<char> {
    match e {
        IpError::InvalidVersion { expected, found } => "IP版本无效: 期望="@ + decimal_digits(expected as nat)
            + ", 发现="@ + decimal_digits(found as nat),
        IpError::InvalidHeaderLength { ihl } => "IP首部长度无效: IHL="@ + decimal_digits(ihl as nat),
        IpError::ChecksumError { expected, calculated } => "IP校验和错误: 期望="@ + hex4(expected) + ", 计算="@
            + hex4(calculated),
        IpError::PacketTooShort { expected, found } => "IP数据报长度不足: 期望="@ + decimal_digits(expected as nat)
            + ", 发现="@ + decimal_digits(found as nat),
        IpError::FragmentedPacket { mf_flag, fragment_offset } => "IP分片数据报(不支持): MF="@ + bool_word(mf_flag)
            + ", Offset="@ + decimal_digits(fragment_offset as nat),
        IpError::FragmentOverlap { offset } => "IP分片重叠: Offset="@ + decimal_digits(offset as nat),
        IpError::TooManyFragments { count, max } => "IP分片数量超过限制: count="@ + decimal_digits(count as nat)
            + ", max="@ + decimal_digits(max as nat),
        IpError::ReassemblyTableFull => "IP重组表已满"@,
        IpError::ReassemblyTimeout { id } => "IP重组超时: ID="@ + decimal_digits(id as nat),
        IpError::UnsupportedProtocol { protocol } => "IP协议不支持: Protocol="@ + decimal_digits(protocol as nat),
        IpError::DestinationUnreachable { addr } => "IP目的地址不可达: "@ + dotted_quad(addr.bytes@),
        IpError::TtlExceeded { ttl } => "IP TTL超时: TTL="@ + decimal_digits(ttl as nat),
        IpError::FragmentationNeeded { mtu, length } => "IP需要分片但DF置位: MTU="@ + decimal_digits(mtu as nat)
            + ", Length="@ + decimal_digits(length as nat),
        IpError::InvalidPacket { message } => "IP数据包无效: "@ + message@,
    }
}

impl IpError {
    /// The error as text.
    pub fn to_string(&self) -> (r: String)
        ensures
            r@ == ip_error_text(*self),
    {
        match self {
            IpError::InvalidVersion { expected, found } => {
                let a = byte_decimal_text(*expected);
                let b = byte_decimal_text(*found);
                pair_text("IP版本无效: 期望=", a.as_str(), ", 发现=", b.as_str())
            },
            IpError::InvalidHeaderLength { ihl } => {
                let a = byte_decimal_text(*ihl);
                join_text("IP首部长度无效: IHL=", a.as_str())
            },
            IpError::ChecksumError { expected, calculated } => {
                let a = hex16_text(*expected);
                let b = hex16_text(*calculated);
                pair_text("IP校验和错误: 期望=", a.as_str(), ", 计算=", b.as_str())
            },
            IpError::PacketTooShort { expected, found } => {
                let a = usize_decimal_text(*expected);
                let b = usize_decimal_text(*found);
                pair_text("IP数据报长度不足: 期望=", a.as_str(), ", 发现=", b.as_str())
            },
            IpError::FragmentedPacket { mf_flag, fragment_offset } => {
                let b = u16_decimal_text(*fragment_offset);
                pair_text("IP分片数据报(不支持): MF=", bool_text(*mf_flag), ", Offset=", b.as_str())
            },
            IpError::FragmentOverlap { offset } => {
                let a = u16_decimal_text(*offset);
                join_text("IP分片重叠: Offset=", a.as_str())
            },
            IpError::TooManyFragments { count, max } => {
                let a = usize_decimal_text(*count);
                let b = usize_decimal_text(*max);
                pair_text("IP分片数量超过限制: count=", a.as_str(), ", max=", b.as_str())
            },
            IpError::ReassemblyTableFull => "IP重组表已满".to_owned(),
            IpError::ReassemblyTimeout { id } => {
                let a = u16_decimal_text(*id);
                join_text("IP重组超时: ID=", a.as_str())
            },
            IpError::UnsupportedProtocol { protocol } => {
                let a = byte_decimal_text(*protocol);
                join_text("IP协议不支持: Protocol=", a.as_str())
            },
            IpError::DestinationUnreachable { addr } => {
                let a = addr.to_string();
                join_text("IP目的地址不可达: ", a.as_str())
            },
            IpError::TtlExceeded { ttl } => {
                let a = byte_decimal_text(*ttl);
                join_text("IP TTL超时: TTL=", a.as_str())
            },
            IpError::FragmentationNeeded { mtu, length } => {
                let a = u16_decimal_text(*mtu);
                let b = u16_decimal_text(*length);
                pair_text("IP需要分片但DF置位: MTU=", a.as_str(), ", Length=", b.as_str())
            },
            IpError::InvalidPacket { message } => join_text("IP数据包无效: ", message.as_str()),
        }
    }
}

} // verus!
