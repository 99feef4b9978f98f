use vstd::prelude::*;
use crate::common::error::{CoreError, CoreErrorKind};
use crate::common::text::{
    append_text, byte_decimal, byte_decimal_text, u16_decimal, u16_decimal_text, u32_decimal, u32_decimal_text,
    usize_decimal, usize_decimal_text,
};

verus! {

/// Errors of IPv6 processing.
#[derive(Debug, Clone, PartialEq)]
pub enum Ipv6Error {
    /// The version field is not 6.
    InvalidVersion { expected: u8, found: u8 },
    /// The header length is invalid.
    InvalidHeaderLength { length: usize },
    /// The header length is invalid.
    InvalidHeaderLengthSimple,
    /// The packet is shorter than required.
    PacketTooShort { expected: usize, found: usize },
    /// The payload length field is invalid.
    InvalidPayloadLength { length: u16 },
    /// An extension header that is not handled.
    ExtensionHeaderNotSupported { next_header: u8 },
    /// The upper-layer protocol is not handled.
    UnsupportedProtocol { protocol: u8 },
    /// The destination cannot be reached.
    DestinationUnreachable { addr: String },
    /// The hop limit ran out.
    HopLimitExceeded { hop_limit: u8 },
    /// The source address is not acceptable.
    InvalidSourceAddress { addr: String },
    /// The packet exceeds the MTU.
    PacketTooLarge { length: u16, mtu: u16 },
    /// More extension headers than allowed.
    TooManyExtensionHeaders { count: usize, max: usize },
    /// An extension header's length is invalid.
    InvalidExtensionHeaderLength { header_type: u8, length: usize },
    /// The extension header chain is too long.
    ExtensionChainTooLong { total_length: usize, max: usize },
    /// Reassembly of a datagram timed out.
    FragmentReassemblyTimeout { id: u32 },
    /// Fragments overlap.
    FragmentOverlap { id: u32 },
    /// An atomic fragment, which is refused.
    AtomicFragment { id: u32 },
    /// A routing header type that is not handled.
    RoutingHeaderNotSupported { routing_type: u8 },
    /// A type 0 routing header, deprecated by RFC 5095.
    RoutingHeaderType0Deprecated,
    /// An unknown option whose action says to drop the packet.
    UnknownOptionWithDropAction { option_type: u8 },
    /// Jumbo payloads are not handled.
    JumboPayloadNotSupported,
    /// Reassembly failed.
    ReassemblyError,
    /// Reassembly is not complete.
    ReassemblyIncomplete,
    /// A datagram has too many fragments.
    ReassemblyTooManyFragments,
    /// Fragments overlap.
    ReassemblyFragmentOverlap,
    /// Reassembly timed out.
    ReassemblyTimeout,
}

impl Ipv6Error {
    /// The version field is not 6.
    pub fn invalid_version(found: u8) -> (r: Self)
        ensures
            r == (Ipv6Error::InvalidVersion { expected: 6, found }),
    {
        Ipv6Error::InvalidVersion { expected: 6, found }
    }

    /// The header length is invalid.
    pub fn invalid_header_length(length: usize) -> (r: Self)
        ensures
            r == (Ipv6Error::InvalidHeaderLength { length }),
    {
        Ipv6Error::InvalidHeaderLength { length }
    }

    /// The header length is invalid.
    pub fn invalid_header_length_simple() -> (r: Self)
        ensures
            r == Ipv6Error::InvalidHeaderLengthSimple,
    {
        Ipv6Error::InvalidHeaderLengthSimple
    }

    /// The packet is shorter than required.
    pub fn packet_too_short(expected: usize, found: usize) -> (r: Self)
        ensures
            r == (Ipv6Error::PacketTooShort { expected, found }),
    {
        Ipv6Error::PacketTooShort { expected, found }
    }

    /// The payload length field is invalid.
    pub fn invalid_payload_length(length: u16) -> (r: Self)
        ensures
            r == (Ipv6Error::InvalidPayloadLength { length }),
    {
        Ipv6Error::InvalidPayloadLength { length }
    }

    /// An extension header that is not handled.
    pub fn extension_header_not_supported(next_header: u8) -> (r: Self)
        ensures
            r == (Ipv6Error::ExtensionHeaderNotSupported { next_header }),
    {
        Ipv6Error::ExtensionHeaderNotSupported { next_header }
    }

    /// The upper-layer protocol is not handled.
    pub fn unsupported_protocol(protocol: u8) -> (r: Self)
        ensures
            r == (Ipv6Error::UnsupportedProtocol { protocol }),
    {
        Ipv6Error::UnsupportedProtocol { protocol }
    }

    /// The destination cannot be reached.
    pub fn destination_unreachable(addr: String) -> (r: Self)
        ensures
            r matches Ipv6Error::DestinationUnreachable { addr: a } && a@ == addr@,
    {
        Ipv6Error::DestinationUnreachable { addr }
    }

    /// The hop limit ran out.
    pub fn hop_limit_exceeded(hop_limit: u8) -> (r: Self)
        ensures
            r == (Ipv6Error::HopLimitExceeded { hop_limit }),
    {
        Ipv6Error::HopLimitExceeded { hop_limit }
    }

    /// The source address is not acceptable.
    pub fn invalid_source_address(addr: String) -> (r: Self)
        ensures
            r matches Ipv6Error::InvalidSourceAddress { addr: a } && a@ == addr@,
    {
        Ipv6Error::InvalidSourceAddress { addr }
    }

    /// The packet exceeds the MTU.
    pub fn packet_too_large(length: u16, mtu: u16) -> (r: Self)
        ensures
            r == (Ipv6Error::PacketTooLarge { length, mtu }),
    {
        Ipv6Error::PacketTooLarge { length, mtu }
    }

    /// More extension headers than allowed.
    pub fn too_many_extension_headers(count: usize, max: usize) -> (r: Self)
        ensures
            r == (Ipv6Error::TooManyExtensionHeaders { count, max }),
    {
        Ipv6Error::TooManyExtensionHeaders { count, max }
    }

    /// An extension header's length is invalid.
    pub fn invalid_extension_header_length(header_type: u8, length: usize) -> (r: Self)
        ensures
            r == (Ipv6Error::InvalidExtensionHeaderLength { header_type, length }),
    {
        Ipv6Error::InvalidExtensionHeaderLength { header_type, length }
    }

    /// The extension header chain is too long.
    pub fn extension_chain_too_long(total_length: usize, max: usize) -> (r: Self)
        ensures
            r == (Ipv6Error::ExtensionChainTooLong { total_length, max }),
    {
        Ipv6Error::ExtensionChainTooLong { total_length, max }
    }

    /// Reassembly of a datagram timed out.
    pub fn fragment_reassembly_timeout(id: u32) -> (r: Self)
        ensures
            r == (Ipv6Error::FragmentReassemblyTimeout { id }),
    {
        Ipv6Error::FragmentReassemblyTimeout { id }
    }

    /// Fragments overlap.
    pub fn fragment_overlap(id: u32) -> (r: Self)
        ensures
            r == (Ipv6Error::FragmentOverlap { id }),
    {
        Ipv6Error::FragmentOverlap { id }
    }

    /// An atomic fragment, which is refused.
    pub fn atomic_fragment(id: u32) -> (r: Self)
        ensures
            r == (Ipv6Error::AtomicFragment { id }),
    {
        Ipv6Error::AtomicFragment { id }
    }

    /// A routing header type that is not handled.
    pub fn routing_header_not_supported(routing_type: u8) -> (r: Self)
        ensures
            r == (Ipv6Error::RoutingHeaderNotSupported { routing_type }),
    {
        Ipv6Error::RoutingHeaderNotSupported { routing_type }
    }

    /// A type 0 routing header, deprecated by RFC 5095.
    pub fn routing_header_type0_deprecated() -> (r: Self)
        ensures
            r == Ipv6Error::RoutingHeaderType0Deprecated,
    {
        Ipv6Error::RoutingHeaderType0Deprecated
    }

    /// An unknown option whose action says to drop the packet.
    pub fn unknown_option_with_drop_action(option_type: u8) -> (r: Self)
        ensures
            r == (Ipv6Error::UnknownOptionWithDropAction { option_type }),
    {
        Ipv6Error::UnknownOptionWithDropAction { option_type }
    }

    /// Jumbo payloads are not handled.
    pub fn jumbo_payload_not_supported() -> (r: Self)
        ensures
            r == Ipv6Error::JumboPayloadNotSupported,
    {
        Ipv6Error::JumboPayloadNotSupported
    }

    /// Reassembly failed.
    pub fn reassembly_error() -> (r: Self)
        ensures
            r == Ipv6Error::ReassemblyError,
    {
        Ipv6Error::ReassemblyError
    }

    /// Reassembly is not complete.
    pub fn reassembly_incomplete() -> (r: Self)
        ensures
            r == Ipv6Error::ReassemblyIncomplete,
    {
        Ipv6Error::ReassemblyIncomplete
    }

    /// A datagram has too many fragments.
    pub fn reassembly_too_many_fragments() -> (r: Self)
        ensures
            r == Ipv6Error::ReassemblyTooManyFragments,
    {
        Ipv6Error::ReassemblyTooManyFragments
    }

    /// Fragments overlap.
    pub fn reassembly_fragment_overlap() -> (r: Self)
        ensures
            r == Ipv6Error::ReassemblyFragmentOverlap,
    {
        Ipv6Error::ReassemblyFragmentOverlap
    }

    /// Reassembly timed out.
    pub fn reassembly_timeout() -> (r: Self)
        ensures
            r == Ipv6Error::ReassemblyTimeout,
    {
        Ipv6Error::ReassemblyTimeout
    }

    /// The error's text.
    pub open spec fn text(&self) -> Seq<char> {
        match self {
            Ipv6Error::InvalidVersion { expected, found } => "IPv6版本无效: 期望="@ + byte_decimal(*expected) + ", 发现="@ + byte_decimal(*found),
            Ipv6Error::InvalidHeaderLength { length } => "IPv6头部长度无效: 长度="@ + usize_decimal(*length),
            Ipv6Error::InvalidHeaderLengthSimple => "IPv6头部长度无效"@,
            Ipv6Error::PacketTooShort { expected, found } => "IPv6数据包长度不足: 期望="@ + usize_decimal(*expected) + ", 发现="@ + usize_decimal(*found),
            Ipv6Error::InvalidPayloadLength { length } => "IPv6负载长度无效: 长度="@ + u16_decimal(*length),
            Ipv6Error::ExtensionHeaderNotSupported { next_header } => "IPv6扩展头不支持: NextHeader="@ + byte_decimal(*next_header),
            Ipv6Error::UnsupportedProtocol { protocol } => "IPv6协议不支持: Protocol="@ + byte_decimal(*protocol),
            Ipv6Error::DestinationUnreachable { addr } => "IPv6目的地址不可达: "@ + addr@,
            Ipv6Error::HopLimitExceeded { hop_limit } => "IPv6 Hop Limit超时: HopLimit="@ + byte_decimal(*hop_limit),
            Ipv6Error::InvalidSourceAddress { addr } => "IPv6源地址无效: "@ + addr@,
            Ipv6Error::PacketTooLarge { length, mtu } => "IPv6数据包过大: 长度="@ + u16_decimal(*length) + ", MTU="@ + u16_decimal(*mtu),
            Ipv6Error::TooManyExtensionHeaders { count, max } => "IPv6扩展头数量超过限制: 数量="@ + usize_decimal(*count) + ", 最大="@ + usize_decimal(*max),
            Ipv6Error::InvalidExtensionHeaderLength { header_type, length } => "IPv6扩展头长度无效: 类型="@ + byte_decimal(*header_type) + ", 长度="@ + usize_decimal(*length),
            Ipv6Error::ExtensionChainTooLong { total_length, max } => "IPv6扩展头链过长: 总长度="@ + usize_decimal(*total_length) + ", 最大="@ + usize_decimal(*max),
            Ipv6Error::FragmentReassemblyTimeout { id } => "IPv6分片重组超时: ID="@ + u32_decimal(*id),
            Ipv6Error::FragmentOverlap { id } => "IPv6分片重叠: ID="@ + u32_decimal(*id),
            Ipv6Error::AtomicFragment { id } => "IPv6原子分片禁止: ID="@ + u32_decimal(*id),
            Ipv6Error::RoutingHeaderNotSupported { routing_type } => "IPv6路由头不支持: 类型="@ + byte_decimal(*routing_type),
            Ipv6Error::RoutingHeaderType0Deprecated => "IPv6路由头Type 0已废弃(RFC 5095)"@,
            Ipv6Error::UnknownOptionWithDropAction { option_type } => "IPv6未知选项要求丢弃: 选项类型="@ + byte_decimal(*option_type),
            Ipv6Error::JumboPayloadNotSupported => "IPv6 Jumbo Payload不支持"@,
            Ipv6Error::ReassemblyError => "IPv6分片重组错误"@,
            Ipv6Error::ReassemblyIncomplete => "IPv6分片重组未完成"@,
            Ipv6Error::ReassemblyTooManyFragments => "IPv6分片数量过多"@,
            Ipv6Error::ReassemblyFragmentOverlap => "IPv6分片重叠"@,
            Ipv6Error::ReassemblyTimeout => "IPv6分片重组超时"@,
        }
    }

    /// The error's text.
    pub fn to_string(&self) -> (r: String)
        ensures
            r@ == self.text(),
    {
        match self {
            Ipv6Error::InvalidVersion { expected, found } => append_text(append_text(append_text("IPv6版本无效: 期望=".to_owned(), byte_decimal_text(*expected).as_str()), ", 发现="), byte_decimal_text(*found).as_str()),
            Ipv6Error::InvalidHeaderLength { length } => append_text("IPv6头部长度无效: 长度=".to_owned(), usize_decimal_text(*length).as_str()),
            Ipv6Error::InvalidHeaderLengthSimple => "IPv6头部长度无效".to_owned(),
            Ipv6Error::PacketTooShort { expected, found } => append_text(append_text(append_text("IPv6数据包长度不足: 期望=".to_owned(), usize_decimal_text(*expected).as_str()), ", 发现="), usize_decimal_text(*found).as_str()),
            Ipv6Error::InvalidPayloadLength { length } => append_text("IPv6负载长度无效: 长度=".to_owned(), u16_decimal_text(*length).as_str()),
            Ipv6Error::ExtensionHeaderNotSupported { next_header } => append_text("IPv6扩展头不支持: NextHeader=".to_owned(), byte_decimal_text(*next_header).as_str()),
            Ipv6Error::UnsupportedProtocol { protocol } => append_text("IPv6协议不支持: Protocol=".to_owned(), byte_decimal_text(*protocol).as_str()),
            Ipv6Error::DestinationUnreachable { addr } => append_text("IPv6目的地址不可达: ".to_owned(), addr.as_str()),
            Ipv6Error::HopLimitExceeded { hop_limit } => append_text("IPv6 Hop Limit超时: HopLimit=".to_owned(), byte_decimal_text(*hop_limit).as_str()),
            Ipv6Error::InvalidSourceAddress { addr } => append_text("IPv6源地址无效: ".to_owned(), addr.as_str()),
            Ipv6Error::PacketTooLarge { length, mtu } => append_text(append_text(append_text("IPv6数据包过大: 长度=".to_owned(), u16_decimal_text(*length).as_str()), ", MTU="), u16_decimal_text(*mtu).as_str()),
            Ipv6Error::TooManyExtensionHeaders { count, max } => append_text(append_text(append_text("IPv6扩展头数量超过限制: 数量=".to_owned(), usize_decimal_text(*count).as_str()), ", 最大="), usize_decimal_text(*max).as_str()),
            Ipv6Error::InvalidExtensionHeaderLength { header_type, length } => append_text(append_text(append_text("IPv6扩展头长度无效: 类型=".to_owned(), byte_decimal_text(*header_type).as_str()), ", 长度="), usize_decimal_text(*length).as_str()),
            Ipv6Error::ExtensionChainTooLong { total_length, max } => append_text(append_text(append_text("IPv6扩展头链过长: 总长度=".to_owned(), usize_decimal_text(*total_length).as_str()), ", 最大="), usize_decimal_text(*max).as_str()),
            Ipv6Error::FragmentReassemblyTimeout { id } => append_text("IPv6分片重组超时: ID=".to_owned(), u32_decimal_text(*id).as_str()),
            Ipv6Error::FragmentOverlap { id } => append_text("IPv6分片重叠: ID=".to_owned(), u32_decimal_text(*id).as_str()),
            Ipv6Error::AtomicFragment { id } => append_text("IPv6原子分片禁止: ID=".to_owned(), u32_decimal_text(*id).as_str()),
            Ipv6Error::RoutingHeaderNotSupported { routing_type } => append_text("IPv6路由头不支持: 类型=".to_owned(), byte_decimal_text(*routing_type).as_str()),
            Ipv6Error::RoutingHeaderType0Deprecated => "IPv6路由头Type 0已废弃(RFC 5095)".to_owned(),
            Ipv6Error::UnknownOptionWithDropAction { option_type } => append_text("IPv6未知选项要求丢弃: 选项类型=".to_owned(), byte_decimal_text(*option_type).as_str()),
            Ipv6Error::JumboPayloadNotSupported => "IPv6 Jumbo Payload不支持".to_owned(),
            Ipv6Error::ReassemblyError => "IPv6分片重组错误".to_owned(),
            Ipv6Error::ReassemblyIncomplete => "IPv6分片重组未完成".to_owned(),
            Ipv6Error::ReassemblyTooManyFragments => "IPv6分片数量过多".to_owned(),
            Ipv6Error::ReassemblyFragmentOverlap => "IPv6分片重叠".to_owned(),
            Ipv6Error::ReassemblyTimeout => "IPv6分片重组超时".to_owned(),
        }
    }

    /// The kind of shared error that the error maps to.
    pub open spec fn spec_core_kind(&self) -> CoreErrorKind {
        match self {
            Ipv6Error::InvalidVersion { .. } => CoreErrorKind::Invalid,
            Ipv6Error::InvalidHeaderLength { .. } => CoreErrorKind::Invalid,
            Ipv6Error::InvalidHeaderLengthSimple => CoreErrorKind::Invalid,
            Ipv6Error::PacketTooShort { .. } => CoreErrorKind::Invalid,
            Ipv6Error::InvalidPayloadLength { .. } => CoreErrorKind::Invalid,
            Ipv6Error::ExtensionHeaderNotSupported { .. } => CoreErrorKind::Unsupported,
            Ipv6Error::UnsupportedProtocol { .. } => CoreErrorKind::Unsupported,
            Ipv6Error::DestinationUnreachable { .. } => CoreErrorKind::Invalid,
            Ipv6Error::HopLimitExceeded { .. } => CoreErrorKind::Invalid,
            Ipv6Error::InvalidSourceAddress { .. } => CoreErrorKind::Invalid,
            Ipv6Error::PacketTooLarge { .. } => CoreErrorKind::Invalid,
            Ipv6Error::TooManyExtensionHeaders { .. } => CoreErrorKind::Invalid,
            Ipv6Error::InvalidExtensionHeaderLength { .. } => CoreErrorKind::Invalid,
            Ipv6Error::ExtensionChainTooLong { .. } => CoreErrorKind::Invalid,
            Ipv6Error::FragmentReassemblyTimeout { .. } => CoreErrorKind::Invalid,
            Ipv6Error::FragmentOverlap { .. } => CoreErrorKind::Invalid,
            Ipv6Error::AtomicFragment { .. } => CoreErrorKind::Invalid,
            Ipv6Error::RoutingHeaderNotSupported { .. } => CoreErrorKind::Unsupported,
            Ipv6Error::RoutingHeaderType0Deprecated => CoreErrorKind::Unsupported,
            Ipv6Error::UnknownOptionWithDropAction { .. } => CoreErrorKind::Invalid,
            Ipv6Error::JumboPayloadNotSupported => CoreErrorKind::Unsupported,
            Ipv6Error::ReassemblyError => CoreErrorKind::Invalid,
            Ipv6Error::ReassemblyIncomplete => CoreErrorKind::Invalid,
            Ipv6Error::ReassemblyTooManyFragments => CoreErrorKind::Invalid,
            Ipv6Error::ReassemblyFragmentOverlap => CoreErrorKind::Invalid,
            Ipv6Error::ReassemblyTimeout => CoreErrorKind::Invalid,
        }
    }

    /// Maps the error to the shared error type, carrying the error's text.
    pub fn to_core_error(&self) -> (r: CoreError)
        ensures
            r.kind() == self.spec_core_kind(),
            r.message_view() == self.text(),
    {
        let text = self.to_string();
        match self {
            Ipv6Error::InvalidVersion { .. } => CoreError::InvalidPacket(text),
            Ipv6Error::InvalidHeaderLength { .. } => CoreError::InvalidPacket(text),
            Ipv6Error::InvalidHeaderLengthSimple => CoreError::InvalidPacket(text),
            Ipv6Error::PacketTooShort { .. } => CoreError::InvalidPacket(text),
            Ipv6Error::InvalidPayloadLength { .. } => CoreError::InvalidPacket(text),
            Ipv6Error::ExtensionHeaderNotSupported { .. } => CoreError::UnsupportedProtocol(text),
            Ipv6Error::UnsupportedProtocol { .. } => CoreError::UnsupportedProtocol(text),
            Ipv6Error::DestinationUnreachable { .. } => CoreError::InvalidPacket(text),
            Ipv6Error::HopLimitExceeded { .. } => CoreError::InvalidPacket(text),
            Ipv6Error::InvalidSourceAddress { .. } => CoreError::InvalidPacket(text),
            Ipv6Error::PacketTooLarge { .. } => CoreError::InvalidPacket(text),
            Ipv6Error::TooManyExtensionHeaders { .. } => CoreError::InvalidPacket(text),
            Ipv6Error::InvalidExtensionHeaderLength { .. } => CoreError::InvalidPacket(text),
            Ipv6Error::ExtensionChainTooLong { .. } => CoreError::InvalidPacket(text),
            Ipv6Error::FragmentReassemblyTimeout { .. } => CoreError::InvalidPacket(text),
            Ipv6Error::FragmentOverlap { .. } => CoreError::InvalidPacket(text),
            Ipv6Error::AtomicFragment { .. } => CoreError::InvalidPacket(text),
            Ipv6Error::RoutingHeaderNotSupported { .. } => CoreError::UnsupportedProtocol(text),
            Ipv6Error::RoutingHeaderType0Deprecated => CoreError::UnsupportedProtocol(text),
            Ipv6Error::UnknownOptionWithDropAction { .. } => CoreError::InvalidPacket(text),
            Ipv6Error::JumboPayloadNotSupported => CoreError::UnsupportedProtocol(text),
            Ipv6Error::ReassemblyError => CoreError::InvalidPacket(text),
            Ipv6Error::ReassemblyIncomplete => CoreError::InvalidPacket(text),
            Ipv6Error::ReassemblyTooManyFragments => CoreError::InvalidPacket(text),
            Ipv6Error::ReassemblyFragmentOverlap => CoreError::InvalidPacket(text),
            Ipv6Error::ReassemblyTimeout => CoreError::InvalidPacket(text),
        }
    }
}

} // verus!
