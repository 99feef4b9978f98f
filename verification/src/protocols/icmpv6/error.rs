use vstd::prelude::*;
use crate::common::text::{byte_decimal, byte_decimal_text, join_text};

verus! {

/// Errors of ICMPv6 processing.
#[derive(Debug, Clone, PartialEq)]
pub enum Icmpv6Error {
    ParseError(String),
    InvalidPacket(String),
    ChecksumError,
    UnsupportedMessageType(u8),
    NeighborCacheError(String),
    ConfigError(String),
    Timeout,
}

impl Icmpv6Error {
    /// The error's text: a label for its kind, then its detail.
    pub open spec fn text(&self) -> Seq<char> {
        match self {
            Icmpv6Error::ParseError(m) => "解析错误: "@ + m@,
            Icmpv6Error::InvalidPacket(m) => "无效报文: "@ + m@,
            Icmpv6Error::ChecksumError => "校验和错误"@,
            Icmpv6Error::UnsupportedMessageType(t) => "不支持的消息类型: "@ + byte_decimal(*t),
            Icmpv6Error::NeighborCacheError(m) => "邻居缓存错误: "@ + m@,
            Icmpv6Error::ConfigError(m) => "配置错误: "@ + m@,
            Icmpv6Error::Timeout => "处理超时"@,
        }
    }

    /// The error's text.
    pub fn to_string(&self) -> (r: String)
        ensures
            r@ == self.text(),
    {
        match self {
            Icmpv6Error::ParseError(m) => join_text("解析错误: ", m.as_str()),
            Icmpv6Error::InvalidPacket(m) => join_text("无效报文: ", m.as_str()),
            Icmpv6Error::ChecksumError => "校验和错误".to_owned(),
            Icmpv6Error::UnsupportedMessageType(t) => {
                let digits = byte_decimal_text(*t);
                join_text("不支持的消息类型: ", digits.as_str())
            },
            Icmpv6Error::NeighborCacheError(m) => join_text("邻居缓存错误: ", m.as_str()),
            Icmpv6Error::ConfigError(m) => join_text("配置错误: ", m.as_str()),
            Icmpv6Error::Timeout => "处理超时".to_owned(),
        }
    }
}

} // verus!
