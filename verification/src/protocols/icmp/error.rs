use vstd::prelude::*;
use crate::common::text::{
    byte_decimal, byte_decimal_text, hex16_text, hex4, join_text, pair_text, u16_decimal, u16_decimal_text, usize_decimal, usize_decimal_text,
};

verus! {

/// Errors of ICMP processing.
#[derive(Debug, Clone, PartialEq)]
pub enum IcmpError {
    InsufficientPacketLength { expected: usize, actual: usize },
    UnsupportedType { type_: u8 },
    InvalidCode { type_: u8, code: u8 },
    ChecksumError { expected: u16, actual: u16 },
    ParseError(String),
    EncapError(String),
    EchoTimeout { identifier: u16, sequence: u16 },
    EchoManagerError(String),
}

/// The text of an ICMP error.
pub open spec fn icmp_error_text(e: IcmpError) -> Seq<char> {
    match e {
        IcmpError::InsufficientPacketLength { expected, actual } => "ICMP数据包长度不足: 期望 "@ + usize_decimal(expected) + " 实际 "@ + usize_decimal(actual),
        IcmpError::UnsupportedType { type_ } => "不支持的ICMP类型: "@ + byte_decimal(type_),
        IcmpError::InvalidCode { type_, code } => "无效的ICMP代码: Type="@ + byte_decimal(type_) + " Code="@
            + byte_decimal(code),
        IcmpError::ChecksumError { expected, actual } => "ICMP校验和错误: 期望 0x"@ + hex4(expected) + " 实际 0x"@
            + hex4(actual),
        IcmpError::ParseError(m) => "ICMP解析错误: "@ + m@,
        IcmpError::EncapError(m) => "ICMP封装错误: "@ + m@,
        IcmpError::EchoTimeout { identifier, sequence } => "Echo请求超时: ID="@ + u16_decimal(identifier)
            + " Seq="@ + u16_decimal(sequence),
        IcmpError::EchoManagerError(m) => "Echo管理器错误: "@ + m@,
    }
}

impl IcmpError {
    /// The error as text.
    pub fn to_string(&self) -> (r: String)
        ensures
            r@ == icmp_error_text(*self),
    {
        match self {
            IcmpError::InsufficientPacketLength { expected, actual } => {
                let a = usize_decimal_text(*expected);
                let b = usize_decimal_text(*actual);
                pair_text("ICMP数据包长度不足: 期望 ", a.as_str(), " 实际 ", b.as_str())
            },
            IcmpError::UnsupportedType { type_ } => {
                let a = byte_decimal_text(*type_);
                join_text("不支持的ICMP类型: ", a.as_str())
            },
            IcmpError::InvalidCode { type_, code } => {
                let a = byte_decimal_text(*type_);
                let b = byte_decimal_text(*code);
                pair_text("无效的ICMP代码: Type=", a.as_str(), " Code=", b.as_str())
            },
            IcmpError::ChecksumError { expected, actual } => {
                let a = hex16_text(*expected);
                let b = hex16_text(*actual);
                pair_text("ICMP校验和错误: 期望 0x", a.as_str(), " 实际 0x", b.as_str())
            },
            IcmpError::ParseError(m) => join_text("ICMP解析错误: ", m.as_str()),
            IcmpError::EncapError(m) => join_text("ICMP封装错误: ", m.as_str()),
            IcmpError::EchoTimeout { identifier, sequence } => {
                let a = u16_decimal_text(*identifier);
                let b = u16_decimal_text(*sequence);
                pair_text("Echo请求超时: ID=", a.as_str(), " Seq=", b.as_str())
            },
            IcmpError::EchoManagerError(m) => join_text("Echo管理器错误: ", m.as_str()),
        }
    }
}

} // verus!
