use vstd::prelude::*;
use crate::common::text::{join_text, byte_decimal, byte_decimal_text, append_text, debug_text, str_debug};

verus! {

/// The IKEv2 port.
pub const IKEV2_PORT: u16 = 500;
/// The NAT traversal port.
pub const IKEV2_NAT_PORT: u16 = 4500;
/// Protocol version 2.0.
pub const IKEV2_VERSION: u8 = 0x20;
/// Length of the IKE message header.
pub const IKE_HEADER_LEN: usize = 28;
/// Length of an IKE SPI.
pub const SPI_LEN: usize = 8;

/// IKEv2 exchange types.
#[derive(Debug, Clone, Copy, PartialEq, Eq, Structural)]
pub enum IkeExchangeType {
    IkeSaInit,
    IkeAuth,
    CreateChildSa,
    Informational,
}

impl IkeExchangeType {
    /// The type's number.
    pub open spec fn value(self) -> u8 {
        match self {
            IkeExchangeType::IkeSaInit => 34,
            IkeExchangeType::IkeAuth => 35,
            IkeExchangeType::CreateChildSa => 36,
            IkeExchangeType::Informational => 37,
        }
    }

    /// The type with number `v`.
    pub open spec fn from_value(v: u8) -> Option<Self> {
        if v == 34 {
            Some(IkeExchangeType::IkeSaInit)
        } else if v == 35 {
            Some(IkeExchangeType::IkeAuth)
        } else if v == 36 {
            Some(IkeExchangeType::CreateChildSa)
        } else if v == 37 {
            Some(IkeExchangeType::Informational)
        } else {
            None
        }
    }

    pub fn from_u8(value: u8) -> (r: Option<Self>)
        ensures
            r == Self::from_value(value),
    {
        match value {
            34 => Some(IkeExchangeType::IkeSaInit),
            35 => Some(IkeExchangeType::IkeAuth),
            36 => Some(IkeExchangeType::CreateChildSa),
            37 => Some(IkeExchangeType::Informational),
            _ => None,
        }
    }

    pub fn as_u8(self) -> (r: u8)
        ensures
            r == self.value(),
    {
        match self {
            IkeExchangeType::IkeSaInit => 34,
            IkeExchangeType::IkeAuth => 35,
            IkeExchangeType::CreateChildSa => 36,
            IkeExchangeType::Informational => 37,
        }
    }

    /// Every type is read back from its number.
    pub proof fn lemma_roundtrip()
        ensures
            forall|t: Self| #[trigger] Self::from_value(t.value()) == Some(t),
    {
    }
}

/// The flags octet of an IKE header.
#[derive(Debug, Clone, Copy, Default, PartialEq, Eq, Structural)]
pub struct IkeFlags {
    /// Sent by the original initiator (bit 3).
    pub initiator: bool,
    /// Higher version supported (bit 4); 0 in IKEv2.
    pub version: bool,
    /// The message is a response (bit 5).
    pub response: bool,
}

/// The flags octet for these flags.
pub open spec fn flags_octet(f: IkeFlags) -> u8 {
    ((if f.initiator { 0x08u8 } else { 0u8 }) + (if f.version { 0x10u8 } else { 0u8 })
        + (if f.response { 0x20u8 } else { 0u8 })) as u8
}

impl IkeFlags {
    /// The flags of an octet: bits 3, 4 and 5.
    pub fn from_u8(value: u8) -> (r: Self)
        ensures
            r.initiator == (value & 0x08 != 0),
            r.version == (value & 0x10 != 0),
            r.response == (value & 0x20 != 0),
    {
        IkeFlags { initiator: (value & 0x08) != 0, version: (value & 0x10) != 0, response: (value & 0x20) != 0 }
    }

    /// The flags octet (see `flags_octet`).
    pub fn as_u8(self) -> (r: u8)
        ensures
            r == flags_octet(self),
    {
        let a: u8 = if self.initiator { 0x08 } else { 0 };
        let b: u8 = if self.version { 0x10 } else { 0 };
        let c: u8 = if self.response { 0x20 } else { 0 };
        assert(a | b | c == a + b + c) by (bit_vector)
            requires
                a == 0 || a == 8,
                b == 0 || b == 16,
                c == 0 || c == 32;
        a | b | c
    }

    /// Flags of a request.
    pub fn request(is_initiator: bool) -> (r: Self)
        ensures
            r == (IkeFlags { initiator: is_initiator, version: false, response: false }),
    {
        IkeFlags { initiator: is_initiator, version: false, response: false }
    }

    /// Flags of a response.
    pub fn response(is_initiator: bool) -> (r: Self)
        ensures
            r == (IkeFlags { initiator: is_initiator, version: false, response: true }),
    {
        IkeFlags { initiator: is_initiator, version: false, response: true }
    }

    /// Reading the octet of some flags gives the flags back.
    pub proof fn lemma_flags_roundtrip(f: IkeFlags)
        ensures
            (flags_octet(f) & 0x08 != 0) == f.initiator,
            (flags_octet(f) & 0x10 != 0) == f.version,
            (flags_octet(f) & 0x20 != 0) == f.response,
    {
        let v = flags_octet(f);
        assert(v == 0 || v == 8 || v == 16 || v == 24 || v == 32 || v == 40 || v == 48 || v == 56);
        assert((v & 0x08 != 0) == (v == 8 || v == 24 || v == 40 || v == 56)) by (bit_vector)
            requires v == 0 || v == 8 || v == 16 || v == 24 || v == 32 || v == 40 || v == 48 || v == 56;
        assert((v & 0x10 != 0) == (v == 16 || v == 24 || v == 48 || v == 56)) by (bit_vector)
            requires v == 0 || v == 8 || v == 16 || v == 24 || v == 32 || v == 40 || v == 48 || v == 56;
        assert((v & 0x20 != 0) == (v >= 32)) by (bit_vector)
            requires v == 0 || v == 8 || v == 16 || v == 24 || v == 32 || v == 40 || v == 48 || v == 56;
    }
}

/// IKEv2 payload types; `NoNext` (0) ends a chain.
#[derive(Debug, Clone, Copy, PartialEq, Eq, Structural)]
pub enum IkePayloadType {
    NoNext,
    SA,
    KE,
    IDi,
    IDr,
    CERT,
    CERTREQ,
    AUTH,
    Nonce,
    Notify,
    Delete,
    Vendor,
    TSi,
    TSr,
}

impl IkePayloadType {
    /// The type's number.
    pub open spec fn value(self) -> u8 {
        match self {
            IkePayloadType::NoNext => 0,
            IkePayloadType::SA => 33,
            IkePayloadType::KE => 34,
            IkePayloadType::IDi => 35,
            IkePayloadType::IDr => 36,
            IkePayloadType::CERT => 37,
            IkePayloadType::CERTREQ => 38,
            IkePayloadType::AUTH => 39,
            IkePayloadType::Nonce => 40,
            IkePayloadType::Notify => 41,
            IkePayloadType::Delete => 42,
            IkePayloadType::Vendor => 43,
            IkePayloadType::TSi => 44,
            IkePayloadType::TSr => 45,
        }
    }

    /// The type with number `v`.
    pub open spec fn from_value(v: u8) -> Option<Self> {
        if v == 0 {
            Some(IkePayloadType::NoNext)
        } else if v == 33 {
            Some(IkePayloadType::SA)
        } else if v == 34 {
            Some(IkePayloadType::KE)
        } else if v == 35 {
            Some(IkePayloadType::IDi)
        } else if v == 36 {
            Some(IkePayloadType::IDr)
        } else if v == 37 {
            Some(IkePayloadType::CERT)
        } else if v == 38 {
            Some(IkePayloadType::CERTREQ)
        } else if v == 39 {
            Some(IkePayloadType::AUTH)
        } else if v == 40 {
            Some(IkePayloadType::Nonce)
        } else if v == 41 {
            Some(IkePayloadType::Notify)
        } else if v == 42 {
            Some(IkePayloadType::Delete)
        } else if v == 43 {
            Some(IkePayloadType::Vendor)
        } else if v == 44 {
            Some(IkePayloadType::TSi)
        } else if v == 45 {
            Some(IkePayloadType::TSr)
        } else {
            None
        }
    }

    /// The type with number `v`, `NoNext` when there is none.
    pub open spec fn from_value_or_end(v: u8) -> Self {
        match Self::from_value(v) {
            Some(t) => t,
            None => IkePayloadType::NoNext,
        }
    }

    pub fn from_u8(value: u8) -> (r: Option<Self>)
        ensures
            r == Self::from_value(value),
    {
        match value {
            0 => Some(IkePayloadType::NoNext),
            33 => Some(IkePayloadType::SA),
            34 => Some(IkePayloadType::KE),
            35 => Some(IkePayloadType::IDi),
            36 => Some(IkePayloadType::IDr),
            37 => Some(IkePayloadType::CERT),
            38 => Some(IkePayloadType::CERTREQ),
            39 => Some(IkePayloadType::AUTH),
            40 => Some(IkePayloadType::Nonce),
            41 => Some(IkePayloadType::Notify),
            42 => Some(IkePayloadType::Delete),
            43 => Some(IkePayloadType::Vendor),
            44 => Some(IkePayloadType::TSi),
            45 => Some(IkePayloadType::TSr),
            _ => None,
        }
    }

    /// The type with this number, `NoNext` when there is none.
    pub fn from_u8_or_end(value: u8) -> (r: Self)
        ensures
            r == Self::from_value_or_end(value),
    {
        match Self::from_u8(value) {
            Some(t) => t,
            None => IkePayloadType::NoNext,
        }
    }

    pub fn as_u8(self) -> (r: u8)
        ensures
            r == self.value(),
    {
        match self {
            IkePayloadType::NoNext => 0,
            IkePayloadType::SA => 33,
            IkePayloadType::KE => 34,
            IkePayloadType::IDi => 35,
            IkePayloadType::IDr => 36,
            IkePayloadType::CERT => 37,
            IkePayloadType::CERTREQ => 38,
            IkePayloadType::AUTH => 39,
            IkePayloadType::Nonce => 40,
            IkePayloadType::Notify => 41,
            IkePayloadType::Delete => 42,
            IkePayloadType::Vendor => 43,
            IkePayloadType::TSi => 44,
            IkePayloadType::TSr => 45,
        }
    }

    /// Every type is read back from its number.
    pub proof fn lemma_roundtrip()
        ensures
            forall|t: Self| #[trigger] Self::from_value(t.value()) == Some(t),
    {
    }
}

/// Protocol identifiers of proposals.
#[derive(Debug, Clone, Copy, PartialEq, Eq, Structural)]
pub enum IkeProtocolId {
    Ike,
    Ah,
    Esp,
}

impl IkeProtocolId {
    pub open spec fn value(self) -> u8 {
        match self {
            IkeProtocolId::Ike => 1,
            IkeProtocolId::Ah => 2,
            IkeProtocolId::Esp => 3,
        }
    }

    pub open spec fn from_value(v: u8) -> Option<Self> {
        if v == 1 {
            Some(IkeProtocolId::Ike)
        } else if v == 2 {
            Some(IkeProtocolId::Ah)
        } else if v == 3 {
            Some(IkeProtocolId::Esp)
        } else {
            None
        }
    }

    pub fn from_u8(value: u8) -> (r: Option<Self>)
        ensures
            r == Self::from_value(value),
    {
        match value {
            1 => Some(IkeProtocolId::Ike),
            2 => Some(IkeProtocolId::Ah),
            3 => Some(IkeProtocolId::Esp),
            _ => None,
        }
    }

    pub fn as_u8(self) -> (r: u8)
        ensures
            r == self.value(),
    {
        match self {
            IkeProtocolId::Ike => 1,
            IkeProtocolId::Ah => 2,
            IkeProtocolId::Esp => 3,
        }
    }

    pub proof fn lemma_roundtrip()
        ensures
            forall|t: Self| #[trigger] Self::from_value(t.value()) == Some(t),
    {
    }
}

/// Transform types.
#[derive(Debug, Clone, Copy, PartialEq, Eq, Structural)]
pub enum IkeTransformType {
    Encryption,
    Prf,
    Integrity,
    DhGroup,
    ESN,
}

impl IkeTransformType {
    pub open spec fn value(self) -> u8 {
        match self {
            IkeTransformType::Encryption => 1,
            IkeTransformType::Prf => 2,
            IkeTransformType::Integrity => 3,
            IkeTransformType::DhGroup => 4,
            IkeTransformType::ESN => 5,
        }
    }

    pub open spec fn from_value(v: u8) -> Option<Self> {
        if v == 1 {
            Some(IkeTransformType::Encryption)
        } else if v == 2 {
            Some(IkeTransformType::Prf)
        } else if v == 3 {
            Some(IkeTransformType::Integrity)
        } else if v == 4 {
            Some(IkeTransformType::DhGroup)
        } else if v == 5 {
            Some(IkeTransformType::ESN)
        } else {
            None
        }
    }

    pub fn from_u8(value: u8) -> (r: Option<Self>)
        ensures
            r == Self::from_value(value),
    {
        match value {
            1 => Some(IkeTransformType::Encryption),
            2 => Some(IkeTransformType::Prf),
            3 => Some(IkeTransformType::Integrity),
            4 => Some(IkeTransformType::DhGroup),
            5 => Some(IkeTransformType::ESN),
            _ => None,
        }
    }

    pub fn as_u8(self) -> (r: u8)
        ensures
            r == self.value(),
    {
        match self {
            IkeTransformType::Encryption => 1,
            IkeTransformType::Prf => 2,
            IkeTransformType::Integrity => 3,
            IkeTransformType::DhGroup => 4,
            IkeTransformType::ESN => 5,
        }
    }

    pub proof fn lemma_roundtrip()
        ensures
            forall|t: Self| #[trigger] Self::from_value(t.value()) == Some(t),
    {
    }
}

/// Identification types.
#[derive(Debug, Clone, Copy, PartialEq, Eq, Structural)]
pub enum IkeIdType {
    IdIpv4Addr,
    IdFqdn,
    IdRfc822Addr,
    IdIpv6Addr,
    IdDerAsn1Dn,
    IdDerAsn1Gn,
}

impl IkeIdType {
    pub open spec fn value(self) -> u8 {
        match self {
            IkeIdType::IdIpv4Addr => 1,
            IkeIdType::IdFqdn => 2,
            IkeIdType::IdRfc822Addr => 3,
            IkeIdType::IdIpv6Addr => 5,
            IkeIdType::IdDerAsn1Dn => 9,
            IkeIdType::IdDerAsn1Gn => 10,
        }
    }

    pub open spec fn from_value(v: u8) -> Option<Self> {
        if v == 1 {
            Some(IkeIdType::IdIpv4Addr)
        } else if v == 2 {
            Some(IkeIdType::IdFqdn)
        } else if v == 3 {
            Some(IkeIdType::IdRfc822Addr)
        } else if v == 5 {
            Some(IkeIdType::IdIpv6Addr)
        } else if v == 9 {
            Some(IkeIdType::IdDerAsn1Dn)
        } else if v == 10 {
            Some(IkeIdType::IdDerAsn1Gn)
        } else {
            None
        }
    }

    pub fn from_u8(value: u8) -> (r: Option<Self>)
        ensures
            r == Self::from_value(value),
    {
        match value {
            1 => Some(IkeIdType::IdIpv4Addr),
            2 => Some(IkeIdType::IdFqdn),
            3 => Some(IkeIdType::IdRfc822Addr),
            5 => Some(IkeIdType::IdIpv6Addr),
            9 => Some(IkeIdType::IdDerAsn1Dn),
            10 => Some(IkeIdType::IdDerAsn1Gn),
            _ => None,
        }
    }

    pub fn as_u8(self) -> (r: u8)
        ensures
            r == self.value(),
    {
        match self {
            IkeIdType::IdIpv4Addr => 1,
            IkeIdType::IdFqdn => 2,
            IkeIdType::IdRfc822Addr => 3,
            IkeIdType::IdIpv6Addr => 5,
            IkeIdType::IdDerAsn1Dn => 9,
            IkeIdType::IdDerAsn1Gn => 10,
        }
    }

    pub proof fn lemma_roundtrip()
        ensures
            forall|t: Self| #[trigger] Self::from_value(t.value()) == Some(t),
    {
    }
}

/// Authentication methods.
#[derive(Debug, Clone, Copy, PartialEq, Eq, Structural)]
pub enum IkeAuthMethod {
    SharedKey,
    RsaSig,
    DssSig,
    EcdsaSha256,
    EcdsaSha384,
    EcdsaSha512,
}

impl IkeAuthMethod {
    pub open spec fn value(self) -> u8 {
        match self {
            IkeAuthMethod::SharedKey => 1,
            IkeAuthMethod::RsaSig => 2,
            IkeAuthMethod::DssSig => 3,
            IkeAuthMethod::EcdsaSha256 => 9,
            IkeAuthMethod::EcdsaSha384 => 10,
            IkeAuthMethod::EcdsaSha512 => 11,
        }
    }

    pub open spec fn from_value(v: u8) -> Option<Self> {
        if v == 1 {
            Some(IkeAuthMethod::SharedKey)
        } else if v == 2 {
            Some(IkeAuthMethod::RsaSig)
        } else if v == 3 {
            Some(IkeAuthMethod::DssSig)
        } else if v == 9 {
            Some(IkeAuthMethod::EcdsaSha256)
        } else if v == 10 {
            Some(IkeAuthMethod::EcdsaSha384)
        } else if v == 11 {
            Some(IkeAuthMethod::EcdsaSha512)
        } else {
            None
        }
    }

    pub fn from_u8(value: u8) -> (r: Option<Self>)
        ensures
            r == Self::from_value(value),
    {
        match value {
            1 => Some(IkeAuthMethod::SharedKey),
            2 => Some(IkeAuthMethod::RsaSig),
            3 => Some(IkeAuthMethod::DssSig),
            9 => Some(IkeAuthMethod::EcdsaSha256),
            10 => Some(IkeAuthMethod::EcdsaSha384),
            11 => Some(IkeAuthMethod::EcdsaSha512),
            _ => None,
        }
    }

    pub fn as_u8(self) -> (r: u8)
        ensures
            r == self.value(),
    {
        match self {
            IkeAuthMethod::SharedKey => 1,
            IkeAuthMethod::RsaSig => 2,
            IkeAuthMethod::DssSig => 3,
            IkeAuthMethod::EcdsaSha256 => 9,
            IkeAuthMethod::EcdsaSha384 => 10,
            IkeAuthMethod::EcdsaSha512 => 11,
        }
    }

    pub proof fn lemma_roundtrip()
        ensures
            forall|t: Self| #[trigger] Self::from_value(t.value()) == Some(t),
    {
    }
}

/// Diffie-Hellman groups.
#[derive(Debug, Clone, Copy, PartialEq, Eq, Structural)]
pub enum IkeDhGroup {
    MODP2048,
    MODP3072,
    MODP4096,
    ECP256,
    ECP384,
}

impl IkeDhGroup {
    pub open spec fn value(self) -> u16 {
        match self {
            IkeDhGroup::MODP2048 => 14,
            IkeDhGroup::MODP3072 => 15,
            IkeDhGroup::MODP4096 => 16,
            IkeDhGroup::ECP256 => 19,
            IkeDhGroup::ECP384 => 20,
        }
    }

    pub open spec fn from_value(v: u16) -> Option<Self> {
        if v == 14 {
            Some(IkeDhGroup::MODP2048)
        } else if v == 15 {
            Some(IkeDhGroup::MODP3072)
        } else if v == 16 {
            Some(IkeDhGroup::MODP4096)
        } else if v == 19 {
            Some(IkeDhGroup::ECP256)
        } else if v == 20 {
            Some(IkeDhGroup::ECP384)
        } else {
            None
        }
    }

    pub fn from_u16(value: u16) -> (r: Option<Self>)
        ensures
            r == Self::from_value(value),
    {
        match value {
            14 => Some(IkeDhGroup::MODP2048),
            15 => Some(IkeDhGroup::MODP3072),
            16 => Some(IkeDhGroup::MODP4096),
            19 => Some(IkeDhGroup::ECP256),
            20 => Some(IkeDhGroup::ECP384),
            _ => None,
        }
    }

    pub fn as_u16(self) -> (r: u16)
        ensures
            r == self.value(),
    {
        match self {
            IkeDhGroup::MODP2048 => 14,
            IkeDhGroup::MODP3072 => 15,
            IkeDhGroup::MODP4096 => 16,
            IkeDhGroup::ECP256 => 19,
            IkeDhGroup::ECP384 => 20,
        }
    }

    pub proof fn lemma_roundtrip()
        ensures
            forall|t: Self| #[trigger] Self::from_value(t.value()) == Some(t),
    {
    }
}

/// Errors of IKEv2 processing.
#[derive(Debug, Clone, PartialEq)]
pub enum IkeError {
    ParseError(String),
    InvalidLength,
    InvalidSpi,
    UnsupportedExchangeType(u8),
    UnsupportedPayloadType(u8),
    AuthenticationFailed,
    SaNotFound,
    SaStateError(String),
    CryptoError(String),
    DhError(String),
    ReplayDetected,
    Timeout,
    Other(String),
}

/// Result of IKEv2 operations.
pub type IkeResult<T> = Result<T, IkeError>;

impl IkeError {
    /// The error's text.
    pub open spec fn text(&self) -> Seq<char> {
        match self {
            IkeError::ParseError(m) => "解析错误: "@ + m@,
            IkeError::InvalidLength => "无效的消息长度"@,
            IkeError::InvalidSpi => "无效的 SPI"@,
            IkeError::UnsupportedExchangeType(t) => "不支持的交换类型: "@ + byte_decimal(*t),
            IkeError::UnsupportedPayloadType(t) => "不支持的 Payload 类型: "@ + byte_decimal(*t),
            IkeError::AuthenticationFailed => "认证失败"@,
            IkeError::SaNotFound => "SA 不存在"@,
            IkeError::SaStateError(m) => "SA 状态错误: "@ + m@,
            IkeError::CryptoError(m) => "加密错误: "@ + m@,
            IkeError::DhError(m) => "DH 计算错误: "@ + m@,
            IkeError::ReplayDetected => "检测到重放"@,
            IkeError::Timeout => "超时"@,
            IkeError::Other(m) => "其他错误: "@ + m@,
        }
    }

    /// The error's text.
    pub fn to_string(&self) -> (r: String)
        ensures
            r@ == self.text(),
    {
        match self {
            IkeError::ParseError(m) => join_text("解析错误: ", m.as_str()),
            IkeError::InvalidLength => "无效的消息长度".to_owned(),
            IkeError::InvalidSpi => "无效的 SPI".to_owned(),
            IkeError::UnsupportedExchangeType(t) => {
                let d = byte_decimal_text(*t);
                append_text("不支持的交换类型: ".to_owned(), d.as_str())
            },
            IkeError::UnsupportedPayloadType(t) => {
                let d = byte_decimal_text(*t);
                append_text("不支持的 Payload 类型: ".to_owned(), d.as_str())
            },
            IkeError::AuthenticationFailed => "认证失败".to_owned(),
            IkeError::SaNotFound => "SA 不存在".to_owned(),
            IkeError::SaStateError(m) => join_text("SA 状态错误: ", m.as_str()),
            IkeError::CryptoError(m) => join_text("加密错误: ", m.as_str()),
            IkeError::DhError(m) => join_text("DH 计算错误: ", m.as_str()),
            IkeError::ReplayDetected => "检测到重放".to_owned(),
            IkeError::Timeout => "超时".to_owned(),
            IkeError::Other(m) => join_text("其他错误: ", m.as_str()),
        }
    }
}

/// The text `format!("{:?}", e)` gives for an IKE error: the variant's name,
/// followed for a variant with a field by that field's debug form in
/// parentheses.
pub open spec fn ike_error_debug(e: IkeError) -> Seq<char> {
    match e {
        IkeError::ParseError(m) => "ParseError("@ + str_debug(m@) + ")"@,
        IkeError::InvalidLength => "InvalidLength"@,
        IkeError::InvalidSpi => "InvalidSpi"@,
        IkeError::UnsupportedExchangeType(t) => "UnsupportedExchangeType("@ + byte_decimal(t) + ")"@,
        IkeError::UnsupportedPayloadType(t) => "UnsupportedPayloadType("@ + byte_decimal(t) + ")"@,
        IkeError::AuthenticationFailed => "AuthenticationFailed"@,
        IkeError::SaNotFound => "SaNotFound"@,
        IkeError::SaStateError(m) => "SaStateError("@ + str_debug(m@) + ")"@,
        IkeError::CryptoError(m) => "CryptoError("@ + str_debug(m@) + ")"@,
        IkeError::DhError(m) => "DhError("@ + str_debug(m@) + ")"@,
        IkeError::ReplayDetected => "ReplayDetected"@,
        IkeError::Timeout => "Timeout"@,
        IkeError::Other(m) => "Other("@ + str_debug(m@) + ")"@,
    }
}

impl IkeError {
    /// The error's debug text, as `format!("{:?}", e)` writes it.
    pub fn debug_string(&self) -> (r: String)
        ensures
            r@ == ike_error_debug(*self),
    {
        match self {
            IkeError::ParseError(m) => wrapped_text("ParseError(", debug_text(m.as_str()).as_str()),
            IkeError::InvalidLength => "InvalidLength".to_owned(),
            IkeError::InvalidSpi => "InvalidSpi".to_owned(),
            IkeError::UnsupportedExchangeType(t) => wrapped_text("UnsupportedExchangeType(", byte_decimal_text(*t).as_str()),
            IkeError::UnsupportedPayloadType(t) => wrapped_text("UnsupportedPayloadType(", byte_decimal_text(*t).as_str()),
            IkeError::AuthenticationFailed => "AuthenticationFailed".to_owned(),
            IkeError::SaNotFound => "SaNotFound".to_owned(),
            IkeError::SaStateError(m) => wrapped_text("SaStateError(", debug_text(m.as_str()).as_str()),
            IkeError::CryptoError(m) => wrapped_text("CryptoError(", debug_text(m.as_str()).as_str()),
            IkeError::DhError(m) => wrapped_text("DhError(", debug_text(m.as_str()).as_str()),
            IkeError::ReplayDetected => "ReplayDetected".to_owned(),
            IkeError::Timeout => "Timeout".to_owned(),
            IkeError::Other(m) => wrapped_text("Other(", debug_text(m.as_str()).as_str()),
        }
    }
}

/// `head`, then `inner`, then a closing parenthesis.
fn wrapped_text(head: &str, inner: &str) -> (r: String)
    ensures
        r@ == head@ + inner@ + ")"@,
{
    let t = join_text(head, inner);
    join_text(t.as_str(), ")")
}

} // verus!
