use vstd::prelude::*;
use crate::common::text::{debug_text, join_text, str_debug};

verus! {

/// Errors shared by the protocol modules, each with a message.
#[derive(Debug, Clone, PartialEq)]
pub enum CoreError {
    /// The bytes could not be read as the expected structure.
    ParseError(String),
    /// The packet violates a protocol rule.
    InvalidPacket(String),
    /// The protocol or version is not supported.
    UnsupportedProtocol(String),
    /// Another host claims one of our addresses.
    IpConflict(String),
}

/// The kinds of `CoreError`, for contracts that fix the kind but not the message.
#[derive(Debug, Clone, Copy, PartialEq, Eq, Structural)]
pub enum CoreErrorKind {
    Parse,
    Invalid,
    Unsupported,
    Conflict,
}

impl CoreError {
    /// The error's kind.
    pub open spec fn kind(&self) -> CoreErrorKind {
        match self {
            CoreError::ParseError(_) => CoreErrorKind::Parse,
            CoreError::InvalidPacket(_) => CoreErrorKind::Invalid,
            CoreError::UnsupportedProtocol(_) => CoreErrorKind::Unsupported,
            CoreError::IpConflict(_) => CoreErrorKind::Conflict,
        }
    }

    /// The error's message.
    pub open spec fn message_view(&self) -> Seq<char> {
        match self {
            CoreError::ParseError(m) => m@,
            CoreError::InvalidPacket(m) => m@,
            CoreError::UnsupportedProtocol(m) => m@,
            CoreError::IpConflict(m) => m@,
        }
    }

    /// A parse error with this message.
    pub fn parse_error(msg: &str) -> (r: Self)
        ensures
            r matches CoreError::ParseError(m) && m@ == msg@,
    {
        CoreError::ParseError(msg.to_owned())
    }

    /// An invalid-packet error with this message.
    pub fn invalid_packet(msg: &str) -> (r: Self)
        ensures
            r matches CoreError::InvalidPacket(m) && m@ == msg@,
    {
        CoreError::InvalidPacket(msg.to_owned())
    }

    /// An address-conflict error naming the address, the hardware address
    /// that claims it and the one already recorded for it.
    pub fn ip_conflict(ip: &str, mac: &str, existing_mac: &str) -> (r: Self)
        ensures
            r matches CoreError::IpConflict(m) && m@ == ip_conflict_text(ip@, mac@, existing_mac@),
    {
        let a = join_text("IP地址冲突: ", ip);
        let b = join_text(a.as_str(), " (新MAC: ");
        let c = join_text(b.as_str(), mac);
        let d = join_text(c.as_str(), ", 现有MAC: ");
        let e = join_text(d.as_str(), existing_mac);
        CoreError::IpConflict(join_text(e.as_str(), ")"))
    }

    /// The error's message.
    pub fn message(&self) -> (r: &str)
        ensures
            r@ == self.message_view(),
    {
        match self {
            CoreError::ParseError(m) => m.as_str(),
            CoreError::InvalidPacket(m) => m.as_str(),
            CoreError::UnsupportedProtocol(m) => m.as_str(),
            CoreError::IpConflict(m) => m.as_str(),
        }
    }
}

/// The message of an address conflict: the address, the hardware address
/// that claims it and the one already recorded for it.
pub open spec fn ip_conflict_text(ip: Seq<char>, mac: Seq<char>, existing_mac: Seq<char>) -> Seq<char> {
    "IP地址冲突: "@ + ip + " (新MAC: "@ + mac + ", 现有MAC: "@ + existing_mac + ")"@
}

/// The text `format!("{:?}", e)` gives for a shared error: the variant's
/// name and the debug form of its message in parentheses.
pub open spec fn core_error_debug(e: CoreError) -> Seq<char> {
    match e {
        CoreError::ParseError(m) => "ParseError("@ + str_debug(m@) + ")"@,
        CoreError::InvalidPacket(m) => "InvalidPacket("@ + str_debug(m@) + ")"@,
        CoreError::UnsupportedProtocol(m) => "UnsupportedProtocol("@ + str_debug(m@) + ")"@,
        CoreError::IpConflict(m) => "IpConflict("@ + str_debug(m@) + ")"@,
    }
}

impl CoreError {
    /// The error's debug text, as `format!("{:?}", e)` writes it.
    pub fn debug_string(&self) -> (r: String)
        ensures
            r@ == core_error_debug(*self),
    {
        let (name, m) = match self {
            CoreError::ParseError(m) => ("ParseError(", m),
            CoreError::InvalidPacket(m) => ("InvalidPacket(", m),
            CoreError::UnsupportedProtocol(m) => ("UnsupportedProtocol(", m),
            CoreError::IpConflict(m) => ("IpConflict(", m),
        };
        let d = debug_text(m.as_str());
        let t = join_text(name, d.as_str());
        join_text(t.as_str(), ")")
    }
}

} // verus!
