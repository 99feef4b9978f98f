use vstd::prelude::*;
use crate::common::text::{decimal_digits, join_text, byte_decimal_text, u16_decimal_text};

verus! {

/// Errors of the BGP module.
#[derive(Debug, Clone, PartialEq, Eq)]
pub enum BgpError {
    InvalidMessageLength(String),
    InvalidMessageType(u8),
    InvalidMarker,
    UnsupportedVersion(u8),
    BgpIdentifierConflict,
    InvalidHoldTime(u16),
    MissingRequiredAttribute(String),
    InvalidPathAttribute(String),
    AsPathLoop,
    UnreachableNextHop,
    InvalidPeerState(String),
    ConnectionClosed,
    ConnectionTimeout,
    BufferSpaceInsufficient,
    TableFull,
    Other(String),
}

/// The text of an error.
pub open spec fn bgp_error_text(e: BgpError) -> Seq<char> {
    match e {
        BgpError::InvalidMessageLength(m) => "Invalid message length: "@ + m@,
        BgpError::InvalidMessageType(t) => "Invalid message type: "@ + decimal_digits(t as nat),
        BgpError::InvalidMarker => "Invalid marker"@,
        BgpError::UnsupportedVersion(v) => "Unsupported BGP version: "@ + decimal_digits(v as nat),
        BgpError::BgpIdentifierConflict => "BGP identifier conflict"@,
        BgpError::InvalidHoldTime(t) => "Invalid hold time: "@ + decimal_digits(t as nat),
        BgpError::MissingRequiredAttribute(a) => "Missing required attribute: "@ + a@,
        BgpError::InvalidPathAttribute(a) => "Invalid path attribute: "@ + a@,
        BgpError::AsPathLoop => "AS_PATH loop detected"@,
        BgpError::UnreachableNextHop => "Unreachable next hop"@,
        BgpError::InvalidPeerState(s) => "Invalid peer state: "@ + s@,
        BgpError::ConnectionClosed => "Connection closed"@,
        BgpError::ConnectionTimeout => "Connection timeout"@,
        BgpError::BufferSpaceInsufficient => "Insufficient buffer space"@,
        BgpError::TableFull => "Table full"@,
        BgpError::Other(m) => "BGP error: "@ + m@,
    }
}

impl BgpError {
    /// The error as text.
    pub fn to_string(&self) -> (r: String)
        ensures
            r@ == bgp_error_text(*self),
    {
        match self {
            BgpError::InvalidMessageLength(m) => join_text("Invalid message length: ", m.as_str()),
            BgpError::InvalidMessageType(t) => {
                let d = byte_decimal_text(*t);
                join_text("Invalid message type: ", d.as_str())
            },
            BgpError::InvalidMarker => "Invalid marker".to_owned(),
            BgpError::UnsupportedVersion(v) => {
                let d = byte_decimal_text(*v);
                join_text("Unsupported BGP version: ", d.as_str())
            },
            BgpError::BgpIdentifierConflict => "BGP identifier conflict".to_owned(),
            BgpError::InvalidHoldTime(t) => {
                let d = u16_decimal_text(*t);
                join_text("Invalid hold time: ", d.as_str())
            },
            BgpError::MissingRequiredAttribute(a) => join_text("Missing required attribute: ", a.as_str()),
            BgpError::InvalidPathAttribute(a) => join_text("Invalid path attribute: ", a.as_str()),
            BgpError::AsPathLoop => "AS_PATH loop detected".to_owned(),
            BgpError::UnreachableNextHop => "Unreachable next hop".to_owned(),
            BgpError::InvalidPeerState(s) => join_text("Invalid peer state: ", s.as_str()),
            BgpError::ConnectionClosed => "Connection closed".to_owned(),
            BgpError::ConnectionTimeout => "Connection timeout".to_owned(),
            BgpError::BufferSpaceInsufficient => "Insufficient buffer space".to_owned(),
            BgpError::TableFull => "Table full".to_owned(),
            BgpError::Other(m) => join_text("BGP error: ", m.as_str()),
        }
    }
}

} // verus!
