use vstd::prelude::*;
use vstd::slice::slice_subrange;
use crate::common::bytes::{be16, lemma_be16_roundtrip, u16_bytes, read_be16, push_be16, push_slice, copy_range, usize_to_u16, trunc16};
use crate::common::addr::Ipv6Addr;
use crate::protocols::common::addr::Ipv4Addr;
use super::types::{IkePayloadType, IkeProtocolId, IkeTransformType, IkeIdType, IkeAuthMethod, IkeDhGroup, IkeError};

verus! {

/// Why a parse fails: too short, or a field with no meaning (with the
/// message the error carries).
pub enum ParseFailure {
    Length,
    Invalid(Seq<char>),
    Unsupported(u8),
}

/// Whether `e` is the error for `f`.
pub open spec fn is_failure(e: IkeError, f: ParseFailure) -> bool {
    match f {
        ParseFailure::Length => e is InvalidLength,
        ParseFailure::Invalid(t) => e matches IkeError::ParseError(m) && m@ == t,
        ParseFailure::Unsupported(v) => e == IkeError::UnsupportedPayloadType(v),
    }
}

/// The generic payload header bytes: next payload, critical octet, length.
pub open spec fn payload_header_wire(next: u8, critical: bool, length: u16) -> Seq<u8> {
    seq![next, if critical { 0x80u8 } else { 0u8 }] + u16_bytes(length)
}

/// The header bytes of a payload of `len` bytes (the length field keeps
/// the low 16 bits).
pub open spec fn header_for(next: IkePayloadType, critical: bool, len: nat) -> Seq<u8> {
    payload_header_wire(next.value(), critical, trunc16(len))
}

/// The next-payload type named in the header at the start of `data`.
pub open spec fn header_next(data: Seq<u8>) -> IkePayloadType {
    IkePayloadType::from_value_or_end(data[0])
}

/// The critical flag in the header at the start of `data`.
pub open spec fn header_critical(data: Seq<u8>) -> bool {
    data[1] & 0x80 != 0
}

/// The generic payload header.
#[derive(Debug, Clone, Copy, PartialEq, Eq, Structural)]
pub struct IkePayloadHeader {
    pub next_payload: u8,
    pub critical: bool,
    pub length: u16,
}

impl IkePayloadHeader {
    pub fn new(next_payload: IkePayloadType, critical: bool, length: u16) -> (r: Self)
        ensures
            r == (IkePayloadHeader { next_payload: next_payload.value(), critical, length }),
    {
        IkePayloadHeader { next_payload: next_payload.as_u8(), critical, length }
    }

    /// The four header bytes.
    pub fn to_bytes(&self) -> (r: [u8; 4])
        ensures
            r@ == payload_header_wire(self.next_payload, self.critical, self.length),
    {
        let critical_byte: u8 = if self.critical { 0x80 } else { 0x00 };
        let r: [u8; 4] = [self.next_payload, critical_byte, (self.length / 256) as u8, (self.length % 256) as u8];
        assert(r@ =~= payload_header_wire(self.next_payload, self.critical, self.length));
        r
    }

    /// Parses the header at the start of `data`.
    pub fn from_bytes(data: &[u8]) -> (r: Result<Self, IkeError>)
        ensures
            data@.len() < 4 ==> r == Err::<Self, IkeError>(IkeError::InvalidLength),
            data@.len() >= 4 ==> r == Ok::<Self, IkeError>(IkePayloadHeader {
                next_payload: data@[0],
                critical: header_critical(data@),
                length: be16(data@[2], data@[3]),
            }),
    {
        if data.len() < 4 {
            return Err(IkeError::InvalidLength);
        }
        Ok(IkePayloadHeader { next_payload: data[0], critical: (data[1] & 0x80) != 0, length: read_be16(data, 2) })
    }
}

/// Appends the header of a payload of `total_length` bytes.
fn push_header(bytes: &mut Vec<u8>, next: IkePayloadType, critical: bool, total_length: usize)
    ensures
        final(bytes)@ == old(bytes)@ + header_for(next, critical, total_length as nat),
{
    let header = IkePayloadHeader::new(next, critical, usize_to_u16(total_length));
    let h = header.to_bytes();
    push_slice(bytes, &h);
}

/// Reads the next-payload type and critical flag of the header at the
/// start of `data`.
fn read_header(data: &[u8]) -> (r: (IkePayloadType, bool))
    requires
        data@.len() >= 4,
    ensures
        r == (header_next(data@), header_critical(data@)),
{
    let header = match IkePayloadHeader::from_bytes(data) {
        Ok(h) => h,
        Err(_) => {
            return (IkePayloadType::NoNext, false);
        },
    };
    (IkePayloadType::from_u8_or_end(header.next_payload), header.critical)
}

/// Copies `data[start..]`.
fn copy_from(data: &[u8], start: usize) -> (r: Vec<u8>)
    requires
        start <= data@.len(),
    ensures
        r@ == data@.skip(start as int),
{
    let r = copy_range(data, start, data.len());
    assert(r@ =~= data@.skip(start as int));
    r
}

// ---------------------------------------------------------------- KE

/// Key exchange payload.
#[derive(Debug, Clone, PartialEq)]
pub struct IkeKePayload {
    pub next_payload: IkePayloadType,
    pub critical: bool,
    pub dh_group: IkeDhGroup,
    pub public_key: Vec<u8>,
}

impl IkeKePayload {
    /// The wire bytes: header (length 4 plus the key), group, two zero
    /// bytes, key.
    pub open spec fn wire(&self) -> Seq<u8> {
        header_for(self.next_payload, self.critical, 4 + self.public_key@.len())
            + u16_bytes(self.dh_group.value()) + seq![0u8, 0u8] + self.public_key@
    }

    /// Why parsing `data` fails, if it does.
    pub open spec fn failure(data: Seq<u8>) -> Option<ParseFailure> {
        if data.len() < 8 {
            Some(ParseFailure::Length)
        } else if IkeDhGroup::from_value(be16(data[4], data[5])) is None {
            Some(ParseFailure::Invalid("无效的 DH 组"@))
        } else {
            None
        }
    }

    /// Whether `p` is what parsing `data` gives.
    pub open spec fn parsed_from(p: Self, data: Seq<u8>) -> bool {
        &&& p.next_payload == header_next(data)
        &&& p.critical == header_critical(data)
        &&& Some(p.dh_group) == IkeDhGroup::from_value(be16(data[4], data[5]))
        &&& p.public_key@ == data.skip(8)
    }

    pub fn new(next_payload: IkePayloadType, dh_group: IkeDhGroup, public_key: Vec<u8>) -> (r: Self)
        ensures
            r == (IkeKePayload { next_payload, critical: false, dh_group, public_key }),
    {
        IkeKePayload { next_payload, critical: false, dh_group, public_key }
    }

    pub fn to_bytes(&self) -> (r: Vec<u8>)
        requires
            self.public_key@.len() <= usize::MAX - 4,
        ensures
            r@ == self.wire(),
    {
        let mut bytes: Vec<u8> = Vec::new();
        push_header(&mut bytes, self.next_payload, self.critical, 4 + self.public_key.len());
        push_be16(&mut bytes, self.dh_group.as_u16());
        bytes.push(0);
        bytes.push(0);
        push_slice(&mut bytes, self.public_key.as_slice());
        assert(bytes@ =~= self.wire());
        bytes
    }

    pub fn from_bytes(data: &[u8]) -> (r: Result<Self, IkeError>)
        ensures
            match Self::failure(data@) {
                Some(f) => r matches Err(e) && is_failure(e, f),
                None => r matches Ok(p) && Self::parsed_from(p, data@),
            },
    {
        if data.len() < 8 {
            return Err(IkeError::InvalidLength);
        }
        let (next_payload, critical) = read_header(data);
        let dh_group = match IkeDhGroup::from_u16(read_be16(data, 4)) {
            Some(g) => g,
            None => {
                return Err(IkeError::ParseError("无效的 DH 组".to_owned()));
            },
        };
        let public_key = copy_from(data, 8);
        Ok(IkeKePayload { next_payload, critical, dh_group, public_key })
    }
}

// ---------------------------------------------------------------- ID

/// The protocol/port field of an identification payload.
pub open spec fn id_protocol_port(protocol_id: Option<u8>, port: Option<u16>) -> u16 {
    match (protocol_id, port) {
        (Some(p), Some(q)) => ((p as u16) << 8u16) | q,
        (Some(p), None) => (p as u16) << 8u16,
        (None, _) => 0,
    }
}

/// Identification payload.
#[derive(Debug, Clone, PartialEq)]
pub struct IkeIdPayload {
    pub next_payload: IkePayloadType,
    pub critical: bool,
    pub id_type: IkeIdType,
    pub protocol_id: Option<u8>,
    pub port: Option<u16>,
    pub id_data: Vec<u8>,
}

impl IkeIdPayload {
    /// The wire bytes: header (length 8 plus the data), type,
    /// protocol/port field, three zero bytes, data.
    pub open spec fn wire(&self) -> Seq<u8> {
        header_for(self.next_payload, self.critical, 8 + self.id_data@.len()) + seq![self.id_type.value()]
            + u16_bytes(id_protocol_port(self.protocol_id, self.port)) + seq![0u8, 0u8, 0u8] + self.id_data@
    }

    pub open spec fn failure(data: Seq<u8>) -> Option<ParseFailure> {
        if data.len() < 8 {
            Some(ParseFailure::Length)
        } else if IkeIdType::from_value(data[4]) is None {
            Some(ParseFailure::Invalid("无效的 ID 类型"@))
        } else {
            None
        }
    }

    /// Whether `p` is what parsing `data` gives: the protocol is the high
    /// byte and the port the low byte of the field at offset 5, each only
    /// when not zero; the data starts at offset 8.
    pub open spec fn parsed_from(p: Self, data: Seq<u8>) -> bool {
        let pp = be16(data[5], data[6]);
        &&& p.next_payload == header_next(data)
        &&& p.critical == header_critical(data)
        &&& Some(p.id_type) == IkeIdType::from_value(data[4])
        &&& p.protocol_id == (if pp & 0xFF00u16 != 0 { Some((pp >> 8u16) as u8) } else { None })
        &&& p.port == (if pp & 0x00FFu16 != 0 { Some(pp & 0x00FFu16) } else { None })
        &&& p.id_data@ == data.skip(8)
    }

    pub fn new(next_payload: IkePayloadType, id_type: IkeIdType, id_data: Vec<u8>) -> (r: Self)
        ensures
            r == (IkeIdPayload { next_payload, critical: false, id_type, protocol_id: None, port: None, id_data }),
    {
        IkeIdPayload { next_payload, critical: false, id_type, protocol_id: None, port: None, id_data }
    }

    pub fn to_bytes(&self) -> (r: Vec<u8>)
        requires
            self.id_data@.len() <= usize::MAX - 8,
        ensures
            r@ == self.wire(),
    {
        let mut bytes: Vec<u8> = Vec::new();
        push_header(&mut bytes, self.next_payload, self.critical, 8 + self.id_data.len());
        bytes.push(self.id_type.as_u8());
        let protocol_port: u16 = match (self.protocol_id, self.port) {
            (Some(proto), Some(port)) => ((proto as u16) << 8) | port,
            (Some(proto), None) => (proto as u16) << 8,
            (None, _) => 0,
        };
        push_be16(&mut bytes, protocol_port);
        bytes.push(0);
        bytes.push(0);
        bytes.push(0);
        push_slice(&mut bytes, self.id_data.as_slice());
        assert(bytes@ =~= self.wire());
        bytes
    }

    pub fn from_bytes(data: &[u8]) -> (r: Result<Self, IkeError>)
        ensures
            match Self::failure(data@) {
                Some(f) => r matches Err(e) && is_failure(e, f),
                None => r matches Ok(p) && Self::parsed_from(p, data@),
            },
    {
        if data.len() < 8 {
            return Err(IkeError::InvalidLength);
        }
        let (next_payload, critical) = read_header(data);
        let id_type = match IkeIdType::from_u8(data[4]) {
            Some(t) => t,
            None => {
                return Err(IkeError::ParseError("无效的 ID 类型".to_owned()));
            },
        };
        let protocol_port = read_be16(data, 5);
        let protocol_id = if protocol_port & 0xFF00 != 0 { Some((protocol_port >> 8) as u8) } else { None };
        let port = if protocol_port & 0x00FF != 0 { Some(protocol_port & 0x00FF) } else { None };
        let id_data = copy_from(data, 8);
        Ok(IkeIdPayload { next_payload, critical, id_type, protocol_id, port, id_data })
    }
}

// ---------------------------------------------------------------- CERT, CERTREQ

/// Certificate payload.
#[derive(Debug, Clone, PartialEq)]
pub struct IkeCertPayload {
    pub next_payload: IkePayloadType,
    pub critical: bool,
    pub cert_data: Vec<u8>,
}

impl IkeCertPayload {
    /// The wire bytes: header (length 5 plus the data), encoding 4 (DER), data.
    pub open spec fn wire(&self) -> Seq<u8> {
        header_for(self.next_payload, self.critical, 5 + self.cert_data@.len()) + seq![4u8] + self.cert_data@
    }

    pub open spec fn failure(data: Seq<u8>) -> Option<ParseFailure> {
        if data.len() < 5 { Some(ParseFailure::Length) } else { None }
    }

    pub open spec fn parsed_from(p: Self, data: Seq<u8>) -> bool {
        &&& p.next_payload == header_next(data)
        &&& p.critical == header_critical(data)
        &&& p.cert_data@ == data.skip(5)
    }

    pub fn to_bytes(&self) -> (r: Vec<u8>)
        requires
            self.cert_data@.len() <= usize::MAX - 5,
        ensures
            r@ == self.wire(),
    {
        let mut bytes: Vec<u8> = Vec::new();
        push_header(&mut bytes, self.next_payload, self.critical, 5 + self.cert_data.len());
        bytes.push(4);
        push_slice(&mut bytes, self.cert_data.as_slice());
        assert(bytes@ =~= self.wire());
        bytes
    }

    pub fn from_bytes(data: &[u8]) -> (r: Result<Self, IkeError>)
        ensures
            match Self::failure(data@) {
                Some(f) => r matches Err(e) && is_failure(e, f),
                None => r matches Ok(p) && Self::parsed_from(p, data@),
            },
    {
        if data.len() < 5 {
            return Err(IkeError::InvalidLength);
        }
        let (next_payload, critical) = read_header(data);
        let cert_data = copy_from(data, 5);
        Ok(IkeCertPayload { next_payload, critical, cert_data })
    }
}

/// Certificate request payload.
#[derive(Debug, Clone, PartialEq)]
pub struct IkeCertReqPayload {
    pub next_payload: IkePayloadType,
    pub critical: bool,
    pub cert_type: u8,
    pub ca_data: Vec<u8>,
}

impl IkeCertReqPayload {
    /// The wire bytes: header (length 5 plus the data), type, data.
    pub open spec fn wire(&self) -> Seq<u8> {
        header_for(self.next_payload, self.critical, 5 + self.ca_data@.len()) + seq![self.cert_type] + self.ca_data@
    }

    pub open spec fn failure(data: Seq<u8>) -> Option<ParseFailure> {
        if data.len() < 5 { Some(ParseFailure::Length) } else { None }
    }

    pub open spec fn parsed_from(p: Self, data: Seq<u8>) -> bool {
        &&& p.next_payload == header_next(data)
        &&& p.critical == header_critical(data)
        &&& p.cert_type == data[4]
        &&& p.ca_data@ == data.skip(5)
    }

    pub fn to_bytes(&self) -> (r: Vec<u8>)
        requires
            self.ca_data@.len() <= usize::MAX - 5,
        ensures
            r@ == self.wire(),
    {
        let mut bytes: Vec<u8> = Vec::new();
        push_header(&mut bytes, self.next_payload, self.critical, 5 + self.ca_data.len());
        bytes.push(self.cert_type);
        push_slice(&mut bytes, self.ca_data.as_slice());
        assert(bytes@ =~= self.wire());
        bytes
    }

    pub fn from_bytes(data: &[u8]) -> (r: Result<Self, IkeError>)
        ensures
            match Self::failure(data@) {
                Some(f) => r matches Err(e) && is_failure(e, f),
                None => r matches Ok(p) && Self::parsed_from(p, data@),
            },
    {
        if data.len() < 5 {
            return Err(IkeError::InvalidLength);
        }
        let (next_payload, critical) = read_header(data);
        let cert_type = data[4];
        let ca_data = copy_from(data, 5);
        Ok(IkeCertReqPayload { next_payload, critical, cert_type, ca_data })
    }
}

// ---------------------------------------------------------------- AUTH

/// Authentication payload.
#[derive(Debug, Clone, PartialEq)]
pub struct IkeAuthPayload {
    pub next_payload: IkePayloadType,
    pub critical: bool,
    pub auth_method: IkeAuthMethod,
    pub auth_data: Vec<u8>,
}

impl IkeAuthPayload {
    /// The wire bytes: header (length 5 plus the data), method, three zero
    /// bytes, data.
    pub open spec fn wire(&self) -> Seq<u8> {
        header_for(self.next_payload, self.critical, 5 + self.auth_data@.len()) + seq![self.auth_method.value()]
            + seq![0u8, 0u8, 0u8] + self.auth_data@
    }

    pub open spec fn failure(data: Seq<u8>) -> Option<ParseFailure> {
        if data.len() < 8 {
            Some(ParseFailure::Length)
        } else if IkeAuthMethod::from_value(data[4]) is None {
            Some(ParseFailure::Invalid("无效的认证方法"@))
        } else {
            None
        }
    }

    pub open spec fn parsed_from(p: Self, data: Seq<u8>) -> bool {
        &&& p.next_payload == header_next(data)
        &&& p.critical == header_critical(data)
        &&& Some(p.auth_method) == IkeAuthMethod::from_value(data[4])
        &&& p.auth_data@ == data.skip(8)
    }

    pub fn new(next_payload: IkePayloadType, auth_method: IkeAuthMethod, auth_data: Vec<u8>) -> (r: Self)
        ensures
            r == (IkeAuthPayload { next_payload, critical: false, auth_method, auth_data }),
    {
        IkeAuthPayload { next_payload, critical: false, auth_method, auth_data }
    }

    pub fn to_bytes(&self) -> (r: Vec<u8>)
        requires
            self.auth_data@.len() <= usize::MAX - 5,
        ensures
            r@ == self.wire(),
    {
        let mut bytes: Vec<u8> = Vec::new();
        push_header(&mut bytes, self.next_payload, self.critical, 5 + self.auth_data.len());
        bytes.push(self.auth_method.as_u8());
        bytes.push(0);
        bytes.push(0);
        bytes.push(0);
        push_slice(&mut bytes, self.auth_data.as_slice());
        assert(bytes@ =~= self.wire());
        bytes
    }

    pub fn from_bytes(data: &[u8]) -> (r: Result<Self, IkeError>)
        ensures
            match Self::failure(data@) {
                Some(f) => r matches Err(e) && is_failure(e, f),
                None => r matches Ok(p) && Self::parsed_from(p, data@),
            },
    {
        if data.len() < 8 {
            return Err(IkeError::InvalidLength);
        }
        let (next_payload, critical) = read_header(data);
        let auth_method = match IkeAuthMethod::from_u8(data[4]) {
            Some(m) => m,
            None => {
                return Err(IkeError::ParseError("无效的认证方法".to_owned()));
            },
        };
        let auth_data = copy_from(data, 8);
        Ok(IkeAuthPayload { next_payload, critical, auth_method, auth_data })
    }
}

// ---------------------------------------------------------------- Nonce, Vendor

/// Nonce payload.
#[derive(Debug, Clone, PartialEq)]
pub struct IkeNoncePayload {
    pub next_payload: IkePayloadType,
    pub critical: bool,
    pub nonce_data: Vec<u8>,
}

impl IkeNoncePayload {
    /// The wire bytes: header (length 4 plus the nonce), nonce.
    pub open spec fn wire(&self) -> Seq<u8> {
        header_for(self.next_payload, self.critical, 4 + self.nonce_data@.len()) + self.nonce_data@
    }

    pub open spec fn failure(data: Seq<u8>) -> Option<ParseFailure> {
        if data.len() < 4 { Some(ParseFailure::Length) } else { None }
    }

    pub open spec fn parsed_from(p: Self, data: Seq<u8>) -> bool {
        &&& p.next_payload == header_next(data)
        &&& p.critical == header_critical(data)
        &&& p.nonce_data@ == data.skip(4)
    }

    pub fn new(next_payload: IkePayloadType, nonce_data: Vec<u8>) -> (r: Self)
        ensures
            r == (IkeNoncePayload { next_payload, critical: false, nonce_data }),
    {
        IkeNoncePayload { next_payload, critical: false, nonce_data }
    }

    pub fn to_bytes(&self) -> (r: Vec<u8>)
        requires
            self.nonce_data@.len() <= usize::MAX - 4,
        ensures
            r@ == self.wire(),
    {
        let mut bytes: Vec<u8> = Vec::new();
        push_header(&mut bytes, self.next_payload, self.critical, 4 + self.nonce_data.len());
        push_slice(&mut bytes, self.nonce_data.as_slice());
        bytes
    }

    pub fn from_bytes(data: &[u8]) -> (r: Result<Self, IkeError>)
        ensures
            match Self::failure(data@) {
                Some(f) => r matches Err(e) && is_failure(e, f),
                None => r matches Ok(p) && Self::parsed_from(p, data@),
            },
    {
        if data.len() < 4 {
            return Err(IkeError::InvalidLength);
        }
        let (next_payload, critical) = read_header(data);
        let nonce_data = copy_from(data, 4);
        Ok(IkeNoncePayload { next_payload, critical, nonce_data })
    }
}

/// Vendor ID payload.
#[derive(Debug, Clone, PartialEq)]
pub struct IkeVendorPayload {
    pub next_payload: IkePayloadType,
    pub critical: bool,
    pub vendor_id: Vec<u8>,
}

impl IkeVendorPayload {
    /// The wire bytes: header (length 4 plus the ID), ID.
    pub open spec fn wire(&self) -> Seq<u8> {
        header_for(self.next_payload, self.critical, 4 + self.vendor_id@.len()) + self.vendor_id@
    }

    pub open spec fn failure(data: Seq<u8>) -> Option<ParseFailure> {
        if data.len() < 4 { Some(ParseFailure::Length) } else { None }
    }

    pub open spec fn parsed_from(p: Self, data: Seq<u8>) -> bool {
        &&& p.next_payload == header_next(data)
        &&& p.critical == header_critical(data)
        &&& p.vendor_id@ == data.skip(4)
    }

    pub fn to_bytes(&self) -> (r: Vec<u8>)
        requires
            self.vendor_id@.len() <= usize::MAX - 4,
        ensures
            r@ == self.wire(),
    {
        let mut bytes: Vec<u8> = Vec::new();
        push_header(&mut bytes, self.next_payload, self.critical, 4 + self.vendor_id.len());
        push_slice(&mut bytes, self.vendor_id.as_slice());
        bytes
    }

    pub fn from_bytes(data: &[u8]) -> (r: Result<Self, IkeError>)
        ensures
            match Self::failure(data@) {
                Some(f) => r matches Err(e) && is_failure(e, f),
                None => r matches Ok(p) && Self::parsed_from(p, data@),
            },
    {
        if data.len() < 4 {
            return Err(IkeError::InvalidLength);
        }
        let (next_payload, critical) = read_header(data);
        let vendor_id = copy_from(data, 4);
        Ok(IkeVendorPayload { next_payload, critical, vendor_id })
    }
}

// ---------------------------------------------------------------- Notify

/// Notify payload.
#[derive(Debug, Clone, PartialEq)]
pub struct IkeNotifyPayload {
    pub next_payload: IkePayloadType,
    pub critical: bool,
    pub protocol_id: u8,
    pub spi_size: u8,
    pub notify_type: u16,
    pub spi: Vec<u8>,
    pub notify_data: Vec<u8>,
}

impl IkeNotifyPayload {
    /// The wire bytes: header (length 10 plus SPI and data), protocol, SPI
    /// size, type, SPI, data.
    pub open spec fn wire(&self) -> Seq<u8> {
        header_for(self.next_payload, self.critical, 10 + self.spi@.len() + self.notify_data@.len())
            + seq![self.protocol_id, self.spi_size] + u16_bytes(self.notify_type) + self.spi@ + self.notify_data@
    }

    pub open spec fn failure(data: Seq<u8>) -> Option<ParseFailure> {
        if data.len() < 10 || 10 + data[5] > data.len() { Some(ParseFailure::Length) } else { None }
    }

    /// Whether `p` is what parsing `data` gives: the SPI starts at offset 10.
    pub open spec fn parsed_from(p: Self, data: Seq<u8>) -> bool {
        &&& p.next_payload == header_next(data)
        &&& p.critical == header_critical(data)
        &&& p.protocol_id == data[4]
        &&& p.spi_size == data[5]
        &&& p.notify_type == be16(data[6], data[7])
        &&& p.spi@ == data.subrange(10, 10 + data[5])
        &&& p.notify_data@ == data.skip(10 + data[5])
    }

    pub fn to_bytes(&self) -> (r: Vec<u8>)
        requires
            self.spi@.len() + self.notify_data@.len() <= usize::MAX - 10,
        ensures
            r@ == self.wire(),
    {
        let mut bytes: Vec<u8> = Vec::new();
        push_header(&mut bytes, self.next_payload, self.critical, 10 + self.spi.len() + self.notify_data.len());
        bytes.push(self.protocol_id);
        bytes.push(self.spi_size);
        push_be16(&mut bytes, self.notify_type);
        push_slice(&mut bytes, self.spi.as_slice());
        push_slice(&mut bytes, self.notify_data.as_slice());
        assert(bytes@ =~= self.wire());
        bytes
    }

    pub fn from_bytes(data: &[u8]) -> (r: Result<Self, IkeError>)
        ensures
            match Self::failure(data@) {
                Some(f) => r matches Err(e) && is_failure(e, f),
                None => r matches Ok(p) && Self::parsed_from(p, data@),
            },
    {
        if data.len() < 10 {
            return Err(IkeError::InvalidLength);
        }
        let (next_payload, critical) = read_header(data);
        let protocol_id = data[4];
        let spi_size = data[5] as usize;
        let notify_type = read_be16(data, 6);
        let spi_end = 10 + spi_size;
        if spi_end > data.len() {
            return Err(IkeError::InvalidLength);
        }
        let spi = copy_range(data, 10, spi_end);
        let notify_data = copy_from(data, spi_end);
        Ok(IkeNotifyPayload { next_payload, critical, protocol_id, spi_size: data[5], notify_type, spi, notify_data })
    }
}

// ---------------------------------------------------------------- Delete

/// The SPIs of a delete payload as byte strings.
pub open spec fn spis_view(spis: Seq<Vec<u8>>) -> Seq<Seq<u8>> {
    spis.map_values(|v: Vec<u8>| v@)
}

/// Sum of the lengths of byte strings.
pub open spec fn total_len(s: Seq<Seq<u8>>) -> nat
    decreases s.len(),
{
    if s.len() == 0 { 0 } else { total_len(s.drop_last()) + s.last().len() }
}

/// Delete payload.
#[derive(Debug, Clone, PartialEq)]
pub struct IkeDeletePayload {
    pub next_payload: IkePayloadType,
    pub critical: bool,
    pub protocol_id: u8,
    pub spi_size: u8,
    pub num_spi: u16,
    pub spis: Vec<Vec<u8>>,
}

impl IkeDeletePayload {
    /// The wire bytes: header (length 10 plus the SPIs), protocol, SPI
    /// size, count, the SPIs one after another.
    pub open spec fn wire(&self) -> Seq<u8> {
        header_for(self.next_payload, self.critical, 10 + total_len(spis_view(self.spis@)))
            + seq![self.protocol_id, self.spi_size] + u16_bytes(self.num_spi) + spis_view(self.spis@).flatten()
    }

    pub open spec fn failure(data: Seq<u8>) -> Option<ParseFailure> {
        if data.len() < 10 || 10 + be16(data[6], data[7]) * data[5] > data.len() {
            Some(ParseFailure::Length)
        } else {
            None
        }
    }

    /// Whether `p` is what parsing `data` gives: as many SPIs as the count
    /// says, each of the given size, from offset 10.
    pub open spec fn parsed_from(p: Self, data: Seq<u8>) -> bool {
        let s = data[5] as int;
        &&& p.next_payload == header_next(data)
        &&& p.critical == header_critical(data)
        &&& p.protocol_id == data[4]
        &&& p.spi_size == data[5]
        &&& p.num_spi == be16(data[6], data[7])
        &&& p.spis@.len() == p.num_spi
        &&& forall|i: int| 0 <= i < p.spis@.len() ==> (#[trigger] p.spis@[i])@ == data.subrange(10 + i * s, 10 + (i + 1) * s)
    }

    pub fn to_bytes(&self) -> (r: Vec<u8>)
        requires
            10 + total_len(spis_view(self.spis@)) <= usize::MAX,
        ensures
            r@ == self.wire(),
    {
        let ghost sv = spis_view(self.spis@);
        let mut total: usize = 10;
        let mut i: usize = 0;
        while i < self.spis.len()
            invariant
                i <= self.spis@.len(),
                sv == spis_view(self.spis@),
                10 + total_len(sv) <= usize::MAX,
                total == 10 + total_len(sv.take(i as int)),
            decreases self.spis@.len() - i,
        {
            proof {
                lemma_total_len_prefix(sv, i + 1);
                lemma_total_len_monotone(sv, i + 1);
            }
            total = total + self.spis[i].len();
            i = i + 1;
        }
        assert(sv.take(i as int) =~= sv);
        let mut bytes: Vec<u8> = Vec::new();
        push_header(&mut bytes, self.next_payload, self.critical, total);
        bytes.push(self.protocol_id);
        bytes.push(self.spi_size);
        push_be16(&mut bytes, self.num_spi);
        let ghost pre = bytes@;
        let mut j: usize = 0;
        assert(sv.take(0).flatten() =~= Seq::<u8>::empty());
        while j < self.spis.len()
            invariant
                j <= self.spis@.len(),
                sv == spis_view(self.spis@),
                bytes@ == pre + sv.take(j as int).flatten(),
            decreases self.spis@.len() - j,
        {
            proof {
                assert(sv.take(j + 1) =~= sv.take(j as int).push(sv[j as int]));
                sv.take(j as int).lemma_flatten_push(sv[j as int]);
            }
            push_slice(&mut bytes, self.spis[j].as_slice());
            j = j + 1;
            assert(bytes@ =~= pre + sv.take(j as int).flatten());
        }
        assert(bytes@ =~= self.wire());
        bytes
    }

    pub fn from_bytes(data: &[u8]) -> (r: Result<Self, IkeError>)
        ensures
            match Self::failure(data@) {
                Some(f) => r matches Err(e) && is_failure(e, f),
                None => r matches Ok(p) && Self::parsed_from(p, data@),
            },
    {
        if data.len() < 10 {
            return Err(IkeError::InvalidLength);
        }
        let (next_payload, critical) = read_header(data);
        let protocol_id = data[4];
        let spi_size = data[5] as usize;
        let num_spi = read_be16(data, 6) as usize;
        let mut spis: Vec<Vec<u8>> = Vec::new();
        let mut offset: usize = 10;
        let mut k: usize = 0;
        while k < num_spi
            invariant
                k <= num_spi,
                num_spi == be16(data@[6], data@[7]),
                spi_size == data@[5],
                offset == 10 + k * spi_size,
                10 + k * spi_size <= data@.len(),
                spis@.len() == k,
                forall|i: int| 0 <= i < k ==> (#[trigger] spis@[i])@
                    == data@.subrange(10 + i * spi_size, 10 + (i + 1) * spi_size),
            decreases num_spi - k,
        {
            if data.len() - offset < spi_size {
                proof {
                    let n: int = data@.len() as int;
                    assert(10 + num_spi * spi_size > n) by (nonlinear_arith)
                        requires
                            offset == 10 + k * spi_size,
                            n - offset < spi_size,
                            k + 1 <= num_spi;
                }
                return Err(IkeError::InvalidLength);
            }
            spis.push(copy_range(data, offset, offset + spi_size));
            offset = offset + spi_size;
            k = k + 1;
            assert(offset == 10 + k * spi_size) by (nonlinear_arith)
                requires offset == 10 + (k - 1) * spi_size + spi_size;
        }
        proof {
            assert(num_spi * spi_size == k * spi_size);
        }
        Ok(IkeDeletePayload {
            next_payload,
            critical,
            protocol_id,
            spi_size: data[5],
            num_spi: num_spi as u16,
            spis,
        })
    }
}

proof fn lemma_total_len_prefix(s: Seq<Seq<u8>>, i: int)
    requires
        0 < i <= s.len(),
    ensures
        total_len(s.take(i)) == total_len(s.take(i - 1)) + s[i - 1].len(),
{
    assert(s.take(i).drop_last() =~= s.take(i - 1));
}

proof fn lemma_total_len_monotone(s: Seq<Seq<u8>>, i: int)
    requires
        0 <= i <= s.len(),
    ensures
        total_len(s.take(i)) <= total_len(s),
    decreases s.len() - i,
{
    if i < s.len() {
        lemma_total_len_monotone(s, i + 1);
        lemma_total_len_prefix(s, i + 1);
    } else {
        assert(s.take(i) =~= s);
    }
}

// ---------------------------------------------------------------- Traffic selectors

/// Traffic selector types: IPv4 (7) or IPv6 (8) address ranges.
#[derive(Debug, Clone, Copy, PartialEq, Eq, Structural)]
pub enum TsType {
    Ipv4,
    Ipv6,
}

impl TsType {
    pub open spec fn value(self) -> u8 {
        match self {
            TsType::Ipv4 => 7,
            TsType::Ipv6 => 8,
        }
    }

    pub open spec fn from_value(v: u8) -> Option<Self> {
        if v == 7 {
            Some(TsType::Ipv4)
        } else if v == 8 {
            Some(TsType::Ipv6)
        } else {
            None
        }
    }

    pub fn from_u8(value: u8) -> (r: Option<Self>)
        ensures
            r == Self::from_value(value),
    {
        match value {
            7 => Some(TsType::Ipv4),
            8 => Some(TsType::Ipv6),
            _ => None,
        }
    }

    pub fn as_u8(self) -> (r: u8)
        ensures
            r == self.value(),
    {
        match self {
            TsType::Ipv4 => 7,
            TsType::Ipv6 => 8,
        }
    }
}

/// A traffic selector as values.
pub struct TsModel {
    pub ts_type: TsType,
    pub protocol_id: u8,
    pub start_port: u16,
    pub end_port: u16,
    pub start_addr: Seq<u8>,
    pub end_addr: Seq<u8>,
}

/// Length of a traffic selector: 8 plus both addresses.
pub open spec fn ts_len(t: TsModel) -> nat {
    8 + t.start_addr.len() + t.end_addr.len()
}

/// The wire bytes of a traffic selector: type, protocol, ports, the
/// start address's length, start and end address.
pub open spec fn ts_wire(t: TsModel) -> Seq<u8> {
    seq![t.ts_type.value(), t.protocol_id] + u16_bytes(t.start_port) + u16_bytes(t.end_port)
        + u16_bytes(trunc16(t.start_addr.len())) + t.start_addr + t.end_addr
}

/// Parsing a traffic selector at the start of `data`.
pub open spec fn ts_parse(data: Seq<u8>) -> Result<TsModel, ParseFailure> {
    if data.len() < 8 {
        Err(ParseFailure::Length)
    } else if TsType::from_value(data[0]) is None {
        Err(ParseFailure::Invalid("无效的 TS 类型"@))
    } else {
        let al = be16(data[6], data[7]) as int;
        if data.len() < 8 + al * 2 {
            Err(ParseFailure::Length)
        } else {
            Ok(TsModel {
                ts_type: TsType::from_value(data[0])->0,
                protocol_id: data[1],
                start_port: be16(data[2], data[3]),
                end_port: be16(data[4], data[5]),
                start_addr: data.subrange(8, 8 + al),
                end_addr: data.subrange(8 + al, 8 + al * 2),
            })
        }
    }
}

/// Parsing up to `n` traffic selectors from `offset`, stopping early at
/// the end of the data.
pub open spec fn ts_list_parse(data: Seq<u8>, offset: nat, n: nat) -> Result<Seq<TsModel>, ParseFailure>
    decreases n,
{
    if n == 0 || offset >= data.len() {
        Ok(Seq::empty())
    } else {
        match ts_parse(data.skip(offset as int)) {
            Err(f) => Err(f),
            Ok(t) => match ts_list_parse(data, offset + ts_len(t), (n - 1) as nat) {
                Ok(rest) => Ok(seq![t] + rest),
                Err(f) => Err(f),
            },
        }
    }
}

/// A traffic selector.
#[derive(Debug, Clone, PartialEq)]
pub struct TrafficSelector {
    pub ts_type: TsType,
    pub protocol_id: u8,
    pub start_port: u16,
    pub end_port: u16,
    pub start_addr: Vec<u8>,
    pub end_addr: Vec<u8>,
}

impl View for TrafficSelector {
    type V = TsModel;

    open spec fn view(&self) -> TsModel {
        TsModel {
            ts_type: self.ts_type,
            protocol_id: self.protocol_id,
            start_port: self.start_port,
            end_port: self.end_port,
            start_addr: self.start_addr@,
            end_addr: self.end_addr@,
        }
    }
}

/// The selectors as values.
pub open spec fn ts_view(s: Seq<TrafficSelector>) -> Seq<TsModel> {
    s.map_values(|t: TrafficSelector| t@)
}

/// Sum of the lengths of selectors.
pub open spec fn ts_total(s: Seq<TsModel>) -> nat
    decreases s.len(),
{
    if s.len() == 0 { 0 } else { ts_total(s.drop_last()) + ts_len(s.last()) }
}

proof fn lemma_ts_total_prefix(s: Seq<TsModel>, i: int)
    requires
        0 < i <= s.len(),
    ensures
        ts_total(s.take(i)) == ts_total(s.take(i - 1)) + ts_len(s[i - 1]),
{
    assert(s.take(i).drop_last() =~= s.take(i - 1));
}

proof fn lemma_ts_total_monotone(s: Seq<TsModel>, i: int)
    requires
        0 <= i <= s.len(),
    ensures
        ts_total(s.take(i)) <= ts_total(s),
    decreases s.len() - i,
{
    if i < s.len() {
        lemma_ts_total_monotone(s, i + 1);
        lemma_ts_total_prefix(s, i + 1);
    } else {
        assert(s.take(i) =~= s);
    }
}

impl TrafficSelector {
    /// A selector of IPv4 addresses.
    pub fn ipv4(protocol_id: u8, start_port: u16, end_port: u16, start_addr: Ipv4Addr, end_addr: Ipv4Addr) -> (r: Self)
        ensures
            r@ == (TsModel { ts_type: TsType::Ipv4, protocol_id, start_port, end_port,
                start_addr: start_addr.bytes@, end_addr: end_addr.bytes@ }),
    {
        let s = copy_range(&start_addr.bytes, 0, 4);
        let e = copy_range(&end_addr.bytes, 0, 4);
        assert(s@ =~= start_addr.bytes@);
        assert(e@ =~= end_addr.bytes@);
        TrafficSelector { ts_type: TsType::Ipv4, protocol_id, start_port, end_port, start_addr: s, end_addr: e }
    }

    /// A selector of IPv6 addresses.
    pub fn ipv6(protocol_id: u8, start_port: u16, end_port: u16, start_addr: Ipv6Addr, end_addr: Ipv6Addr) -> (r: Self)
        ensures
            r@ == (TsModel { ts_type: TsType::Ipv6, protocol_id, start_port, end_port,
                start_addr: start_addr.bytes@, end_addr: end_addr.bytes@ }),
    {
        let s = copy_range(&start_addr.bytes, 0, 16);
        let e = copy_range(&end_addr.bytes, 0, 16);
        assert(s@ =~= start_addr.bytes@);
        assert(e@ =~= end_addr.bytes@);
        TrafficSelector { ts_type: TsType::Ipv6, protocol_id, start_port, end_port, start_addr: s, end_addr: e }
    }

    /// Length of the selector (see `ts_len`).
    pub fn bytes_len(&self) -> (r: usize)
        requires
            ts_len(self@) <= usize::MAX,
        ensures
            r == ts_len(self@),
    {
        8 + self.start_addr.len() + self.end_addr.len()
    }

    /// The wire bytes (see `ts_wire`).
    pub fn to_bytes(&self) -> (r: Vec<u8>)
        ensures
            r@ == ts_wire(self@),
    {
        let mut bytes: Vec<u8> = Vec::new();
        bytes.push(self.ts_type.as_u8());
        bytes.push(self.protocol_id);
        push_be16(&mut bytes, self.start_port);
        push_be16(&mut bytes, self.end_port);
        push_be16(&mut bytes, usize_to_u16(self.start_addr.len()));
        push_slice(&mut bytes, self.start_addr.as_slice());
        push_slice(&mut bytes, self.end_addr.as_slice());
        assert(bytes@ =~= ts_wire(self@));
        bytes
    }

    /// Parses a selector at the start of `data` (see `ts_parse`).
    pub fn from_bytes(data: &[u8]) -> (r: Result<Self, IkeError>)
        ensures
            match ts_parse(data@) {
                Err(f) => r matches Err(e) && is_failure(e, f),
                Ok(t) => r matches Ok(s) && s@ == t,
            },
    {
        if data.len() < 8 {
            return Err(IkeError::InvalidLength);
        }
        let ts_type = match TsType::from_u8(data[0]) {
            Some(t) => t,
            None => {
                return Err(IkeError::ParseError("无效的 TS 类型".to_owned()));
            },
        };
        let protocol_id = data[1];
        let start_port = read_be16(data, 2);
        let end_port = read_be16(data, 4);
        let addr_len = read_be16(data, 6) as usize;
        if data.len() < 8 + addr_len * 2 {
            return Err(IkeError::InvalidLength);
        }
        let start_addr = copy_range(data, 8, 8 + addr_len);
        let end_addr = copy_range(data, 8 + addr_len, 8 + addr_len * 2);
        Ok(TrafficSelector { ts_type, protocol_id, start_port, end_port, start_addr, end_addr })
    }
}

/// Traffic selector payload.
#[derive(Debug, Clone, PartialEq)]
pub struct IkeTsPayload {
    pub next_payload: IkePayloadType,
    pub critical: bool,
    pub num_ts: u8,
    pub traffic_selectors: Vec<TrafficSelector>,
}

impl IkeTsPayload {
    /// The wire bytes: header (length 8 plus the selectors), three zero
    /// bytes, the count, three zero bytes, the selectors.
    pub open spec fn wire(&self) -> Seq<u8> {
        let v = ts_view(self.traffic_selectors@);
        header_for(self.next_payload, self.critical, 8 + ts_total(v)) + seq![0u8, 0u8, 0u8, self.num_ts, 0u8, 0u8, 0u8]
            + v.map_values(|t: TsModel| ts_wire(t)).flatten()
    }

    /// Why parsing `data` fails, if it does.
    pub open spec fn failure(data: Seq<u8>) -> Option<ParseFailure> {
        if data.len() < 8 {
            Some(ParseFailure::Length)
        } else {
            match ts_list_parse(data, 8, data[7] as nat) {
                Err(f) => Some(f),
                Ok(_) => None,
            }
        }
    }

    /// Whether `p` is what parsing `data` gives: up to `data[7]` selectors from offset 8.
    pub open spec fn parsed_from(p: Self, data: Seq<u8>) -> bool {
        &&& p.next_payload == header_next(data)
        &&& p.critical == header_critical(data)
        &&& p.num_ts == data[7]
        &&& ts_list_parse(data, 8, data[7] as nat) == Ok::<Seq<TsModel>, ParseFailure>(ts_view(p.traffic_selectors@))
    }

    /// A payload with these selectors; the count keeps the low 8 bits of their number.
    pub fn new(next_payload: IkePayloadType, traffic_selectors: Vec<TrafficSelector>) -> (r: Self)
        ensures
            r.next_payload == next_payload,
            !r.critical,
            r.num_ts == (traffic_selectors@.len() % 256) as u8,
            r.traffic_selectors@ == traffic_selectors@,
    {
        let num_ts = (traffic_selectors.len() % 256) as u8;
        IkeTsPayload { next_payload, critical: false, num_ts, traffic_selectors }
    }

    pub fn to_bytes(&self) -> (r: Vec<u8>)
        requires
            8 + ts_total(ts_view(self.traffic_selectors@)) <= usize::MAX,
        ensures
            r@ == self.wire(),
    {
        let ghost v = ts_view(self.traffic_selectors@);
        let mut total: usize = 8;
        let mut i: usize = 0;
        while i < self.traffic_selectors.len()
            invariant
                i <= v.len(),
                v == ts_view(self.traffic_selectors@),
                8 + ts_total(v) <= usize::MAX,
                total == 8 + ts_total(v.take(i as int)),
            decreases v.len() - i,
        {
            proof {
                lemma_ts_total_prefix(v, i + 1);
                lemma_ts_total_monotone(v, i + 1);
                lemma_ts_total_monotone(v.take(i + 1), i + 1);
                assert(v.take(i + 1).take(i + 1) =~= v.take(i + 1));
                assert(v[i as int] == self.traffic_selectors@[i as int]@);
            }
            total = total + self.traffic_selectors[i].bytes_len();
            i = i + 1;
        }
        assert(v.take(i as int) =~= v);
        let mut bytes: Vec<u8> = Vec::new();
        push_header(&mut bytes, self.next_payload, self.critical, total);
        bytes.push(0);
        bytes.push(0);
        bytes.push(0);
        bytes.push(self.num_ts);
        bytes.push(0);
        bytes.push(0);
        bytes.push(0);
        let ghost pre = bytes@;
        let ghost w = v.map_values(|t: TsModel| ts_wire(t));
        let mut j: usize = 0;
        assert(w.take(0).flatten() =~= Seq::<u8>::empty());
        while j < self.traffic_selectors.len()
            invariant
                j <= v.len(),
                v == ts_view(self.traffic_selectors@),
                w == v.map_values(|t: TsModel| ts_wire(t)),
                bytes@ == pre + w.take(j as int).flatten(),
            decreases v.len() - j,
        {
            proof {
                assert(w.take(j + 1) =~= w.take(j as int).push(w[j as int]));
                w.take(j as int).lemma_flatten_push(w[j as int]);
            }
            let t = self.traffic_selectors[j].to_bytes();
            push_slice(&mut bytes, t.as_slice());
            j = j + 1;
            assert(bytes@ =~= pre + w.take(j as int).flatten());
        }
        assert(w.take(j as int) =~= w);
        assert(bytes@ =~= self.wire());
        bytes
    }

    pub fn from_bytes(data: &[u8]) -> (r: Result<Self, IkeError>)
        ensures
            match Self::failure(data@) {
                Some(f) => r matches Err(e) && is_failure(e, f),
                None => r matches Ok(p) && Self::parsed_from(p, data@),
            },
    {
        if data.len() < 8 {
            return Err(IkeError::InvalidLength);
        }
        let (next_payload, critical) = read_header(data);
        let num_ts = data[7];
        let ghost whole = ts_list_parse(data@, 8, num_ts as nat);
        let mut traffic_selectors: Vec<TrafficSelector> = Vec::new();
        let mut offset: usize = 8;
        let mut k: u8 = 0;
        while k < num_ts
            invariant
                k <= num_ts,
                offset <= data@.len(),
                data@.len() >= 8,
                num_ts == data@[7],
                whole == ts_list_parse(data@, 8, num_ts as nat),
                match ts_list_parse(data@, offset as nat, (num_ts - k) as nat) {
                    Ok(rest) => whole == Ok::<Seq<TsModel>, ParseFailure>(ts_view(traffic_selectors@) + rest),
                    Err(f) => whole == Err::<Seq<TsModel>, ParseFailure>(f),
                },
            ensures
                offset <= data@.len(),
                offset >= data@.len() || k == num_ts,
                whole == ts_list_parse(data@, 8, num_ts as nat),
                match ts_list_parse(data@, offset as nat, (num_ts - k) as nat) {
                    Ok(rest) => whole == Ok::<Seq<TsModel>, ParseFailure>(ts_view(traffic_selectors@) + rest),
                    Err(f) => whole == Err::<Seq<TsModel>, ParseFailure>(f),
                },
            decreases num_ts - k,
        {
            if offset >= data.len() {
                break;
            }
            let ts = match TrafficSelector::from_bytes(slice_subrange(data, offset, data.len())) {
                Ok(t) => t,
                Err(e) => {
                    assert(data@.subrange(offset as int, data@.len() as int) =~= data@.skip(offset as int));
                    proof {
                        let n = (num_ts - k) as nat;
                        assert(n > 0);
                        if let Err(f) = ts_parse(data@.skip(offset as int)) {
                            assert(ts_list_parse(data@, offset as nat, n) == Err::<Seq<TsModel>, ParseFailure>(f));
                        }
                    }
                    return Err(e);
                },
            };
            assert(data@.subrange(offset as int, data@.len() as int) =~= data@.skip(offset as int));
            let ghost before = ts_view(traffic_selectors@);
            offset = offset + ts.bytes_len();
            traffic_selectors.push(ts);
            k = k + 1;
            assert(ts_view(traffic_selectors@) =~= before.push(ts@));
            proof {
                match ts_list_parse(data@, offset as nat, (num_ts - k) as nat) {
                    Ok(rest) => {
                        assert(before + (seq![ts@] + rest) =~= before.push(ts@) + rest);
                    },
                    Err(f) => {},
                }
            }
        }
        proof {
            if offset >= data@.len() || k == num_ts {
                assert(ts_view(traffic_selectors@) + Seq::<TsModel>::empty() =~= ts_view(traffic_selectors@));
            }
        }
        Ok(IkeTsPayload { next_payload, critical, num_ts, traffic_selectors })
    }
}

// ---------------------------------------------------------------- SA

/// A transform attribute as values.
pub struct AttrModel {
    pub is_format: bool,
    pub attr_type: u16,
    pub value: Seq<u8>,
}

/// The length this library counts for an attribute: 4 plus the value in
/// the short form, 4 in the long form.
pub open spec fn attr_len(a: AttrModel) -> nat {
    if a.is_format { 4 + a.value.len() } else { 4 }
}

/// The wire bytes of an attribute: the type (top bit set in the short
/// form), then in the short form the value's first two bytes (two zero
/// bytes when it has fewer), in the long form its length and the value.
pub open spec fn attr_wire(a: AttrModel) -> Seq<u8> {
    if a.is_format {
        u16_bytes(a.attr_type | 0x8000u16) + (if a.value.len() >= 2 { a.value.take(2) } else { seq![0u8, 0u8] })
    } else {
        u16_bytes(a.attr_type) + u16_bytes(trunc16(a.value.len())) + a.value
    }
}

/// Parsing the attributes of a transform from `offset`: an attribute in
/// the short form (top bit of the type) takes two value bytes, one in the
/// long form four and ends the list; parsing stops at the end of the data.
pub open spec fn attrs_parse(data: Seq<u8>, offset: int) -> Seq<AttrModel>
    decreases data.len() - offset,
{
    if offset < 0 || offset + 4 > data.len() {
        Seq::empty()
    } else {
        let at = be16(data[offset], data[offset + 1]);
        let f = at & 0x8000u16 != 0;
        let vl: int = if f { 2 } else { 4 };
        if offset + 4 + vl > data.len() {
            Seq::empty()
        } else {
            let a = AttrModel { is_format: f, attr_type: at & 0x7FFFu16, value: data.subrange(offset + 4, offset + 4 + vl) };
            if !f { seq![a] } else { seq![a] + attrs_parse(data, offset + 4 + vl) }
        }
    }
}

/// Sum of the counted lengths of attributes.
pub open spec fn attrs_total(s: Seq<AttrModel>) -> nat
    decreases s.len(),
{
    if s.len() == 0 { 0 } else { attrs_total(s.drop_last()) + attr_len(s.last()) }
}

proof fn lemma_attrs_total_prefix(s: Seq<AttrModel>, i: int)
    requires
        0 < i <= s.len(),
    ensures
        attrs_total(s.take(i)) == attrs_total(s.take(i - 1)) + attr_len(s[i - 1]),
{
    assert(s.take(i).drop_last() =~= s.take(i - 1));
}

proof fn lemma_attrs_total_monotone(s: Seq<AttrModel>, i: int)
    requires
        0 <= i <= s.len(),
    ensures
        attrs_total(s.take(i)) <= attrs_total(s),
    decreases s.len() - i,
{
    if i < s.len() {
        lemma_attrs_total_monotone(s, i + 1);
        lemma_attrs_total_prefix(s, i + 1);
    } else {
        assert(s.take(i) =~= s);
    }
}

proof fn lemma_attrs_total_cons(a: AttrModel, r: Seq<AttrModel>)
    ensures
        attrs_total(seq![a] + r) == attr_len(a) + attrs_total(r),
    decreases r.len(),
{
    if r.len() == 0 {
        assert(seq![a] + r =~= seq![a]);
        assert(seq![a].drop_last() =~= Seq::<AttrModel>::empty());
        assert(seq![a].last() == a);
        assert(attrs_total(Seq::<AttrModel>::empty()) == 0);
        assert(attrs_total(seq![a]) == attrs_total(seq![a].drop_last()) + attr_len(a));
    } else {
        assert((seq![a] + r).last() == r.last());
        lemma_attrs_total_cons(a, r.drop_last());
        assert((seq![a] + r).drop_last() =~= seq![a] + r.drop_last());
    }
}

/// The attributes parsed from `offset` count at most the bytes after it.
proof fn lemma_attrs_parse_len(data: Seq<u8>, offset: int)
    requires
        0 <= offset <= data.len(),
    ensures
        attrs_total(attrs_parse(data, offset)) <= data.len() - offset,
    decreases data.len() - offset,
{
    if offset + 4 <= data.len() {
        let at = be16(data[offset], data[offset + 1]);
        let f = at & 0x8000u16 != 0;
        let vl: int = if f { 2 } else { 4 };
        if offset + 4 + vl <= data.len() {
            let a = AttrModel { is_format: f, attr_type: at & 0x7FFFu16, value: data.subrange(offset + 4, offset + 4 + vl) };
            if f {
                lemma_attrs_parse_len(data, offset + 4 + vl);
                lemma_attrs_total_cons(a, attrs_parse(data, offset + 4 + vl));
            } else {
                lemma_attrs_total_cons(a, Seq::empty());
                assert(seq![a] + Seq::<AttrModel>::empty() =~= seq![a]);
            }
        }
    }
}

/// A transform attribute.
#[derive(Debug, Clone, PartialEq)]
pub struct IkeTransformAttribute {
    pub is_format: bool,
    pub attr_type: u16,
    pub value: Vec<u8>,
}

impl View for IkeTransformAttribute {
    type V = AttrModel;

    open spec fn view(&self) -> AttrModel {
        AttrModel { is_format: self.is_format, attr_type: self.attr_type, value: self.value@ }
    }
}

/// The attributes as values.
pub open spec fn attrs_view(s: Seq<IkeTransformAttribute>) -> Seq<AttrModel> {
    s.map_values(|a: IkeTransformAttribute| a@)
}

impl IkeTransformAttribute {
    /// A copy.
    pub fn duplicate(&self) -> (r: Self)
        ensures
            r@ == self@,
    {
        let value = copy_range(self.value.as_slice(), 0, self.value.len());
        assert(value@ =~= self.value@);
        IkeTransformAttribute { is_format: self.is_format, attr_type: self.attr_type, value }
    }

    /// The counted length (see `attr_len`).
    pub fn to_bytes_len(&self) -> (r: usize)
        requires
            attr_len(self@) <= usize::MAX,
        ensures
            r == attr_len(self@),
    {
        if self.is_format { 4 + self.value.len() } else { 4 }
    }

    /// The wire bytes (see `attr_wire`).
    pub fn to_bytes(&self) -> (r: Vec<u8>)
        ensures
            r@ == attr_wire(self@),
    {
        let mut bytes: Vec<u8> = Vec::new();
        let attr_type: u16 = if self.is_format { self.attr_type | 0x8000 } else { self.attr_type };
        push_be16(&mut bytes, attr_type);
        if self.is_format {
            if self.value.len() >= 2 {
                bytes.push(self.value[0]);
                bytes.push(self.value[1]);
            } else {
                bytes.push(0);
                bytes.push(0);
            }
        } else {
            push_be16(&mut bytes, usize_to_u16(self.value.len()));
            push_slice(&mut bytes, self.value.as_slice());
        }
        assert(bytes@ =~= attr_wire(self@));
        bytes
    }
}

/// A transform as values.
pub struct TransformModel {
    pub is_last: bool,
    pub transform_type: IkeTransformType,
    pub transform_id: u16,
    pub attributes: Seq<AttrModel>,
}

/// The length this library counts for a transform: 8 plus its attributes.
pub open spec fn transform_len(t: TransformModel) -> nat {
    8 + attrs_total(t.attributes)
}

/// The wire bytes of a transform: last mark (0, else 3), zero, type,
/// zero, ID, attributes.
pub open spec fn transform_wire(t: TransformModel) -> Seq<u8> {
    seq![if t.is_last { 0u8 } else { 3u8 }, 0u8, t.transform_type.value(), 0u8] + u16_bytes(t.transform_id)
        + t.attributes.map_values(|a: AttrModel| attr_wire(a)).flatten()
}

/// Parsing a transform at the start of `data`.
pub open spec fn transform_parse(data: Seq<u8>) -> Result<TransformModel, ParseFailure> {
    if data.len() < 8 {
        Err(ParseFailure::Length)
    } else if IkeTransformType::from_value(data[2]) is None {
        Err(ParseFailure::Invalid("无效的 Transform 类型"@))
    } else {
        Ok(TransformModel {
            is_last: data[0] == 0,
            transform_type: IkeTransformType::from_value(data[2])->0,
            transform_id: be16(data[4], data[5]),
            attributes: attrs_parse(data, 8),
        })
    }
}

proof fn lemma_transform_parse_len(data: Seq<u8>)
    ensures
        transform_parse(data) matches Ok(t) ==> transform_len(t) <= data.len(),
{
    if data.len() >= 8 {
        lemma_attrs_parse_len(data, 8);
    }
}

/// Sum of the counted lengths of transforms.
pub open spec fn transforms_total(s: Seq<TransformModel>) -> nat
    decreases s.len(),
{
    if s.len() == 0 { 0 } else { transforms_total(s.drop_last()) + transform_len(s.last()) }
}

proof fn lemma_transforms_total_prefix(s: Seq<TransformModel>, i: int)
    requires
        0 < i <= s.len(),
    ensures
        transforms_total(s.take(i)) == transforms_total(s.take(i - 1)) + transform_len(s[i - 1]),
{
    assert(s.take(i).drop_last() =~= s.take(i - 1));
}

proof fn lemma_transforms_total_monotone(s: Seq<TransformModel>, i: int)
    requires
        0 <= i <= s.len(),
    ensures
        transforms_total(s.take(i)) <= transforms_total(s),
    decreases s.len() - i,
{
    if i < s.len() {
        lemma_transforms_total_monotone(s, i + 1);
        lemma_transforms_total_prefix(s, i + 1);
    } else {
        assert(s.take(i) =~= s);
    }
}

proof fn lemma_transforms_total_cons(a: TransformModel, r: Seq<TransformModel>)
    ensures
        transforms_total(seq![a] + r) == transform_len(a) + transforms_total(r),
    decreases r.len(),
{
    if r.len() == 0 {
        assert(seq![a] + r =~= seq![a]);
        assert(seq![a].drop_last() =~= Seq::<TransformModel>::empty());
        assert(seq![a].last() == a);
        assert(transforms_total(Seq::<TransformModel>::empty()) == 0);
        assert(transforms_total(seq![a]) == transforms_total(seq![a].drop_last()) + transform_len(a));
    } else {
        assert((seq![a] + r).last() == r.last());
        lemma_transforms_total_cons(a, r.drop_last());
        assert((seq![a] + r).drop_last() =~= seq![a] + r.drop_last());
    }
}

/// Parsing up to `n` transforms from `offset`, stopping early at the end
/// of the data.
pub open spec fn transforms_parse(data: Seq<u8>, offset: nat, n: nat) -> Result<Seq<TransformModel>, ParseFailure>
    decreases n,
{
    if n == 0 || offset >= data.len() {
        Ok(Seq::empty())
    } else {
        match transform_parse(data.skip(offset as int)) {
            Err(f) => Err(f),
            Ok(t) => match transforms_parse(data, offset + transform_len(t), (n - 1) as nat) {
                Ok(rest) => Ok(seq![t] + rest),
                Err(f) => Err(f),
            },
        }
    }
}

proof fn lemma_transforms_parse_len(data: Seq<u8>, offset: nat, n: nat)
    requires
        offset <= data.len(),
    ensures
        transforms_parse(data, offset, n) matches Ok(ts) ==> transforms_total(ts) <= data.len() - offset,
    decreases n,
{
    if n > 0 && offset < data.len() {
        lemma_transform_parse_len(data.skip(offset as int));
        if let Ok(t) = transform_parse(data.skip(offset as int)) {
            lemma_transforms_parse_len(data, offset + transform_len(t), (n - 1) as nat);
            if let Ok(rest) = transforms_parse(data, offset + transform_len(t), (n - 1) as nat) {
                lemma_transforms_total_cons(t, rest);
            }
        }
    }
}

/// A transform.
#[derive(Debug, Clone, PartialEq)]
pub struct IkeTransform {
    pub is_last: bool,
    pub transform_type: IkeTransformType,
    pub transform_id: u16,
    pub attributes: Vec<IkeTransformAttribute>,
}

impl View for IkeTransform {
    type V = TransformModel;

    open spec fn view(&self) -> TransformModel {
        TransformModel {
            is_last: self.is_last,
            transform_type: self.transform_type,
            transform_id: self.transform_id,
            attributes: attrs_view(self.attributes@),
        }
    }
}

/// The transforms as values.
pub open spec fn transforms_view(s: Seq<IkeTransform>) -> Seq<TransformModel> {
    s.map_values(|t: IkeTransform| t@)
}

impl IkeTransform {
    /// A copy.
    pub fn duplicate(&self) -> (r: Self)
        ensures
            r@ == self@,
    {
        let mut attributes: Vec<IkeTransformAttribute> = Vec::new();
        let mut i: usize = 0;
        while i < self.attributes.len()
            invariant
                i <= self.attributes@.len(),
                attrs_view(attributes@) == attrs_view(self.attributes@).take(i as int),
            decreases self.attributes@.len() - i,
        {
            let a = self.attributes[i].duplicate();
            let ghost before = attrs_view(attributes@);
            attributes.push(a);
            assert(attrs_view(attributes@) =~= before.push(a@));
            assert(attrs_view(self.attributes@)[i as int] == self.attributes@[i as int]@);
            i = i + 1;
            assert(attrs_view(attributes@) =~= attrs_view(self.attributes@).take(i as int));
        }
        assert(attrs_view(self.attributes@).take(i as int) =~= attrs_view(self.attributes@));
        IkeTransform {
            is_last: self.is_last,
            transform_type: self.transform_type,
            transform_id: self.transform_id,
            attributes,
        }
    }

    /// The counted length (see `transform_len`).
    pub fn to_bytes_len(&self) -> (r: usize)
        requires
            transform_len(self@) <= usize::MAX,
        ensures
            r == transform_len(self@),
    {
        let ghost v = attrs_view(self.attributes@);
        let mut total: usize = 8;
        let mut i: usize = 0;
        while i < self.attributes.len()
            invariant
                i <= v.len(),
                v == attrs_view(self.attributes@),
                8 + attrs_total(v) <= usize::MAX,
                total == 8 + attrs_total(v.take(i as int)),
            decreases v.len() - i,
        {
            proof {
                lemma_attrs_total_prefix(v, i + 1);
                lemma_attrs_total_monotone(v, i + 1);
                assert(v[i as int] == self.attributes@[i as int]@);
            }
            total = total + self.attributes[i].to_bytes_len();
            i = i + 1;
        }
        assert(v.take(i as int) =~= v);
        total
    }

    /// The wire bytes (see `transform_wire`).
    pub fn to_bytes(&self) -> (r: Vec<u8>)
        ensures
            r@ == transform_wire(self@),
    {
        let mut bytes: Vec<u8> = Vec::new();
        let last_byte: u8 = if self.is_last { 0 } else { 3 };
        bytes.push(last_byte);
        bytes.push(0);
        bytes.push(self.transform_type.as_u8());
        bytes.push(0);
        push_be16(&mut bytes, self.transform_id);
        let ghost pre = bytes@;
        let ghost w = attrs_view(self.attributes@).map_values(|a: AttrModel| attr_wire(a));
        let mut j: usize = 0;
        assert(w.take(0).flatten() =~= Seq::<u8>::empty());
        while j < self.attributes.len()
            invariant
                j <= self.attributes@.len(),
                w == attrs_view(self.attributes@).map_values(|a: AttrModel| attr_wire(a)),
                bytes@ == pre + w.take(j as int).flatten(),
            decreases self.attributes@.len() - j,
        {
            proof {
                assert(w.take(j + 1) =~= w.take(j as int).push(w[j as int]));
                w.take(j as int).lemma_flatten_push(w[j as int]);
            }
            let a = self.attributes[j].to_bytes();
            push_slice(&mut bytes, a.as_slice());
            j = j + 1;
            assert(bytes@ =~= pre + w.take(j as int).flatten());
        }
        assert(w.take(j as int) =~= w);
        assert(bytes@ =~= transform_wire(self@));
        bytes
    }

    /// Parses a transform at the start of `data` (see `transform_parse`).
    pub fn from_bytes(data: &[u8]) -> (r: Result<Self, IkeError>)
        ensures
            match transform_parse(data@) {
                Err(f) => r matches Err(e) && is_failure(e, f),
                Ok(t) => r matches Ok(x) && x@ == t,
            },
    {
        if data.len() < 8 {
            return Err(IkeError::InvalidLength);
        }
        let is_last = data[0] == 0;
        let transform_type = match IkeTransformType::from_u8(data[2]) {
            Some(t) => t,
            None => {
                return Err(IkeError::ParseError("无效的 Transform 类型".to_owned()));
            },
        };
        let transform_id = read_be16(data, 4);
        let ghost whole = attrs_parse(data@, 8);
        let mut attributes: Vec<IkeTransformAttribute> = Vec::new();
        let mut offset: usize = 8;
        while offset < data.len()
            invariant_except_break
                attrs_view(attributes@) + attrs_parse(data@, offset as int) == whole,
            invariant
                8 <= offset <= data@.len(),
                whole == attrs_parse(data@, 8),
            ensures
                attrs_view(attributes@) == whole,
            decreases data@.len() - offset,
        {
            let ghost before = attrs_view(attributes@);
            if data.len() - offset < 4 {
                assert(before + Seq::<AttrModel>::empty() =~= before);
                break;
            }
            let attr_type = read_be16(data, offset);
            let is_format = (attr_type & 0x8000) != 0;
            let attr_value_len: usize = if is_format { 2 } else { 4 };
            if data.len() - offset - 4 < attr_value_len {
                assert(before + Seq::<AttrModel>::empty() =~= before);
                break;
            }
            let value = copy_range(data, offset + 4, offset + 4 + attr_value_len);
            let attribute = IkeTransformAttribute { is_format, attr_type: attr_type & 0x7FFF, value };
            attributes.push(attribute);
            let ghost old_offset = offset as int;
            offset = offset + 4 + attr_value_len;
            assert(attrs_view(attributes@) =~= before.push(attribute@));
            if !is_format {
                assert(attrs_parse(data@, old_offset) =~= seq![attribute@]);
                assert(attrs_view(attributes@) =~= before + seq![attribute@]);
                break;
            }
            assert(attrs_parse(data@, old_offset) == seq![attribute@] + attrs_parse(data@, offset as int));
            assert(before + (seq![attribute@] + attrs_parse(data@, offset as int))
                =~= before.push(attribute@) + attrs_parse(data@, offset as int));
        }
        Ok(IkeTransform { is_last, transform_type, transform_id, attributes })
    }
}

/// A proposal as values.
pub struct ProposalModel {
    pub is_last: bool,
    pub proposal_num: u8,
    pub protocol_id: IkeProtocolId,
    pub spi_size: u8,
    pub num_transforms: u8,
    pub spi: Seq<u8>,
    pub transforms: Seq<TransformModel>,
}

/// The length this library counts for a proposal: 8 plus the SPI and its transforms.
pub open spec fn proposal_len(p: ProposalModel) -> nat {
    8 + p.spi.len() + transforms_total(p.transforms)
}

/// The wire bytes of a proposal: last mark (0, else 2), number, protocol,
/// SPI size, number of transforms (low 8 bits), two zero bytes, SPI, transforms.
pub open spec fn proposal_wire(p: ProposalModel) -> Seq<u8> {
    seq![if p.is_last { 0u8 } else { 2u8 }, p.proposal_num, p.protocol_id.value(), p.spi_size,
        (p.transforms.len() % 256) as u8, 0u8, 0u8] + p.spi
        + p.transforms.map_values(|t: TransformModel| transform_wire(t)).flatten()
}

/// Parsing a proposal at the start of `data`: the SPI from offset 8, then
/// up to the announced number of transforms.
pub open spec fn proposal_parse(data: Seq<u8>) -> Result<ProposalModel, ParseFailure> {
    if data.len() < 8 {
        Err(ParseFailure::Length)
    } else if IkeProtocolId::from_value(data[2]) is None {
        Err(ParseFailure::Invalid("无效的协议 ID"@))
    } else if 8 + data[3] > data.len() {
        Err(ParseFailure::Length)
    } else {
        match transforms_parse(data, (8 + data[3]) as nat, data[4] as nat) {
            Err(f) => Err(f),
            Ok(ts) => Ok(ProposalModel {
                is_last: data[0] == 0,
                proposal_num: data[1],
                protocol_id: IkeProtocolId::from_value(data[2])->0,
                spi_size: data[3],
                num_transforms: data[4],
                spi: data.subrange(8, 8 + data[3]),
                transforms: ts,
            }),
        }
    }
}

proof fn lemma_proposal_parse_len(data: Seq<u8>)
    ensures
        proposal_parse(data) matches Ok(p) ==> proposal_len(p) <= data.len(),
{
    if data.len() >= 8 && 8 + data[3] <= data.len() {
        lemma_transforms_parse_len(data, (8 + data[3]) as nat, data[4] as nat);
    }
}

/// Sum of the counted lengths of proposals.
pub open spec fn proposals_total(s: Seq<ProposalModel>) -> nat
    decreases s.len(),
{
    if s.len() == 0 { 0 } else { proposals_total(s.drop_last()) + proposal_len(s.last()) }
}

proof fn lemma_proposals_total_prefix(s: Seq<ProposalModel>, i: int)
    requires
        0 < i <= s.len(),
    ensures
        proposals_total(s.take(i)) == proposals_total(s.take(i - 1)) + proposal_len(s[i - 1]),
{
    assert(s.take(i).drop_last() =~= s.take(i - 1));
}

proof fn lemma_proposals_total_monotone(s: Seq<ProposalModel>, i: int)
    requires
        0 <= i <= s.len(),
    ensures
        proposals_total(s.take(i)) <= proposals_total(s),
    decreases s.len() - i,
{
    if i < s.len() {
        lemma_proposals_total_monotone(s, i + 1);
        lemma_proposals_total_prefix(s, i + 1);
    } else {
        assert(s.take(i) =~= s);
    }
}

/// Parsing proposals from `offset` to the end of the data.
pub open spec fn proposals_parse(data: Seq<u8>, offset: nat) -> Result<Seq<ProposalModel>, ParseFailure>
    decreases data.len() - offset,
{
    if offset >= data.len() {
        Ok(Seq::empty())
    } else {
        match proposal_parse(data.skip(offset as int)) {
            Err(f) => Err(f),
            Ok(p) => if offset + proposal_len(p) >= data.len() {
                Ok(seq![p])
            } else {
                match proposals_parse(data, offset + proposal_len(p)) {
                    Ok(rest) => Ok(seq![p] + rest),
                    Err(f) => Err(f),
                }
            },
        }
    }
}

/// A proposal.
#[derive(Debug, Clone, PartialEq)]
pub struct IkeProposal {
    pub is_last: bool,
    pub proposal_num: u8,
    pub protocol_id: IkeProtocolId,
    pub spi_size: u8,
    pub num_transforms: u8,
    pub spi: Vec<u8>,
    pub transforms: Vec<IkeTransform>,
}

impl View for IkeProposal {
    type V = ProposalModel;

    open spec fn view(&self) -> ProposalModel {
        ProposalModel {
            is_last: self.is_last,
            proposal_num: self.proposal_num,
            protocol_id: self.protocol_id,
            spi_size: self.spi_size,
            num_transforms: self.num_transforms,
            spi: self.spi@,
            transforms: transforms_view(self.transforms@),
        }
    }
}

/// The proposals as values.
pub open spec fn proposals_view(s: Seq<IkeProposal>) -> Seq<ProposalModel> {
    s.map_values(|p: IkeProposal| p@)
}

impl IkeProposal {
    /// A copy.
    pub fn duplicate(&self) -> (r: Self)
        ensures
            r@ == self@,
    {
        let mut transforms: Vec<IkeTransform> = Vec::new();
        let mut i: usize = 0;
        while i < self.transforms.len()
            invariant
                i <= self.transforms@.len(),
                transforms_view(transforms@) == transforms_view(self.transforms@).take(i as int),
            decreases self.transforms@.len() - i,
        {
            let t = self.transforms[i].duplicate();
            let ghost before = transforms_view(transforms@);
            transforms.push(t);
            assert(transforms_view(transforms@) =~= before.push(t@));
            assert(transforms_view(self.transforms@)[i as int] == self.transforms@[i as int]@);
            i = i + 1;
            assert(transforms_view(transforms@) =~= transforms_view(self.transforms@).take(i as int));
        }
        assert(transforms_view(self.transforms@).take(i as int) =~= transforms_view(self.transforms@));
        let spi = copy_range(self.spi.as_slice(), 0, self.spi.len());
        assert(spi@ =~= self.spi@);
        IkeProposal {
            is_last: self.is_last,
            proposal_num: self.proposal_num,
            protocol_id: self.protocol_id,
            spi_size: self.spi_size,
            num_transforms: self.num_transforms,
            spi,
            transforms,
        }
    }

    /// The counted length (see `proposal_len`).
    pub fn to_bytes_len(&self) -> (r: usize)
        requires
            proposal_len(self@) <= usize::MAX,
        ensures
            r == proposal_len(self@),
    {
        let ghost v = transforms_view(self.transforms@);
        let mut total: usize = 8 + self.spi.len();
        let mut i: usize = 0;
        while i < self.transforms.len()
            invariant
                i <= v.len(),
                v == transforms_view(self.transforms@),
                8 + self.spi@.len() + transforms_total(v) <= usize::MAX,
                total == 8 + self.spi@.len() + transforms_total(v.take(i as int)),
            decreases v.len() - i,
        {
            proof {
                lemma_transforms_total_prefix(v, i + 1);
                lemma_transforms_total_monotone(v, i + 1);
                assert(v[i as int] == self.transforms@[i as int]@);
            }
            total = total + self.transforms[i].to_bytes_len();
            i = i + 1;
        }
        assert(v.take(i as int) =~= v);
        total
    }

    /// The wire bytes (see `proposal_wire`).
    pub fn to_bytes(&self) -> (r: Vec<u8>)
        ensures
            r@ == proposal_wire(self@),
    {
        let mut bytes: Vec<u8> = Vec::new();
        let last_byte: u8 = if self.is_last { 0 } else { 2 };
        bytes.push(last_byte);
        bytes.push(self.proposal_num);
        bytes.push(self.protocol_id.as_u8());
        bytes.push(self.spi_size);
        bytes.push((self.transforms.len() % 256) as u8);
        bytes.push(0);
        bytes.push(0);
        push_slice(&mut bytes, self.spi.as_slice());
        let ghost pre = bytes@;
        let ghost w = transforms_view(self.transforms@).map_values(|t: TransformModel| transform_wire(t));
        let mut j: usize = 0;
        assert(w.take(0).flatten() =~= Seq::<u8>::empty());
        while j < self.transforms.len()
            invariant
                j <= self.transforms@.len(),
                w == transforms_view(self.transforms@).map_values(|t: TransformModel| transform_wire(t)),
                bytes@ == pre + w.take(j as int).flatten(),
            decreases self.transforms@.len() - j,
        {
            proof {
                assert(w.take(j + 1) =~= w.take(j as int).push(w[j as int]));
                w.take(j as int).lemma_flatten_push(w[j as int]);
            }
            let t = self.transforms[j].to_bytes();
            push_slice(&mut bytes, t.as_slice());
            j = j + 1;
            assert(bytes@ =~= pre + w.take(j as int).flatten());
        }
        assert(w.take(j as int) =~= w);
        assert(bytes@ =~= proposal_wire(self@));
        bytes
    }

    /// Parses a proposal at the start of `data` (see `proposal_parse`).
    pub fn from_bytes(data: &[u8]) -> (r: Result<Self, IkeError>)
        ensures
            match proposal_parse(data@) {
                Err(f) => r matches Err(e) && is_failure(e, f),
                Ok(p) => r matches Ok(x) && x@ == p,
            },
    {
        if data.len() < 8 {
            return Err(IkeError::InvalidLength);
        }
        let is_last = data[0] == 0;
        let proposal_num = data[1];
        let protocol_id = match IkeProtocolId::from_u8(data[2]) {
            Some(p) => p,
            None => {
                return Err(IkeError::ParseError("无效的协议 ID".to_owned()));
            },
        };
        let spi_size = data[3] as usize;
        let num_transforms = data[4];
        let spi_end = 8 + spi_size;
        if spi_end > data.len() {
            return Err(IkeError::InvalidLength);
        }
        let spi = copy_range(data, 8, spi_end);
        let ghost whole = transforms_parse(data@, spi_end as nat, num_transforms as nat);
        let mut transforms: Vec<IkeTransform> = Vec::new();
        let mut offset: usize = spi_end;
        let mut k: u8 = 0;
        while k < num_transforms
            invariant
                k <= num_transforms,
                offset <= data@.len(),
                data@.len() >= 8,
                IkeProtocolId::from_value(data@[2]) is Some,
                spi_end == 8 + data@[3],
                spi_end <= data@.len(),
                num_transforms == data@[4],
                whole == transforms_parse(data@, spi_end as nat, num_transforms as nat),
                match transforms_parse(data@, offset as nat, (num_transforms - k) as nat) {
                    Ok(rest) => whole == Ok::<Seq<TransformModel>, ParseFailure>(transforms_view(transforms@) + rest),
                    Err(f) => whole == Err::<Seq<TransformModel>, ParseFailure>(f),
                },
            ensures
                offset <= data@.len(),
                offset >= data@.len() || k == num_transforms,
                whole == transforms_parse(data@, spi_end as nat, num_transforms as nat),
                match transforms_parse(data@, offset as nat, (num_transforms - k) as nat) {
                    Ok(rest) => whole == Ok::<Seq<TransformModel>, ParseFailure>(transforms_view(transforms@) + rest),
                    Err(f) => whole == Err::<Seq<TransformModel>, ParseFailure>(f),
                },
            decreases num_transforms - k,
        {
            if offset >= data.len() {
                break;
            }
            let t = match IkeTransform::from_bytes(slice_subrange(data, offset, data.len())) {
                Ok(t) => t,
                Err(e) => {
                    assert(data@.subrange(offset as int, data@.len() as int) =~= data@.skip(offset as int));
                    proof {
                        if let Err(f) = transform_parse(data@.skip(offset as int)) {
                            assert(transforms_parse(data@, offset as nat, (num_transforms - k) as nat)
                                == Err::<Seq<TransformModel>, ParseFailure>(f));
                        }
                    }
                    return Err(e);
                },
            };
            assert(data@.subrange(offset as int, data@.len() as int) =~= data@.skip(offset as int));
            proof { lemma_transform_parse_len(data@.skip(offset as int)); }
            let ghost before = transforms_view(transforms@);
            offset = offset + t.to_bytes_len();
            transforms.push(t);
            k = k + 1;
            assert(transforms_view(transforms@) =~= before.push(t@));
            proof {
                match transforms_parse(data@, offset as nat, (num_transforms - k) as nat) {
                    Ok(rest) => {
                        assert(before + (seq![t@] + rest) =~= before.push(t@) + rest);
                    },
                    Err(f) => {},
                }
            }
        }
        assert(transforms_view(transforms@) + Seq::<TransformModel>::empty() =~= transforms_view(transforms@));
        Ok(IkeProposal {
            is_last,
            proposal_num,
            protocol_id,
            spi_size: data[3],
            num_transforms,
            spi,
            transforms,
        })
    }
}

/// Security association payload.
#[derive(Debug, Clone, PartialEq)]
pub struct IkeSaPayload {
    pub next_payload: IkePayloadType,
    pub critical: bool,
    pub proposals: Vec<IkeProposal>,
}

impl IkeSaPayload {
    /// The wire bytes: header (length 4 plus the counted proposal lengths),
    /// two zero bytes, the proposals.
    pub open spec fn wire(&self) -> Seq<u8> {
        let v = proposals_view(self.proposals@);
        header_for(self.next_payload, self.critical, 4 + proposals_total(v)) + seq![0u8, 0u8]
            + v.map_values(|p: ProposalModel| proposal_wire(p)).flatten()
    }

    /// Why parsing `data` fails, if it does.
    pub open spec fn failure(data: Seq<u8>) -> Option<ParseFailure> {
        if data.len() < 4 {
            Some(ParseFailure::Length)
        } else {
            match proposals_parse(data, 6) {
                Err(f) => Some(f),
                Ok(_) => None,
            }
        }
    }

    /// Whether `p` is what parsing `data` gives: proposals from offset 6 to the end.
    pub open spec fn parsed_from(p: Self, data: Seq<u8>) -> bool {
        &&& p.next_payload == header_next(data)
        &&& p.critical == header_critical(data)
        &&& proposals_parse(data, 6) == Ok::<Seq<ProposalModel>, ParseFailure>(proposals_view(p.proposals@))
    }

    pub fn to_bytes(&self) -> (r: Vec<u8>)
        requires
            4 + proposals_total(proposals_view(self.proposals@)) <= usize::MAX,
        ensures
            r@ == self.wire(),
    {
        let ghost v = proposals_view(self.proposals@);
        let mut total: usize = 4;
        let mut i: usize = 0;
        while i < self.proposals.len()
            invariant
                i <= v.len(),
                v == proposals_view(self.proposals@),
                4 + proposals_total(v) <= usize::MAX,
                total == 4 + proposals_total(v.take(i as int)),
            decreases v.len() - i,
        {
            proof {
                lemma_proposals_total_prefix(v, i + 1);
                lemma_proposals_total_monotone(v, i + 1);
                assert(v[i as int] == self.proposals@[i as int]@);
            }
            total = total + self.proposals[i].to_bytes_len();
            i = i + 1;
        }
        assert(v.take(i as int) =~= v);
        let mut bytes: Vec<u8> = Vec::new();
        push_header(&mut bytes, self.next_payload, self.critical, total);
        bytes.push(0);
        bytes.push(0);
        let ghost pre = bytes@;
        let ghost w = v.map_values(|p: ProposalModel| proposal_wire(p));
        let mut j: usize = 0;
        assert(w.take(0).flatten() =~= Seq::<u8>::empty());
        while j < self.proposals.len()
            invariant
                j <= v.len(),
                v == proposals_view(self.proposals@),
                w == v.map_values(|p: ProposalModel| proposal_wire(p)),
                bytes@ == pre + w.take(j as int).flatten(),
            decreases v.len() - j,
        {
            proof {
                assert(w.take(j + 1) =~= w.take(j as int).push(w[j as int]));
                w.take(j as int).lemma_flatten_push(w[j as int]);
            }
            let p = self.proposals[j].to_bytes();
            push_slice(&mut bytes, p.as_slice());
            j = j + 1;
            assert(bytes@ =~= pre + w.take(j as int).flatten());
        }
        assert(w.take(j as int) =~= w);
        assert(bytes@ =~= self.wire());
        bytes
    }

    pub fn from_bytes(data: &[u8]) -> (r: Result<Self, IkeError>)
        ensures
            match Self::failure(data@) {
                Some(f) => r matches Err(e) && is_failure(e, f),
                None => r matches Ok(p) && Self::parsed_from(p, data@),
            },
    {
        if data.len() < 4 {
            return Err(IkeError::InvalidLength);
        }
        let (next_payload, critical) = read_header(data);
        let ghost whole = proposals_parse(data@, 6);
        let mut proposals: Vec<IkeProposal> = Vec::new();
        let mut offset: usize = 6;
        while offset < data.len()
            invariant
                data@.len() >= 4,
                whole == proposals_parse(data@, 6),
                match proposals_parse(data@, offset as nat) {
                    Ok(rest) => whole == Ok::<Seq<ProposalModel>, ParseFailure>(proposals_view(proposals@) + rest),
                    Err(f) => whole == Err::<Seq<ProposalModel>, ParseFailure>(f),
                },
            ensures
                offset >= data@.len(),
                whole == proposals_parse(data@, 6),
                match proposals_parse(data@, offset as nat) {
                    Ok(rest) => whole == Ok::<Seq<ProposalModel>, ParseFailure>(proposals_view(proposals@) + rest),
                    Err(f) => whole == Err::<Seq<ProposalModel>, ParseFailure>(f),
                },
            decreases data@.len() - offset,
        {
            let p = match IkeProposal::from_bytes(slice_subrange(data, offset, data.len())) {
                Ok(p) => p,
                Err(e) => {
                    assert(data@.subrange(offset as int, data@.len() as int) =~= data@.skip(offset as int));
                    proof {
                        if let Err(f) = proposal_parse(data@.skip(offset as int)) {
                            assert(proposals_parse(data@, offset as nat) == Err::<Seq<ProposalModel>, ParseFailure>(f));
                        }
                    }
                    return Err(e);
                },
            };
            assert(data@.subrange(offset as int, data@.len() as int) =~= data@.skip(offset as int));
            proof { lemma_proposal_parse_len(data@.skip(offset as int)); }
            let ghost before = proposals_view(proposals@);
            offset = offset + p.to_bytes_len();
            proposals.push(p);
            assert(proposals_view(proposals@) =~= before.push(p@));
            proof {
                match proposals_parse(data@, offset as nat) {
                    Ok(rest) => {
                        assert(before + (seq![p@] + rest) =~= before.push(p@) + rest);
                    },
                    Err(f) => {},
                }
            }
            if offset >= data.len() {
                break;
            }
        }
        assert(proposals_view(proposals@) + Seq::<ProposalModel>::empty() =~= proposals_view(proposals@));
        Ok(IkeSaPayload { next_payload, critical, proposals })
    }
}

// ---------------------------------------------------------------- Payloads

/// A payload of any type.
#[derive(Debug, Clone, PartialEq)]
pub enum IkePayload {
    SA(IkeSaPayload),
    KE(IkeKePayload),
    IDi(IkeIdPayload),
    IDr(IkeIdPayload),
    CERT(IkeCertPayload),
    CERTREQ(IkeCertReqPayload),
    AUTH(IkeAuthPayload),
    Nonce(IkeNoncePayload),
    Notify(IkeNotifyPayload),
    Delete(IkeDeletePayload),
    Vendor(IkeVendorPayload),
    TSi(IkeTsPayload),
    TSr(IkeTsPayload),
}

impl IkePayload {
    /// The payload's type.
    pub open spec fn payload_type(&self) -> IkePayloadType {
        match self {
            IkePayload::SA(_) => IkePayloadType::SA,
            IkePayload::KE(_) => IkePayloadType::KE,
            IkePayload::IDi(_) => IkePayloadType::IDi,
            IkePayload::IDr(_) => IkePayloadType::IDr,
            IkePayload::CERT(_) => IkePayloadType::CERT,
            IkePayload::CERTREQ(_) => IkePayloadType::CERTREQ,
            IkePayload::AUTH(_) => IkePayloadType::AUTH,
            IkePayload::Nonce(_) => IkePayloadType::Nonce,
            IkePayload::Notify(_) => IkePayloadType::Notify,
            IkePayload::Delete(_) => IkePayloadType::Delete,
            IkePayload::Vendor(_) => IkePayloadType::Vendor,
            IkePayload::TSi(_) => IkePayloadType::TSi,
            IkePayload::TSr(_) => IkePayloadType::TSr,
        }
    }

    /// The payload's wire bytes.
    pub open spec fn wire(&self) -> Seq<u8> {
        match self {
            IkePayload::SA(p) => p.wire(),
            IkePayload::KE(p) => p.wire(),
            IkePayload::IDi(p) => p.wire(),
            IkePayload::IDr(p) => p.wire(),
            IkePayload::CERT(p) => p.wire(),
            IkePayload::CERTREQ(p) => p.wire(),
            IkePayload::AUTH(p) => p.wire(),
            IkePayload::Nonce(p) => p.wire(),
            IkePayload::Notify(p) => p.wire(),
            IkePayload::Delete(p) => p.wire(),
            IkePayload::Vendor(p) => p.wire(),
            IkePayload::TSi(p) => p.wire(),
            IkePayload::TSr(p) => p.wire(),
        }
    }

    /// Whether the payload's lengths can be counted in a `usize`.
    pub open spec fn fits(&self) -> bool {
        match self {
            IkePayload::SA(p) => 4 + proposals_total(proposals_view(p.proposals@)) <= usize::MAX,
            IkePayload::KE(p) => p.public_key@.len() <= usize::MAX - 4,
            IkePayload::IDi(p) => p.id_data@.len() <= usize::MAX - 8,
            IkePayload::IDr(p) => p.id_data@.len() <= usize::MAX - 8,
            IkePayload::CERT(p) => p.cert_data@.len() <= usize::MAX - 5,
            IkePayload::CERTREQ(p) => p.ca_data@.len() <= usize::MAX - 5,
            IkePayload::AUTH(p) => p.auth_data@.len() <= usize::MAX - 5,
            IkePayload::Nonce(p) => p.nonce_data@.len() <= usize::MAX - 4,
            IkePayload::Notify(p) => p.spi@.len() + p.notify_data@.len() <= usize::MAX - 10,
            IkePayload::Delete(p) => 10 + total_len(spis_view(p.spis@)) <= usize::MAX,
            IkePayload::Vendor(p) => p.vendor_id@.len() <= usize::MAX - 4,
            IkePayload::TSi(p) => 8 + ts_total(ts_view(p.traffic_selectors@)) <= usize::MAX,
            IkePayload::TSr(p) => 8 + ts_total(ts_view(p.traffic_selectors@)) <= usize::MAX,
        }
    }

    /// Why parsing `data` as a payload of type `t` fails, if it does.
    pub open spec fn failure(data: Seq<u8>, t: IkePayloadType) -> Option<ParseFailure> {
        match t {
            IkePayloadType::SA => IkeSaPayload::failure(data),
            IkePayloadType::KE => IkeKePayload::failure(data),
            IkePayloadType::IDi => IkeIdPayload::failure(data),
            IkePayloadType::IDr => IkeIdPayload::failure(data),
            IkePayloadType::CERT => IkeCertPayload::failure(data),
            IkePayloadType::CERTREQ => IkeCertReqPayload::failure(data),
            IkePayloadType::AUTH => IkeAuthPayload::failure(data),
            IkePayloadType::Nonce => IkeNoncePayload::failure(data),
            IkePayloadType::Notify => IkeNotifyPayload::failure(data),
            IkePayloadType::Delete => IkeDeletePayload::failure(data),
            IkePayloadType::Vendor => IkeVendorPayload::failure(data),
            IkePayloadType::TSi => IkeTsPayload::failure(data),
            IkePayloadType::TSr => IkeTsPayload::failure(data),
            IkePayloadType::NoNext => Some(ParseFailure::Unsupported(0)),
        }
    }

    /// Whether `p` is what parsing `data` as a payload of type `t` gives.
    pub open spec fn parsed_from(p: Self, data: Seq<u8>, t: IkePayloadType) -> bool {
        match p {
            IkePayload::SA(x) => t == IkePayloadType::SA && IkeSaPayload::parsed_from(x, data),
            IkePayload::KE(x) => t == IkePayloadType::KE && IkeKePayload::parsed_from(x, data),
            IkePayload::IDi(x) => t == IkePayloadType::IDi && IkeIdPayload::parsed_from(x, data),
            IkePayload::IDr(x) => t == IkePayloadType::IDr && IkeIdPayload::parsed_from(x, data),
            IkePayload::CERT(x) => t == IkePayloadType::CERT && IkeCertPayload::parsed_from(x, data),
            IkePayload::CERTREQ(x) => t == IkePayloadType::CERTREQ && IkeCertReqPayload::parsed_from(x, data),
            IkePayload::AUTH(x) => t == IkePayloadType::AUTH && IkeAuthPayload::parsed_from(x, data),
            IkePayload::Nonce(x) => t == IkePayloadType::Nonce && IkeNoncePayload::parsed_from(x, data),
            IkePayload::Notify(x) => t == IkePayloadType::Notify && IkeNotifyPayload::parsed_from(x, data),
            IkePayload::Delete(x) => t == IkePayloadType::Delete && IkeDeletePayload::parsed_from(x, data),
            IkePayload::Vendor(x) => t == IkePayloadType::Vendor && IkeVendorPayload::parsed_from(x, data),
            IkePayload::TSi(x) => t == IkePayloadType::TSi && IkeTsPayload::parsed_from(x, data),
            IkePayload::TSr(x) => t == IkePayloadType::TSr && IkeTsPayload::parsed_from(x, data),
        }
    }

    pub fn get_type(&self) -> (r: IkePayloadType)
        ensures
            r == self.payload_type(),
    {
        match self {
            IkePayload::SA(_) => IkePayloadType::SA,
            IkePayload::KE(_) => IkePayloadType::KE,
            IkePayload::IDi(_) => IkePayloadType::IDi,
            IkePayload::IDr(_) => IkePayloadType::IDr,
            IkePayload::CERT(_) => IkePayloadType::CERT,
            IkePayload::CERTREQ(_) => IkePayloadType::CERTREQ,
            IkePayload::AUTH(_) => IkePayloadType::AUTH,
            IkePayload::Nonce(_) => IkePayloadType::Nonce,
            IkePayload::Notify(_) => IkePayloadType::Notify,
            IkePayload::Delete(_) => IkePayloadType::Delete,
            IkePayload::Vendor(_) => IkePayloadType::Vendor,
            IkePayload::TSi(_) => IkePayloadType::TSi,
            IkePayload::TSr(_) => IkePayloadType::TSr,
        }
    }

    /// The payload's wire bytes.
    pub fn to_bytes(&self) -> (r: Vec<u8>)
        requires
            self.fits(),
        ensures
            r@ == self.wire(),
    {
        match self {
            IkePayload::SA(p) => p.to_bytes(),
            IkePayload::KE(p) => p.to_bytes(),
            IkePayload::IDi(p) => p.to_bytes(),
            IkePayload::IDr(p) => p.to_bytes(),
            IkePayload::CERT(p) => p.to_bytes(),
            IkePayload::CERTREQ(p) => p.to_bytes(),
            IkePayload::AUTH(p) => p.to_bytes(),
            IkePayload::Nonce(p) => p.to_bytes(),
            IkePayload::Notify(p) => p.to_bytes(),
            IkePayload::Delete(p) => p.to_bytes(),
            IkePayload::Vendor(p) => p.to_bytes(),
            IkePayload::TSi(p) => p.to_bytes(),
            IkePayload::TSr(p) => p.to_bytes(),
        }
    }

    /// Parses `data` as a payload of type `payload_type`; `NoNext` has none.
    pub fn from_bytes(data: &[u8], payload_type: IkePayloadType) -> (r: Result<Self, IkeError>)
        ensures
            match Self::failure(data@, payload_type) {
                Some(f) => r matches Err(e) && is_failure(e, f),
                None => r matches Ok(p) && Self::parsed_from(p, data@, payload_type),
            },
    {
        match payload_type {
            IkePayloadType::SA => match IkeSaPayload::from_bytes(data) {
                Ok(p) => Ok(IkePayload::SA(p)),
                Err(e) => Err(e),
            },
            IkePayloadType::KE => match IkeKePayload::from_bytes(data) {
                Ok(p) => Ok(IkePayload::KE(p)),
                Err(e) => Err(e),
            },
            IkePayloadType::IDi => match IkeIdPayload::from_bytes(data) {
                Ok(p) => Ok(IkePayload::IDi(p)),
                Err(e) => Err(e),
            },
            IkePayloadType::IDr => match IkeIdPayload::from_bytes(data) {
                Ok(p) => Ok(IkePayload::IDr(p)),
                Err(e) => Err(e),
            },
            IkePayloadType::CERT => match IkeCertPayload::from_bytes(data) {
                Ok(p) => Ok(IkePayload::CERT(p)),
                Err(e) => Err(e),
            },
            IkePayloadType::CERTREQ => match IkeCertReqPayload::from_bytes(data) {
                Ok(p) => Ok(IkePayload::CERTREQ(p)),
                Err(e) => Err(e),
            },
            IkePayloadType::AUTH => match IkeAuthPayload::from_bytes(data) {
                Ok(p) => Ok(IkePayload::AUTH(p)),
                Err(e) => Err(e),
            },
            IkePayloadType::Nonce => match IkeNoncePayload::from_bytes(data) {
                Ok(p) => Ok(IkePayload::Nonce(p)),
                Err(e) => Err(e),
            },
            IkePayloadType::Notify => match IkeNotifyPayload::from_bytes(data) {
                Ok(p) => Ok(IkePayload::Notify(p)),
                Err(e) => Err(e),
            },
            IkePayloadType::Delete => match IkeDeletePayload::from_bytes(data) {
                Ok(p) => Ok(IkePayload::Delete(p)),
                Err(e) => Err(e),
            },
            IkePayloadType::Vendor => match IkeVendorPayload::from_bytes(data) {
                Ok(p) => Ok(IkePayload::Vendor(p)),
                Err(e) => Err(e),
            },
            IkePayloadType::TSi => match IkeTsPayload::from_bytes(data) {
                Ok(p) => Ok(IkePayload::TSi(p)),
                Err(e) => Err(e),
            },
            IkePayloadType::TSr => match IkeTsPayload::from_bytes(data) {
                Ok(p) => Ok(IkePayload::TSr(p)),
                Err(e) => Err(e),
            },
            IkePayloadType::NoNext => Err(IkeError::UnsupportedPayloadType(payload_type.as_u8())),
        }
    }
}

/// The header written for a payload reads back as its next type and
/// critical flag.
proof fn lemma_header_reads_back(next: IkePayloadType, critical: bool, len: nat, rest: Seq<u8>)
    ensures
        (header_for(next, critical, len) + rest).len() == 4 + rest.len(),
        header_next(header_for(next, critical, len) + rest) == next,
        header_critical(header_for(next, critical, len) + rest) == critical,
        (header_for(next, critical, len) + rest).skip(4) == rest,
{
    let d = header_for(next, critical, len) + rest;
    IkePayloadType::lemma_roundtrip();
    assert(IkePayloadType::from_value(next.value()) == Some(next));
    assert((0x80u8 & 0x80u8) != 0u8) by (bit_vector);
    assert((0u8 & 0x80u8) == 0u8) by (bit_vector);
    assert(d.skip(4) =~= rest);
}

/// Reading back the bytes written for a key exchange, certificate,
/// certificate request, authentication, nonce or vendor payload gives the
/// payload.
pub proof fn lemma_simple_payloads_roundtrip(
    ke: IkeKePayload,
    cert: IkeCertPayload,
    certreq: IkeCertReqPayload,
    auth: IkeAuthPayload,
    nonce: IkeNoncePayload,
    vendor: IkeVendorPayload,
)
    ensures
        IkeKePayload::failure(ke.wire()) is None && IkeKePayload::parsed_from(ke, ke.wire()),
        IkeCertPayload::failure(cert.wire()) is None && IkeCertPayload::parsed_from(cert, cert.wire()),
        IkeCertReqPayload::failure(certreq.wire()) is None && IkeCertReqPayload::parsed_from(certreq, certreq.wire()),
        IkeAuthPayload::failure(auth.wire()) is None && IkeAuthPayload::parsed_from(auth, auth.wire()),
        IkeNoncePayload::failure(nonce.wire()) is None && IkeNoncePayload::parsed_from(nonce, nonce.wire()),
        IkeVendorPayload::failure(vendor.wire()) is None && IkeVendorPayload::parsed_from(vendor, vendor.wire()),
{
    IkeDhGroup::lemma_roundtrip();
    IkeAuthMethod::lemma_roundtrip();

    let kr = u16_bytes(ke.dh_group.value()) + seq![0u8, 0u8] + ke.public_key@;
    lemma_header_reads_back(ke.next_payload, ke.critical, 4 + ke.public_key@.len(), kr);
    assert(ke.wire() == header_for(ke.next_payload, ke.critical, 4 + ke.public_key@.len()) + kr);
    lemma_be16_roundtrip(ke.dh_group.value());
    assert(ke.wire().skip(8) =~= ke.public_key@);
    assert(IkeDhGroup::from_value(ke.dh_group.value()) == Some(ke.dh_group));

    let cr = seq![4u8] + cert.cert_data@;
    lemma_header_reads_back(cert.next_payload, cert.critical, 5 + cert.cert_data@.len(), cr);
    assert(cert.wire() == header_for(cert.next_payload, cert.critical, 5 + cert.cert_data@.len()) + cr);
    assert(cert.wire().skip(5) =~= cert.cert_data@);

    let qr = seq![certreq.cert_type] + certreq.ca_data@;
    lemma_header_reads_back(certreq.next_payload, certreq.critical, 5 + certreq.ca_data@.len(), qr);
    assert(certreq.wire() == header_for(certreq.next_payload, certreq.critical, 5 + certreq.ca_data@.len()) + qr);
    assert(certreq.wire().skip(5) =~= certreq.ca_data@);

    let ar = seq![auth.auth_method.value()] + seq![0u8, 0u8, 0u8] + auth.auth_data@;
    lemma_header_reads_back(auth.next_payload, auth.critical, 5 + auth.auth_data@.len(), ar);
    assert(auth.wire() == header_for(auth.next_payload, auth.critical, 5 + auth.auth_data@.len()) + ar);
    assert(auth.wire().skip(8) =~= auth.auth_data@);
    assert(IkeAuthMethod::from_value(auth.auth_method.value()) == Some(auth.auth_method));

    lemma_header_reads_back(nonce.next_payload, nonce.critical, 4 + nonce.nonce_data@.len(), nonce.nonce_data@);
    lemma_header_reads_back(vendor.next_payload, vendor.critical, 4 + vendor.vendor_id@.len(), vendor.vendor_id@);

}

} // verus!
