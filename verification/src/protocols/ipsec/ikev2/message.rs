use vstd::prelude::*;
use vstd::slice::slice_subrange;
use crate::common::bytes::{be16, be32, u32_bytes, read_be16, read_be32, push_be32, push_slice, usize_to_u32, trunc32};
use crate::common::error::{CoreError, core_error_debug};
use super::types::{IkeExchangeType, IkeFlags, IkePayloadType, IkeError, flags_octet, IKEV2_VERSION};
use super::payload::{IkePayload, ParseFailure, is_failure};

verus! {

/// The IKE message header.
#[derive(Debug, Clone, Copy, PartialEq, Eq)]
pub struct IkeHeader {
    pub initiator_spi: [u8; 8],
    pub responder_spi: [u8; 8],
    pub next_payload: u8,
    pub version: u8,
    pub exchange_type: IkeExchangeType,
    pub flags: IkeFlags,
    pub message_id: u32,
    /// Length of the whole message.
    pub length: u32,
}

/// The 28 wire bytes of a header.
pub open spec fn header_wire(h: IkeHeader) -> Seq<u8> {
    h.initiator_spi@ + h.responder_spi@ + seq![h.next_payload, h.version, h.exchange_type.value(), flags_octet(h.flags)]
        + u32_bytes(h.message_id) + u32_bytes(h.length)
}

/// Whether `h` is the header at the start of `data`.
pub open spec fn header_from(h: IkeHeader, data: Seq<u8>) -> bool {
    &&& h.initiator_spi@ == data.subrange(0, 8)
    &&& h.responder_spi@ == data.subrange(8, 16)
    &&& h.next_payload == data[16]
    &&& h.version == data[17]
    &&& Some(h.exchange_type) == IkeExchangeType::from_value(data[18])
    &&& h.flags.initiator == (data[19] & 0x08 != 0)
    &&& h.flags.version == (data[19] & 0x10 != 0)
    &&& h.flags.response == (data[19] & 0x20 != 0)
    &&& h.message_id == be32(data[20], data[21], data[22], data[23])
    &&& h.length == be32(data[24], data[25], data[26], data[27])
}

/// Eight bytes of `s` from `off`.
fn array8_at(s: &[u8], off: usize) -> (r: [u8; 8])
    requires
        off + 8 <= s@.len(),
    ensures
        r@ == s@.subrange(off as int, off + 8),
{
    let r: [u8; 8] = [s[off], s[off + 1], s[off + 2], s[off + 3], s[off + 4], s[off + 5], s[off + 6], s[off + 7]];
    assert(r@ =~= s@.subrange(off as int, off + 8));
    r
}

impl IkeHeader {
    /// A header of length 28 (no payloads yet), version 2.0.
    pub fn new(initiator_spi: [u8; 8], responder_spi: [u8; 8], next_payload: IkePayloadType,
        exchange_type: IkeExchangeType, flags: IkeFlags, message_id: u32) -> (r: Self)
        ensures
            r == (IkeHeader {
                initiator_spi,
                responder_spi,
                next_payload: next_payload.value(),
                version: IKEV2_VERSION,
                exchange_type,
                flags,
                message_id,
                length: 28,
            }),
    {
        IkeHeader {
            initiator_spi,
            responder_spi,
            next_payload: next_payload.as_u8(),
            version: IKEV2_VERSION,
            exchange_type,
            flags,
            message_id,
            length: 28,
        }
    }

    /// The header of an IKE_SA_INIT request by the initiator: no responder
    /// SPI, message 0, an SA payload first.
    pub fn init_request(initiator_spi: [u8; 8]) -> (r: Self)
        ensures
            r.initiator_spi == initiator_spi,
            r.responder_spi@ == Seq::new(8, |_i: int| 0u8),
            r.next_payload == IkePayloadType::SA.value(),
            r.version == IKEV2_VERSION,
            r.exchange_type == IkeExchangeType::IkeSaInit,
            r.flags == (IkeFlags { initiator: true, version: false, response: false }),
            r.message_id == 0,
            r.length == 28,
    {
        let r = IkeHeader {
            initiator_spi,
            responder_spi: [0u8; 8],
            next_payload: IkePayloadType::SA.as_u8(),
            version: IKEV2_VERSION,
            exchange_type: IkeExchangeType::IkeSaInit,
            flags: IkeFlags::request(true),
            message_id: 0,
            length: 28,
        };
        assert(r.responder_spi@ =~= Seq::new(8, |_i: int| 0u8));
        r
    }

    /// The header answering this one: same SPIs, exchange and message ID,
    /// the response flag set and the initiator flag kept.
    pub fn response(&self, next_payload: IkePayloadType, length: u32) -> (r: Self)
        ensures
            r == (IkeHeader {
                initiator_spi: self.initiator_spi,
                responder_spi: self.responder_spi,
                next_payload: next_payload.value(),
                version: IKEV2_VERSION,
                exchange_type: self.exchange_type,
                flags: IkeFlags { initiator: self.flags.initiator, version: false, response: true },
                message_id: self.message_id,
                length,
            }),
    {
        IkeHeader {
            initiator_spi: self.initiator_spi,
            responder_spi: self.responder_spi,
            next_payload: next_payload.as_u8(),
            version: IKEV2_VERSION,
            exchange_type: self.exchange_type,
            flags: IkeFlags::response(self.flags.initiator),
            message_id: self.message_id,
            length,
        }
    }

    pub fn is_response(&self) -> (r: bool)
        ensures
            r == self.flags.response,
    {
        self.flags.response
    }

    pub fn is_from_initiator(&self) -> (r: bool)
        ensures
            r == self.flags.initiator,
    {
        self.flags.initiator
    }

    /// The 28 wire bytes (see `header_wire`).
    pub fn to_bytes(&self) -> (r: Vec<u8>)
        ensures
            r@ == header_wire(*self),
    {
        let mut bytes: Vec<u8> = Vec::new();
        push_slice(&mut bytes, &self.initiator_spi);
        push_slice(&mut bytes, &self.responder_spi);
        bytes.push(self.next_payload);
        bytes.push(self.version);
        bytes.push(self.exchange_type.as_u8());
        bytes.push(self.flags.as_u8());
        push_be32(&mut bytes, self.message_id);
        push_be32(&mut bytes, self.length);
        assert(bytes@ =~= header_wire(*self));
        bytes
    }

    /// Parses the header at the start of `data`.
    pub fn from_bytes(data: &[u8]) -> (r: Result<Self, IkeError>)
        ensures
            data@.len() < 28 ==> r == Err::<Self, IkeError>(IkeError::InvalidLength),
            data@.len() >= 28 && IkeExchangeType::from_value(data@[18]) is None
                ==> r == Err::<Self, IkeError>(IkeError::UnsupportedExchangeType(data@[18])),
            data@.len() >= 28 && IkeExchangeType::from_value(data@[18]) is Some
                ==> (r matches Ok(h) && header_from(h, data@)),
    {
        if data.len() < 28 {
            return Err(IkeError::InvalidLength);
        }
        let initiator_spi = array8_at(data, 0);
        let responder_spi = array8_at(data, 8);
        let next_payload = data[16];
        let version = data[17];
        let exchange_type = match IkeExchangeType::from_u8(data[18]) {
            Some(t) => t,
            None => {
                return Err(IkeError::UnsupportedExchangeType(data[18]));
            },
        };
        let flags = IkeFlags::from_u8(data[19]);
        let message_id = read_be32(data, 20);
        let length = read_be32(data, 24);
        Ok(IkeHeader { initiator_spi, responder_spi, next_payload, version, exchange_type, flags, message_id, length })
    }
}

/// Encoding a header and parsing it back gives the header.
pub proof fn lemma_header_roundtrip(h: IkeHeader)
    ensures
        header_wire(h).len() == 28,
        header_from(h, header_wire(h)),
{
    let w = header_wire(h);
    crate::common::bytes::lemma_be32_roundtrip(h.message_id);
    crate::common::bytes::lemma_be32_roundtrip(h.length);
    IkeFlags::lemma_flags_roundtrip(h.flags);
    IkeExchangeType::lemma_roundtrip();
    assert(w.subrange(0, 8) =~= h.initiator_spi@);
    assert(w.subrange(8, 16) =~= h.responder_spi@);
}

/// The bytes of the payload at `offset`, as long as its length field says.
pub open spec fn payload_bytes(data: Seq<u8>, offset: nat) -> Seq<u8> {
    data.subrange(offset as int, offset + be16(data[offset + 2int], data[offset + 3int]))
}

/// A payload that parses has at least its four header bytes.
pub proof fn lemma_payload_min_len(data: Seq<u8>, t: IkePayloadType)
    ensures
        IkePayload::failure(data, t) is None ==> data.len() >= 4,
{
}

/// Why the payload chain from `offset` fails, if it does: payloads are
/// read while the offset is below `limit` and the next type is known and
/// not the end, as long as a payload header fits in the data; each payload
/// is as long as its length field says.
pub open spec fn chain_failure(data: Seq<u8>, limit: nat, offset: nat, next: Option<IkePayloadType>) -> Option<ParseFailure>
    decreases data.len() - offset,
{
    if offset >= limit || next is None || next == Some(IkePayloadType::NoNext) || offset + 4 > data.len() {
        None
    } else {
        let plen = be16(data[offset + 2int], data[offset + 3int]);
        if offset + plen > data.len() {
            Some(ParseFailure::Length)
        } else {
            match IkePayload::failure(payload_bytes(data, offset), next->0) {
                Some(f) => Some(f),
                None => {
                    proof { lemma_payload_min_len(payload_bytes(data, offset), next->0); }
                    chain_failure(data, limit, (offset + plen) as nat, IkePayloadType::from_value(data[offset as int]))
                },
            }
        }
    }
}

/// Whether `ps` are the payloads of the chain from `offset` (which does not fail).
pub open spec fn chain_parsed(ps: Seq<IkePayload>, data: Seq<u8>, limit: nat, offset: nat, next: Option<IkePayloadType>) -> bool
    decreases data.len() - offset,
{
    if offset >= limit || next is None || next == Some(IkePayloadType::NoNext) || offset + 4 > data.len() {
        ps.len() == 0
    } else {
        let plen = be16(data[offset + 2int], data[offset + 3int]);
        if offset + plen > data.len() || IkePayload::failure(payload_bytes(data, offset), next->0) is Some {
            false
        } else {
            proof { lemma_payload_min_len(payload_bytes(data, offset), next->0); }
            &&& ps.len() > 0
            &&& IkePayload::parsed_from(ps[0], payload_bytes(data, offset), next->0)
            &&& chain_parsed(ps.drop_first(), data, limit, (offset + plen) as nat, IkePayloadType::from_value(data[offset as int]))
        }
    }
}

/// The payloads' wire bytes one after another.
pub open spec fn payloads_wire(ps: Seq<IkePayload>) -> Seq<u8> {
    ps.map_values(|p: IkePayload| p.wire()).flatten()
}

/// An IKE message: header and payloads.
#[derive(Debug, Clone, PartialEq)]
pub struct IkeMessage {
    pub header: IkeHeader,
    pub payloads: Vec<IkePayload>,
}

/// Whether every payload's lengths can be counted.
pub open spec fn payloads_fit(ps: Seq<IkePayload>) -> bool {
    forall|i: int| 0 <= i < ps.len() ==> (#[trigger] ps[i]).fits()
}

impl IkeMessage {
    pub fn new(header: IkeHeader, payloads: Vec<IkePayload>) -> (r: Self)
        ensures
            r.header == header,
            r.payloads@ == payloads@,
    {
        IkeMessage { header, payloads }
    }

    /// An IKE_SA_INIT request whose header names the first payload's type.
    pub fn init_request(initiator_spi: [u8; 8], payloads: Vec<IkePayload>) -> (r: Self)
        ensures
            r.header.initiator_spi == initiator_spi,
            r.header.responder_spi@ == Seq::new(8, |_i: int| 0u8),
            r.header.next_payload == (if payloads@.len() > 0 { payloads@[0].payload_type().value() } else {
                IkePayloadType::SA.value()
            }),
            r.header.version == IKEV2_VERSION,
            r.header.exchange_type == IkeExchangeType::IkeSaInit,
            r.header.flags == (IkeFlags { initiator: true, version: false, response: false }),
            r.header.message_id == 0,
            r.header.length == 28,
            r.payloads@ == payloads@,
    {
        let mut header = IkeHeader::init_request(initiator_spi);
        if payloads.len() > 0 {
            header.next_payload = payloads[0].get_type().as_u8();
        }
        IkeMessage { header, payloads }
    }

    /// The wire bytes: the header with the length set to the whole
    /// message's (low 32 bits), then the payloads.
    pub fn to_bytes(&self) -> (r: Vec<u8>)
        requires
            payloads_fit(self.payloads@),
        ensures
            r@ == header_wire(IkeHeader {
                length: trunc32(28 + payloads_wire(self.payloads@).len()),
                ..self.header
            }) + payloads_wire(self.payloads@),
    {
        let mut bytes = self.header.to_bytes();
        let ghost w = self.payloads@.map_values(|p: IkePayload| p.wire());
        let ghost pre = bytes@;
        let mut j: usize = 0;
        assert(w.take(0).flatten() =~= Seq::<u8>::empty());
        while j < self.payloads.len()
            invariant
                j <= self.payloads@.len(),
                payloads_fit(self.payloads@),
                w == self.payloads@.map_values(|p: IkePayload| p.wire()),
                bytes@ == pre + w.take(j as int).flatten(),
            decreases self.payloads@.len() - j,
        {
            proof {
                assert(w.take(j + 1) =~= w.take(j as int).push(w[j as int]));
                w.take(j as int).lemma_flatten_push(w[j as int]);
                assert(self.payloads@[j as int].fits());
            }
            let p = self.payloads[j].to_bytes();
            push_slice(&mut bytes, p.as_slice());
            j = j + 1;
            assert(bytes@ =~= pre + w.take(j as int).flatten());
        }
        assert(w.take(j as int) =~= w);
        let total_length = usize_to_u32(bytes.len());
        let ghost before = bytes@;
        bytes.set(24, (total_length / 16777216) as u8);
        bytes.set(25, ((total_length / 65536) % 256) as u8);
        bytes.set(26, ((total_length / 256) % 256) as u8);
        bytes.set(27, (total_length % 256) as u8);
        assert(bytes@ =~= header_wire(IkeHeader {
            length: trunc32(28 + payloads_wire(self.payloads@).len()),
            ..self.header
        }) + payloads_wire(self.payloads@));
        bytes
    }

    /// Parses a message: the header, then the payload chain (see
    /// `chain_failure`) up to the header's length.
    pub fn from_bytes(data: &[u8]) -> (r: Result<Self, IkeError>)
        ensures
            data@.len() < 28 ==> r == Err::<Self, IkeError>(IkeError::InvalidLength),
            data@.len() >= 28 && IkeExchangeType::from_value(data@[18]) is None
                ==> r == Err::<Self, IkeError>(IkeError::UnsupportedExchangeType(data@[18])),
            data@.len() >= 28 && IkeExchangeType::from_value(data@[18]) is Some ==> ({
                let limit = be32(data@[24], data@[25], data@[26], data@[27]) as nat;
                let first = IkePayloadType::from_value(data@[16]);
                &&& data@.len() < limit ==> r == Err::<Self, IkeError>(IkeError::InvalidLength)
                &&& data@.len() >= limit ==> match chain_failure(data@, limit, 28, first) {
                    Some(f) => r matches Err(e) && is_failure(e, f),
                    None => r matches Ok(m) && header_from(m.header, data@)
                        && chain_parsed(m.payloads@, data@, limit, 28, first),
                }
            }),
    {
        let header = match IkeHeader::from_bytes(data) {
            Ok(h) => h,
            Err(e) => {
                return Err(e);
            },
        };
        let limit = header.length as usize;
        if data.len() < limit {
            return Err(IkeError::InvalidLength);
        }
        let ghost first = IkePayloadType::from_value(data@[16]);
        let ghost whole_failure = chain_failure(data@, limit as nat, 28, first);
        let mut payloads: Vec<IkePayload> = Vec::new();
        let mut offset: usize = 28;
        let mut next_payload = IkePayloadType::from_u8(header.next_payload);
        while offset < limit
            invariant
                limit <= data@.len(),
                offset <= data@.len(),
                data@.len() >= 28,
                IkeExchangeType::from_value(data@[18]) is Some,
                limit == be32(data@[24], data@[25], data@[26], data@[27]),
                whole_failure == chain_failure(data@, limit as nat, 28, first),
                whole_failure == chain_failure(data@, limit as nat, offset as nat, next_payload),
                first == IkePayloadType::from_value(data@[16]),
                forall|rest: Seq<IkePayload>| chain_parsed(rest, data@, limit as nat, offset as nat, next_payload)
                    ==> #[trigger] chain_parsed(payloads@ + rest, data@, limit as nat, 28, first),
            ensures
                limit <= data@.len(),
                whole_failure == chain_failure(data@, limit as nat, offset as nat, next_payload),
                forall|rest: Seq<IkePayload>| chain_parsed(rest, data@, limit as nat, offset as nat, next_payload)
                    ==> #[trigger] chain_parsed(payloads@ + rest, data@, limit as nat, 28, first),
                chain_parsed(Seq::empty(), data@, limit as nat, offset as nat, next_payload),
                whole_failure is None,
            decreases data@.len() - offset,
        {
            let payload_type = match next_payload {
                Some(t) => {
                    if t == IkePayloadType::NoNext {
                        break;
                    }
                    t
                },
                None => {
                    break;
                },
            };
            if data.len() - offset < 4 {
                break;
            }
            let payload_next = data[offset];
            let payload_length = read_be16(data, offset + 2) as usize;
            if data.len() - offset < payload_length {
                return Err(IkeError::InvalidLength);
            }
            let payload = match IkePayload::from_bytes(
                slice_subrange(data, offset, offset + payload_length),
                payload_type,
            ) {
                Ok(p) => p,
                Err(e) => {
                    return Err(e);
                },
            };
            proof {
                lemma_payload_min_len(payload_bytes(data@, offset as nat), payload_type);
            }
            let ghost old_offset = offset as nat;
            let ghost old_next = next_payload;
            let ghost old_payloads = payloads@;
            payloads.push(payload);
            next_payload = IkePayloadType::from_u8(payload_next);
            offset = offset + payload_length;
            proof {
                assert forall|rest: Seq<IkePayload>| chain_parsed(rest, data@, limit as nat, offset as nat, next_payload)
                    implies #[trigger] chain_parsed(payloads@ + rest, data@, limit as nat, 28, first) by {
                    let r2 = seq![payload] + rest;
                    assert(r2.drop_first() =~= rest);
                    assert(chain_parsed(r2, data@, limit as nat, old_offset, old_next));
                    assert(old_payloads + r2 =~= payloads@ + rest);
                }
            }
        }
        proof {
            assert(payloads@ + Seq::<IkePayload>::empty() =~= payloads@);
        }
        Ok(IkeMessage { header, payloads })
    }

    /// The first payload of this type.
    pub fn get_payload(&self, payload_type: IkePayloadType) -> (r: Option<&IkePayload>)
        ensures
            match r {
                Some(p) => exists|i: int| 0 <= i < self.payloads@.len() && self.payloads@[i] == *p
                    && p.payload_type() == payload_type
                    && forall|j: int| 0 <= j < i ==> (#[trigger] self.payloads@[j]).payload_type() != payload_type,
                None => forall|j: int| 0 <= j < self.payloads@.len()
                    ==> (#[trigger] self.payloads@[j]).payload_type() != payload_type,
            },
    {
        let mut i: usize = 0;
        while i < self.payloads.len()
            invariant
                i <= self.payloads@.len(),
                forall|j: int| 0 <= j < i ==> (#[trigger] self.payloads@[j]).payload_type() != payload_type,
            decreases self.payloads@.len() - i,
        {
            if self.payloads[i].get_type() == payload_type {
                return Some(&self.payloads[i]);
            }
            i = i + 1;
        }
        None
    }

    /// All payloads of this type, in order.
    pub fn get_payloads(&self, payload_type: IkePayloadType) -> (r: Vec<&IkePayload>)
        ensures
            r@.map_values(|p: &IkePayload| *p) == self.payloads@.filter(|p: IkePayload| p.payload_type() == payload_type),
    {
        let ghost f = |p: IkePayload| p.payload_type() == payload_type;
        let mut r: Vec<&IkePayload> = Vec::new();
        let mut i: usize = 0;
        assert(self.payloads@.take(0).filter(f) =~= Seq::<IkePayload>::empty());
        while i < self.payloads.len()
            invariant
                i <= self.payloads@.len(),
                f == (|p: IkePayload| p.payload_type() == payload_type),
                r@.map_values(|p: &IkePayload| *p) == self.payloads@.take(i as int).filter(f),
            decreases self.payloads@.len() - i,
        {
            reveal_with_fuel(Seq::<_>::filter, 1);
            let ghost s = self.payloads@;
            assert(s.take(i + 1).drop_last() =~= s.take(i as int));
            let ghost before = r@.map_values(|p: &IkePayload| *p);
            if self.payloads[i].get_type() == payload_type {
                r.push(&self.payloads[i]);
                assert(r@.map_values(|p: &IkePayload| *p) =~= before.push(s[i as int]));
            } else {
                assert(r@.map_values(|p: &IkePayload| *p) =~= before);
            }
            i = i + 1;
        }
        assert(self.payloads@.take(i as int) =~= self.payloads@);
        r
    }

    /// Appends a payload.
    pub fn add_payload(&mut self, payload: IkePayload)
        ensures
            final(self).header == old(self).header,
            final(self).payloads@ == old(self).payloads@.push(payload),
    {
        self.payloads.push(payload);
    }

    pub fn message_id(&self) -> (r: u32)
        ensures
            r == self.header.message_id,
    {
        self.header.message_id
    }

    pub fn exchange_type(&self) -> (r: IkeExchangeType)
        ensures
            r == self.header.exchange_type,
    {
        self.header.exchange_type
    }

    pub fn is_response(&self) -> (r: bool)
        ensures
            r == self.header.flags.response,
    {
        self.header.is_response()
    }
}

impl IkeError {
    /// The IKE error for a shared error: parse and packet errors keep their
    /// message as a parse error; others become `Other` with the shared
    /// error's debug text.
    pub fn from_core(err: CoreError) -> (r: Self)
        ensures
            err matches CoreError::ParseError(m) ==> (r matches IkeError::ParseError(n) && n@ == m@),
            err matches CoreError::InvalidPacket(m) ==> (r matches IkeError::ParseError(n) && n@ == m@),
            (err is UnsupportedProtocol || err is IpConflict) ==> (r matches IkeError::Other(n)
                && n@ == core_error_debug(err)),
    {
        match err {
            CoreError::ParseError(m) => IkeError::ParseError(m),
            CoreError::InvalidPacket(m) => IkeError::ParseError(m),
            _ => IkeError::Other(err.debug_string()),
        }
    }
}

} // verus!
