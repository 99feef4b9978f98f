use vstd::prelude::*;
use crate::common::bytes::{be32, u32_bytes, read_be32, push_be32, push_slice, copy_range};
use super::error::IpsecError;

verus! {

/// Protocol number of AH.
pub const IP_PROTO_AH: u8 = 51;
/// Smallest AH header: the fixed part without ICV.
pub const AH_HEADER_MIN_LEN: usize = 12;

/// The fixed part of an AH header.
#[derive(Debug, Clone, PartialEq, Eq, Structural)]
pub struct AhHeader {
    pub next_header: u8,
    /// Header length in 32-bit words, minus 2.
    pub payload_len: u8,
    pub spi: u32,
    pub sequence_number: u32,
}

/// The length field for a header with an ICV of `icv_len` bytes:
/// (12 + ICV) / 4 - 2, at least 0, in 8 bits.
pub open spec fn ah_payload_len(icv_len: nat) -> u8 {
    (if (12 + icv_len) / 4 >= 2 { ((12 + icv_len) / 4 - 2) as nat } else { 0nat } % 256) as u8
}

/// Length of the whole header that the length field `pl` gives.
pub open spec fn ah_total_len(pl: u8) -> nat {
    ((pl as nat + 2) * 4) as nat
}

/// Whether `AhHeader::parse` accepts `data`.
pub open spec fn ah_parse_ok(data: Seq<u8>) -> bool {
    data.len() >= 12 && data.len() >= ah_total_len(data[1])
}

/// Whether `h` holds the header fields at the start of `data`.
pub open spec fn ah_fields_from(h: AhHeader, data: Seq<u8>) -> bool {
    &&& h.next_header == data[0]
    &&& h.payload_len == data[1]
    &&& h.spi == be32(data[4], data[5], data[6], data[7])
    &&& h.sequence_number == be32(data[8], data[9], data[10], data[11])
}

impl AhHeader {
    /// Length of the fixed header part.
    pub fn header_size() -> (r: usize)
        ensures
            r == 12,
    {
        12
    }

    /// A header whose length field accounts for an ICV of `icv_len` bytes.
    pub fn new(next_header: u8, spi: u32, sequence_number: u32, icv_len: usize) -> (r: Self)
        requires
            icv_len <= usize::MAX - 12,
        ensures
            r == (AhHeader { next_header, payload_len: ah_payload_len(icv_len as nat), spi, sequence_number }),
    {
        let total_len = 12 + icv_len;
        let words = total_len / 4;
        let pl = if words >= 2 { words - 2 } else { 0 };
        AhHeader { next_header, payload_len: (pl % 256) as u8, spi, sequence_number }
    }

    /// The ICV length that the length field gives: (field + 2) * 4 - 12, at least 0.
    pub fn icv_len(&self) -> (r: usize)
        ensures
            r == (if ah_total_len(self.payload_len) >= 12 { ah_total_len(self.payload_len) - 12 } else { 0 }),
    {
        let total_len = (self.payload_len as usize + 2) * 4;
        if total_len >= 12 { total_len - 12 } else { 0 }
    }

    /// Parses the header and its ICV from the start of `data`.
    pub fn parse(data: &[u8]) -> (r: Result<(AhHeader, Vec<u8>), IpsecError>)
        requires
            data@.len() >= 12 ==> data@[1] >= 1,
        ensures
            !ah_parse_ok(data@) ==> r == Err::<(AhHeader, Vec<u8>), IpsecError>(IpsecError::InvalidLength),
            ah_parse_ok(data@) ==> (r matches Ok((h, icv)) && ah_fields_from(h, data@)
                && icv@ == data@.subrange(12, ah_total_len(data@[1]) as int)),
    {
        if data.len() < 12 {
            return Err(IpsecError::InvalidLength);
        }
        let next_header = data[0];
        let payload_len = data[1];
        let spi = read_be32(data, 4);
        let sequence_number = read_be32(data, 8);
        let total_len = (payload_len as usize + 2) * 4;
        if data.len() < total_len {
            return Err(IpsecError::InvalidLength);
        }
        let icv = copy_range(data, 12, total_len);
        Ok((AhHeader { next_header, payload_len, spi, sequence_number }, icv))
    }

    /// The wire bytes: the fixed part (reserved bytes zero), then `icv`.
    pub fn to_bytes(&self, icv: &[u8]) -> (r: Vec<u8>)
        ensures
            r@ == seq![self.next_header, self.payload_len, 0u8, 0u8] + u32_bytes(self.spi)
                + u32_bytes(self.sequence_number) + icv@,
    {
        let mut buffer: Vec<u8> = Vec::new();
        buffer.push(self.next_header);
        buffer.push(self.payload_len);
        buffer.push(0);
        buffer.push(0);
        push_be32(&mut buffer, self.spi);
        push_be32(&mut buffer, self.sequence_number);
        push_slice(&mut buffer, icv);
        buffer
    }
}

/// The integrity value this library computes: twelve bytes, byte `i` the
/// exclusive or of byte `i` of the key and of the data (0 past their end).
pub open spec fn ah_icv(data: Seq<u8>, key: Seq<u8>) -> Seq<u8> {
    Seq::new(12, |i: int| (if i < key.len() { key[i] } else { 0u8 }) ^ (if i < data.len() { data[i] } else { 0u8 }))
}

/// An AH header with its ICV and the data it protects.
#[derive(Debug, Clone, PartialEq, Eq)]
pub struct AhPacket {
    pub header: AhHeader,
    pub icv: Vec<u8>,
    pub payload: Vec<u8>,
}

impl AhPacket {
    /// A message whose length field accounts for `icv`.
    pub fn new(next_header: u8, spi: u32, sequence_number: u32, icv: Vec<u8>, payload: Vec<u8>) -> (r: Self)
        requires
            icv@.len() <= usize::MAX - 12,
        ensures
            r.header == (AhHeader { next_header, payload_len: ah_payload_len(icv@.len()), spi, sequence_number }),
            r.icv@ == icv@,
            r.payload@ == payload@,
    {
        let header = AhHeader::new(next_header, spi, sequence_number, icv.len());
        AhPacket { header, icv, payload }
    }

    /// Parses a message: header, ICV, then the rest as payload.
    pub fn parse(data: &[u8]) -> (r: Result<Self, IpsecError>)
        requires
            data@.len() >= 12 ==> data@[1] >= 1,
        ensures
            !ah_parse_ok(data@) ==> r == Err::<Self, IpsecError>(IpsecError::InvalidLength),
            ah_parse_ok(data@) ==> (r matches Ok(p) && ah_fields_from(p.header, data@)
                && p.icv@ == data@.subrange(12, ah_total_len(data@[1]) as int)
                && p.payload@ == data@.skip(ah_total_len(data@[1]) as int)),
    {
        let (header, icv) = match AhHeader::parse(data) {
            Ok(x) => x,
            Err(e) => {
                return Err(e);
            },
        };
        let total_len = (header.payload_len as usize + 2) * 4;
        let payload = if data.len() > total_len { copy_range(data, total_len, data.len()) } else { Vec::new() };
        assert(payload@ =~= data@.skip(ah_total_len(data@[1]) as int));
        Ok(AhPacket { header, icv, payload })
    }

    /// The wire bytes: header with ICV, then the payload.
    pub fn to_bytes(&self) -> (r: Vec<u8>)
        ensures
            r@ == seq![self.header.next_header, self.header.payload_len, 0u8, 0u8] + u32_bytes(self.header.spi)
                + u32_bytes(self.header.sequence_number) + self.icv@ + self.payload@,
    {
        let mut buffer = self.header.to_bytes(self.icv.as_slice());
        push_slice(&mut buffer, self.payload.as_slice());
        buffer
    }

    /// Computes the integrity value of `data` under `key` (see `ah_icv`);
    /// the requested length is not used.
    pub fn compute_icv(data: &[u8], key: &[u8], _icv_len: usize) -> (r: Vec<u8>)
        ensures
            r@ == ah_icv(data@, key@),
    {
        let mut result: Vec<u8> = Vec::new();
        let mut i: usize = 0;
        while i < 12
            invariant
                i <= 12,
                result@ == ah_icv(data@, key@).take(i as int),
            decreases 12 - i,
        {
            let k: u8 = if i < key.len() { key[i] } else { 0 };
            let d: u8 = if i < data.len() { data[i] } else { 0 };
            result.push(k ^ d);
            i = i + 1;
            assert(result@ =~= ah_icv(data@, key@).take(i as int));
        }
        assert(ah_icv(data@, key@).take(12) =~= ah_icv(data@, key@));
        result
    }

    /// Whether the message's ICV is the one computed from `data` and `key`.
    pub fn verify_icv(&self, data: &[u8], key: &[u8]) -> (r: bool)
        ensures
            r == (ah_icv(data@, key@) == self.icv@),
    {
        let computed = Self::compute_icv(data, key, self.icv.len());
        crate::common::bytes::bytes_eq(computed.as_slice(), self.icv.as_slice())
    }
}

/// Encoding a header with its ICV and parsing it back gives the header and the ICV.
pub proof fn lemma_ah_header_roundtrip(h: AhHeader, icv: Seq<u8>)
    requires
        h.payload_len >= 1,
        icv.len() == ah_total_len(h.payload_len) - 12,
    ensures
        ({
            let s = seq![h.next_header, h.payload_len, 0u8, 0u8] + u32_bytes(h.spi) + u32_bytes(h.sequence_number) + icv;
            &&& ah_parse_ok(s)
            &&& ah_fields_from(h, s)
            &&& s.subrange(12, ah_total_len(s[1]) as int) == icv
        }),
{
    let s = seq![h.next_header, h.payload_len, 0u8, 0u8] + u32_bytes(h.spi) + u32_bytes(h.sequence_number) + icv;
    crate::common::bytes::lemma_be32_roundtrip(h.spi);
    crate::common::bytes::lemma_be32_roundtrip(h.sequence_number);
    assert(s.subrange(12, ah_total_len(s[1]) as int) =~= icv);
}

} // verus!
