use vstd::prelude::*;
use crate::common::bytes::{be32, u32_bytes, read_be32, push_be32, push_slice, push_repeat, copy_range, bytes_eq};
use super::error::IpsecError;

verus! {

/// Protocol number of ESP.
pub const IP_PROTO_ESP: u8 = 50;
/// Smallest ESP header.
pub const ESP_HEADER_MIN_LEN: usize = 8;

/// The ESP header: security parameter index and sequence number.
#[derive(Debug, Clone, PartialEq, Eq, Structural)]
pub struct EspHeader {
    pub spi: u32,
    pub sequence_number: u32,
}

/// Whether `h` holds the header at the start of `data`.
pub open spec fn esp_header_from(h: EspHeader, data: Seq<u8>) -> bool {
    &&& h.spi == be32(data[0], data[1], data[2], data[3])
    &&& h.sequence_number == be32(data[4], data[5], data[6], data[7])
}

/// The eight wire bytes of a header.
pub open spec fn esp_header_wire(h: EspHeader) -> Seq<u8> {
    u32_bytes(h.spi) + u32_bytes(h.sequence_number)
}

impl EspHeader {
    /// Length of the header.
    pub fn header_size() -> (r: usize)
        ensures
            r == 8,
    {
        8
    }

    pub fn new(spi: u32, sequence_number: u32) -> (r: Self)
        ensures
            r == (EspHeader { spi, sequence_number }),
    {
        EspHeader { spi, sequence_number }
    }

    /// Parses the header at the start of `data`.
    pub fn parse(data: &[u8]) -> (r: Result<EspHeader, IpsecError>)
        ensures
            data@.len() < 8 ==> r == Err::<EspHeader, IpsecError>(IpsecError::InvalidLength),
            data@.len() >= 8 ==> (r matches Ok(h) && esp_header_from(h, data@)),
    {
        if data.len() < 8 {
            return Err(IpsecError::InvalidLength);
        }
        Ok(EspHeader { spi: read_be32(data, 0), sequence_number: read_be32(data, 4) })
    }

    /// The wire bytes: SPI then sequence number, big-endian.
    pub fn to_bytes(&self) -> (r: [u8; 8])
        ensures
            r@ == esp_header_wire(*self),
    {
        let s = self.spi;
        let n = self.sequence_number;
        let r: [u8; 8] = [
            (s / 16777216) as u8,
            ((s / 65536) % 256) as u8,
            ((s / 256) % 256) as u8,
            (s % 256) as u8,
            (n / 16777216) as u8,
            ((n / 65536) % 256) as u8,
            ((n / 256) % 256) as u8,
            (n % 256) as u8,
        ];
        assert(r@ =~= esp_header_wire(*self));
        r
    }
}

/// The ESP trailer: padding, its length, and the next protocol.
#[derive(Debug, Clone, PartialEq, Eq)]
pub struct EspTrailer {
    pub pad_length: u8,
    pub next_header: u8,
    pub padding: Vec<u8>,
}

/// The wire bytes of a trailer: padding, pad length, next header.
pub open spec fn esp_trailer_wire(t: EspTrailer) -> Seq<u8> {
    t.padding@ + seq![t.pad_length, t.next_header]
}

/// Whether `s` ends in a trailer whose padding fits in it.
pub open spec fn esp_trailer_ok(s: Seq<u8>) -> bool {
    s.len() >= 2 && s.len() >= 2 + s[s.len() - 2]
}

/// Where the padding of the trailer at the end of `s` starts.
pub open spec fn esp_trailer_start(s: Seq<u8>) -> int {
    s.len() - 2 - s[s.len() - 2]
}

/// Whether `t` is the trailer at the end of `s`.
pub open spec fn esp_trailer_from(t: EspTrailer, s: Seq<u8>) -> bool {
    &&& t.pad_length == s[s.len() - 2]
    &&& t.next_header == s[s.len() - 1]
    &&& t.padding@ == s.subrange(esp_trailer_start(s), s.len() - 2)
}

/// The padding that brings `payload_len` plus the two trailer bytes to a
/// multiple of `block_size`, at least one byte.
pub open spec fn esp_padding_len(payload_len: nat, block_size: nat) -> nat {
    let b: int = block_size as int;
    let t: int = payload_len as int + 2;
    let p = ((b - t % b) % b) as nat;
    if p >= 1 { p } else { 1 }
}

/// Parses the trailer at the end of `data[..end]`.
fn parse_trailer_before(data: &[u8], end: usize) -> (r: Result<(EspTrailer, usize), IpsecError>)
    requires
        end <= data@.len(),
    ensures
        !esp_trailer_ok(data@.take(end as int)) ==> r == Err::<(EspTrailer, usize), IpsecError>(IpsecError::InvalidLength),
        esp_trailer_ok(data@.take(end as int)) ==> (r matches Ok((t, start))
            && esp_trailer_from(t, data@.take(end as int)) && start == esp_trailer_start(data@.take(end as int))),
{
    let ghost s = data@.take(end as int);
    if end < 2 {
        return Err(IpsecError::InvalidLength);
    }
    let pad_length = data[end - 2];
    let next_header = data[end - 1];
    if end < 2 + pad_length as usize {
        return Err(IpsecError::InvalidLength);
    }
    let padding_start = end - 2 - pad_length as usize;
    let padding = copy_range(data, padding_start, end - 2);
    assert(padding@ =~= s.subrange(esp_trailer_start(s), s.len() - 2));
    Ok((EspTrailer { pad_length, next_header, padding }, padding_start))
}

impl EspTrailer {
    /// Length of the trailer: padding plus two bytes.
    pub fn trailer_size(&self) -> (r: usize)
        requires
            self.padding@.len() <= usize::MAX - 2,
        ensures
            r == self.padding@.len() + 2,
    {
        2 + self.padding.len()
    }

    pub fn new(pad_length: u8, next_header: u8, padding: Vec<u8>) -> (r: Self)
        ensures
            r.pad_length == pad_length,
            r.next_header == next_header,
            r.padding@ == padding@,
    {
        EspTrailer { pad_length, next_header, padding }
    }

    /// The padding needed for `payload_len` bytes under `block_size` (see
    /// `esp_padding_len`).
    pub fn calculate_padding(payload_len: usize, block_size: usize) -> (r: usize)
        requires
            block_size > 0,
            payload_len <= usize::MAX - 2,
        ensures
            r == esp_padding_len(payload_len as nat, block_size as nat),
    {
        let total_len = payload_len + 2;
        let pad_len = (block_size - (total_len % block_size)) % block_size;
        if pad_len >= 1 { pad_len } else { 1 }
    }

    /// Parses the trailer at the end of `data`; also returns where its
    /// padding starts, which is where the payload ends.
    pub fn parse(data: &[u8]) -> (r: Result<(EspTrailer, usize), IpsecError>)
        ensures
            !esp_trailer_ok(data@) ==> r == Err::<(EspTrailer, usize), IpsecError>(IpsecError::InvalidLength),
            esp_trailer_ok(data@) ==> (r matches Ok((t, start)) && esp_trailer_from(t, data@)
                && start == esp_trailer_start(data@)),
    {
        assert(data@.take(data@.len() as int) =~= data@);
        parse_trailer_before(data, data.len())
    }

    /// The wire bytes (see `esp_trailer_wire`).
    pub fn to_bytes(&self) -> (r: Vec<u8>)
        ensures
            r@ == esp_trailer_wire(*self),
    {
        let mut buffer: Vec<u8> = Vec::new();
        push_slice(&mut buffer, self.padding.as_slice());
        buffer.push(self.pad_length);
        buffer.push(self.next_header);
        assert(buffer@ =~= esp_trailer_wire(*self));
        buffer
    }
}

/// An ESP message: header, protected data, trailer, optional ICV.
#[derive(Debug, Clone, PartialEq, Eq)]
pub struct EspPacket {
    pub header: EspHeader,
    pub encrypted_data: Vec<u8>,
    pub trailer: EspTrailer,
    pub icv: Option<Vec<u8>>,
}

/// The bytes before the ICV of a message of `data` with an ICV of `icv_len` bytes.
pub open spec fn esp_body(data: Seq<u8>, icv_len: nat) -> Seq<u8> {
    if icv_len > 0 { data.take(data.len() - icv_len) } else { data }
}

/// Whether `EspPacket::parse` accepts `data` with an ICV of `icv_len` bytes.
pub open spec fn esp_parse_ok(data: Seq<u8>, icv_len: nat) -> bool {
    &&& data.len() >= 10
    &&& icv_len > 0 ==> data.len() >= 8 + icv_len
    &&& esp_trailer_ok(esp_body(data, icv_len))
    &&& esp_trailer_start(esp_body(data, icv_len)) >= 8
}

/// The wire bytes of an ESP message.
pub open spec fn esp_packet_wire(p: EspPacket) -> Seq<u8> {
    esp_header_wire(p.header) + p.encrypted_data@ + esp_trailer_wire(p.trailer) + match p.icv {
        Some(v) => v@,
        None => Seq::empty(),
    }
}

/// The integrity value of `h` under `key`: as many bytes as the key has, up
/// to twelve; byte `i` is the key's byte xor the exclusive or of byte
/// `i % 4` of the SPI and of the sequence number.
pub open spec fn esp_icv(h: EspHeader, key: Seq<u8>) -> Seq<u8> {
    let n: int = if key.len() < 12 { key.len() as int } else { 12 };
    Seq::new(n as nat, |i: int| key[i] ^ (u32_bytes(h.spi)[i % 4] ^ u32_bytes(h.sequence_number)[i % 4]))
}

impl EspPacket {
    pub fn new(spi: u32, sequence_number: u32, encrypted_data: Vec<u8>, trailer: EspTrailer, icv: Option<Vec<u8>>) -> (r: Self)
        ensures
            r.header == (EspHeader { spi, sequence_number }),
            r.encrypted_data@ == encrypted_data@,
            r.trailer == trailer,
            r.icv == icv,
    {
        EspPacket { header: EspHeader::new(spi, sequence_number), encrypted_data, trailer, icv }
    }

    /// Parses a message whose ICV is `icv_len` bytes long (0: no ICV).
    pub fn parse(data: &[u8], icv_len: usize) -> (r: Result<Self, IpsecError>)
        requires
            icv_len <= usize::MAX - 8,
        ensures
            !esp_parse_ok(data@, icv_len as nat) ==> r == Err::<Self, IpsecError>(IpsecError::InvalidLength),
            esp_parse_ok(data@, icv_len as nat) ==> (r matches Ok(p) && {
                let body = esp_body(data@, icv_len as nat);
                &&& esp_header_from(p.header, data@)
                &&& p.encrypted_data@ == data@.subrange(8, esp_trailer_start(body))
                &&& esp_trailer_from(p.trailer, body)
                &&& p.icv == (if icv_len > 0 { Some(p.icv->0) } else { None::<Vec<u8>> })
                &&& icv_len > 0 ==> p.icv->0@ == data@.skip(data@.len() - icv_len)
            }),
    {
        if data.len() < 10 {
            return Err(IpsecError::InvalidLength);
        }
        let header = match EspHeader::parse(data) {
            Ok(h) => h,
            Err(e) => {
                return Err(e);
            },
        };
        let body_end = if icv_len > 0 {
            if data.len() < 8 + icv_len {
                return Err(IpsecError::InvalidLength);
            }
            data.len() - icv_len
        } else {
            data.len()
        };
        assert(data@.take(body_end as int) =~= esp_body(data@, icv_len as nat));
        let (trailer, payload_end) = match parse_trailer_before(data, body_end) {
            Ok(x) => x,
            Err(e) => {
                return Err(e);
            },
        };
        if payload_end < 8 {
            return Err(IpsecError::InvalidLength);
        }
        let encrypted_data = copy_range(data, 8, payload_end);
        let icv = if icv_len > 0 {
            Some(copy_range(data, data.len() - icv_len, data.len()))
        } else {
            None
        };
        proof {
            if icv_len > 0 {
                assert(icv->0@ =~= data@.skip(data@.len() - icv_len));
            }
        }
        Ok(EspPacket { header, encrypted_data, trailer, icv })
    }

    /// The wire bytes (see `esp_packet_wire`).
    pub fn to_bytes(&self) -> (r: Vec<u8>)
        ensures
            r@ == esp_packet_wire(*self),
    {
        let mut buffer: Vec<u8> = Vec::new();
        push_be32(&mut buffer, self.header.spi);
        push_be32(&mut buffer, self.header.sequence_number);
        push_slice(&mut buffer, self.encrypted_data.as_slice());
        let t = self.trailer.to_bytes();
        push_slice(&mut buffer, t.as_slice());
        match &self.icv {
            Some(v) => {
                push_slice(&mut buffer, v.as_slice());
            },
            None => {},
        }
        assert(buffer@ =~= esp_packet_wire(*self));
        buffer
    }

    /// The carried data; this library does not encrypt, so it is the
    /// protected data as it stands.
    pub fn get_payload(&self) -> (r: Vec<u8>)
        ensures
            r@ == self.encrypted_data@,
    {
        self.encrypted_data.clone()
    }

    /// A message carrying `payload` unencrypted, padded for `block_size`
    /// with zero bytes, without ICV.
    pub fn create_simple(spi: u32, sequence_number: u32, payload: Vec<u8>, next_header: u8, block_size: usize) -> (r: Self)
        requires
            block_size > 0,
            payload@.len() <= usize::MAX - 2,
        ensures
            ({
                let pad = esp_padding_len(payload@.len(), block_size as nat);
                &&& r.header == (EspHeader { spi, sequence_number })
                &&& r.encrypted_data@ == payload@
                &&& r.trailer.pad_length == (pad % 256) as u8
                &&& r.trailer.next_header == next_header
                &&& r.trailer.padding@ == Seq::new(pad, |_i: int| 0u8)
                &&& r.icv is None
            }),
    {
        let pad_len = EspTrailer::calculate_padding(payload.len(), block_size);
        let mut padding: Vec<u8> = Vec::new();
        push_repeat(&mut padding, 0, pad_len);
        assert(padding@ =~= Seq::new(pad_len as nat, |_i: int| 0u8));
        let trailer = EspTrailer { pad_length: (pad_len % 256) as u8, next_header, padding };
        EspPacket { header: EspHeader::new(spi, sequence_number), encrypted_data: payload, trailer, icv: None }
    }

    /// Whether the message's ICV, if any, is the one computed under `key`
    /// (see `esp_icv`); a message without ICV passes.
    pub fn verify_icv(&self, key: &[u8]) -> (r: bool)
        ensures
            r == match self.icv {
                Some(v) => esp_icv(self.header, key@) == v@,
                None => true,
            },
    {
        match &self.icv {
            Some(v) => {
                let computed = self.compute_icv(key);
                bytes_eq(computed.as_slice(), v.as_slice())
            },
            None => true,
        }
    }

    /// Computes `esp_icv` of the header under `key`.
    fn compute_icv(&self, key: &[u8]) -> (r: Vec<u8>)
        ensures
            r@ == esp_icv(self.header, key@),
    {
        let n: usize = if key.len() < 12 { key.len() } else { 12 };
        let mut spi_bytes: Vec<u8> = Vec::new();
        push_be32(&mut spi_bytes, self.header.spi);
        let mut seq_bytes: Vec<u8> = Vec::new();
        push_be32(&mut seq_bytes, self.header.sequence_number);
        let mut result: Vec<u8> = Vec::new();
        let mut i: usize = 0;
        while i < n
            invariant
                i <= n,
                n == (if key@.len() < 12 { key@.len() as int } else { 12 }),
                spi_bytes@ == u32_bytes(self.header.spi),
                seq_bytes@ == u32_bytes(self.header.sequence_number),
                result@ == esp_icv(self.header, key@).take(i as int),
            decreases n - i,
        {
            let b = key[i] ^ (spi_bytes[i % 4] ^ seq_bytes[i % 4]);
            result.push(b);
            i = i + 1;
            assert(result@ =~= esp_icv(self.header, key@).take(i as int));
        }
        assert(esp_icv(self.header, key@).take(n as int) =~= esp_icv(self.header, key@));
        result
    }
}

/// Encoding a header and parsing it back gives the header.
pub proof fn lemma_esp_header_roundtrip(h: EspHeader)
    ensures
        esp_header_wire(h).len() == 8,
        esp_header_from(h, esp_header_wire(h)),
{
    crate::common::bytes::lemma_be32_roundtrip(h.spi);
    crate::common::bytes::lemma_be32_roundtrip(h.sequence_number);
}

/// A trailer whose length field counts its padding, encoded after any
/// payload, is parsed back from the end, and the payload ends where it starts.
pub proof fn lemma_esp_trailer_roundtrip(t: EspTrailer, payload: Seq<u8>)
    requires
        t.pad_length == t.padding@.len(),
    ensures
        ({
            let s = payload + esp_trailer_wire(t);
            &&& esp_trailer_ok(s)
            &&& esp_trailer_from(t, s)
            &&& esp_trailer_start(s) == payload.len()
        }),
{
    let s = payload + esp_trailer_wire(t);
    assert(s[s.len() - 2] == t.pad_length);
    assert(s.subrange(esp_trailer_start(s), s.len() - 2) =~= t.padding@);
}

/// Encoding a message whose trailer length field counts its padding, and
/// parsing it with the length of its ICV, gives the message back.
pub proof fn lemma_esp_packet_roundtrip(p: EspPacket)
    requires
        p.trailer.pad_length == p.trailer.padding@.len(),
        p.icv matches Some(v) ==> v@.len() > 0,
    ensures
        ({
            let s = esp_packet_wire(p);
            let icv_len: nat = match p.icv { Some(v) => v@.len(), None => 0 };
            let body = esp_body(s, icv_len);
            &&& esp_parse_ok(s, icv_len)
            &&& esp_trailer_start(body) == 8 + p.encrypted_data@.len()
            &&& esp_header_from(p.header, s)
            &&& s.subrange(8, esp_trailer_start(body)) == p.encrypted_data@
            &&& esp_trailer_from(p.trailer, body)
            &&& icv_len > 0 ==> s.skip(s.len() - icv_len) == p.icv->0@
        }),
{
    let s = esp_packet_wire(p);
    let icv_len: nat = match p.icv { Some(v) => v@.len(), None => 0 };
    let hb = esp_header_wire(p.header);
    let pre = hb + p.encrypted_data@;
    let body = esp_body(s, icv_len);
    assert(body =~= pre + esp_trailer_wire(p.trailer));
    lemma_esp_trailer_roundtrip(p.trailer, pre);
    lemma_esp_header_roundtrip(p.header);
    assert(s.subrange(0, 8) =~= hb);
    assert(s[0] == hb[0] && s[1] == hb[1] && s[2] == hb[2] && s[3] == hb[3]);
    assert(s[4] == hb[4] && s[5] == hb[5] && s[6] == hb[6] && s[7] == hb[7]);
    assert(s.subrange(8, esp_trailer_start(body)) =~= p.encrypted_data@);
    if icv_len > 0 {
        assert(s.skip(s.len() - icv_len) =~= p.icv->0@);
    }
}

} // verus!
