use vstd::prelude::*;
use crate::common::addr::Ipv6Addr;
use crate::common::bytes::{be16, be32, u16_bytes, u32_bytes, array16_at, copy_range, read_be16, read_be32};
use crate::common::error::{CoreError, CoreErrorKind};
use crate::common::text::{join_text, u32_decimal_text, usize_decimal_text, decimal_digits};
use crate::protocols::common::packet::Packet;
use super::protocol::{IpProtocol, spec_ip_protocol};

verus! {

/// Smallest extension header: 8 bytes.
pub const EXTENSION_HEADER_MIN_LEN: usize = 8;
/// Default limit on the number of extension headers in a chain.
pub const DEFAULT_MAX_EXTENSION_HEADERS: usize = 8;
/// Default limit on the bytes of an extension header chain.
pub const DEFAULT_MAX_EXTENSION_HEADERS_LENGTH: usize = 2048;

/// Bytes of an extension header whose length field is `h`: the field counts
/// 8-byte units after the first eight bytes.
pub open spec fn ext_total(h: u8) -> nat {
    (h as nat + 1) * 8
}

/// The length field of a header carrying `n` bytes of options or data:
/// 0 for none, else the 8-byte units they fill less one, kept to 8 bits.
pub open spec fn length_field(n: nat) -> u8 {
    if n == 0 {
        0
    } else {
        (((n + 7) / 8 - 1) % 256) as u8
    }
}

fn units_total(h: u8) -> (r: usize)
    ensures
        r == ext_total(h),
        8 <= r <= 2048,
{
    (h as usize + 1) * 8
}

fn length_field_of(n: usize) -> (r: u8)
    ensures
        r == length_field(n as nat),
{
    if n == 0 {
        0
    } else {
        let q: usize = n / 8 + if n % 8 != 0 { 1 } else { 0 };
        assert((n as nat + 7) / 8 == q) by (nonlinear_arith)
            requires
                q == n / 8 + if n % 8 != 0 { 1nat } else { 0nat },
        {}
        ((q - 1) % 256) as u8
    }
}

/// The two bytes every extension header starts with.
#[derive(Debug, Clone, Copy, PartialEq, Eq, Structural)]
pub struct ExtensionHeader {
    pub next_header: u8,
    pub header_length: u8,
}

impl ExtensionHeader {
    /// Bytes of the whole header.
    pub fn total_length(&self) -> (r: usize)
        ensures
            r == ext_total(self.header_length),
    {
        units_total(self.header_length)
    }

    /// Reads the two leading bytes.
    pub fn from_bytes(data: &[u8]) -> (r: Result<Self, CoreError>)
        ensures
            data@.len() < 2 ==> (r matches Err(e) && e is ParseError),
            data@.len() >= 2 ==> r == Ok::<Self, CoreError>(
                ExtensionHeader { next_header: data@[0], header_length: data@[1] },
            ),
    {
        if data.len() < 2 {
            return Err(CoreError::parse_error("扩展头数据不足"));
        }
        Ok(ExtensionHeader { next_header: data[0], header_length: data[1] })
    }

    /// The two leading bytes.
    pub fn to_bytes(&self) -> (r: [u8; 2])
        ensures
            r@ == seq![self.next_header, self.header_length],
    {
        let r: [u8; 2] = [self.next_header, self.header_length];
        assert(r@ =~= seq![self.next_header, self.header_length]);
        r
    }
}

/// The hop-by-hop options header (next header 0), processed by every node
/// on the path.
#[derive(Debug, Clone, Copy, PartialEq, Eq, Structural)]
pub struct HopByHopHeader {
    pub next_header: u8,
    pub header_length: u8,
}

impl HopByHopHeader {
    /// A header for `options_length` bytes of options.
    pub fn new(next_header: u8, options_length: usize) -> (r: Self)
        ensures
            r == (HopByHopHeader { next_header, header_length: length_field(options_length as nat) }),
    {
        HopByHopHeader { next_header, header_length: length_field_of(options_length) }
    }

    /// Bytes of the whole header.
    pub fn total_length(&self) -> (r: usize)
        ensures
            r == ext_total(self.header_length),
    {
        units_total(self.header_length)
    }

    /// Reads the two leading bytes.
    pub fn from_bytes(data: &[u8]) -> (r: Result<Self, CoreError>)
        ensures
            data@.len() < 2 ==> (r matches Err(e) && e is ParseError),
            data@.len() >= 2 ==> r == Ok::<Self, CoreError>(
                HopByHopHeader { next_header: data@[0], header_length: data@[1] },
            ),
    {
        if data.len() < 2 {
            return Err(CoreError::parse_error("逐跳选项头数据不足"));
        }
        Ok(HopByHopHeader { next_header: data[0], header_length: data[1] })
    }

    /// The two leading bytes.
    pub fn to_bytes(&self) -> (r: [u8; 2])
        ensures
            r@ == seq![self.next_header, self.header_length],
    {
        let r: [u8; 2] = [self.next_header, self.header_length];
        assert(r@ =~= seq![self.next_header, self.header_length]);
        r
    }
}

/// The routing header (next header 43).
#[derive(Debug, Clone, Copy, PartialEq, Eq, Structural)]
pub struct RoutingHeader {
    pub next_header: u8,
    pub header_length: u8,
    pub routing_type: u8,
    pub segments_left: u8,
}

impl RoutingHeader {
    /// A header of this type for `data_length` bytes of routing data.
    pub fn new(next_header: u8, routing_type: u8, segments_left: u8, data_length: usize) -> (r: Self)
        ensures
            r == (RoutingHeader {
                next_header,
                header_length: length_field(data_length as nat),
                routing_type,
                segments_left,
            }),
    {
        RoutingHeader { next_header, header_length: length_field_of(data_length), routing_type, segments_left }
    }

    /// Bytes of the whole header.
    pub fn total_length(&self) -> (r: usize)
        ensures
            r == ext_total(self.header_length),
    {
        units_total(self.header_length)
    }

    /// Reads the four leading bytes.
    pub fn from_bytes(data: &[u8]) -> (r: Result<Self, CoreError>)
        ensures
            data@.len() < 4 ==> (r matches Err(e) && e is ParseError),
            data@.len() >= 4 ==> r == Ok::<Self, CoreError>(
                RoutingHeader {
                    next_header: data@[0],
                    header_length: data@[1],
                    routing_type: data@[2],
                    segments_left: data@[3],
                },
            ),
    {
        if data.len() < 4 {
            return Err(CoreError::parse_error("路由头数据不足"));
        }
        Ok(RoutingHeader { next_header: data[0], header_length: data[1], routing_type: data[2], segments_left: data[3] })
    }

    /// The four leading bytes.
    pub fn to_bytes(&self) -> (r: [u8; 4])
        ensures
            r@ == seq![self.next_header, self.header_length, self.routing_type, self.segments_left],
    {
        let r: [u8; 4] = [self.next_header, self.header_length, self.routing_type, self.segments_left];
        assert(r@ =~= seq![self.next_header, self.header_length, self.routing_type, self.segments_left]);
        r
    }

    /// Whether this is the deprecated type 0 (RFC 5095).
    pub fn is_type0(&self) -> (r: bool)
        ensures
            r == (self.routing_type == 0),
    {
        self.routing_type == 0
    }
}

/// The type 2 routing header of Mobile IPv6, carrying a home address.
#[derive(Debug, Clone, Copy, PartialEq, Eq)]
pub struct RoutingHeaderType2 {
    pub next_header: u8,
    pub header_length: u8,
    pub routing_type: u8,
    pub segments_left: u8,
    pub reserved: [u8; 4],
    pub home_address: Ipv6Addr,
}

impl RoutingHeaderType2 {
    /// The header's 24 wire bytes.
    pub open spec fn wire(self) -> Seq<u8> {
        seq![self.next_header, self.header_length, self.routing_type, self.segments_left] + self.reserved@
            + self.home_address.bytes@
    }

    /// Whether `h` holds the fields in the first 24 bytes of `s`.
    pub open spec fn parsed_from(h: Self, s: Seq<u8>) -> bool {
        &&& s.len() >= 24
        &&& h.next_header == s[0]
        &&& h.header_length == s[1]
        &&& h.routing_type == s[2]
        &&& h.segments_left == s[3]
        &&& h.reserved@ == s.subrange(4, 8)
        &&& h.home_address.bytes@ == s.subrange(8, 24)
    }

    /// A type 2 header (length field 2, no segments left) for `home_address`.
    pub fn new(next_header: u8, home_address: Ipv6Addr) -> (r: Self)
        ensures
            r.next_header == next_header,
            r.header_length == 2,
            r.routing_type == 2,
            r.segments_left == 0,
            r.reserved@ == seq![0u8, 0u8, 0u8, 0u8],
            r.home_address == home_address,
    {
        let reserved: [u8; 4] = [0, 0, 0, 0];
        assert(reserved@ =~= seq![0u8, 0u8, 0u8, 0u8]);
        RoutingHeaderType2 { next_header, header_length: 2, routing_type: 2, segments_left: 0, reserved, home_address }
    }

    /// Reads the header from the first 24 bytes of `data`.
    pub fn from_bytes(data: &[u8]) -> (r: Result<Self, CoreError>)
        ensures
            data@.len() < 24 ==> (r matches Err(e) && e is ParseError),
            data@.len() >= 24 ==> (r matches Ok(h) && Self::parsed_from(h, data@)),
    {
        if data.len() < 24 {
            return Err(CoreError::parse_error("Type 2 路由头数据不足"));
        }
        let home = array16_at(data, 8);
        let reserved: [u8; 4] = [data[4], data[5], data[6], data[7]];
        assert(reserved@ =~= data@.subrange(4, 8));
        Ok(RoutingHeaderType2 {
            next_header: data[0],
            header_length: data[1],
            routing_type: data[2],
            segments_left: data[3],
            reserved,
            home_address: Ipv6Addr::from_bytes(home),
        })
    }

    /// The header's wire bytes.
    pub fn to_bytes(&self) -> (r: [u8; 24])
        ensures
            r@ == self.wire(),
    {
        let mut bytes: [u8; 24] = [0u8; 24];
        bytes[0] = self.next_header;
        bytes[1] = self.header_length;
        bytes[2] = self.routing_type;
        bytes[3] = self.segments_left;
        let mut i: usize = 0;
        while i < 4
            invariant
                i <= 4,
                bytes@.len() == 24,
                bytes@[0] == self.next_header,
                bytes@[1] == self.header_length,
                bytes@[2] == self.routing_type,
                bytes@[3] == self.segments_left,
                forall|j: int| 0 <= j < i ==> bytes@[4 + j] == self.reserved@[j],
            decreases 4 - i,
        {
            bytes[4 + i] = self.reserved[i];
            i = i + 1;
        }
        let mut k: usize = 0;
        while k < 16
            invariant
                k <= 16,
                bytes@.len() == 24,
                bytes@[0] == self.next_header,
                bytes@[1] == self.header_length,
                bytes@[2] == self.routing_type,
                bytes@[3] == self.segments_left,
                forall|j: int| 0 <= j < 4 ==> bytes@[4 + j] == self.reserved@[j],
                forall|j: int| 0 <= j < k ==> bytes@[8 + j] == self.home_address.bytes@[j],
            decreases 16 - k,
        {
            bytes[8 + k] = self.home_address.bytes[k];
            k = k + 1;
        }
        assert(bytes@ =~= self.wire());
        bytes
    }
}

/// Reading back the bytes of a type 2 routing header gives its fields.
pub proof fn lemma_routing_type2_roundtrip(h: RoutingHeaderType2)
    ensures
        RoutingHeaderType2::parsed_from(h, h.wire()),
{
    let w = h.wire();
    assert(w.subrange(4, 8) =~= h.reserved@);
    assert(w.subrange(8, 24) =~= h.home_address.bytes@);
}

/// The fragment header (next header 44): 8 bytes.
#[derive(Debug, Clone, Copy, PartialEq, Eq, Structural)]
pub struct FragmentHeader {
    pub next_header: u8,
    pub reserved: u8,
    /// Fragment offset in the top 13 bits, the M flag in the lowest.
    pub offset_res_m: u16,
    pub identification: u32,
}

/// The fragment header in the first eight bytes of `s`.
pub open spec fn fragment_header_from(s: Seq<u8>) -> FragmentHeader {
    FragmentHeader {
        next_header: s[0],
        reserved: s[1],
        offset_res_m: be16(s[2], s[3]),
        identification: be32(s[4], s[5], s[6], s[7]),
    }
}

impl FragmentHeader {
    /// Bytes of the header.
    pub const HEADER_SIZE: usize = 8;

    /// The header's eight wire bytes.
    pub open spec fn wire(self) -> Seq<u8> {
        seq![self.next_header, self.reserved] + u16_bytes(self.offset_res_m) + u32_bytes(self.identification)
    }

    /// Whether the header is an atomic fragment: offset 0 and no M flag.
    pub open spec fn spec_is_atomic(self) -> bool {
        self.offset_res_m / 8 == 0 && self.offset_res_m % 2 == 0
    }

    /// A header for the fragment at `fragment_offset` (8-byte units, kept to
    /// 13 bits).
    pub fn new(next_header: u8, fragment_offset: u16, more_fragments: bool, identification: u32) -> (r: Self)
        ensures
            r.next_header == next_header,
            r.reserved == 0,
            r.offset_res_m == (fragment_offset % 8192) * 8 + if more_fragments { 1int } else { 0int },
            r.identification == identification,
    {
        let m: u16 = if more_fragments { 1 } else { 0 };
        let offset_res_m: u16 = (fragment_offset << 3u16) | m;
        assert(m <= 1 ==> ((fragment_offset << 3u16) | m) == (fragment_offset % 8192) * 8 + m) by (bit_vector);
        FragmentHeader { next_header, reserved: 0, offset_res_m, identification }
    }

    /// The fragment offset in 8-byte units.
    pub fn fragment_offset(&self) -> (r: u16)
        ensures
            r == self.offset_res_m / 8,
    {
        let v = self.offset_res_m;
        assert((v & 0xFFF8) >> 3u16 == v / 8) by (bit_vector);
        (v & 0xFFF8) >> 3u16
    }

    /// The M flag: more fragments follow.
    pub fn more_fragments(&self) -> (r: bool)
        ensures
            r == (self.offset_res_m % 2 == 1),
    {
        let v = self.offset_res_m;
        assert(((v & 0x01) != 0) == (v % 2 == 1)) by (bit_vector);
        (v & 0x01) != 0
    }

    /// Whether this is an atomic fragment (a whole packet in one fragment,
    /// which RFC 8200 forbids).
    pub fn is_atomic_fragment(&self) -> (r: bool)
        ensures
            r == self.spec_is_atomic(),
    {
        self.fragment_offset() == 0 && !self.more_fragments()
    }

    /// Reads the header from the first eight bytes of `data`.
    pub fn from_bytes(data: &[u8]) -> (r: Result<Self, CoreError>)
        ensures
            data@.len() < 8 ==> (r matches Err(e) && e is ParseError),
            data@.len() >= 8 ==> r == Ok::<Self, CoreError>(fragment_header_from(data@)),
    {
        if data.len() < 8 {
            return Err(CoreError::parse_error("分片头数据不足"));
        }
        let offset_res_m = read_be16(data, 2);
        let identification = read_be32(data, 4);
        Ok(FragmentHeader { next_header: data[0], reserved: data[1], offset_res_m, identification })
    }

    /// The header's wire bytes.
    pub fn to_bytes(&self) -> (r: [u8; 8])
        ensures
            r@ == self.wire(),
    {
        let o = self.offset_res_m;
        let id = self.identification;
        let r: [u8; 8] = [
            self.next_header,
            self.reserved,
            (o / 256) as u8,
            (o % 256) as u8,
            (id / 16777216) as u8,
            ((id / 65536) % 256) as u8,
            ((id / 256) % 256) as u8,
            (id % 256) as u8,
        ];
        assert(r@ =~= self.wire());
        r
    }
}

/// Reading back the bytes of a fragment header gives the header.
pub proof fn lemma_fragment_header_roundtrip(h: FragmentHeader)
    ensures
        h.wire().len() == 8,
        fragment_header_from(h.wire()) == h,
{
    crate::common::bytes::lemma_be16_roundtrip(h.offset_res_m);
    crate::common::bytes::lemma_be32_roundtrip(h.identification);
}

/// A fragment header made for an offset below 8192 gives that offset and
/// M flag back.
pub proof fn lemma_fragment_fields(offset: u16, more: bool)
    requires
        offset < 8192,
    ensures
        ({
            let orm = (offset % 8192) * 8 + if more { 1int } else { 0int };
            &&& orm / 8 == offset
            &&& (orm % 2 == 1) == more
        }),
{
}

/// The destination options header (next header 60), processed only by the
/// destination.
#[derive(Debug, Clone, Copy, PartialEq, Eq, Structural)]
pub struct DestinationOptionsHeader {
    pub next_header: u8,
    pub header_length: u8,
}

impl DestinationOptionsHeader {
    /// A header for `options_length` bytes of options.
    pub fn new(next_header: u8, options_length: usize) -> (r: Self)
        ensures
            r == (DestinationOptionsHeader { next_header, header_length: length_field(options_length as nat) }),
    {
        DestinationOptionsHeader { next_header, header_length: length_field_of(options_length) }
    }

    /// Bytes of the whole header.
    pub fn total_length(&self) -> (r: usize)
        ensures
            r == ext_total(self.header_length),
    {
        units_total(self.header_length)
    }

    /// Reads the two leading bytes.
    pub fn from_bytes(data: &[u8]) -> (r: Result<Self, CoreError>)
        ensures
            data@.len() < 2 ==> (r matches Err(e) && e is ParseError),
            data@.len() >= 2 ==> r == Ok::<Self, CoreError>(
                DestinationOptionsHeader { next_header: data@[0], header_length: data@[1] },
            ),
    {
        if data.len() < 2 {
            return Err(CoreError::parse_error("目的选项头数据不足"));
        }
        Ok(DestinationOptionsHeader { next_header: data[0], header_length: data[1] })
    }

    /// The two leading bytes.
    pub fn to_bytes(&self) -> (r: [u8; 2])
        ensures
            r@ == seq![self.next_header, self.header_length],
    {
        let r: [u8; 2] = [self.next_header, self.header_length];
        assert(r@ =~= seq![self.next_header, self.header_length]);
        r
    }
}

/// An extension header with its data.
#[derive(Debug, Clone, PartialEq)]
pub enum ExtensionHeaderType {
    HopByHop { header: HopByHopHeader, options: Vec<u8> },
    Routing { header: RoutingHeader, data: Vec<u8> },
    Fragment { header: FragmentHeader },
    DestinationOptions { header: DestinationOptionsHeader, options: Vec<u8> },
    AuthenticationHeader { header: Vec<u8> },
    EncapsulatingSecurityPayload { data: Vec<u8> },
}

/// An extension header as values.
pub enum ExtHeaderModel {
    HopByHop { header: HopByHopHeader, options: Seq<u8> },
    Routing { header: RoutingHeader, data: Seq<u8> },
    Fragment { header: FragmentHeader },
    DestinationOptions { header: DestinationOptionsHeader, options: Seq<u8> },
    AuthenticationHeader { header: Seq<u8> },
    EncapsulatingSecurityPayload { data: Seq<u8> },
}

impl View for ExtensionHeaderType {
    type V = ExtHeaderModel;

    open spec fn view(&self) -> ExtHeaderModel {
        match self {
            ExtensionHeaderType::HopByHop { header, options } => ExtHeaderModel::HopByHop {
                header: *header,
                options: options@,
            },
            ExtensionHeaderType::Routing { header, data } => ExtHeaderModel::Routing { header: *header, data: data@ },
            ExtensionHeaderType::Fragment { header } => ExtHeaderModel::Fragment { header: *header },
            ExtensionHeaderType::DestinationOptions { header, options } => ExtHeaderModel::DestinationOptions {
                header: *header,
                options: options@,
            },
            ExtensionHeaderType::AuthenticationHeader { header } => ExtHeaderModel::AuthenticationHeader {
                header: header@,
            },
            ExtensionHeaderType::EncapsulatingSecurityPayload { data } => ExtHeaderModel::EncapsulatingSecurityPayload {
                data: data@,
            },
        }
    }
}

/// The next-header value a header names; ESP carries none in the clear, so
/// its own protocol number 50 stands for it.
pub open spec fn model_next_header(m: ExtHeaderModel) -> u8 {
    match m {
        ExtHeaderModel::HopByHop { header, .. } => header.next_header,
        ExtHeaderModel::Routing { header, .. } => header.next_header,
        ExtHeaderModel::Fragment { header } => header.next_header,
        ExtHeaderModel::DestinationOptions { header, .. } => header.next_header,
        ExtHeaderModel::AuthenticationHeader { header } => header[0],
        ExtHeaderModel::EncapsulatingSecurityPayload { .. } => 50,
    }
}

/// The bytes a header takes.
pub open spec fn model_total_length(m: ExtHeaderModel) -> nat {
    match m {
        ExtHeaderModel::HopByHop { header, .. } => ext_total(header.header_length),
        ExtHeaderModel::Routing { header, .. } => ext_total(header.header_length),
        ExtHeaderModel::Fragment { .. } => 8,
        ExtHeaderModel::DestinationOptions { header, .. } => ext_total(header.header_length),
        ExtHeaderModel::AuthenticationHeader { header } => header.len(),
        ExtHeaderModel::EncapsulatingSecurityPayload { data } => data.len(),
    }
}

impl ExtensionHeaderType {
    /// The next-header value this header names.
    pub fn next_header(&self) -> (r: u8)
        requires
            self@ matches ExtHeaderModel::AuthenticationHeader { header } ==> header.len() > 0,
        ensures
            r == model_next_header(self@),
    {
        match self {
            ExtensionHeaderType::HopByHop { header, .. } => header.next_header,
            ExtensionHeaderType::Routing { header, .. } => header.next_header,
            ExtensionHeaderType::Fragment { header } => header.next_header,
            ExtensionHeaderType::DestinationOptions { header, .. } => header.next_header,
            ExtensionHeaderType::AuthenticationHeader { header } => header[0],
            ExtensionHeaderType::EncapsulatingSecurityPayload { .. } => 50,
        }
    }

    /// The bytes this header takes.
    pub fn total_length(&self) -> (r: usize)
        ensures
            r == model_total_length(self@),
    {
        match self {
            ExtensionHeaderType::HopByHop { header, .. } => header.total_length(),
            ExtensionHeaderType::Routing { header, .. } => header.total_length(),
            ExtensionHeaderType::Fragment { .. } => FragmentHeader::HEADER_SIZE,
            ExtensionHeaderType::DestinationOptions { header, .. } => header.total_length(),
            ExtensionHeaderType::AuthenticationHeader { header } => header.len(),
            ExtensionHeaderType::EncapsulatingSecurityPayload { data } => data.len(),
        }
    }
}

/// Limits and switches for extension header processing.
#[derive(Debug, Clone)]
pub struct ExtensionConfig {
    pub max_extension_headers: usize,
    pub max_extension_headers_length: usize,
    pub process_hop_by_hop: bool,
    pub process_destination_options: bool,
    pub accept_routing_header: bool,
    pub enable_fragmentation: bool,
    pub reject_atomic_fragments: bool,
    pub verify_all_lengths: bool,
}

impl Default for ExtensionConfig {
    /// At most 8 headers and 2048 bytes; options processed, routing headers
    /// and fragmentation off, atomic fragments refused, lengths checked.
    fn default() -> (r: Self)
        ensures
            r.max_extension_headers == 8,
            r.max_extension_headers_length == 2048,
            r.process_hop_by_hop,
            r.process_destination_options,
            !r.accept_routing_header,
            !r.enable_fragmentation,
            r.reject_atomic_fragments,
            r.verify_all_lengths,
    {
        ExtensionConfig {
            max_extension_headers: DEFAULT_MAX_EXTENSION_HEADERS,
            max_extension_headers_length: DEFAULT_MAX_EXTENSION_HEADERS_LENGTH,
            process_hop_by_hop: true,
            process_destination_options: true,
            accept_routing_header: false,
            enable_fragmentation: false,
            reject_atomic_fragments: true,
            verify_all_lengths: true,
        }
    }
}

/// What parsing an extension header chain gave.
#[derive(Debug, Clone)]
pub struct ExtensionChainResult {
    /// The protocol after the chain.
    pub next_header: IpProtocol,
    pub headers: Vec<ExtensionHeaderType>,
    /// Bytes of the chain.
    pub chain_length: usize,
}

/// How parsing an extension header chain ends.
pub enum ChainOutcome {
    /// The chain ended (at a header that is not an extension header, or
    /// after a fragment header) with these headers and bytes taken.
    Done { next_header: IpProtocol, headers: Seq<ExtHeaderModel>, consumed: nat },
    /// Parsing failed with an error of this kind and message after taking
    /// these bytes.
    Failed { kind: CoreErrorKind, message: Seq<char>, consumed: nat },
}

/// `o` with `hs` in front of its headers and `n` more bytes taken.
pub open spec fn chain_prepend(hs: Seq<ExtHeaderModel>, n: nat, o: ChainOutcome) -> ChainOutcome {
    match o {
        ChainOutcome::Done { next_header, headers, consumed } => ChainOutcome::Done {
            next_header,
            headers: hs + headers,
            consumed: n + consumed,
        },
        ChainOutcome::Failed { kind, message, consumed } => ChainOutcome::Failed { kind, message, consumed: n + consumed },
    }
}

/// The outcome of parsing the chain in `s` that starts with a header of
/// protocol `nh`, after `count` headers and `len` bytes were parsed.
pub open spec fn chain_from(s: Seq<u8>, nh: IpProtocol, count: nat, len: nat, cfg: ExtensionConfig) -> ChainOutcome
    decreases s.len(),
{
    match nh {
        IpProtocol::HopByHopOptions | IpProtocol::Ipv6DestOptions => {
            let hop = nh is HopByHopOptions;
            if count >= cfg.max_extension_headers {
                ChainOutcome::Failed {
                    kind: CoreErrorKind::Invalid,
                    message: if hop {
                        "扩展头数量超过限制: "@ + decimal_digits(count) + " >= "@
                            + decimal_digits(cfg.max_extension_headers as nat)
                    } else {
                        "扩展头数量超过限制"@
                    },
                    consumed: 0,
                }
            } else if s.len() < 2 {
                ChainOutcome::Failed {
                    kind: CoreErrorKind::Parse,
                    message: if hop { "读取逐跳选项头失败"@ } else { "读取目的选项头失败"@ },
                    consumed: 0,
                }
            } else if len + ext_total(s[1]) > cfg.max_extension_headers_length {
                ChainOutcome::Failed {
                    kind: CoreErrorKind::Invalid,
                    message: if hop {
                        "扩展头链过长: "@ + decimal_digits(
                            if len + ext_total(s[1]) > usize::MAX { usize::MAX as nat } else { len + ext_total(s[1]) })
                            + " > "@ + decimal_digits(cfg.max_extension_headers_length as nat)
                    } else {
                        "扩展头链过长"@
                    },
                    consumed: 0,
                }
            } else if s.len() < ext_total(s[1]) {
                ChainOutcome::Failed {
                    kind: CoreErrorKind::Parse,
                    message: if hop { "读取逐跳选项数据失败"@ } else { "读取目的选项数据失败"@ },
                    consumed: 0,
                }
            } else {
                let t = ext_total(s[1]);
                let h = if nh is HopByHopOptions {
                    ExtHeaderModel::HopByHop {
                        header: HopByHopHeader { next_header: s[0], header_length: s[1] },
                        options: s.subrange(2, t as int),
                    }
                } else {
                    ExtHeaderModel::DestinationOptions {
                        header: DestinationOptionsHeader { next_header: s[0], header_length: s[1] },
                        options: s.subrange(2, t as int),
                    }
                };
                chain_prepend(
                    seq![h],
                    t,
                    chain_from(s.skip(t as int), spec_ip_protocol(s[0]), count + 1, len + t, cfg),
                )
            }
        },
        IpProtocol::Ipv6Route => {
            if count >= cfg.max_extension_headers {
                ChainOutcome::Failed { kind: CoreErrorKind::Invalid, message: "扩展头数量超过限制"@, consumed: 0 }
            } else if s.len() < 4 {
                ChainOutcome::Failed { kind: CoreErrorKind::Parse, message: "读取路由头失败"@, consumed: 0 }
            } else if s[2] == 0 {
                ChainOutcome::Failed {
                    kind: CoreErrorKind::Unsupported,
                    message: "路由头 Type 0 已废弃 (RFC 5095)"@,
                    consumed: 0,
                }
            } else if len + ext_total(s[1]) > cfg.max_extension_headers_length {
                ChainOutcome::Failed { kind: CoreErrorKind::Invalid, message: "扩展头链过长"@, consumed: 0 }
            } else if s.len() < ext_total(s[1]) {
                ChainOutcome::Failed { kind: CoreErrorKind::Parse, message: "读取路由头数据失败"@, consumed: 0 }
            } else {
                let t = ext_total(s[1]);
                let h = ExtHeaderModel::Routing {
                    header: RoutingHeader {
                        next_header: s[0],
                        header_length: s[1],
                        routing_type: s[2],
                        segments_left: s[3],
                    },
                    data: s.subrange(0, t as int),
                };
                chain_prepend(
                    seq![h],
                    t,
                    chain_from(s.skip(t as int), spec_ip_protocol(s[0]), count + 1, len + t, cfg),
                )
            }
        },
        IpProtocol::Ipv6Fragment => {
            if count >= cfg.max_extension_headers {
                ChainOutcome::Failed { kind: CoreErrorKind::Invalid, message: "扩展头数量超过限制"@, consumed: 0 }
            } else if s.len() < 8 {
                ChainOutcome::Failed { kind: CoreErrorKind::Parse, message: "读取分片头失败"@, consumed: 0 }
            } else if fragment_header_from(s).spec_is_atomic() && cfg.reject_atomic_fragments {
                ChainOutcome::Failed {
                    kind: CoreErrorKind::Invalid,
                    message: "原子分片被禁止: ID="@ + decimal_digits(fragment_header_from(s).identification as nat),
                    consumed: 0,
                }
            } else if len + 8 > cfg.max_extension_headers_length {
                ChainOutcome::Failed { kind: CoreErrorKind::Invalid, message: "扩展头链过长"@, consumed: 0 }
            } else {
                ChainOutcome::Done {
                    next_header: spec_ip_protocol(s[0]),
                    headers: seq![ExtHeaderModel::Fragment { header: fragment_header_from(s) }],
                    consumed: 8,
                }
            }
        },
        IpProtocol::Esp => ChainOutcome::Failed {
            kind: CoreErrorKind::Unsupported,
            message: "IPSec ESP 暂不支持"@,
            consumed: 0,
        },
        IpProtocol::Ah => ChainOutcome::Failed {
            kind: CoreErrorKind::Unsupported,
            message: "IPSec AH 暂不支持"@,
            consumed: 0,
        },
        _ => ChainOutcome::Done { next_header: nh, headers: Seq::empty(), consumed: 0 },
    }
}

proof fn lemma_chain_prepend_twice(hs: Seq<ExtHeaderModel>, n: nat, h: ExtHeaderModel, t: nat, o: ChainOutcome)
    ensures
        chain_prepend(hs, n, chain_prepend(seq![h], t, o)) == chain_prepend(hs.push(h), n + t, o),
{
    match o {
        ChainOutcome::Done { next_header, headers, consumed } => {
            assert(hs + (seq![h] + headers) =~= hs.push(h) + headers);
        },
        ChainOutcome::Failed { .. } => {},
    }
}

/// Parses the chain of extension headers at the packet's cursor, starting
/// with a header of protocol `initial_next_header`.
///
/// Hop-by-hop, destination options and routing headers are read whole;
/// type 0 routing headers are refused; a fragment header ends the chain
/// (atomic fragments refused when the configuration says so); ESP and AH
/// are not supported; any other protocol ends the chain. The number of
/// headers and the bytes of the chain are held to the configured limits.
#[verifier::spinoff_prover]
#[verifier::rlimit(30)]
pub fn parse_extension_chain(
    packet: &mut Packet,
    initial_next_header: IpProtocol,
    config: &ExtensionConfig,
) -> (r: Result<ExtensionChainResult, CoreError>)
    ensures
        final(packet).spec_vlan_id() == old(packet).spec_vlan_id(),
        match chain_from(old(packet)@, initial_next_header, 0, 0, *config) {
            ChainOutcome::Done { next_header, headers, consumed } => {
                &&& r matches Ok(res)
                &&& res.next_header == next_header
                &&& res.headers@.map_values(|h: ExtensionHeaderType| h@) == headers
                &&& res.chain_length == consumed
                &&& final(packet)@ == old(packet)@.skip(consumed as int)
            },
            ChainOutcome::Failed { kind, message, consumed } => {
                &&& r matches Err(e)
                &&& e.kind() == kind
                &&& e.message_view() == message
                &&& final(packet)@ == old(packet)@.skip(consumed as int)
            },
        },
{
    let ghost s0 = packet@;
    let ghost whole = chain_from(s0, initial_next_header, 0, 0, *config);
    let mut next_header = initial_next_header;
    let mut headers: Vec<ExtensionHeaderType> = Vec::new();
    let mut extension_chain_length: usize = 0;
    assert(s0.skip(0) =~= s0);
    assert(whole == chain_prepend(Seq::empty(), 0, whole)) by {
        match whole {
            ChainOutcome::Done { next_header, headers, consumed } => {
                assert(Seq::<ExtHeaderModel>::empty() + headers =~= headers);
            },
            ChainOutcome::Failed { .. } => {},
        }
    }
    assert(headers@.map_values(|h: ExtensionHeaderType| h@) =~= Seq::<ExtHeaderModel>::empty());
    loop
        invariant
            extension_chain_length <= s0.len(),
            extension_chain_length <= config.max_extension_headers_length,
            packet@ == s0.skip(extension_chain_length as int),
            packet.spec_vlan_id() == old(packet).spec_vlan_id(),
            s0 == old(packet)@,
            whole == chain_from(s0, initial_next_header, 0, 0, *config),
            whole == chain_prepend(
                headers@.map_values(|h: ExtensionHeaderType| h@),
                extension_chain_length as nat,
                chain_from(
                    packet@,
                    next_header,
                    headers@.len(),
                    extension_chain_length as nat,
                    *config,
                ),
            ),
        decreases packet@.len(),
    {
        let ghost s = packet@;
        let ghost hv = headers@.map_values(|h: ExtensionHeaderType| h@);
        let ghost len0 = extension_chain_length;
        let ghost nh0 = next_header;
        match next_header {
            IpProtocol::HopByHopOptions => {
                if headers.len() >= config.max_extension_headers {
                    let a = usize_decimal_text(headers.len());
                    let b = usize_decimal_text(config.max_extension_headers);
                    let m1 = join_text("扩展头数量超过限制: ", a.as_str());
                    let m2 = join_text(m1.as_str(), " >= ");
                    return Err(CoreError::InvalidPacket(join_text(m2.as_str(), b.as_str())));
                }
                let header = match packet.peek(2) {
                    Some(b) => match HopByHopHeader::from_bytes(b) {
                        Ok(h) => h,
                        Err(e) => { return Err(e); },
                    },
                    None => { return Err(CoreError::parse_error("读取逐跳选项头失败")); },
                };
                let total_len = header.total_length();
                if total_len > config.max_extension_headers_length - extension_chain_length {
                    let a = usize_decimal_text(extension_chain_length.saturating_add(total_len));
                    let b = usize_decimal_text(config.max_extension_headers_length);
                    let m1 = join_text("扩展头链过长: ", a.as_str());
                    let m2 = join_text(m1.as_str(), " > ");
                    return Err(CoreError::InvalidPacket(join_text(m2.as_str(), b.as_str())));
                }
                let options = match packet.read(total_len) {
                    Some(full_data) => copy_range(full_data, 2, total_len),
                    None => { return Err(CoreError::parse_error("读取逐跳选项数据失败")); },
                };
                extension_chain_length = extension_chain_length + total_len;
                next_header = IpProtocol::from(header.next_header);
                let item = ExtensionHeaderType::HopByHop { header, options };
                let ghost t = total_len as nat;
                proof {
                    assert(s.skip(t as int) =~= s0.skip(extension_chain_length as int));
                    assert(s.take(t as int).subrange(2, t as int) =~= s.subrange(2, t as int));
                    assert(chain_from(s, nh0, headers@.len(), len0 as nat, *config) == chain_prepend(seq![item@], t,
                        chain_from(packet@, next_header, headers@.len() + 1, extension_chain_length as nat, *config)));
                    lemma_chain_prepend_twice(hv, len0 as nat, item@, t, chain_from(packet@, next_header, headers@.len() + 1, extension_chain_length as nat, *config));
                }
                headers.push(item);
                assert(headers@.map_values(|h: ExtensionHeaderType| h@) =~= hv.push(item@));
            },
            IpProtocol::Ipv6DestOptions => {
                if headers.len() >= config.max_extension_headers {
                    return Err(CoreError::invalid_packet("扩展头数量超过限制"));
                }
                let header = match packet.peek(2) {
                    Some(b) => match DestinationOptionsHeader::from_bytes(b) {
                        Ok(h) => h,
                        Err(e) => { return Err(e); },
                    },
                    None => { return Err(CoreError::parse_error("读取目的选项头失败")); },
                };
                let total_len = header.total_length();
                if total_len > config.max_extension_headers_length - extension_chain_length {
                    return Err(CoreError::invalid_packet("扩展头链过长"));
                }
                let options = match packet.read(total_len) {
                    Some(full_data) => copy_range(full_data, 2, total_len),
                    None => { return Err(CoreError::parse_error("读取目的选项数据失败")); },
                };
                extension_chain_length = extension_chain_length + total_len;
                next_header = IpProtocol::from(header.next_header);
                let item = ExtensionHeaderType::DestinationOptions { header, options };
                let ghost t = total_len as nat;
                proof {
                    assert(s.skip(t as int) =~= s0.skip(extension_chain_length as int));
                    assert(s.take(t as int).subrange(2, t as int) =~= s.subrange(2, t as int));
                    assert(chain_from(s, nh0, headers@.len(), len0 as nat, *config) == chain_prepend(seq![item@], t,
                        chain_from(packet@, next_header, headers@.len() + 1, extension_chain_length as nat, *config)));
                    lemma_chain_prepend_twice(hv, len0 as nat, item@, t, chain_from(packet@, next_header, headers@.len() + 1, extension_chain_length as nat, *config));
                }
                headers.push(item);
                assert(headers@.map_values(|h: ExtensionHeaderType| h@) =~= hv.push(item@));
            },
            IpProtocol::Ipv6Route => {
                if headers.len() >= config.max_extension_headers {
                    return Err(CoreError::invalid_packet("扩展头数量超过限制"));
                }
                let routing_header = match packet.peek(4) {
                    Some(b) => match RoutingHeader::from_bytes(b) {
                        Ok(h) => h,
                        Err(e) => { return Err(e); },
                    },
                    None => { return Err(CoreError::parse_error("读取路由头失败")); },
                };
                if routing_header.is_type0() {
                    return Err(CoreError::UnsupportedProtocol("路由头 Type 0 已废弃 (RFC 5095)".to_owned()));
                }
                let total_len = routing_header.total_length();
                if total_len > config.max_extension_headers_length - extension_chain_length {
                    return Err(CoreError::invalid_packet("扩展头链过长"));
                }
                let data = match packet.read(total_len) {
                    Some(d) => copy_range(d, 0, total_len),
                    None => { return Err(CoreError::parse_error("读取路由头数据失败")); },
                };
                extension_chain_length = extension_chain_length + total_len;
                next_header = IpProtocol::from(routing_header.next_header);
                let item = ExtensionHeaderType::Routing { header: routing_header, data };
                let ghost t = total_len as nat;
                proof {
                    assert(s.skip(t as int) =~= s0.skip(extension_chain_length as int));
                    assert(s.take(t as int) =~= s.subrange(0, t as int));
                    assert(s.take(t as int).subrange(0, t as int) =~= s.subrange(0, t as int));
                    assert(chain_from(s, nh0, headers@.len(), len0 as nat, *config) == chain_prepend(seq![item@], t,
                        chain_from(packet@, next_header, headers@.len() + 1, extension_chain_length as nat, *config)));
                    lemma_chain_prepend_twice(hv, len0 as nat, item@, t, chain_from(packet@, next_header, headers@.len() + 1, extension_chain_length as nat, *config));
                }
                headers.push(item);
                assert(headers@.map_values(|h: ExtensionHeaderType| h@) =~= hv.push(item@));
            },
            IpProtocol::Ipv6Fragment => {
                if headers.len() >= config.max_extension_headers {
                    return Err(CoreError::invalid_packet("扩展头数量超过限制"));
                }
                let frag_header = match packet.peek(8) {
                    Some(b) => match FragmentHeader::from_bytes(b) {
                        Ok(h) => h,
                        Err(e) => { return Err(e); },
                    },
                    None => { return Err(CoreError::parse_error("读取分片头失败")); },
                };
                if frag_header.is_atomic_fragment() && config.reject_atomic_fragments {
                    let id = u32_decimal_text(frag_header.identification);
                    return Err(CoreError::InvalidPacket(join_text("原子分片被禁止: ID=", id.as_str())));
                }
                if 8 > config.max_extension_headers_length - extension_chain_length {
                    return Err(CoreError::invalid_packet("扩展头链过长"));
                }
                if packet.read(8).is_none() {
                    return Err(CoreError::parse_error("读取分片头失败"));
                }
                extension_chain_length = extension_chain_length + 8;
                next_header = IpProtocol::from(frag_header.next_header);
                let item = ExtensionHeaderType::Fragment { header: frag_header };
                headers.push(item);
                proof {
                    assert(s.skip(8) =~= s0.skip(extension_chain_length as int));
                    assert(headers@.map_values(|h: ExtensionHeaderType| h@) =~= hv.push(item@));
                    assert(hv + seq![item@] =~= hv.push(item@));
                }
                return Ok(ExtensionChainResult { next_header, headers, chain_length: extension_chain_length });
            },
            IpProtocol::Esp => {
                return Err(CoreError::UnsupportedProtocol("IPSec ESP 暂不支持".to_owned()));
            },
            IpProtocol::Ah => {
                return Err(CoreError::UnsupportedProtocol("IPSec AH 暂不支持".to_owned()));
            },
            _ => {
                proof {
                    assert(hv + Seq::<ExtHeaderModel>::empty() =~= hv);
                    assert(s0.skip(extension_chain_length as int) =~= packet@);
                }
                return Ok(ExtensionChainResult { next_header, headers, chain_length: extension_chain_length });
            },
        }
    }
}

} // verus!
