use vstd::prelude::*;
use crate::common::bytes::{be16, be32, u16_bytes, u32_bytes, copy_range, push_repeat, push_slice, read_be16, read_be32};
use crate::common::error::CoreError;
use crate::common::text::{byte_decimal_text, hex_byte, hex_byte_text, join_text, u32_decimal_text};

verus! {

/// Option type of Pad1.
pub const OPTION_TYPE_PAD1: u8 = 0x00;
/// Option type of PadN.
pub const OPTION_TYPE_PADN: u8 = 0x01;
/// Option type of Router Alert.
pub const OPTION_TYPE_ROUTER_ALERT: u8 = 0x05;
/// Option type of Jumbo Payload.
pub const OPTION_TYPE_JUMBO_PAYLOAD: u8 = 0xC2;

/// The type octet of an option in a hop-by-hop or destination options header.
///
/// Its top two bits say what a node that does not know the option does, the
/// next bit whether the data may change on the way, the low five bits the
/// option itself.
#[derive(Debug, Clone, Copy, PartialEq, Eq, Structural)]
pub struct OptionType(pub u8);

impl OptionType {
    /// Pad1.
    pub fn pad1() -> (r: Self)
        ensures
            r.0 == OPTION_TYPE_PAD1,
    {
        OptionType(OPTION_TYPE_PAD1)
    }

    /// PadN.
    pub fn padn() -> (r: Self)
        ensures
            r.0 == OPTION_TYPE_PADN,
    {
        OptionType(OPTION_TYPE_PADN)
    }

    /// Router Alert.
    pub fn router_alert() -> (r: Self)
        ensures
            r.0 == OPTION_TYPE_ROUTER_ALERT,
    {
        OptionType(OPTION_TYPE_ROUTER_ALERT)
    }

    /// An option type with this octet.
    pub fn new(value: u8) -> (r: Self)
        ensures
            r.0 == value,
    {
        OptionType(value)
    }

    /// The low five bits.
    pub fn option_type_value(&self) -> (r: u8)
        ensures
            r == self.0 % 32,
    {
        let v = self.0;
        assert(v & 0x1F == v % 32) by (bit_vector);
        v & 0x1F
    }

    /// The action bits (the top two): 0 skip the option, 1 discard the
    /// packet, 2 discard and send ICMPv6 Parameter Problem, 3 the same,
    /// pointing at the option type.
    pub fn action(&self) -> (r: u8)
        ensures
            r == self.0 / 64,
    {
        let v = self.0;
        assert((v >> 6u8) & 0x03 == v / 64) by (bit_vector);
        (v >> 6u8) & 0x03
    }

    /// The change bit: whether the option data may change en route.
    pub fn change_flag(&self) -> (r: bool)
        ensures
            r == ((self.0 / 32) % 2 == 1),
    {
        let v = self.0;
        assert(((v & 0x20) != 0) == ((v / 32) % 2 == 1)) by (bit_vector);
        (v & 0x20) != 0
    }

    /// Whether a node that does not know the option discards the packet.
    pub fn should_discard(&self) -> (r: bool)
        ensures
            r == (self.0 / 64 >= 1),
    {
        self.action() >= 1
    }

    /// Whether a node that does not know the option answers with ICMPv6.
    pub fn should_send_icmp(&self) -> (r: bool)
        ensures
            r == (self.0 / 64 >= 2),
    {
        self.action() >= 2
    }

    /// Whether this is Pad1.
    pub fn is_pad1(&self) -> (r: bool)
        ensures
            r == (self.0 == 0),
    {
        self.0 == OPTION_TYPE_PAD1
    }

    /// Whether this is PadN (option type 1).
    pub fn is_padn(&self) -> (r: bool)
        ensures
            r == (self.0 == 1),
    {
        self.0 == OPTION_TYPE_PADN
    }

    /// Whether this is Pad1 or PadN.
    pub fn is_padding(&self) -> (r: bool)
        ensures
            r == (self.0 == 0 || self.0 == 1),
    {
        self.is_pad1() || self.is_padn()
    }

    /// The type's name: "Pad1", "PadN", "RouterAlert", or
    /// "OptionType(0x..)" with the octet in two hex digits.
    pub fn to_string(&self) -> (r: String)
        ensures
            r@ == option_type_text(self.0),
    {
        if self.0 == OPTION_TYPE_PAD1 {
            "Pad1".to_owned()
        } else if self.0 == OPTION_TYPE_PADN {
            "PadN".to_owned()
        } else if self.0 == OPTION_TYPE_ROUTER_ALERT {
            "RouterAlert".to_owned()
        } else {
            let hex = hex_byte_text(self.0);
            let head = join_text("OptionType(", hex.as_str());
            join_text(head.as_str(), ")")
        }
    }
}

/// The name `OptionType::to_string` gives an octet.
pub open spec fn option_type_text(v: u8) -> Seq<char> {
    if v == 0 {
        "Pad1"@
    } else if v == 1 {
        "PadN"@
    } else if v == 5 {
        "RouterAlert"@
    } else {
        "OptionType("@ + hex_byte(v) + ")"@
    }
}

/// One option of an options header: its type and its data.
///
/// Pad1 is a single octet with no length or data; every other option is
/// type, length, data.
#[derive(Debug, Clone, PartialEq, Eq)]
pub struct Ipv6Option {
    pub option_type: OptionType,
    pub data: Vec<u8>,
}

impl View for Ipv6Option {
    type V = (OptionType, Seq<u8>);

    open spec fn view(&self) -> (OptionType, Seq<u8>) {
        (self.option_type, self.data@)
    }
}

/// Whether `s` starts with a whole option.
pub open spec fn option_fits(s: Seq<u8>) -> bool {
    s.len() >= 1 && (s[0] == 0 || (s.len() >= 2 && s.len() >= 2 + s[1]))
}

/// The number of bytes of the option at the start of `s`.
pub open spec fn option_span(s: Seq<u8>) -> nat {
    if s[0] == 0 {
        1
    } else {
        (2 + s[1]) as nat
    }
}

/// The option at the start of `s`.
pub open spec fn option_at(s: Seq<u8>) -> (OptionType, Seq<u8>) {
    if s[0] == 0 {
        (OptionType(0), Seq::empty())
    } else {
        (OptionType(s[0]), s.subrange(2, 2 + s[1]))
    }
}

/// The options read one after another from the start of `s`, stopping at
/// the end or at the first that does not fit, and the bytes they take.
pub open spec fn options_parse(s: Seq<u8>) -> (Seq<(OptionType, Seq<u8>)>, nat)
    decreases s.len(),
{
    if s.len() == 0 || !option_fits(s) {
        (Seq::empty(), 0)
    } else {
        let n = option_span(s);
        let rest = options_parse(s.skip(n as int));
        (seq![option_at(s)] + rest.0, n + rest.1)
    }
}

impl Ipv6Option {
    /// The option's wire form; the length octet holds the data length's low
    /// eight bits.
    pub open spec fn wire(self) -> Seq<u8> {
        if self.option_type.0 == 0 {
            seq![0u8]
        } else {
            seq![self.option_type.0, (self.data@.len() % 256) as u8] + self.data@
        }
    }

    /// The option's length on the wire.
    pub open spec fn spec_total_length(self) -> nat {
        if self.option_type.0 == 0 {
            1
        } else {
            self.data@.len() + 2
        }
    }

    /// An option of this type holding `data`.
    pub fn new(option_type: OptionType, data: Vec<u8>) -> (r: Self)
        ensures
            r.option_type == option_type,
            r.data@ == data@,
    {
        Ipv6Option { option_type, data }
    }

    /// Bytes the option takes: 1 for Pad1, else 2 plus the data.
    pub fn total_length(&self) -> (r: usize)
        requires
            self.data@.len() + 2 <= usize::MAX,
        ensures
            r == self.spec_total_length(),
    {
        if self.option_type.is_pad1() {
            1
        } else {
            2 + self.data.len()
        }
    }

    /// Reads the option at the start of `data`, with the bytes it takes.
    pub fn from_bytes(data: &[u8]) -> (r: Result<(Ipv6Option, usize), CoreError>)
        ensures
            option_fits(data@) ==> (r matches Ok((o, n)) && o@ == option_at(data@) && n == option_span(data@)),
            !option_fits(data@) ==> (r matches Err(e) && e is ParseError),
    {
        if data.len() == 0 {
            return Err(CoreError::parse_error("选项数据为空"));
        }
        if data[0] == OPTION_TYPE_PAD1 {
            return Ok((Ipv6Option { option_type: OptionType::pad1(), data: Vec::new() }, 1));
        }
        if data.len() < 2 {
            return Err(CoreError::parse_error("选项数据不足"));
        }
        let option_type = OptionType(data[0]);
        let opt_data_len = data[1] as usize;
        if data.len() < 2 + opt_data_len {
            return Err(CoreError::parse_error("选项数据长度不足"));
        }
        let option_data = copy_range(data, 2, 2 + opt_data_len);
        Ok((Ipv6Option { option_type, data: option_data }, 2 + opt_data_len))
    }

    /// The option's wire bytes.
    pub fn to_bytes(&self) -> (r: Vec<u8>)
        ensures
            r@ == self.wire(),
    {
        if self.option_type.is_pad1() {
            let mut v: Vec<u8> = Vec::new();
            v.push(OPTION_TYPE_PAD1);
            assert(v@ =~= seq![0u8]);
            v
        } else {
            let mut bytes: Vec<u8> = Vec::new();
            bytes.push(self.option_type.0);
            bytes.push((self.data.len() % 256) as u8);
            push_slice(&mut bytes, self.data.as_slice());
            assert(bytes@ =~= self.wire());
            bytes
        }
    }
}

/// Reading back the bytes of an option gives the option and its length,
/// for Pad1 without data and for any other option whose data fits the
/// length octet.
pub proof fn lemma_option_roundtrip(o: Ipv6Option)
    requires
        o.option_type.0 == 0 ==> o.data@.len() == 0,
        o.option_type.0 != 0 ==> o.data@.len() < 256,
    ensures
        option_fits(o.wire()),
        option_at(o.wire()) == o@,
        option_span(o.wire()) == o.spec_total_length(),
{
    let w = o.wire();
    if o.option_type.0 != 0 {
        assert(w.subrange(2, 2 + w[1]) =~= o.data@);
    } else {
        assert(o.data@ =~= Seq::<u8>::empty());
    }
}

/// The Router Alert option (type 5, length 2, a 16-bit value).
#[derive(Debug, Clone, Copy, PartialEq, Eq, Structural)]
pub struct RouterAlertOption {
    pub option_type: u8,
    pub option_length: u8,
    pub alert_value: u16,
}

/// The Router Alert option that the first four bytes of `s` hold.
pub open spec fn router_alert_from(s: Seq<u8>) -> RouterAlertOption {
    RouterAlertOption { option_type: s[0], option_length: s[1], alert_value: be16(s[2], s[3]) }
}

impl RouterAlertOption {
    /// Bytes of the option.
    pub const LENGTH: usize = 4;
    /// Alert value: MLD or RSVP.
    pub const ALERT_VALUE_MLD_OR_RSVP: u16 = 0;
    /// Alert value: MLDv1.
    pub const ALERT_VALUE_MLDV1: u16 = 1;
    /// Alert value: RSVP.
    pub const ALERT_VALUE_RSVP: u16 = 2;
    /// Alert value: Active Networks.
    pub const ALERT_VALUE_ACTIVE_NETWORKS: u16 = 3;

    /// The option's four wire bytes.
    pub open spec fn wire(self) -> Seq<u8> {
        seq![self.option_type, self.option_length] + u16_bytes(self.alert_value)
    }

    /// A Router Alert option carrying `alert_value`.
    pub fn new(alert_value: u16) -> (r: Self)
        ensures
            r == (RouterAlertOption { option_type: 5, option_length: 2, alert_value }),
    {
        RouterAlertOption { option_type: OPTION_TYPE_ROUTER_ALERT, option_length: 2, alert_value }
    }

    /// Reads the option from the start of `data`.
    pub fn from_bytes(data: &[u8]) -> (r: Result<Self, CoreError>)
        ensures
            data@.len() < 4 ==> (r matches Err(e) && e is ParseError),
            data@.len() >= 4 && (data@[0] != 5 || data@[1] != 2) ==> (r matches Err(e) && e is ParseError),
            data@.len() >= 4 && data@[0] == 5 && data@[1] == 2 ==> r == Ok::<Self, CoreError>(
                router_alert_from(data@),
            ),
    {
        if data.len() < Self::LENGTH {
            return Err(CoreError::parse_error("Router Alert 选项数据不足"));
        }
        if data[0] != OPTION_TYPE_ROUTER_ALERT {
            let text = byte_decimal_text(data[0]);
            return Err(CoreError::ParseError(join_text("无效的 Router Alert 选项类型: ", text.as_str())));
        }
        if data[1] != 2 {
            let text = byte_decimal_text(data[1]);
            return Err(CoreError::ParseError(join_text("无效的 Router Alert 选项长度: ", text.as_str())));
        }
        let alert_value = read_be16(data, 2);
        Ok(RouterAlertOption { option_type: data[0], option_length: data[1], alert_value })
    }

    /// The option's wire bytes.
    pub fn to_bytes(&self) -> (r: [u8; 4])
        ensures
            r@ == self.wire(),
    {
        let r: [u8; 4] = [
            self.option_type,
            self.option_length,
            (self.alert_value / 256) as u8,
            (self.alert_value % 256) as u8,
        ];
        assert(r@ =~= self.wire());
        r
    }
}

/// Reading back the bytes of a Router Alert option gives the option.
pub proof fn lemma_router_alert_roundtrip(o: RouterAlertOption)
    ensures
        o.wire().len() == 4,
        router_alert_from(o.wire()) == o,
{
    crate::common::bytes::lemma_be16_roundtrip(o.alert_value);
}

/// The Jumbo Payload option (type 0xC2, length 4, a 32-bit length above
/// 65535).
#[derive(Debug, Clone, Copy, PartialEq, Eq, Structural)]
pub struct JumboPayloadOption {
    pub option_type: u8,
    pub option_length: u8,
    pub jumbo_length: u32,
}

/// The Jumbo Payload option that the first six bytes of `s` hold.
pub open spec fn jumbo_from(s: Seq<u8>) -> JumboPayloadOption {
    JumboPayloadOption { option_type: s[0], option_length: s[1], jumbo_length: be32(s[2], s[3], s[4], s[5]) }
}

impl JumboPayloadOption {
    /// Bytes of the option.
    pub const LENGTH: usize = 6;
    /// The smallest length the option may carry.
    pub const MIN_JUMBO_LENGTH: u32 = 65536;

    /// The option's six wire bytes.
    pub open spec fn wire(self) -> Seq<u8> {
        seq![self.option_type, self.option_length] + u32_bytes(self.jumbo_length)
    }

    /// A Jumbo Payload option carrying `jumbo_length`; refused below 65536.
    pub fn new(jumbo_length: u32) -> (r: Result<Self, CoreError>)
        ensures
            jumbo_length < 65536 ==> (r matches Err(e) && e is InvalidPacket),
            jumbo_length >= 65536 ==> r == Ok::<Self, CoreError>(
                JumboPayloadOption { option_type: 0xC2, option_length: 4, jumbo_length },
            ),
    {
        if jumbo_length < Self::MIN_JUMBO_LENGTH {
            let text = u32_decimal_text(jumbo_length);
            return Err(CoreError::InvalidPacket(join_text("Jumbo 长度必须大于 65535: ", text.as_str())));
        }
        Ok(JumboPayloadOption { option_type: OPTION_TYPE_JUMBO_PAYLOAD, option_length: 4, jumbo_length })
    }

    /// Reads the option from the start of `data`.
    pub fn from_bytes(data: &[u8]) -> (r: Result<Self, CoreError>)
        ensures
            data@.len() < 6 ==> (r matches Err(e) && e is ParseError),
            data@.len() >= 6 && (data@[0] != 0xC2 || data@[1] != 4) ==> (r matches Err(e) && e is ParseError),
            data@.len() >= 6 && data@[0] == 0xC2 && data@[1] == 4 && jumbo_from(data@).jumbo_length < 65536 ==> (
            r matches Err(e) && e is InvalidPacket),
            data@.len() >= 6 && data@[0] == 0xC2 && data@[1] == 4 && jumbo_from(data@).jumbo_length >= 65536
                ==> r == Ok::<Self, CoreError>(jumbo_from(data@)),
    {
        if data.len() < Self::LENGTH {
            return Err(CoreError::parse_error("Jumbo Payload 选项数据不足"));
        }
        if data[0] != OPTION_TYPE_JUMBO_PAYLOAD {
            let text = byte_decimal_text(data[0]);
            return Err(CoreError::ParseError(join_text("无效的 Jumbo Payload 选项类型: ", text.as_str())));
        }
        if data[1] != 4 {
            let text = byte_decimal_text(data[1]);
            return Err(CoreError::ParseError(join_text("无效的 Jumbo Payload 选项长度: ", text.as_str())));
        }
        let jumbo_length = read_be32(data, 2);
        if jumbo_length < Self::MIN_JUMBO_LENGTH {
            let text = u32_decimal_text(jumbo_length);
            return Err(CoreError::InvalidPacket(join_text("Jumbo 长度必须大于 65535: ", text.as_str())));
        }
        Ok(JumboPayloadOption { option_type: data[0], option_length: data[1], jumbo_length })
    }

    /// The option's wire bytes.
    pub fn to_bytes(&self) -> (r: [u8; 6])
        ensures
            r@ == self.wire(),
    {
        let v = self.jumbo_length;
        let r: [u8; 6] = [
            self.option_type,
            self.option_length,
            (v / 16777216) as u8,
            ((v / 65536) % 256) as u8,
            ((v / 256) % 256) as u8,
            (v % 256) as u8,
        ];
        assert(r@ =~= self.wire());
        r
    }
}

/// Reading back the bytes of a Jumbo Payload option gives the option.
pub proof fn lemma_jumbo_roundtrip(o: JumboPayloadOption)
    ensures
        o.wire().len() == 6,
        jumbo_from(o.wire()) == o,
{
    crate::common::bytes::lemma_be32_roundtrip(o.jumbo_length);
}

/// The options read from an options area and the bytes they took.
#[derive(Debug, Clone, PartialEq)]
pub struct OptionsParseResult {
    pub options: Vec<Ipv6Option>,
    pub total_length: usize,
}

/// Reads the options of an options area one after another; stops at the
/// first that does not fit and returns what was read before it.
pub fn parse_options(data: &[u8]) -> (r: Result<OptionsParseResult, CoreError>)
    ensures
        r matches Ok(p) && p.options@.map_values(|o: Ipv6Option| o@) == options_parse(data@).0
            && p.total_length == options_parse(data@).1,
{
    let mut options: Vec<Ipv6Option> = Vec::new();
    let mut offset: usize = 0;
    assert(data@.skip(0) =~= data@);
    assert(options@.map_values(|o: Ipv6Option| o@) + options_parse(data@).0 =~= options_parse(data@).0);
    while offset < data.len()
        invariant
            offset <= data@.len(),
            options@.map_values(|o: Ipv6Option| o@) + options_parse(data@.skip(offset as int)).0
                == options_parse(data@).0,
            offset + options_parse(data@.skip(offset as int)).1 == options_parse(data@).1,
        decreases data@.len() - offset,
    {
        let rest = &data[offset..data.len()];
        let ghost s = data@.skip(offset as int);
        assert(rest@ =~= s);
        match Ipv6Option::from_bytes(rest) {
            Ok((option, length)) => {
                let ghost before = options@.map_values(|o: Ipv6Option| o@);
                assert(s.skip(length as int) =~= data@.skip(offset + length));
                options.push(option);
                offset = offset + length;
                assert(options@.map_values(|o: Ipv6Option| o@) =~= before.push(option@));
                assert(before.push(option@) + options_parse(data@.skip(offset as int)).0 =~= before
                    + options_parse(s).0);
            },
            Err(_e) => {
                return Ok(OptionsParseResult { options, total_length: offset });
            },
        }
    }
    assert(data@.skip(offset as int) =~= Seq::<u8>::empty());
    Ok(OptionsParseResult { options, total_length: offset })
}

/// A PadN option taking `length` bytes: `length - 2` zero bytes of data
/// (none when `length` is below 2).
pub fn create_padn(length: usize) -> (r: Ipv6Option)
    ensures
        r.option_type == OptionType(1),
        r.data@ == Seq::new((if length >= 2 { length - 2 } else { 0 }) as nat, |_i: int| 0u8),
{
    let data_length = length.saturating_sub(2);
    let mut data: Vec<u8> = Vec::new();
    push_repeat(&mut data, 0, data_length);
    assert(data@ =~= Seq::new((if length >= 2 { length - 2 } else { 0 }) as nat, |_i: int| 0u8));
    Ipv6Option { option_type: OptionType::padn(), data }
}

} // verus!
