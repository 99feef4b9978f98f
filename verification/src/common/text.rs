use vstd::prelude::*;
use vstd::string::StringExecFns;

verus! {

/// The character of the decimal digit `d` (below ten).
pub open spec fn digit_char(d: nat) -> char {
    seq!['0', '1', '2', '3', '4', '5', '6', '7', '8', '9'][d as int]
}

/// The decimal notation of `n`, without leading zeros.
pub open spec fn decimal_digits(n: nat) -> Seq<char>
    decreases n,
{
    if n < 10 {
        seq![digit_char(n)]
    } else {
        decimal_digits(n / 10).push(digit_char(n % 10))
    }
}

/// Joins two pieces of text.
pub fn join_text(a: &str, b: &str) -> (r: String)
    ensures
        r@ == a@ + b@,
{
    let mut r = a.to_owned();
    r.append(b);
    r
}

/// The decimal digit `d` (below ten) as text.
fn digit_str(d: u64) -> (r: &'static str)
    requires
        d < 10,
    ensures
        r@ == seq![digit_char(d as nat)],
{
    match d {
        0 => {
            proof { reveal_strlit("0"); }
            "0"
        },
        1 => {
            proof { reveal_strlit("1"); }
            "1"
        },
        2 => {
            proof { reveal_strlit("2"); }
            "2"
        },
        3 => {
            proof { reveal_strlit("3"); }
            "3"
        },
        4 => {
            proof { reveal_strlit("4"); }
            "4"
        },
        5 => {
            proof { reveal_strlit("5"); }
            "5"
        },
        6 => {
            proof { reveal_strlit("6"); }
            "6"
        },
        7 => {
            proof { reveal_strlit("7"); }
            "7"
        },
        8 => {
            proof { reveal_strlit("8"); }
            "8"
        },
        _ => {
            proof { reveal_strlit("9"); }
            "9"
        },
    }
}

/// The decimal notation of `n`.
pub fn decimal_text(n: u64) -> (r: String)
    ensures
        r@ == decimal_digits(n as nat),
    decreases n,
{
    if n < 10 {
        let r = join_text("", digit_str(n));
        proof { reveal_strlit(""); }
        assert(r@ =~= decimal_digits(n as nat));
        r
    } else {
        let rest = decimal_text(n / 10);
        let r = join_text(rest.as_str(), digit_str(n % 10));
        assert(r@ =~= decimal_digits(n as nat));
        r
    }
}

/// The decimal notation of a byte value.
pub open spec fn byte_decimal(v: u8) -> Seq<char> {
    decimal_digits(v as nat)
}

/// The decimal notation of a byte value.
pub fn byte_decimal_text(v: u8) -> (r: String)
    ensures
        r@ == byte_decimal(v),
{
    decimal_text(v as u64)
}

/// `a` followed by `b`.
pub fn append_text(a: String, b: &str) -> (r: String)
    ensures
        r@ == a@ + b@,
{
    join_text(a.as_str(), b)
}

/// The decimal notation of a 16-bit value.
pub fn u16_decimal_text(v: u16) -> (r: String)
    ensures
        r@ == decimal_digits(v as nat),
{
    decimal_text(v as u64)
}

/// The decimal notation of a 32-bit value.
pub fn u32_decimal_text(v: u32) -> (r: String)
    ensures
        r@ == decimal_digits(v as nat),
{
    decimal_text(v as u64)
}

/// The decimal notation of a `usize` value.
pub fn usize_decimal_text(v: usize) -> (r: String)
    ensures
        r@ == decimal_digits(v as nat),
{
    decimal_text(v as u64)
}

/// The decimal notation of a 16-bit value.
pub open spec fn u16_decimal(v: u16) -> Seq<char> {
    decimal_digits(v as nat)
}

/// The decimal notation of a 32-bit value.
pub open spec fn u32_decimal(v: u32) -> Seq<char> {
    decimal_digits(v as nat)
}

/// The decimal notation of a `usize` value.
pub open spec fn usize_decimal(v: usize) -> Seq<char> {
    decimal_digits(v as nat)
}

/// The lower-case hexadecimal digit of `d` (below sixteen).
pub open spec fn hex_digit(d: nat) -> char {
    seq!['0', '1', '2', '3', '4', '5', '6', '7', '8', '9', 'a', 'b', 'c', 'd', 'e', 'f'][d as int]
}

/// `0x` and the two lower-case hexadecimal digits of a byte.
pub open spec fn hex_byte(v: u8) -> Seq<char> {
    seq!['0', 'x', hex_digit((v / 16) as nat), hex_digit((v % 16) as nat)]
}

/// The hexadecimal digit of `d` as text.
fn hex_digit_str(d: u8) -> (r: &'static str)
    requires
        d < 16,
    ensures
        r@ == seq![hex_digit(d as nat)],
{
    match d {
        0 => {
            proof { reveal_strlit("0"); }
            "0"
        },
        1 => {
            proof { reveal_strlit("1"); }
            "1"
        },
        2 => {
            proof { reveal_strlit("2"); }
            "2"
        },
        3 => {
            proof { reveal_strlit("3"); }
            "3"
        },
        4 => {
            proof { reveal_strlit("4"); }
            "4"
        },
        5 => {
            proof { reveal_strlit("5"); }
            "5"
        },
        6 => {
            proof { reveal_strlit("6"); }
            "6"
        },
        7 => {
            proof { reveal_strlit("7"); }
            "7"
        },
        8 => {
            proof { reveal_strlit("8"); }
            "8"
        },
        9 => {
            proof { reveal_strlit("9"); }
            "9"
        },
        10 => {
            proof { reveal_strlit("a"); }
            "a"
        },
        11 => {
            proof { reveal_strlit("b"); }
            "b"
        },
        12 => {
            proof { reveal_strlit("c"); }
            "c"
        },
        13 => {
            proof { reveal_strlit("d"); }
            "d"
        },
        14 => {
            proof { reveal_strlit("e"); }
            "e"
        },
        _ => {
            proof { reveal_strlit("f"); }
            "f"
        },
    }
}

/// `0x` and the two lower-case hexadecimal digits of a byte.
pub fn hex_byte_text(v: u8) -> (r: String)
    ensures
        r@ == hex_byte(v),
{
    let hi = join_text("0x", hex_digit_str(v / 16));
    let r = join_text(hi.as_str(), hex_digit_str(v % 16));
    proof { reveal_strlit("0x"); }
    assert(r@ =~= hex_byte(v));
    r
}

/// Four lower-case hexadecimal digits of a 16-bit value, with leading zeros.
pub open spec fn hex4(v: u16) -> Seq<char> {
    seq![
        hex_digit((v / 4096) as nat),
        hex_digit(((v / 256) % 16) as nat),
        hex_digit(((v / 16) % 16) as nat),
        hex_digit((v % 16) as nat)
    ]
}

/// Four lower-case hexadecimal digits of a 16-bit value, with leading zeros.
pub fn hex16_text(v: u16) -> (r: String)
    ensures
        r@ == hex4(v),
{
    let a = join_text(hex_digit_str((v / 4096) as u8), hex_digit_str(((v / 256) % 16) as u8));
    let b = join_text(a.as_str(), hex_digit_str(((v / 16) % 16) as u8));
    let r = join_text(b.as_str(), hex_digit_str((v % 16) as u8));
    assert(r@ =~= hex4(v));
    r
}

/// The word for a boolean.
pub open spec fn bool_word(b: bool) -> Seq<char> {
    if b {
        "true"@
    } else {
        "false"@
    }
}

/// The word for a boolean.
pub fn bool_text(b: bool) -> (r: &'static str)
    ensures
        r@ == bool_word(b),
{
    if b {
        "true"
    } else {
        "false"
    }
}

/// `prefix`, `a`, `mid`, `b`, one after another.
pub fn pair_text(prefix: &str, a: &str, mid: &str, b: &str) -> (r: String)
    ensures
        r@ == prefix@ + a@ + mid@ + b@,
{
    let t1 = join_text(prefix, a);
    let t2 = join_text(t1.as_str(), mid);
    join_text(t2.as_str(), b)
}

/// Two lower-case hexadecimal digits of a byte.
pub open spec fn hex2(v: u8) -> Seq<char> {
    seq![hex_digit((v / 16) as nat), hex_digit((v % 16) as nat)]
}

/// Two lower-case hexadecimal digits of a byte.
pub fn hex2_text(v: u8) -> (r: String)
    ensures
        r@ == hex2(v),
{
    let r = join_text(hex_digit_str(v / 16), hex_digit_str(v % 16));
    assert(r@ =~= hex2(v));
    r
}

/// The text `format!("{:?}", s)` gives for a string: the string in double
/// quotes with the characters that need it escaped.
pub uninterp spec fn str_debug(s: Seq<char>) -> Seq<char>;

/// The debug form of a string.
///
/// Trusted: formats `s` with `{:?}`, whose output std defines from the
/// string alone (quotes and escapes); the result is named `str_debug`.
#[verifier::external_body]
pub(crate) fn debug_text(s: &str) -> (r: String)
    ensures
        r@ == str_debug(s@),
{
    format!("{:?}", s)
}

/// The lower-case hexadecimal digits of `v` without leading zeros.
pub open spec fn hex_short(v: u16) -> Seq<char> {
    if v < 16 {
        seq![hex_digit(v as nat)]
    } else if v < 256 {
        seq![hex_digit((v / 16) as nat), hex_digit((v % 16) as nat)]
    } else if v < 4096 {
        seq![hex_digit((v / 256) as nat), hex_digit(((v / 16) % 16) as nat), hex_digit((v % 16) as nat)]
    } else {
        hex4(v)
    }
}

/// The lower-case hexadecimal digits of `v` without leading zeros.
pub fn hex_short_text(v: u16) -> (r: String)
    ensures
        r@ == hex_short(v),
{
    if v < 16 {
        let r = join_text("", hex_digit_str(v as u8));
        proof { reveal_strlit(""); }
        assert(r@ =~= hex_short(v));
        r
    } else if v < 256 {
        let r = join_text(hex_digit_str((v / 16) as u8), hex_digit_str((v % 16) as u8));
        assert(r@ =~= hex_short(v));
        r
    } else if v < 4096 {
        let a = join_text(hex_digit_str((v / 256) as u8), hex_digit_str(((v / 16) % 16) as u8));
        let r = join_text(a.as_str(), hex_digit_str((v % 16) as u8));
        assert(r@ =~= hex_short(v));
        r
    } else {
        hex16_text(v)
    }
}

} // verus!
