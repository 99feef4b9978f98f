use vstd::prelude::*;
use crate::common::bytes::{be32, u32_bytes, lemma_be32_roundtrip, lemma_u32_bytes_roundtrip};
use crate::common::text::{byte_decimal, byte_decimal_text, hex2, hex2_text, join_text, pair_text};

verus! {

/// An Ethernet hardware address.
#[derive(Debug, Clone, Copy, PartialEq, Eq, Hash)]
pub struct MacAddr {
    pub bytes: [u8; 6],
}

impl MacAddr {
    /// Whether every byte of `b` is `v`.
    pub open spec fn all_bytes(b: Seq<u8>, v: u8) -> bool {
        forall|i: int| 0 <= i < b.len() ==> b[i] == v
    }

    /// Creates an address from its six bytes.
    pub fn new(bytes: [u8; 6]) -> (r: Self)
        ensures
            r.bytes@ == bytes@,
    {
        MacAddr { bytes }
    }

    /// The broadcast address ff:ff:ff:ff:ff:ff.
    pub fn broadcast() -> (r: Self)
        ensures
            Self::all_bytes(r.bytes@, 0xff),
            r.bytes@.len() == 6,
    {
        MacAddr { bytes: [0xff, 0xff, 0xff, 0xff, 0xff, 0xff] }
    }

    /// The all-zero address.
    pub fn zero() -> (r: Self)
        ensures
            Self::all_bytes(r.bytes@, 0),
            r.bytes@.len() == 6,
    {
        MacAddr { bytes: [0, 0, 0, 0, 0, 0] }
    }

    /// Whether this is the broadcast address.
    pub fn is_broadcast(&self) -> (r: bool)
        ensures
            r == Self::all_bytes(self.bytes@, 0xff),
    {
        let b = self.bytes;
        let r = b[0] == 0xff && b[1] == 0xff && b[2] == 0xff && b[3] == 0xff && b[4] == 0xff
            && b[5] == 0xff;
        proof {
            if !r {
                assert(!Self::all_bytes(self.bytes@, 0xff)) by {
                    let _ = (self.bytes@[0], self.bytes@[1], self.bytes@[2], self.bytes@[3], self.bytes@[4], self.bytes@[5]);
                }
            }
        }
        r
    }

    /// Whether two addresses are the same.
    pub fn equals(&self, other: &Self) -> (r: bool)
        ensures
            r == (self.bytes@ == other.bytes@),
    {
        crate::common::bytes::bytes_eq(&self.bytes, &other.bytes)
    }

    /// Whether this is the all-zero address.
    pub fn is_zero(&self) -> (r: bool)
        ensures
            r == Self::all_bytes(self.bytes@, 0),
    {
        let b = self.bytes;
        let r = b[0] == 0 && b[1] == 0 && b[2] == 0 && b[3] == 0 && b[4] == 0 && b[5] == 0;
        proof {
            if !r {
                assert(!Self::all_bytes(self.bytes@, 0)) by {
                    let _ = (self.bytes@[0], self.bytes@[1], self.bytes@[2], self.bytes@[3], self.bytes@[4], self.bytes@[5]);
                }
            }
        }
        r
    }
}

/// An IPv4 address.
#[derive(Debug, Clone, Copy, PartialEq, Eq, Hash, PartialOrd, Ord)]
pub struct Ipv4Addr {
    pub bytes: [u8; 4],
}

impl Ipv4Addr {
    /// The address as a big-endian 32-bit number.
    pub open spec fn value(&self) -> u32 {
        be32(self.bytes@[0], self.bytes@[1], self.bytes@[2], self.bytes@[3])
    }

    /// Creates an address from its four bytes.
    pub fn new(bytes: [u8; 4]) -> (r: Self)
        ensures
            r.bytes@ == bytes@,
    {
        Ipv4Addr { bytes }
    }

    /// Creates an address from its big-endian numeric value.
    pub fn from_u32(addr: u32) -> (r: Self)
        ensures
            r.bytes@ == u32_bytes(addr),
            r.value() == addr,
    {
        let r = Ipv4Addr {
            bytes: [
                (addr / 16777216) as u8,
                ((addr / 65536) % 256) as u8,
                ((addr / 256) % 256) as u8,
                (addr % 256) as u8,
            ],
        };
        proof {
            assert(r.bytes@ =~= u32_bytes(addr));
            lemma_be32_roundtrip(addr);
        }
        r
    }

    /// The big-endian numeric value of the address.
    pub fn to_u32(&self) -> (r: u32)
        ensures
            r == self.value(),
            u32_bytes(r) == self.bytes@,
    {
        let b = self.bytes;
        let r = (b[0] as u32) * 16777216 + (b[1] as u32) * 65536 + (b[2] as u32) * 256 + (b[3] as u32);
        proof {
            lemma_u32_bytes_roundtrip(b[0], b[1], b[2], b[3]);
            assert(self.bytes@ =~= seq![b[0], b[1], b[2], b[3]]);
        }
        r
    }

    /// The loopback address 127.0.0.1.
    pub fn localhost() -> (r: Self)
        ensures
            r.bytes@ == seq![127u8, 0, 0, 1],
    {
        let r = Ipv4Addr { bytes: [127, 0, 0, 1] };
        assert(r.bytes@ =~= seq![127u8, 0, 0, 1]);
        r
    }

    /// The unspecified address 0.0.0.0.
    pub fn zero() -> (r: Self)
        ensures
            r.bytes@ == seq![0u8, 0, 0, 0],
    {
        let r = Ipv4Addr { bytes: [0, 0, 0, 0] };
        assert(r.bytes@ =~= seq![0u8, 0, 0, 0]);
        r
    }

    /// Whether this is 0.0.0.0.
    pub fn is_zero(&self) -> (r: bool)
        ensures
            r == (self.bytes@ == seq![0u8, 0, 0, 0]),
    {
        let b = self.bytes;
        let r = b[0] == 0 && b[1] == 0 && b[2] == 0 && b[3] == 0;
        proof {
            if r {
                assert(self.bytes@ =~= seq![0u8, 0, 0, 0]);
            }
        }
        r
    }

    /// Whether this is the limited broadcast address 255.255.255.255.
    pub fn is_broadcast(&self) -> (r: bool)
        ensures
            r == (self.bytes@ == seq![255u8, 255, 255, 255]),
    {
        let b = self.bytes;
        let r = b[0] == 255 && b[1] == 255 && b[2] == 255 && b[3] == 255;
        proof {
            if r {
                assert(self.bytes@ =~= seq![255u8, 255, 255, 255]);
            }
        }
        r
    }

    /// Whether two addresses are the same.
    pub fn equals(&self, other: &Self) -> (r: bool)
        ensures
            r == (self.bytes@ == other.bytes@),
    {
        let r = crate::common::bytes::bytes_eq(&self.bytes, &other.bytes);
        r
    }

    /// Whether this is the unspecified address 0.0.0.0.
    pub fn is_unspecified(&self) -> (r: bool)
        ensures
            r == (self.bytes@ == seq![0u8, 0, 0, 0]),
    {
        self.is_zero()
    }

    /// Whether the address is a multicast address (224.0.0.0/4).
    pub fn is_multicast(&self) -> (r: bool)
        ensures
            r == (224 <= self.bytes@[0] <= 239),
    {
        self.bytes[0] >= 224 && self.bytes[0] <= 239
    }

    /// Whether the address lies in 127.0.0.0/8.
    pub fn is_loopback(&self) -> (r: bool)
        ensures
            r == (self.bytes@[0] == 127),
    {
        self.bytes[0] == 127
    }
}

/// The dotted-decimal text of four address bytes.
pub open spec fn dotted_quad(b: Seq<u8>) -> Seq<char> {
    byte_decimal(b[0]) + "."@ + byte_decimal(b[1]) + "."@ + byte_decimal(b[2]) + "."@ + byte_decimal(b[3])
}

impl Ipv4Addr {
    /// The address in dotted-decimal form, such as `192.168.1.1`.
    pub fn to_string(&self) -> (r: String)
        ensures
            r@ == dotted_quad(self.bytes@),
    {
        let a = byte_decimal_text(self.bytes[0]);
        let b = byte_decimal_text(self.bytes[1]);
        let c = byte_decimal_text(self.bytes[2]);
        let d = byte_decimal_text(self.bytes[3]);
        let t1 = join_text(a.as_str(), ".");
        let t2 = join_text(t1.as_str(), b.as_str());
        let t3 = join_text(t2.as_str(), ".");
        let t4 = join_text(t3.as_str(), c.as_str());
        let t5 = join_text(t4.as_str(), ".");
        let r = join_text(t5.as_str(), d.as_str());
        r
    }
}

/// The colon-separated hexadecimal text of six hardware address bytes.
pub open spec fn mac_text(b: Seq<u8>) -> Seq<char> {
    hex2(b[0]) + ":"@ + hex2(b[1]) + ":"@ + hex2(b[2]) + ":"@ + hex2(b[3]) + ":"@ + hex2(b[4]) + ":"@ + hex2(b[5])
}

impl MacAddr {
    /// The address as text, such as `00:1a:2b:3c:4d:5e`.
    pub fn to_string(&self) -> (r: String)
        ensures
            r@ == mac_text(self.bytes@),
    {
        let h0 = hex2_text(self.bytes[0]);
        let h1 = hex2_text(self.bytes[1]);
        let h2 = hex2_text(self.bytes[2]);
        let h3 = hex2_text(self.bytes[3]);
        let h4 = hex2_text(self.bytes[4]);
        let h5 = hex2_text(self.bytes[5]);
        let t1 = pair_text(h0.as_str(), ":", h1.as_str(), ":");
        let t2 = pair_text(t1.as_str(), h2.as_str(), ":", h3.as_str());
        let t3 = pair_text(t2.as_str(), ":", h4.as_str(), ":");
        let r = join_text(t3.as_str(), h5.as_str());
        r
    }
}

} // verus!
