//! Hardware and protocol addresses as plain values.

use vstd::prelude::*;

verus! {

/// A six-byte link-layer address.
#[derive(Clone, Copy, Debug, PartialEq, Eq, Structural)]
pub struct MacAddr(pub u8, pub u8, pub u8, pub u8, pub u8, pub u8);

impl MacAddr {
    /// The six bytes in the order in which they travel on the wire.
    pub open spec fn octets(self) -> Seq<u8> {
        seq![self.0, self.1, self.2, self.3, self.4, self.5]
    }

    /// The all-ones address, delivered to every device on the link.
    pub open spec fn spec_broadcast() -> MacAddr {
        MacAddr(0xff, 0xff, 0xff, 0xff, 0xff, 0xff)
    }

    /// The all-zero address, which stands for "not yet known".
    pub open spec fn spec_zero() -> MacAddr {
        MacAddr(0, 0, 0, 0, 0, 0)
    }

    pub fn new(a: u8, b: u8, c: u8, d: u8, e: u8, f: u8) -> (r: MacAddr)
        ensures
            r == MacAddr(a, b, c, d, e, f),
    {
        MacAddr(a, b, c, d, e, f)
    }

    pub fn broadcast() -> (r: MacAddr)
        ensures
            r == MacAddr::spec_broadcast(),
    {
        MacAddr(0xff, 0xff, 0xff, 0xff, 0xff, 0xff)
    }

    pub fn zero() -> (r: MacAddr)
        ensures
            r == MacAddr::spec_zero(),
    {
        MacAddr(0, 0, 0, 0, 0, 0)
    }

    pub fn to_octets(&self) -> (r: [u8; 6])
        ensures
            r@ == self.octets(),
    {
        let r: [u8; 6] = [self.0, self.1, self.2, self.3, self.4, self.5];
        proof {
            assert(r@ =~= self.octets());
        }
        r
    }

    pub fn from_octets(o: [u8; 6]) -> (r: MacAddr)
        ensures
            r.octets() == o@,
    {
        let r = MacAddr(o[0], o[1], o[2], o[3], o[4], o[5]);
        proof {
            assert(r.octets() =~= o@);
        }
        r
    }
}

/// An IPv4 address, held as its 32-bit value (first octet most significant).
#[derive(Clone, Copy, Debug, PartialEq, Eq, Structural)]
pub struct Ipv4Address(pub u32);

impl Ipv4Address {
    /// The four bytes in network order.
    pub open spec fn octets(self) -> Seq<u8> {
        seq![
            (self.0 / 0x100_0000) as u8,
            (self.0 / 0x1_0000 % 0x100) as u8,
            (self.0 / 0x100 % 0x100) as u8,
            (self.0 % 0x100) as u8,
        ]
    }

    /// The address whose dotted-quad form is `a.b.c.d`.
    pub open spec fn spec_new(a: u8, b: u8, c: u8, d: u8) -> Ipv4Address {
        Ipv4Address((a * 0x100_0000 + b * 0x1_0000 + c * 0x100 + d) as u32)
    }

    pub fn new(a: u8, b: u8, c: u8, d: u8) -> (r: Ipv4Address)
        ensures
            r == Ipv4Address::spec_new(a, b, c, d),
            r.octets() == seq![a, b, c, d],
    {
        let hi: u32 = a as u32 * 0x100_0000 + b as u32 * 0x1_0000;
        let lo: u32 = c as u32 * 0x100 + d as u32;
        let r = Ipv4Address(hi + lo);
        proof {
            Ipv4Address::lemma_octets_of_new(a, b, c, d);
        }
        r
    }

    pub fn from_bits(bits: u32) -> (r: Ipv4Address)
        ensures
            r == Ipv4Address(bits),
    {
        Ipv4Address(bits)
    }

    pub fn to_bits(&self) -> (r: u32)
        ensures
            r == self.0,
    {
        self.0
    }

    pub fn to_octets(&self) -> (r: [u8; 4])
        ensures
            r@ == self.octets(),
    {
        let r: [u8; 4] = [
            (self.0 / 0x100_0000) as u8,
            (self.0 / 0x1_0000 % 0x100) as u8,
            (self.0 / 0x100 % 0x100) as u8,
            (self.0 % 0x100) as u8,
        ];
        proof {
            assert(r@ =~= self.octets());
        }
        r
    }

    /// Splitting an address made of four octets gives those octets back.
    pub proof fn lemma_octets_of_new(a: u8, b: u8, c: u8, d: u8)
        ensures
            Ipv4Address::spec_new(a, b, c, d).octets() == seq![a, b, c, d],
    {
        assert(Ipv4Address::spec_new(a, b, c, d).octets() =~= seq![a, b, c, d]);
    }

    /// Joining the four octets of an address gives the address back.
    pub proof fn lemma_new_of_octets(self)
        ensures
            Ipv4Address::spec_new(
                self.octets()[0],
                self.octets()[1],
                self.octets()[2],
                self.octets()[3],
            ) == self,
    {
    }
}

} // verus!
