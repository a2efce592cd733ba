//! IPv4 and IPv6 address values.

use vstd::prelude::*;
use crate::cursor::{be16, be32};

verus! {

/// An IPv4 address: a 32-bit number, the first octet in the highest bits.
#[derive(Clone, Copy, Debug, PartialEq, Eq, Structural, PartialOrd, Ord, Hash)]
pub struct Ipv4Addr {
    /// The address as one number.
    pub bits: u32,
}

impl View for Ipv4Addr {
    type V = Ipv4Addr;

    open spec fn view(&self) -> Ipv4Addr {
        *self
    }
}

impl Ipv4Addr {
    /// The address `a.b.c.d`.
    pub open spec fn spec_new(a: u8, b: u8, c: u8, d: u8) -> Ipv4Addr {
        Ipv4Addr { bits: be32(a, b, c, d) }
    }

    /// The four octets of the address, first octet first.
    pub open spec fn spec_octets(&self) -> Seq<u8> {
        seq![
            (self.bits / 0x100_0000) as u8,
            (self.bits / 0x1_0000 % 0x100) as u8,
            (self.bits / 0x100 % 0x100) as u8,
            (self.bits % 0x100) as u8,
        ]
    }

    /// The address `a.b.c.d`.
    pub fn new(a: u8, b: u8, c: u8, d: u8) -> (r: Ipv4Addr)
        ensures
            r == Ipv4Addr::spec_new(a, b, c, d),
    {
        let a: u32 = a as u32;
        let b: u32 = b as u32;
        let c: u32 = c as u32;
        let d: u32 = d as u32;
        Ipv4Addr { bits: ((a * 256 + b) * 256 + c) * 256 + d }
    }

    /// The address whose 32 bits are `bits`.
    pub fn from_bits(bits: u32) -> (r: Ipv4Addr)
        ensures
            r.bits == bits,
    {
        Ipv4Addr { bits }
    }

    /// The 32 bits of the address.
    pub fn to_bits(&self) -> (r: u32)
        ensures
            r == self.bits,
    {
        self.bits
    }

    /// The four octets of the address, first octet first.
    pub fn octets(&self) -> (r: [u8; 4])
        ensures
            r@ == self.spec_octets(),
            Ipv4Addr::spec_new(r[0], r[1], r[2], r[3]) == *self,
    {
        let a: u8 = (self.bits / 0x100_0000) as u8;
        let b: u8 = (self.bits / 0x1_0000 % 0x100) as u8;
        let c: u8 = (self.bits / 0x100 % 0x100) as u8;
        let d: u8 = (self.bits % 0x100) as u8;
        let r: [u8; 4] = [a, b, c, d];
        assert(r@ =~= self.spec_octets());
        r
    }
}

/// The 128-bit number made of eight 16-bit groups, the first group in the
/// highest bits.
pub open spec fn be128(a: u16, b: u16, c: u16, d: u16, e: u16, f: u16, g: u16, h: u16) -> u128 {
    ((((((((a as int) * 0x1_0000 + b as int) * 0x1_0000 + c as int) * 0x1_0000 + d as int)
        * 0x1_0000 + e as int) * 0x1_0000 + f as int) * 0x1_0000 + g as int) * 0x1_0000
        + h as int) as u128
}

/// An IPv6 address: a 128-bit number, the first group in the highest bits.
#[derive(Clone, Copy, Debug, PartialEq, Eq, Structural, PartialOrd, Ord, Hash)]
pub struct Ipv6Addr {
    /// The address as one number.
    pub bits: u128,
}

impl View for Ipv6Addr {
    type V = Ipv6Addr;

    open spec fn view(&self) -> Ipv6Addr {
        *self
    }
}

impl Ipv6Addr {
    /// The address with the groups `a:b:c:d:e:f:g:h`.
    pub open spec fn spec_new(
        a: u16,
        b: u16,
        c: u16,
        d: u16,
        e: u16,
        f: u16,
        g: u16,
        h: u16,
    ) -> Ipv6Addr {
        Ipv6Addr { bits: be128(a, b, c, d, e, f, g, h) }
    }

    /// The address that sixteen octets encode, first octet first.
    pub open spec fn spec_from_octets(o: Seq<u8>) -> Ipv6Addr
        recommends
            o.len() == 16,
    {
        Ipv6Addr::spec_new(
            be16(o[0], o[1]),
            be16(o[2], o[3]),
            be16(o[4], o[5]),
            be16(o[6], o[7]),
            be16(o[8], o[9]),
            be16(o[10], o[11]),
            be16(o[12], o[13]),
            be16(o[14], o[15]),
        )
    }

    /// The eight groups of the address, first group first.
    pub open spec fn spec_segments(&self) -> Seq<u16> {
        seq![
            (self.bits / 0x1_0000_0000_0000_0000_0000_0000_0000) as u16,
            (self.bits / 0x1_0000_0000_0000_0000_0000_0000 % 0x1_0000) as u16,
            (self.bits / 0x1_0000_0000_0000_0000_0000 % 0x1_0000) as u16,
            (self.bits / 0x1_0000_0000_0000_0000 % 0x1_0000) as u16,
            (self.bits / 0x1_0000_0000_0000 % 0x1_0000) as u16,
            (self.bits / 0x1_0000_0000 % 0x1_0000) as u16,
            (self.bits / 0x1_0000 % 0x1_0000) as u16,
            (self.bits % 0x1_0000) as u16,
        ]
    }

    /// The address with the groups `a:b:c:d:e:f:g:h`.
    pub fn new(a: u16, b: u16, c: u16, d: u16, e: u16, f: u16, g: u16, h: u16) -> (r: Ipv6Addr)
        ensures
            r == Ipv6Addr::spec_new(a, b, c, d, e, f, g, h),
    {
        let mut bits: u128 = a as u128;
        bits = bits * 0x1_0000 + b as u128;
        bits = bits * 0x1_0000 + c as u128;
        bits = bits * 0x1_0000 + d as u128;
        bits = bits * 0x1_0000 + e as u128;
        bits = bits * 0x1_0000 + f as u128;
        bits = bits * 0x1_0000 + g as u128;
        bits = bits * 0x1_0000 + h as u128;
        Ipv6Addr { bits }
    }

    /// The address whose 128 bits are `bits`.
    pub fn from_bits(bits: u128) -> (r: Ipv6Addr)
        ensures
            r.bits == bits,
    {
        Ipv6Addr { bits }
    }

    /// The 128 bits of the address.
    pub fn to_bits(&self) -> (r: u128)
        ensures
            r == self.bits,
    {
        self.bits
    }

    /// The address that sixteen octets encode, first octet first.
    pub fn from_octets(o: [u8; 16]) -> (r: Ipv6Addr)
        ensures
            r == Ipv6Addr::spec_from_octets(o@),
    {
        Ipv6Addr::new(
            o[0] as u16 * 256 + o[1] as u16,
            o[2] as u16 * 256 + o[3] as u16,
            o[4] as u16 * 256 + o[5] as u16,
            o[6] as u16 * 256 + o[7] as u16,
            o[8] as u16 * 256 + o[9] as u16,
            o[10] as u16 * 256 + o[11] as u16,
            o[12] as u16 * 256 + o[13] as u16,
            o[14] as u16 * 256 + o[15] as u16,
        )
    }

    /// The eight groups of the address, first group first.
    pub fn segments(&self) -> (r: [u16; 8])
        ensures
            r@ == self.spec_segments(),
            Ipv6Addr::spec_new(r[0], r[1], r[2], r[3], r[4], r[5], r[6], r[7]) == *self,
    {
        proof {
            lemma_ipv6_new_of_segments(*self);
        }
        let a: u16 = (self.bits / 0x1_0000_0000_0000_0000_0000_0000_0000) as u16;
        let b: u16 = (self.bits / 0x1_0000_0000_0000_0000_0000_0000 % 0x1_0000) as u16;
        let c: u16 = (self.bits / 0x1_0000_0000_0000_0000_0000 % 0x1_0000) as u16;
        let d: u16 = (self.bits / 0x1_0000_0000_0000_0000 % 0x1_0000) as u16;
        let e: u16 = (self.bits / 0x1_0000_0000_0000 % 0x1_0000) as u16;
        let f: u16 = (self.bits / 0x1_0000_0000 % 0x1_0000) as u16;
        let g: u16 = (self.bits / 0x1_0000 % 0x1_0000) as u16;
        let h: u16 = (self.bits % 0x1_0000) as u16;
        let r: [u16; 8] = [a, b, c, d, e, f, g, h];
        assert(r@ =~= self.spec_segments());
        r
    }
}

/// The octets of the address `a.b.c.d` are `a`, `b`, `c` and `d`, and the
/// address made of the octets of an address is that address.
pub proof fn lemma_ipv4_octets_round_trip(addr: Ipv4Addr, a: u8, b: u8, c: u8, d: u8)
    ensures
        Ipv4Addr::spec_new(a, b, c, d).spec_octets() == seq![a, b, c, d],
        ({
            let o = addr.spec_octets();
            Ipv4Addr::spec_new(o[0], o[1], o[2], o[3]) == addr
        }),
{
    assert(Ipv4Addr::spec_new(a, b, c, d).spec_octets() =~= seq![a, b, c, d]);
}

/// The groups of the address `a:b:c:d:e:f:g:h` are `a` to `h`.
pub proof fn lemma_ipv6_segments_of_new(
    a: u16,
    b: u16,
    c: u16,
    d: u16,
    e: u16,
    f: u16,
    g: u16,
    h: u16,
)
    ensures
        Ipv6Addr::spec_new(a, b, c, d, e, f, g, h).spec_segments() == seq![a, b, c, d, e, f, g, h],
{
    let x7 = a as int;
    let x6 = x7 * 0x1_0000 + b;
    let x5 = x6 * 0x1_0000 + c;
    let x4 = x5 * 0x1_0000 + d;
    let x3 = x4 * 0x1_0000 + e;
    let x2 = x3 * 0x1_0000 + f;
    let x1 = x2 * 0x1_0000 + g;
    let x0 = x1 * 0x1_0000 + h;
    assert(x0 % 0x1_0000 == h && x0 / 0x1_0000 == x1);
    assert(x1 % 0x1_0000 == g && x1 / 0x1_0000 == x2);
    assert(x2 % 0x1_0000 == f && x2 / 0x1_0000 == x3);
    assert(x3 % 0x1_0000 == e && x3 / 0x1_0000 == x4);
    assert(x4 % 0x1_0000 == d && x4 / 0x1_0000 == x5);
    assert(x5 % 0x1_0000 == c && x5 / 0x1_0000 == x6);
    assert(x6 % 0x1_0000 == b && x6 / 0x1_0000 == x7);
    assert(x0 / 0x1_0000_0000 == x2);
    assert(x0 / 0x1_0000_0000_0000 == x3);
    assert(x0 / 0x1_0000_0000_0000_0000 == x4);
    assert(x0 / 0x1_0000_0000_0000_0000_0000 == x5);
    assert(x0 / 0x1_0000_0000_0000_0000_0000_0000 == x6);
    assert(x0 / 0x1_0000_0000_0000_0000_0000_0000_0000 == x7);
    assert(Ipv6Addr::spec_new(a, b, c, d, e, f, g, h).bits == x0);
    assert(Ipv6Addr::spec_new(a, b, c, d, e, f, g, h).spec_segments() =~= seq![
        a,
        b,
        c,
        d,
        e,
        f,
        g,
        h,
    ]);
}

/// The address made of the groups of an address is that address.
pub proof fn lemma_ipv6_new_of_segments(addr: Ipv6Addr)
    ensures
        ({
            let g = addr.spec_segments();
            Ipv6Addr::spec_new(g[0], g[1], g[2], g[3], g[4], g[5], g[6], g[7]) == addr
        }),
{
    let x0 = addr.bits as int;
    let x1 = x0 / 0x1_0000;
    let x2 = x1 / 0x1_0000;
    let x3 = x2 / 0x1_0000;
    let x4 = x3 / 0x1_0000;
    let x5 = x4 / 0x1_0000;
    let x6 = x5 / 0x1_0000;
    let x7 = x6 / 0x1_0000;
    assert(x2 == x0 / 0x1_0000_0000);
    assert(x3 == x0 / 0x1_0000_0000_0000);
    assert(x4 == x0 / 0x1_0000_0000_0000_0000);
    assert(x5 == x0 / 0x1_0000_0000_0000_0000_0000);
    assert(x6 == x0 / 0x1_0000_0000_0000_0000_0000_0000);
    assert(x7 == x0 / 0x1_0000_0000_0000_0000_0000_0000_0000);
    assert(x7 < 0x1_0000);
    assert(x0 == x1 * 0x1_0000 + x0 % 0x1_0000);
    assert(x1 == x2 * 0x1_0000 + x1 % 0x1_0000);
    assert(x2 == x3 * 0x1_0000 + x2 % 0x1_0000);
    assert(x3 == x4 * 0x1_0000 + x3 % 0x1_0000);
    assert(x4 == x5 * 0x1_0000 + x4 % 0x1_0000);
    assert(x5 == x6 * 0x1_0000 + x5 % 0x1_0000);
    assert(x6 == x7 * 0x1_0000 + x6 % 0x1_0000);
}

} // verus!
