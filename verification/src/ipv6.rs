//! The IPv6 header.

use vstd::prelude::*;
use crate::address::Ipv6Addr;
use crate::cursor::{advance, be16, be32, high_bits, low_bits, nbit, octet, u16_be};
use crate::ip_protocol::{ip_protocol, IPProtocol};
use crate::message::{spec_decimal_text, with_decimal};
use crate::parsed::Parsed;

verus! {

/// The fields of the fixed IPv6 header. Extension headers are not decoded:
/// `next_header` is reported as found.
#[derive(Clone, Copy, Debug, PartialEq, Eq)]
pub struct IPv6Header {
    /// Version of the protocol: always 6.
    pub version: u8,
    /// Differentiated services: the high six bits of the traffic class.
    pub ds: u8,
    /// Explicit congestion notification: the low two bits of the traffic class.
    pub ecn: u8,
    /// The 20-bit flow label.
    pub flow_label: u32,
    /// Length in octets of what follows the fixed header.
    pub length: u16,
    /// Protocol of what follows the fixed header.
    pub next_header: IPProtocol,
    /// Number of hops the packet may still take.
    pub hop_limit: u8,
    /// Address of the sender.
    pub source_addr: Ipv6Addr,
    /// Address of the receiver.
    pub dest_addr: Ipv6Addr,
}

impl View for IPv6Header {
    type V = IPv6Header;

    open spec fn view(&self) -> IPv6Header {
        *self
    }
}

/// Why an input can never be an IPv6 header.
#[derive(Clone, Copy, Debug, PartialEq, Eq, Structural)]
pub enum Ipv6Atom {
    /// The version field holds this value, which is not 6.
    Version(u8),
}

impl Ipv6Atom {
    /// The text that describes the error.
    pub open spec fn spec_to_string(self) -> Seq<char> {
        match self {
            Ipv6Atom::Version(version) => "Ipv4Context: Version field is not 6 found "@
                + spec_decimal_text(version as u16),
        }
    }

    /// Describes the error in words, with the value that was found.
    pub fn to_string(&self) -> (r: String)
        ensures
            r@ == self.spec_to_string(),
    {
        match self {
            Ipv6Atom::Version(version) => with_decimal(
                "Ipv4Context: Version field is not 6 found ",
                *version as u16,
            ),
        }
    }
}

/// Number of octets of the fixed IPv6 header.
pub const IPV6_HEADER_LEN: usize = 40;

/// The version field of a header that starts with octet `b`.
pub open spec fn spec_ipv6_version(b: u8) -> u8 {
    high_bits(b, 4)
}

/// The differentiated-services value of a header that starts with the
/// octets `b0 b1`: the high six bits of the eight traffic-class bits, which
/// are the low half of `b0` and the high half of `b1`.
pub open spec fn spec_ipv6_ds(b0: u8, b1: u8) -> u8 {
    (low_bits(b0, 4) << 2) | (high_bits(b1, 4) >> 2)
}

/// The congestion-notification value of a header whose second octet is `b1`:
/// the low two bits of the traffic class.
pub open spec fn spec_ipv6_ecn(b1: u8) -> u8 {
    high_bits(b1, 4) & 0b11
}

/// What [`address`] returns on input `s`.
pub open spec fn spec_address<A>(s: Seq<u8>) -> Parsed<Ipv6Addr, Seq<u8>, A> {
    if s.len() < 16 {
        Parsed::Failure
    } else {
        Parsed::Success { token: Ipv6Addr::spec_from_octets(s.take(16)), stream: s.skip(16) }
    }
}

/// The header that the first forty octets of `s` encode.
pub open spec fn spec_ipv6_fields(s: Seq<u8>) -> IPv6Header
    recommends
        s.len() >= 40,
{
    IPv6Header {
        version: spec_ipv6_version(s[0]),
        ds: spec_ipv6_ds(s[0], s[1]),
        ecn: spec_ipv6_ecn(s[1]),
        flow_label: be32(0, low_bits(s[1], 4), s[2], s[3]),
        length: be16(s[4], s[5]),
        next_header: IPProtocol { protocol: s[6] },
        hop_limit: s[7],
        source_addr: Ipv6Addr::spec_from_octets(s.subrange(8, 24)),
        dest_addr: Ipv6Addr::spec_from_octets(s.subrange(24, 40)),
    }
}

/// What [`ipv6_header`] returns on input `s`.
///
/// A version other than 6 is fatal whatever follows the first octet.
/// Otherwise the input must hold the forty octets of the header.
pub open spec fn spec_ipv6_header(s: Seq<u8>) -> Parsed<IPv6Header, Seq<u8>, Ipv6Atom> {
    if s.len() < 1 {
        Parsed::Failure
    } else if spec_ipv6_version(s[0]) != 6 {
        Parsed::Error(Ipv6Atom::Version(spec_ipv6_version(s[0])))
    } else if s.len() < 40 {
        Parsed::Failure
    } else {
        Parsed::Success { token: spec_ipv6_fields(s), stream: s.skip(40) }
    }
}

/// Reads the sixteen octets of an IPv6 address.
pub fn address<'a, A>(stream: &'a [u8]) -> (r: Parsed<Ipv6Addr, &'a [u8], A>)
    ensures
        r@ == spec_address::<A>(stream@),
{
    if stream.len() < 16 {
        Parsed::Failure
    } else {
        let a: u16 = stream[0] as u16 * 256 + stream[1] as u16;
        let b: u16 = stream[2] as u16 * 256 + stream[3] as u16;
        let c: u16 = stream[4] as u16 * 256 + stream[5] as u16;
        let d: u16 = stream[6] as u16 * 256 + stream[7] as u16;
        let e: u16 = stream[8] as u16 * 256 + stream[9] as u16;
        let f: u16 = stream[10] as u16 * 256 + stream[11] as u16;
        let g: u16 = stream[12] as u16 * 256 + stream[13] as u16;
        let h: u16 = stream[14] as u16 * 256 + stream[15] as u16;
        Parsed::Success { token: Ipv6Addr::new(a, b, c, d, e, f, g, h), stream: advance(stream, 16) }
    }
}

/// Decodes the fixed IPv6 header.
///
/// The version must be 6: any other value is a fatal error, whatever follows
/// the first octet. An input that ends before the header does is a failure.
pub fn ipv6_header<'a>(stream: &'a [u8]) -> (r: Parsed<IPv6Header, &'a [u8], Ipv6Atom>)
    ensures
        r@ == spec_ipv6_header(stream@),
        stream@.len() < IPV6_HEADER_LEN ==> !(r is Success),
        stream@.len() >= 1 && spec_ipv6_version(stream@[0]) != 6 ==> r == Parsed::<
            IPv6Header,
            &'a [u8],
            Ipv6Atom,
        >::Error(Ipv6Atom::Version(spec_ipv6_version(stream@[0]))),
        r matches Parsed::Success { token, stream: rest } ==> {
            &&& token.version == 6
            &&& rest@.len() + 40 == stream@.len()
        },
{
    let ghost s = stream@;
    let ((version, tc_0), stream) = match nbit::<Ipv6Atom>(stream, 4) {
        Parsed::Success { token, stream } => (token, stream),
        Parsed::Failure => return Parsed::Failure,
        Parsed::Error(atom) => return Parsed::Error(atom),
    };
    if version != 6 {
        return Parsed::Error(Ipv6Atom::Version(version));
    }
    let ((tc_1, flow_label_0), stream) = match nbit::<Ipv6Atom>(stream, 4) {
        Parsed::Success { token, stream } => (token, stream),
        Parsed::Failure => return Parsed::Failure,
        Parsed::Error(atom) => return Parsed::Error(atom),
    };
    let (flow_label_1, stream) = match octet::<Ipv6Atom>(stream) {
        Parsed::Success { token, stream } => (token, stream),
        Parsed::Failure => return Parsed::Failure,
        Parsed::Error(atom) => return Parsed::Error(atom),
    };
    let (flow_label_2, stream) = match octet::<Ipv6Atom>(stream) {
        Parsed::Success { token, stream } => (token, stream),
        Parsed::Failure => return Parsed::Failure,
        Parsed::Error(atom) => return Parsed::Error(atom),
    };
    let flow_label: u32 = (flow_label_0 as u32 * 256 + flow_label_1 as u32) * 256
        + flow_label_2 as u32;
    let (length, stream) = match u16_be::<Ipv6Atom>(stream) {
        Parsed::Success { token, stream } => (token, stream),
        Parsed::Failure => return Parsed::Failure,
        Parsed::Error(atom) => return Parsed::Error(atom),
    };
    let (next_header, stream) = match ip_protocol::<Ipv6Atom>(stream) {
        Parsed::Success { token, stream } => (token, stream),
        Parsed::Failure => return Parsed::Failure,
        Parsed::Error(atom) => return Parsed::Error(atom),
    };
    let (hop_limit, stream) = match octet::<Ipv6Atom>(stream) {
        Parsed::Success { token, stream } => (token, stream),
        Parsed::Failure => return Parsed::Failure,
        Parsed::Error(atom) => return Parsed::Error(atom),
    };
    assert(stream@ =~= s.skip(8));
    let (source_addr, stream) = match address::<Ipv6Atom>(stream) {
        Parsed::Success { token, stream } => (token, stream),
        Parsed::Failure => return Parsed::Failure,
        Parsed::Error(atom) => return Parsed::Error(atom),
    };
    assert(s.skip(8).take(16) =~= s.subrange(8, 24));
    assert(stream@ =~= s.skip(24));
    let (dest_addr, stream) = match address::<Ipv6Atom>(stream) {
        Parsed::Success { token, stream } => (token, stream),
        Parsed::Failure => return Parsed::Failure,
        Parsed::Error(atom) => return Parsed::Error(atom),
    };
    assert(s.skip(24).take(16) =~= s.subrange(24, 40));
    assert(stream@ =~= s.skip(40));
    Parsed::Success {
        token: IPv6Header {
            version,
            ds: (tc_0 << 2) | (tc_1 >> 2),
            ecn: tc_1 & 0b11,
            flow_label,
            length,
            next_header,
            hop_limit,
            source_addr,
            dest_addr,
        },
        stream,
    }
}

} // verus!
