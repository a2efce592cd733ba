//! The IPv4 header.

use vstd::prelude::*;
use crate::address::Ipv4Addr;
use crate::cursor::{be16, high_bits, low_bits, nbit, octet, take, u16_be, u32_be};
use crate::ip_protocol::{ip_protocol, IPProtocol};
use crate::message::{spec_decimal_text, with_decimal};
use crate::parsed::Parsed;

verus! {

/// The fields of an IPv4 header. `Span` is the type of the options region: a
/// part of the input, borrowed and never copied.
#[derive(Clone, Debug, PartialEq, Eq)]
pub struct IPv4Header<Span> {
    /// Version of the protocol: always 4.
    pub version: u8,
    /// Length of the header in 32-bit words: 5 to 15.
    pub ihl: u8,
    /// Type of service.
    pub tos: u8,
    /// Length in octets of the whole packet, header and data.
    pub length: u16,
    /// Identification of the datagram that a fragment belongs to.
    pub id: u16,
    /// The three flag bits: reserved, don't fragment, more fragments.
    pub flags: u8,
    /// Offset of this fragment in the datagram, in units of eight octets.
    pub fragment_offset: u16,
    /// Time to live.
    pub ttl: u8,
    /// Protocol of the data that follows the header.
    pub protocol: IPProtocol,
    /// Checksum of the header, carried as found and never verified.
    pub chksum: u16,
    /// Address of the sender.
    pub source_addr: Ipv4Addr,
    /// Address of the receiver.
    pub dest_addr: Ipv4Addr,
    /// The options region: `(ihl - 5) * 4` octets, not decoded further.
    pub options: Span,
}

impl<Span: View> View for IPv4Header<Span> {
    type V = IPv4Header<Span::V>;

    open spec fn view(&self) -> IPv4Header<Span::V> {
        IPv4Header {
            version: self.version,
            ihl: self.ihl,
            tos: self.tos,
            length: self.length,
            id: self.id,
            flags: self.flags,
            fragment_offset: self.fragment_offset,
            ttl: self.ttl,
            protocol: self.protocol,
            chksum: self.chksum,
            source_addr: self.source_addr,
            dest_addr: self.dest_addr,
            options: self.options@,
        }
    }
}

/// Why an input can never be an IPv4 header.
#[derive(Clone, Copy, Debug, PartialEq, Eq, Structural)]
pub enum Ipv4Atom {
    /// The version field holds this value, which is not 4.
    Version(u8),
    /// The header length field holds this value, which is less than 5.
    IHL(u8),
}

impl Ipv4Atom {
    /// The text that describes the error.
    pub open spec fn spec_to_string(self) -> Seq<char> {
        match self {
            Ipv4Atom::Version(version) => "Ipv4Context: Version field is not 4 found "@
                + spec_decimal_text(version as u16),
            Ipv4Atom::IHL(ihl) => "Ipv4Context: IHL field is less than 5 found "@
                + spec_decimal_text(ihl as u16),
        }
    }

    /// Describes the error in words, with the value that was found.
    pub fn to_string(&self) -> (r: String)
        ensures
            r@ == self.spec_to_string(),
    {
        match self {
            Ipv4Atom::Version(version) => with_decimal(
                "Ipv4Context: Version field is not 4 found ",
                *version as u16,
            ),
            Ipv4Atom::IHL(ihl) => with_decimal(
                "Ipv4Context: IHL field is less than 5 found ",
                *ihl as u16,
            ),
        }
    }
}

/// Number of octets of an IPv4 header without options.
pub const IPV4_HEADER_MIN_LEN: usize = 20;

/// The version field of a header that starts with octet `b`.
pub open spec fn spec_ipv4_version(b: u8) -> u8 {
    high_bits(b, 4)
}

/// The header length field, in 32-bit words, of a header that starts with
/// octet `b`.
pub open spec fn spec_ipv4_ihl(b: u8) -> u8 {
    low_bits(b, 4)
}

/// The header that `s` encodes, given that `s` holds all of it.
pub open spec fn spec_ipv4_fields(s: Seq<u8>) -> IPv4Header<Seq<u8>>
    recommends
        s.len() >= 20,
        s.len() >= spec_ipv4_ihl(s[0]) * 4,
{
    IPv4Header {
        version: spec_ipv4_version(s[0]),
        ihl: spec_ipv4_ihl(s[0]),
        tos: s[1],
        length: be16(s[2], s[3]),
        id: be16(s[4], s[5]),
        flags: high_bits(s[6], 5),
        fragment_offset: be16(low_bits(s[6], 5), s[7]),
        ttl: s[8],
        protocol: IPProtocol { protocol: s[9] },
        chksum: be16(s[10], s[11]),
        source_addr: Ipv4Addr::spec_new(s[12], s[13], s[14], s[15]),
        dest_addr: Ipv4Addr::spec_new(s[16], s[17], s[18], s[19]),
        options: s.subrange(20, spec_ipv4_ihl(s[0]) * 4),
    }
}

/// What [`ipv4_header`] returns on input `s`.
///
/// The first octet decides between the fatal outcomes and the rest: a version
/// other than 4, then a header length under 5, are fatal whatever follows.
/// Otherwise the input must hold the `ihl * 4` octets of the header.
pub open spec fn spec_ipv4_header(s: Seq<u8>) -> Parsed<IPv4Header<Seq<u8>>, Seq<u8>, Ipv4Atom> {
    if s.len() < 1 {
        Parsed::Failure
    } else if spec_ipv4_version(s[0]) != 4 {
        Parsed::Error(Ipv4Atom::Version(spec_ipv4_version(s[0])))
    } else if spec_ipv4_ihl(s[0]) < 5 {
        Parsed::Error(Ipv4Atom::IHL(spec_ipv4_ihl(s[0])))
    } else if s.len() < spec_ipv4_ihl(s[0]) * 4 {
        Parsed::Failure
    } else {
        Parsed::Success { token: spec_ipv4_fields(s), stream: s.skip(spec_ipv4_ihl(s[0]) * 4) }
    }
}

/// The header length field is a 4-bit number.
pub proof fn lemma_ipv4_ihl_bound(b: u8)
    ensures
        spec_ipv4_ihl(b) <= 15,
{
    assert((b & (0xffu8 >> 4u8)) <= 15) by (bit_vector);
}

/// Decodes an IPv4 header with its options region.
///
/// The version must be 4 and the header length at least 5 words: each of the
/// two is a fatal error otherwise, whatever follows the first octet. The
/// options region is captured as a span of `(ihl - 5) * 4` octets. An input
/// that ends before the header does is a failure.
pub fn ipv4_header<'a>(stream: &'a [u8]) -> (r: Parsed<IPv4Header<&'a [u8]>, &'a [u8], Ipv4Atom>)
    ensures
        r@ == spec_ipv4_header(stream@),
        stream@.len() < IPV4_HEADER_MIN_LEN ==> !(r is Success),
        stream@.len() >= 1 && spec_ipv4_version(stream@[0]) != 4 ==> r == Parsed::<
            IPv4Header<&'a [u8]>,
            &'a [u8],
            Ipv4Atom,
        >::Error(Ipv4Atom::Version(spec_ipv4_version(stream@[0]))),
        stream@.len() >= 1 && spec_ipv4_version(stream@[0]) == 4 && spec_ipv4_ihl(stream@[0]) < 5
            ==> r == Parsed::<IPv4Header<&'a [u8]>, &'a [u8], Ipv4Atom>::Error(
            Ipv4Atom::IHL(spec_ipv4_ihl(stream@[0])),
        ),
        r matches Parsed::Success { token, stream: rest } ==> {
            &&& token.version == 4
            &&& 5 <= token.ihl <= 15
            &&& token.options@.len() == (token.ihl - 5) * 4
            &&& rest@.len() + token.ihl * 4 == stream@.len()
        },
{
    let ghost s = stream@;
    let ((version, ihl), stream) = match nbit::<Ipv4Atom>(stream, 4) {
        Parsed::Success { token, stream } => (token, stream),
        Parsed::Failure => return Parsed::Failure,
        Parsed::Error(atom) => return Parsed::Error(atom),
    };
    if version != 4 {
        return Parsed::Error(Ipv4Atom::Version(version));
    }
    if ihl < 5 {
        return Parsed::Error(Ipv4Atom::IHL(ihl));
    }
    proof {
        lemma_ipv4_ihl_bound(s[0]);
    }
    let (tos, stream) = match octet::<Ipv4Atom>(stream) {
        Parsed::Success { token, stream } => (token, stream),
        Parsed::Failure => return Parsed::Failure,
        Parsed::Error(atom) => return Parsed::Error(atom),
    };
    let (length, stream) = match u16_be::<Ipv4Atom>(stream) {
        Parsed::Success { token, stream } => (token, stream),
        Parsed::Failure => return Parsed::Failure,
        Parsed::Error(atom) => return Parsed::Error(atom),
    };
    let (id, stream) = match u16_be::<Ipv4Atom>(stream) {
        Parsed::Success { token, stream } => (token, stream),
        Parsed::Failure => return Parsed::Failure,
        Parsed::Error(atom) => return Parsed::Error(atom),
    };
    let ((flags, fragment_offset_0), stream) = match nbit::<Ipv4Atom>(stream, 5) {
        Parsed::Success { token, stream } => (token, stream),
        Parsed::Failure => return Parsed::Failure,
        Parsed::Error(atom) => return Parsed::Error(atom),
    };
    let (fragment_offset_1, stream) = match octet::<Ipv4Atom>(stream) {
        Parsed::Success { token, stream } => (token, stream),
        Parsed::Failure => return Parsed::Failure,
        Parsed::Error(atom) => return Parsed::Error(atom),
    };
    let fragment_offset: u16 = fragment_offset_0 as u16 * 256 + fragment_offset_1 as u16;
    let (ttl, stream) = match octet::<Ipv4Atom>(stream) {
        Parsed::Success { token, stream } => (token, stream),
        Parsed::Failure => return Parsed::Failure,
        Parsed::Error(atom) => return Parsed::Error(atom),
    };
    let (protocol, stream) = match ip_protocol::<Ipv4Atom>(stream) {
        Parsed::Success { token, stream } => (token, stream),
        Parsed::Failure => return Parsed::Failure,
        Parsed::Error(atom) => return Parsed::Error(atom),
    };
    let (chksum, stream) = match u16_be::<Ipv4Atom>(stream) {
        Parsed::Success { token, stream } => (token, stream),
        Parsed::Failure => return Parsed::Failure,
        Parsed::Error(atom) => return Parsed::Error(atom),
    };
    let (source_bits, stream) = match u32_be::<Ipv4Atom>(stream) {
        Parsed::Success { token, stream } => (token, stream),
        Parsed::Failure => return Parsed::Failure,
        Parsed::Error(atom) => return Parsed::Error(atom),
    };
    let (dest_bits, stream) = match u32_be::<Ipv4Atom>(stream) {
        Parsed::Success { token, stream } => (token, stream),
        Parsed::Failure => return Parsed::Failure,
        Parsed::Error(atom) => return Parsed::Error(atom),
    };
    assert(stream@ =~= s.skip(20));
    let options_len: usize = (ihl - 5) as usize * 4;
    let (options, stream) = match take::<Ipv4Atom>(stream, options_len) {
        Parsed::Success { token, stream } => (token, stream),
        Parsed::Failure => return Parsed::Failure,
        Parsed::Error(atom) => return Parsed::Error(atom),
    };
    assert(options@ =~= s.subrange(20, ihl * 4));
    assert(stream@ =~= s.skip(ihl * 4));
    Parsed::Success {
        token: IPv4Header {
            version,
            ihl,
            tos,
            length,
            id,
            flags,
            fragment_offset,
            ttl,
            protocol,
            chksum,
            source_addr: Ipv4Addr::from_bits(source_bits),
            dest_addr: Ipv4Addr::from_bits(dest_bits),
            options,
        },
        stream,
    }
}

} // verus!
