//! What holds of the header decoders on every input.

use vstd::prelude::*;
use crate::cursor::be16;
use crate::ethernet::spec_ethernet_frame;
use crate::ipv4::{spec_ipv4_header, spec_ipv4_ihl, spec_ipv4_version, IPv4Header, Ipv4Atom};
use crate::ipv6::{spec_ipv6_header, spec_ipv6_version, IPv6Header, Ipv6Atom};
use crate::parsed::Parsed;
use crate::tcp::{spec_data_offset, spec_tcp_header, TcpAtom, TcpHeader};
use crate::udp::spec_udp_header;

verus! {

/// No decoder decodes a header from an input that is shorter than the
/// shortest header of its kind. The outcome is a failure, unless the octets
/// that are there already break a rule that is fatal.
pub proof fn lemma_short_input_is_never_decoded(s: Seq<u8>)
    ensures
        s.len() < 14 ==> spec_ethernet_frame(s) is Failure,
        s.len() < 8 ==> spec_udp_header(s) is Failure,
        s.len() < 20 ==> !(spec_ipv4_header(s) is Success),
        s.len() < 20 && !(spec_ipv4_header(s) is Failure) ==> s.len() >= 1 && (spec_ipv4_version(
            s[0],
        ) != 4 || spec_ipv4_ihl(s[0]) < 5),
        s.len() < 40 ==> !(spec_ipv6_header(s) is Success),
        s.len() < 40 && !(spec_ipv6_header(s) is Failure) ==> s.len() >= 1 && spec_ipv6_version(
            s[0],
        ) != 6,
        s.len() < 20 ==> !(spec_tcp_header(s) is Success),
        s.len() < 20 && !(spec_tcp_header(s) is Failure) ==> s.len() >= 14 && spec_data_offset(
            be16(s[12], s[13]),
        ) < 5,
{
}

/// The first octet of an IPv4 header decides alone whether the header is
/// fatally wrong: a version other than 4, then a header length under 5
/// words, is fatal whatever follows, and nothing else is.
pub proof fn lemma_ipv4_first_octet_decides(s: Seq<u8>)
    requires
        s.len() >= 1,
    ensures
        spec_ipv4_version(s[0]) != 4 ==> spec_ipv4_header(s) == Parsed::<
            IPv4Header<Seq<u8>>,
            Seq<u8>,
            Ipv4Atom,
        >::Error(Ipv4Atom::Version(spec_ipv4_version(s[0]))),
        spec_ipv4_version(s[0]) == 4 && spec_ipv4_ihl(s[0]) < 5 ==> spec_ipv4_header(s)
            == Parsed::<IPv4Header<Seq<u8>>, Seq<u8>, Ipv4Atom>::Error(
            Ipv4Atom::IHL(spec_ipv4_ihl(s[0])),
        ),
        spec_ipv4_version(s[0]) == 4 && spec_ipv4_ihl(s[0]) >= 5 ==> !(spec_ipv4_header(s)
            is Error),
{
}

/// The first octet of an IPv6 header decides alone whether the header is
/// fatally wrong: a version other than 6 is fatal whatever follows, and
/// nothing else is.
pub proof fn lemma_ipv6_first_octet_decides(s: Seq<u8>)
    requires
        s.len() >= 1,
    ensures
        spec_ipv6_version(s[0]) != 6 ==> spec_ipv6_header(s) == Parsed::<
            IPv6Header,
            Seq<u8>,
            Ipv6Atom,
        >::Error(Ipv6Atom::Version(spec_ipv6_version(s[0]))),
        spec_ipv6_version(s[0]) == 6 ==> !(spec_ipv6_header(s) is Error),
{
}

/// The flags word of a TCP header decides alone whether the header is
/// fatally wrong: a data offset under 5 words is fatal whatever follows, and
/// nothing else is.
pub proof fn lemma_tcp_data_offset_decides(s: Seq<u8>)
    requires
        s.len() >= 14,
    ensures
        spec_data_offset(be16(s[12], s[13])) < 5 ==> spec_tcp_header(s) == Parsed::<
            TcpHeader<Seq<u8>>,
            Seq<u8>,
            TcpAtom,
        >::Error(TcpAtom::DataOffSet),
        spec_data_offset(be16(s[12], s[13])) >= 5 ==> !(spec_tcp_header(s) is Error),
{
}

/// Every header decoder leaves what follows its header: on success the
/// input is the octets of the header and then the rest.
pub proof fn lemma_headers_leave_the_payload(s: Seq<u8>)
    ensures
        spec_ethernet_frame(s) matches Parsed::Success { token, stream } ==> stream == s.skip(
            if token.tci is Some {
                18
            } else {
                14
            },
        ),
        spec_udp_header(s) matches Parsed::Success { token: _, stream } ==> stream == s.skip(8),
        spec_ipv4_header(s) matches Parsed::Success { token, stream } ==> stream == s.skip(
            token.ihl * 4,
        ) && token.options == s.subrange(20, token.ihl * 4),
        spec_ipv6_header(s) matches Parsed::Success { token: _, stream } ==> stream == s.skip(40),
        spec_tcp_header(s) matches Parsed::Success { token, stream } ==> stream == s.skip(
            spec_data_offset(token.flags.raw) * 4,
        ) && token.options == s.subrange(20, spec_data_offset(token.flags.raw) * 4),
{
}

} // verus!
