//! The UDP header.

use vstd::prelude::*;
use core::convert::Infallible;
use crate::cursor::{be16, u16_be};
use crate::parsed::Parsed;

verus! {

/// The four fields of a UDP header.
#[derive(Clone, Copy, Debug, PartialEq, Eq)]
pub struct UdpHeader {
    /// Port of the sender, zero when unused.
    pub source_port: u16,
    /// Port of the receiver.
    pub dest_port: u16,
    /// Length in octets of the header and the data, as the header declares it.
    pub length: u16,
    /// Checksum of header and data, carried as found and never verified.
    pub checksum: u16,
}

impl View for UdpHeader {
    type V = UdpHeader;

    open spec fn view(&self) -> UdpHeader {
        *self
    }
}

/// Number of octets of a UDP header.
pub const UDP_HEADER_LEN: usize = 8;

/// The header that the first eight octets of `s` encode.
pub open spec fn spec_udp_fields(s: Seq<u8>) -> UdpHeader
    recommends
        s.len() >= 8,
{
    UdpHeader {
        source_port: be16(s[0], s[1]),
        dest_port: be16(s[2], s[3]),
        length: be16(s[4], s[5]),
        checksum: be16(s[6], s[7]),
    }
}

/// What [`udp_header`] returns on input `s`.
pub open spec fn spec_udp_header(s: Seq<u8>) -> Parsed<UdpHeader, Seq<u8>, Infallible> {
    if s.len() < 8 {
        Parsed::Failure
    } else {
        Parsed::Success { token: spec_udp_fields(s), stream: s.skip(8) }
    }
}

/// Decodes a UDP header: four 16-bit big-endian fields.
///
/// Fails when fewer than eight octets are left; no value of the fields is
/// rejected.
pub fn udp_header<'a>(stream: &'a [u8]) -> (r: Parsed<UdpHeader, &'a [u8], Infallible>)
    ensures
        r@ == spec_udp_header(stream@),
        stream@.len() < UDP_HEADER_LEN ==> r is Failure,
        !(r is Error),
{
    let ghost s = stream@;
    let (source_port, stream) = match u16_be::<Infallible>(stream) {
        Parsed::Success { token, stream } => (token, stream),
        Parsed::Failure => return Parsed::Failure,
        Parsed::Error(atom) => return Parsed::Error(atom),
    };
    let (dest_port, stream) = match u16_be::<Infallible>(stream) {
        Parsed::Success { token, stream } => (token, stream),
        Parsed::Failure => return Parsed::Failure,
        Parsed::Error(atom) => return Parsed::Error(atom),
    };
    let (length, stream) = match u16_be::<Infallible>(stream) {
        Parsed::Success { token, stream } => (token, stream),
        Parsed::Failure => return Parsed::Failure,
        Parsed::Error(atom) => return Parsed::Error(atom),
    };
    let (checksum, stream) = match u16_be::<Infallible>(stream) {
        Parsed::Success { token, stream } => (token, stream),
        Parsed::Failure => return Parsed::Failure,
        Parsed::Error(atom) => return Parsed::Error(atom),
    };
    assert(stream@ =~= s.skip(8));
    Parsed::Success { token: UdpHeader { source_port, dest_port, length, checksum }, stream }
}

} // verus!
