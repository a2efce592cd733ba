//! The Ethernet frame header, with at most one VLAN tag.

use vstd::prelude::*;
use core::convert::Infallible;
use crate::cursor::{advance, be16, u16_be};
use crate::ether_type::{ether_type, EtherType};
use crate::parsed::Parsed;

verus! {

/// The header of an Ethernet frame.
#[derive(Clone, Copy, Debug, PartialEq, Eq)]
pub struct EthernetFrame {
    /// Hardware address of the receiver.
    pub destination: [u8; 6],
    /// Hardware address of the sender.
    pub source: [u8; 6],
    /// Type of the payload. Where the frame carries a VLAN tag, this is the
    /// type that follows the tag.
    pub ether_type: EtherType,
    /// Tag control information of the VLAN tag, where the frame carries one.
    pub tci: Option<u16>,
}

/// An [`EthernetFrame`] with its addresses as sequences of octets.
pub struct EthernetFrameView {
    /// Hardware address of the receiver: six octets.
    pub destination: Seq<u8>,
    /// Hardware address of the sender: six octets.
    pub source: Seq<u8>,
    /// Type of the payload.
    pub ether_type: EtherType,
    /// Tag control information of the VLAN tag, where the frame carries one.
    pub tci: Option<u16>,
}

impl View for EthernetFrame {
    type V = EthernetFrameView;

    open spec fn view(&self) -> EthernetFrameView {
        EthernetFrameView {
            destination: self.destination@,
            source: self.source@,
            ether_type: self.ether_type,
            tci: self.tci,
        }
    }
}

/// Number of octets of an Ethernet header without a VLAN tag.
pub const ETHERNET_HEADER_MIN_LEN: usize = 14;

/// What [`mac`] returns on input `s`.
pub open spec fn spec_mac<A>(s: Seq<u8>) -> Parsed<Seq<u8>, Seq<u8>, A> {
    if s.len() < 6 {
        Parsed::Failure
    } else {
        Parsed::Success { token: s.take(6), stream: s.skip(6) }
    }
}

/// What [`ethernet_frame`] returns on input `s`.
///
/// The type field at offset 12 decides: when it is the VLAN code, the tag
/// control information and the type of the payload follow it; otherwise it
/// is the type of the payload itself. A second tag is not unwrapped.
pub open spec fn spec_ethernet_frame(s: Seq<u8>) -> Parsed<EthernetFrameView, Seq<u8>, Infallible> {
    if s.len() < 14 {
        Parsed::Failure
    } else if be16(s[12], s[13]) != EtherType::VLAN {
        Parsed::Success {
            token: EthernetFrameView {
                destination: s.subrange(0, 6),
                source: s.subrange(6, 12),
                ether_type: EtherType { ether_type: be16(s[12], s[13]) },
                tci: None,
            },
            stream: s.skip(14),
        }
    } else if s.len() < 18 {
        Parsed::Failure
    } else {
        Parsed::Success {
            token: EthernetFrameView {
                destination: s.subrange(0, 6),
                source: s.subrange(6, 12),
                ether_type: EtherType { ether_type: be16(s[16], s[17]) },
                tci: Some(be16(s[14], s[15])),
            },
            stream: s.skip(18),
        }
    }
}

/// Reads the six octets of a hardware address.
pub fn mac<'a, A>(stream: &'a [u8]) -> (r: Parsed<[u8; 6], &'a [u8], A>)
    ensures
        r@ == spec_mac::<A>(stream@),
{
    if stream.len() < 6 {
        Parsed::Failure
    } else {
        let token: [u8; 6] = [stream[0], stream[1], stream[2], stream[3], stream[4], stream[5]];
        assert(token@ =~= stream@.take(6));
        Parsed::Success { token, stream: advance(stream, 6) }
    }
}

/// Decodes the header of an Ethernet frame and leaves the payload unread.
///
/// One VLAN tag is unwrapped: when the type field holds the VLAN code, the
/// next 16 bits are the tag control information and the 16 bits after them
/// the type of the payload. An input that ends before the header does is a
/// failure; no value of the fields is rejected.
pub fn ethernet_frame<'a>(stream: &'a [u8]) -> (r: Parsed<EthernetFrame, &'a [u8], Infallible>)
    ensures
        r@ == spec_ethernet_frame(stream@),
        stream@.len() < ETHERNET_HEADER_MIN_LEN ==> r is Failure,
        !(r is Error),
{
    let ghost s = stream@;
    let (destination, stream) = match mac::<Infallible>(stream) {
        Parsed::Success { token, stream } => (token, stream),
        Parsed::Failure => return Parsed::Failure,
        Parsed::Error(atom) => return Parsed::Error(atom),
    };
    let (source, stream) = match mac::<Infallible>(stream) {
        Parsed::Success { token, stream } => (token, stream),
        Parsed::Failure => return Parsed::Failure,
        Parsed::Error(atom) => return Parsed::Error(atom),
    };
    assert(destination@ =~= s.subrange(0, 6));
    assert(source@ =~= s.subrange(6, 12));
    let (first_type, stream) = match ether_type::<Infallible>(stream) {
        Parsed::Success { token, stream } => (token, stream),
        Parsed::Failure => return Parsed::Failure,
        Parsed::Error(atom) => return Parsed::Error(atom),
    };
    assert(stream@ =~= s.skip(14));
    if first_type.ether_type() == EtherType::VLAN {
        let (tci, stream) = match u16_be::<Infallible>(stream) {
            Parsed::Success { token, stream } => (token, stream),
            Parsed::Failure => return Parsed::Failure,
            Parsed::Error(atom) => return Parsed::Error(atom),
        };
        let (ether_type, stream) = match ether_type::<Infallible>(stream) {
            Parsed::Success { token, stream } => (token, stream),
            Parsed::Failure => return Parsed::Failure,
            Parsed::Error(atom) => return Parsed::Error(atom),
        };
        assert(stream@ =~= s.skip(18));
        Parsed::Success {
            token: EthernetFrame { destination, source, ether_type, tci: Some(tci) },
            stream,
        }
    } else {
        Parsed::Success {
            token: EthernetFrame { destination, source, ether_type: first_type, tci: None },
            stream,
        }
    }
}

} // verus!
