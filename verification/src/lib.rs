//! Decoders for network packet headers and textual IP addresses.
//!
//! Every decoder is a pure function from a byte slice to a [`Parsed`]
//! outcome: the decoded value with the input that follows it, a recoverable
//! failure, or a fatal error. A decoder never reads past the end of its
//! input: an input that ends too early is a failure. The contract of each
//! decoder gives its outcome as a function of the input bytes.
//!
//! The binary decoders are [`ethernet_frame`], [`ipv4_header`],
//! [`ipv6_header`], [`tcp_header`] with [`tcp_options`], and [`udp_header`].
//! Each returns the input after its own header, so that the decoder of the
//! next layer can go on there. Checksums are carried as found and never
//! verified.
//!
//! The textual decoders are [`ipv4_address`], [`ipv6_address`] and
//! [`ipv6_reference`].
//!
//! The modules [`header_laws`], [`ip_addr_laws`] and [`ip_addr_forms`]
//! state what holds of the decoders on every input.

pub mod address;
pub mod cursor;
pub mod ether_type;
pub mod header_laws;
pub mod ethernet;
pub mod ip_addr;
pub mod ip_addr_forms;
pub mod ip_addr_laws;
pub mod ip_protocol;
pub mod ipv4;
pub mod ipv6;
pub mod message;
pub mod parsed;
pub mod tcp;
pub mod udp;

pub use address::{Ipv4Addr, Ipv6Addr};
pub use ether_type::{ether_type, EtherType};
pub use ethernet::{ethernet_frame, EthernetFrame};
pub use ip_addr::{h16, ipv4_address, ipv6_address, ipv6_reference, IpAddrAtom, Ipv6Reference};
pub use ip_protocol::{ip_protocol, IPProtocol};
pub use ipv4::{ipv4_header, IPv4Header, Ipv4Atom};
pub use ipv6::{ipv6_header, IPv6Header, Ipv6Atom};
pub use parsed::Parsed;
pub use tcp::{tcp_header, tcp_options, Sack, TcpAtom, TcpFlags, TcpHeader, TcpOption};
pub use udp::{udp_header, UdpHeader};
