//! The protocol number carried by IPv4 and IPv6 headers.

use vstd::prelude::*;
use vstd::std_specs::convert::FromSpecImpl;
use vstd::string::StringExecFns;
use crate::cursor::octet;
use crate::message::{spec_decimal_text, with_decimal};
use crate::parsed::Parsed;

verus! {

/// An 8-bit IP protocol number.
///
/// The registry of numbers is open: every 8-bit value is a valid
/// `IPProtocol`, whether or not one of the constants of this type names it.
/// The constants are raw numbers; `IPProtocol::new(IPProtocol::TCP)` is the
/// protocol of TCP.
#[derive(Clone, Copy, Debug, PartialEq, Eq, Structural, PartialOrd, Ord, Hash)]
pub struct IPProtocol {
    /// The number as it stands in the header.
    pub protocol: u8,
}

impl View for IPProtocol {
    type V = IPProtocol;

    open spec fn view(&self) -> IPProtocol {
        *self
    }
}

impl IPProtocol {
    /// IPv6 Hop-by-Hop Option.
    pub const HOPOPT: u8 = 0x00;
    /// Internet Control Message Protocol.
    pub const ICMP: u8 = 0x01;
    /// Internet Group Management Protocol.
    pub const IGMP: u8 = 0x02;
    /// Gateway-to-Gateway Protocol.
    pub const GGP: u8 = 0x03;
    /// IP in IP.
    pub const IP_IN_IP: u8 = 0x04;
    /// Internet Stream Protocol.
    pub const ST: u8 = 0x05;
    /// Transmission Control Protocol.
    pub const TCP: u8 = 0x06;
    /// Core-based trees.
    pub const CBT: u8 = 0x07;
    /// Exterior Gateway Protocol.
    pub const EGP: u8 = 0x08;
    /// Interior Gateway Protocol.
    pub const IGP: u8 = 0x09;
    /// BBN RCC Monitoring.
    pub const BBN_RCC_MON: u8 = 0x0A;
    /// Network Voice Protocol.
    pub const NVP_II: u8 = 0x0B;
    /// Xerox PUP.
    pub const PUP: u8 = 0x0C;
    /// ARGUS.
    pub const ARGUS: u8 = 0x0D;
    /// EMCON.
    pub const EMCON: u8 = 0x0E;
    /// Cross Net Debugger.
    pub const XNET: u8 = 0x0F;
    /// Chaos.
    pub const CHAOS: u8 = 0x10;
    /// User Datagram Protocol.
    pub const UDP: u8 = 0x11;
    /// Multiplexing.
    pub const MUX: u8 = 0x12;
    /// DCN Measurement Subsystems.
    pub const DCN_MEAS: u8 = 0x13;
    /// Host Monitoring Protocol.
    pub const HMP: u8 = 0x14;
    /// Packet Radio Measurement.
    pub const PRM: u8 = 0x15;
    /// XEROX NS IDP.
    pub const XNS_IDP: u8 = 0x16;
    /// Trunk-1.
    pub const TRUNK_1: u8 = 0x17;
    /// Trunk-2.
    pub const TRUNK_2: u8 = 0x18;
    /// Leaf-1.
    pub const LEAF_1: u8 = 0x19;
    /// Leaf-2.
    pub const LEAF_2: u8 = 0x1A;
    /// Reliable Data Protocol.
    pub const RDP: u8 = 0x1B;
    /// Internet Reliable Transaction Protocol.
    pub const IRTP: u8 = 0x1C;
    /// ISO Transport Protocol Class 4.
    pub const ISO_TP4: u8 = 0x1D;
    /// Bulk Data Transfer Protocol.
    pub const NETBLT: u8 = 0x1E;
    /// MFE Network Services Protocol.
    pub const MFE_NSP: u8 = 0x1F;
    /// MERIT Internodal Protocol.
    pub const MERIT_INP: u8 = 0x20;
    /// Datagram Congestion Control Protocol.
    pub const DCCP: u8 = 0x21;
    /// Third Party Connect Protocol.
    pub const PC3: u8 = 0x22;
    /// Inter-Domain Policy Routing Protocol.
    pub const IDPR: u8 = 0x23;
    /// Xpress Transport Protocol.
    pub const XTP: u8 = 0x24;
    /// Datagram Delivery Protocol.
    pub const DDP: u8 = 0x25;
    /// IDPR Control Message Transport Protocol.
    pub const IDPR_CMTP: u8 = 0x26;
    /// TP++ Transport Protocol.
    pub const TP: u8 = 0x27;
    /// IL Transport Protocol.
    pub const IL: u8 = 0x28;
    /// IPv6 Encapsulation.
    pub const IPV6: u8 = 0x29;
    /// Source Demand Routing Protocol.
    pub const SDRP: u8 = 0x2A;
    /// Routing Header for IPv6.
    pub const IPV6_ROUTE: u8 = 0x2B;
    /// Fragment Header for IPv6.
    pub const IPV6_FRAG: u8 = 0x2C;
    /// Inter-Domain Routing Protocol.
    pub const IDRP: u8 = 0x2D;
    /// Resource Reservation Protocol.
    pub const RSVP: u8 = 0x2E;
    /// Generic Routing Encapsulation.
    pub const GRE: u8 = 0x2F;
    /// Dynamic Source Routing Protocol.
    pub const DSR: u8 = 0x30;
    /// Burroughs Network Architecture.
    pub const BNA: u8 = 0x31;
    /// Encapsulating Security Payload.
    pub const ESP: u8 = 0x32;
    /// Authentication Header.
    pub const AH: u8 = 0x33;
    /// Integrated Net Layer Security Protocol.
    pub const I_NLSP: u8 = 0x34;
    /// SwIPe.
    pub const SWIPE: u8 = 0x35;
    /// NBMA Address Resolution Protocol.
    pub const NARP: u8 = 0x36;
    /// IP Mobility (Min Encap).
    pub const MOBILE: u8 = 0x37;
    /// Transport Layer Security Protocol (using Kryptonet key management).
    pub const TLSP: u8 = 0x38;
    /// Simple Key-Management for Internet Protocol.
    pub const SKIP: u8 = 0x39;
    /// ICMP for IPv6.
    pub const ICMP_6: u8 = 0x3A;
    /// No Next Header for IPv6.
    pub const NO_NXT_6: u8 = 0x3B;
    /// Destination Options for IPv6.
    pub const OPTS_6: u8 = 0x3C;
    /// Any host internal protocol.
    pub const AHIP: u8 = 0x3D;
    /// CFTP.
    pub const CFTP: u8 = 0x3E;
    /// Any local network.
    pub const ALN: u8 = 0x3F;
    /// SATNET and Backroom EXPAK.
    pub const SAT_EXPAK: u8 = 0x40;
    /// Kryptolan.
    pub const KRYPTOLAN: u8 = 0x41;
    /// MIT Remote Virtual Disk Protocol.
    pub const RVD: u8 = 0x42;
    /// Internet Pluribus Packet Core.
    pub const IPPC: u8 = 0x43;
    /// Any distributed file system.
    pub const ADFS: u8 = 0x44;
    /// SATNET Monitoring.
    pub const SAT_MON: u8 = 0x45;
    /// VISA Protocol.
    pub const VISA: u8 = 0x46;
    /// Internet Packet Core Utility.
    pub const IPCU: u8 = 0x47;
    /// Computer Protocol Network Executive.
    pub const CPNX: u8 = 0x48;
    /// Computer Protocol Heart Beat.
    pub const CPHB: u8 = 0x49;
    /// Wang Span Network.
    pub const WSN: u8 = 0x4A;
    /// Packet Video Protocol.
    pub const PVP: u8 = 0x4B;
    /// Backroom SATNET Monitoring.
    pub const BR_SAT_MON: u8 = 0x4C;
    /// SUN ND PROTOCOL-Temporary.
    pub const SUN_ND: u8 = 0x4D;
    /// WIDEBAND Monitoring.
    pub const WB_MON: u8 = 0x4E;
    /// WIDEBAND EXPAK.
    pub const WB_EXPAK: u8 = 0x4F;
    /// International Organization for Standardization Internet Protocol.
    pub const ISO_IP: u8 = 0x50;
    /// Versatile Message Transaction Protocol.
    pub const VMTP: u8 = 0x51;
    /// Secure Versatile Message Transaction Protocol.
    pub const SECURE_VMTP: u8 = 0x52;
    /// VINES.
    pub const VINES: u8 = 0x53;
    /// TTP or Internet Protocol Traffic Manager.
    pub const TTP_OR_IPTM: u8 = 0x54;
    /// NSFNET-IGP.
    pub const NSFNET_IGP: u8 = 0x55;
    /// Dissimilar Gateway Protocol.
    pub const DGP: u8 = 0x56;
    /// TCF.
    pub const TCF: u8 = 0x57;
    /// EIGRP.
    pub const EIGRP: u8 = 0x58;
    /// Open Shortest Path First.
    pub const OSPF: u8 = 0x59;
    /// Sprite RPC Protocol.
    pub const SPRITE_RPC: u8 = 0x5A;
    /// Locus Address Resolution Protocol.
    pub const LARP: u8 = 0x5B;
    /// Multicast Transport Protocol.
    pub const MTP: u8 = 0x5C;
    /// AX.25.
    pub const AX25: u8 = 0x5D;
    /// KA9Q NOS compatible IP over IP tunneling.
    pub const OS: u8 = 0x5E;
    /// Mobile Internetworking Control Protocol.
    pub const MICP: u8 = 0x5F;
    /// Semaphore Communications Sec. Pro.
    pub const SCC_SP: u8 = 0x60;
    /// Ethernet-within-IP Encapsulation.
    pub const ETHERIP: u8 = 0x61;
    /// Encapsulation Header.
    pub const ENCAP: u8 = 0x62;
    /// Any private encryption scheme.
    pub const APES: u8 = 0x63;
    /// GMTP.
    pub const GMTP: u8 = 0x64;
    /// Ipsilon Flow Management Protocol.
    pub const IFMP: u8 = 0x65;
    /// PNNI over IP.
    pub const PNNI: u8 = 0x66;
    /// Protocol Independent Multicast.
    pub const PIM: u8 = 0x67;
    /// IBM's ARIS (Aggregate Route IP Switching) Protocol.
    pub const ARIS: u8 = 0x68;
    /// SCPS (Space Communications Protocol Standards).
    pub const SCPS: u8 = 0x69;
    /// QNX.
    pub const QNX: u8 = 0x6A;
    /// Active Networks.
    pub const AN: u8 = 0x6B;
    /// IP Payload Compression Protocol.
    pub const IP_COMP: u8 = 0x6C;
    /// Sitara Networks Protocol.
    pub const SNP: u8 = 0x6D;
    /// Compaq Peer Protocol.
    pub const COMPAQ_PEER: u8 = 0x6E;
    /// IPX in IP.
    pub const IPX_IN_IP: u8 = 0x6F;
    /// Virtual Router Redundancy Protocol, Common Address Redundancy Protocol (not IANA assigned).
    pub const VRRP: u8 = 0x70;
    /// PGM Reliable Transport Protocol.
    pub const PGM: u8 = 0x71;
    /// Any 0-hop protocol.
    pub const AHP: u8 = 0x72;
    /// Layer Two Tunneling Protocol Version 3.
    pub const L2TP: u8 = 0x73;
    /// D-II Data Exchange (DDX).
    pub const DDX: u8 = 0x74;
    /// Interactive Agent Transfer Protocol.
    pub const IATP: u8 = 0x75;
    /// Schedule Transfer Protocol.
    pub const STP: u8 = 0x76;
    /// SpectraLink Radio Protocol.
    pub const SRP: u8 = 0x77;
    /// Universal Transport Interface Protocol.
    pub const UTI: u8 = 0x78;
    /// Simple Message Protocol.
    pub const SMP: u8 = 0x79;
    /// Simple Multicast Protocol.
    pub const SM: u8 = 0x7A;
    /// Performance Transparency Protocol.
    pub const PTP: u8 = 0x7B;
    /// IS-IS over IPv4 Intermediate System to Intermediate System (IS-IS) Protocol over IPv4.
    pub const IS_IS: u8 = 0x7C;
    /// Flexible Intra-AS Routing Environment.
    pub const FIRE: u8 = 0x7D;
    /// Combat Radio Transport Protocol.
    pub const CRTP: u8 = 0x7E;
    /// Combat Radio User Datagram.
    pub const CRUDP: u8 = 0x7F;
    /// Service-Specific Connection-Oriented Protocol in a Multilink and Connectionless Environment.
    pub const SSCOPMCE: u8 = 0x80;
    /// IPLT.
    pub const IPLT: u8 = 0x81;
    /// Secure Packet Shield.
    pub const SPS: u8 = 0x82;
    /// Private IP Encapsulation within IP.
    pub const PIPE: u8 = 0x83;
    /// Stream Control Transmission Protocol.
    pub const SCTP: u8 = 0x84;
    /// Fibre Channel.
    pub const FC: u8 = 0x85;
    /// Reservation Protocol (RSVP) End-to-End Ignore.
    pub const RSVP_IGNORE: u8 = 0x86;
    /// Mobility Extension Header for IPv6.
    pub const MOBILITY_6: u8 = 0x87;
    /// Lightweight User Datagram Protocol.
    pub const UDP_LITE: u8 = 0x88;
    /// Multiprotocol Label Switching Encapsulated in IP.
    pub const MPLS_IN_IP: u8 = 0x89;
    /// MANET Protocols.
    pub const MANET: u8 = 0x8A;
    /// Host Identity Protocol.
    pub const HIP: u8 = 0x8B;
    /// Site Multihoming by IPv6 Intermediation.
    pub const SHIM_6: u8 = 0x8C;
    /// Wrapped Encapsulating Security Payload.
    pub const WESP: u8 = 0x8D;
    /// Robust Header Compression.
    pub const ROHC: u8 = 0x8E;

    /// The `IPProtocol` with the given number.
    pub fn new(protocol: u8) -> (r: IPProtocol)
        ensures
            r == (IPProtocol { protocol }),
    {
        IPProtocol { protocol }
    }

    /// The number of this `IPProtocol`.
    pub fn protocol(&self) -> (r: u8)
        ensures
            r == self.protocol,
    {
        self.protocol
    }

    /// The name of the number, where it has one.
    pub open spec fn spec_name(self) -> Option<Seq<char>> {
        match self.protocol {
            0x00 => Some("Hopopt"@),
            0x01 => Some("Icmp"@),
            0x02 => Some("Igmp"@),
            0x03 => Some("Ggp"@),
            0x04 => Some("IpInIp"@),
            0x05 => Some("St"@),
            0x06 => Some("Tcp"@),
            0x07 => Some("Cbt"@),
            0x08 => Some("Egp"@),
            0x09 => Some("Igp"@),
            0x0A => Some("BbnRccMon"@),
            0x0B => Some("NvpIi"@),
            0x0C => Some("Pup"@),
            0x0D => Some("Argus"@),
            0x0E => Some("Emcon"@),
            0x0F => Some("Xnet"@),
            0x10 => Some("Chaos"@),
            0x11 => Some("Udp"@),
            0x12 => Some("Mux"@),
            0x13 => Some("DcnMeas"@),
            0x14 => Some("Hmp"@),
            0x15 => Some("Prm"@),
            0x16 => Some("XnsIdp"@),
            0x17 => Some("Trunk1"@),
            0x18 => Some("Trunk2"@),
            0x19 => Some("Leaf1"@),
            0x1A => Some("Leaf2"@),
            0x1B => Some("Rdp"@),
            0x1C => Some("Irtp"@),
            0x1D => Some("IsoTp4"@),
            0x1E => Some("Netblt"@),
            0x1F => Some("MfeNsp"@),
            0x20 => Some("MeritInp"@),
            0x21 => Some("Dccp"@),
            0x22 => Some("Pc3"@),
            0x23 => Some("Idpr"@),
            0x24 => Some("Xtp"@),
            0x25 => Some("Ddp"@),
            0x26 => Some("IdprCmtp"@),
            0x27 => Some("Tp"@),
            0x28 => Some("Il"@),
            0x29 => Some("Ipv6"@),
            0x2A => Some("Sdrp"@),
            0x2B => Some("Ipv6Route"@),
            0x2C => Some("Ipv6Frag"@),
            0x2D => Some("Idrp"@),
            0x2E => Some("Rsvp"@),
            0x2F => Some("Gre"@),
            0x30 => Some("Dsr"@),
            0x31 => Some("Bna"@),
            0x32 => Some("Esp"@),
            0x33 => Some("Ah"@),
            0x34 => Some("INlsp"@),
            0x35 => Some("Swipe"@),
            0x36 => Some("Narp"@),
            0x37 => Some("Mobile"@),
            0x38 => Some("Tlsp"@),
            0x39 => Some("Skip"@),
            0x3A => Some("Icmp6"@),
            0x3B => Some("NoNxt6"@),
            0x3C => Some("Opts6"@),
            0x3D => Some("Ahip"@),
            0x3E => Some("Cftp"@),
            0x3F => Some("Aln"@),
            0x40 => Some("SatExpak"@),
            0x41 => Some("Kryptolan"@),
            0x42 => Some("Rvd"@),
            0x43 => Some("Ippc"@),
            0x44 => Some("Adfs"@),
            0x45 => Some("SatMon"@),
            0x46 => Some("Visa"@),
            0x47 => Some("Ipcu"@),
            0x48 => Some("Cpnx"@),
            0x49 => Some("Cphb"@),
            0x4A => Some("Wsn"@),
            0x4B => Some("Pvp"@),
            0x4C => Some("BrSatMon"@),
            0x4D => Some("SunNd"@),
            0x4E => Some("WbMon"@),
            0x4F => Some("WbExpak"@),
            0x50 => Some("IsoIp"@),
            0x51 => Some("Vmtp"@),
            0x52 => Some("SecureVmtp"@),
            0x53 => Some("Vines"@),
            0x54 => Some("TtpOrIptm"@),
            0x55 => Some("NsfnetIgp"@),
            0x56 => Some("Dgp"@),
            0x57 => Some("Tcf"@),
            0x58 => Some("Eigrp"@),
            0x59 => Some("Ospf"@),
            0x5A => Some("SpriteRpc"@),
            0x5B => Some("Larp"@),
            0x5C => Some("Mtp"@),
            0x5D => Some("Ax25"@),
            0x5E => Some("Os"@),
            0x5F => Some("Micp"@),
            0x60 => Some("SccSp"@),
            0x61 => Some("Etherip"@),
            0x62 => Some("Encap"@),
            0x63 => Some("Apes"@),
            0x64 => Some("Gmtp"@),
            0x65 => Some("Ifmp"@),
            0x66 => Some("Pnni"@),
            0x67 => Some("Pim"@),
            0x68 => Some("Aris"@),
            0x69 => Some("Scps"@),
            0x6A => Some("Qnx"@),
            0x6B => Some("An"@),
            0x6C => Some("IpComp"@),
            0x6D => Some("Snp"@),
            0x6E => Some("CompaqPeer"@),
            0x6F => Some("IpxInIp"@),
            0x70 => Some("Vrrp"@),
            0x71 => Some("Pgm"@),
            0x72 => Some("Ahp"@),
            0x73 => Some("L2tp"@),
            0x74 => Some("Ddx"@),
            0x75 => Some("Iatp"@),
            0x76 => Some("Stp"@),
            0x77 => Some("Srp"@),
            0x78 => Some("Uti"@),
            0x79 => Some("Smp"@),
            0x7A => Some("Sm"@),
            0x7B => Some("Ptp"@),
            0x7C => Some("IsIs"@),
            0x7D => Some("Fire"@),
            0x7E => Some("Crtp"@),
            0x7F => Some("Crudp"@),
            0x80 => Some("Sscopmce"@),
            0x81 => Some("Iplt"@),
            0x82 => Some("Sps"@),
            0x83 => Some("Pipe"@),
            0x84 => Some("Sctp"@),
            0x85 => Some("Fc"@),
            0x86 => Some("RsvpIgnore"@),
            0x87 => Some("Mobility6"@),
            0x88 => Some("UdpLite"@),
            0x89 => Some("MplsInIp"@),
            0x8A => Some("Manet"@),
            0x8B => Some("Hip"@),
            0x8C => Some("Shim6"@),
            0x8D => Some("Wesp"@),
            0x8E => Some("Rohc"@),
            _ => None,
        }
    }

    /// The text that shows the number: its name, or `Unknown` where it has
    /// none, then `: ` and the number in decimal.
    pub open spec fn spec_to_string(self) -> Seq<char> {
        match self.spec_name() {
            Some(name) => name + ": "@ + spec_decimal_text(self.protocol as u16),
            None => "Unknown: "@ + spec_decimal_text(self.protocol as u16),
        }
    }

    /// The name of the number, where it has one.
    pub fn name(&self) -> (r: Option<&'static str>)
        ensures
            r is Some == self.spec_name() is Some,
            r matches Some(name) ==> name@ == self.spec_name()->0,
    {
        match self.protocol {
            0x00 => Some("Hopopt"),
            0x01 => Some("Icmp"),
            0x02 => Some("Igmp"),
            0x03 => Some("Ggp"),
            0x04 => Some("IpInIp"),
            0x05 => Some("St"),
            0x06 => Some("Tcp"),
            0x07 => Some("Cbt"),
            0x08 => Some("Egp"),
            0x09 => Some("Igp"),
            0x0A => Some("BbnRccMon"),
            0x0B => Some("NvpIi"),
            0x0C => Some("Pup"),
            0x0D => Some("Argus"),
            0x0E => Some("Emcon"),
            0x0F => Some("Xnet"),
            0x10 => Some("Chaos"),
            0x11 => Some("Udp"),
            0x12 => Some("Mux"),
            0x13 => Some("DcnMeas"),
            0x14 => Some("Hmp"),
            0x15 => Some("Prm"),
            0x16 => Some("XnsIdp"),
            0x17 => Some("Trunk1"),
            0x18 => Some("Trunk2"),
            0x19 => Some("Leaf1"),
            0x1A => Some("Leaf2"),
            0x1B => Some("Rdp"),
            0x1C => Some("Irtp"),
            0x1D => Some("IsoTp4"),
            0x1E => Some("Netblt"),
            0x1F => Some("MfeNsp"),
            0x20 => Some("MeritInp"),
            0x21 => Some("Dccp"),
            0x22 => Some("Pc3"),
            0x23 => Some("Idpr"),
            0x24 => Some("Xtp"),
            0x25 => Some("Ddp"),
            0x26 => Some("IdprCmtp"),
            0x27 => Some("Tp"),
            0x28 => Some("Il"),
            0x29 => Some("Ipv6"),
            0x2A => Some("Sdrp"),
            0x2B => Some("Ipv6Route"),
            0x2C => Some("Ipv6Frag"),
            0x2D => Some("Idrp"),
            0x2E => Some("Rsvp"),
            0x2F => Some("Gre"),
            0x30 => Some("Dsr"),
            0x31 => Some("Bna"),
            0x32 => Some("Esp"),
            0x33 => Some("Ah"),
            0x34 => Some("INlsp"),
            0x35 => Some("Swipe"),
            0x36 => Some("Narp"),
            0x37 => Some("Mobile"),
            0x38 => Some("Tlsp"),
            0x39 => Some("Skip"),
            0x3A => Some("Icmp6"),
            0x3B => Some("NoNxt6"),
            0x3C => Some("Opts6"),
            0x3D => Some("Ahip"),
            0x3E => Some("Cftp"),
            0x3F => Some("Aln"),
            0x40 => Some("SatExpak"),
            0x41 => Some("Kryptolan"),
            0x42 => Some("Rvd"),
            0x43 => Some("Ippc"),
            0x44 => Some("Adfs"),
            0x45 => Some("SatMon"),
            0x46 => Some("Visa"),
            0x47 => Some("Ipcu"),
            0x48 => Some("Cpnx"),
            0x49 => Some("Cphb"),
            0x4A => Some("Wsn"),
            0x4B => Some("Pvp"),
            0x4C => Some("BrSatMon"),
            0x4D => Some("SunNd"),
            0x4E => Some("WbMon"),
            0x4F => Some("WbExpak"),
            0x50 => Some("IsoIp"),
            0x51 => Some("Vmtp"),
            0x52 => Some("SecureVmtp"),
            0x53 => Some("Vines"),
            0x54 => Some("TtpOrIptm"),
            0x55 => Some("NsfnetIgp"),
            0x56 => Some("Dgp"),
            0x57 => Some("Tcf"),
            0x58 => Some("Eigrp"),
            0x59 => Some("Ospf"),
            0x5A => Some("SpriteRpc"),
            0x5B => Some("Larp"),
            0x5C => Some("Mtp"),
            0x5D => Some("Ax25"),
            0x5E => Some("Os"),
            0x5F => Some("Micp"),
            0x60 => Some("SccSp"),
            0x61 => Some("Etherip"),
            0x62 => Some("Encap"),
            0x63 => Some("Apes"),
            0x64 => Some("Gmtp"),
            0x65 => Some("Ifmp"),
            0x66 => Some("Pnni"),
            0x67 => Some("Pim"),
            0x68 => Some("Aris"),
            0x69 => Some("Scps"),
            0x6A => Some("Qnx"),
            0x6B => Some("An"),
            0x6C => Some("IpComp"),
            0x6D => Some("Snp"),
            0x6E => Some("CompaqPeer"),
            0x6F => Some("IpxInIp"),
            0x70 => Some("Vrrp"),
            0x71 => Some("Pgm"),
            0x72 => Some("Ahp"),
            0x73 => Some("L2tp"),
            0x74 => Some("Ddx"),
            0x75 => Some("Iatp"),
            0x76 => Some("Stp"),
            0x77 => Some("Srp"),
            0x78 => Some("Uti"),
            0x79 => Some("Smp"),
            0x7A => Some("Sm"),
            0x7B => Some("Ptp"),
            0x7C => Some("IsIs"),
            0x7D => Some("Fire"),
            0x7E => Some("Crtp"),
            0x7F => Some("Crudp"),
            0x80 => Some("Sscopmce"),
            0x81 => Some("Iplt"),
            0x82 => Some("Sps"),
            0x83 => Some("Pipe"),
            0x84 => Some("Sctp"),
            0x85 => Some("Fc"),
            0x86 => Some("RsvpIgnore"),
            0x87 => Some("Mobility6"),
            0x88 => Some("UdpLite"),
            0x89 => Some("MplsInIp"),
            0x8A => Some("Manet"),
            0x8B => Some("Hip"),
            0x8C => Some("Shim6"),
            0x8D => Some("Wesp"),
            0x8E => Some("Rohc"),
            _ => None,
        }
    }

    /// Shows the number: its name, or `Unknown` where it has none, then
    /// `: ` and the number in decimal.
    pub fn to_string(&self) -> (r: String)
        ensures
            r@ == self.spec_to_string(),
    {
        let mut r = match self.name() {
            Some(name) => String::from_str(name),
            None => String::from_str("Unknown"),
        };
        r.append(": ");
        let r = with_decimal(r.as_str(), self.protocol as u16);
        proof {
            reveal_strlit("Unknown");
            reveal_strlit(": ");
            reveal_strlit("Unknown: ");
            assert("Unknown"@ + ": "@ =~= "Unknown: "@);
        }
        r
    }
}

impl From<u8> for IPProtocol {
    /// The `IPProtocol` with the given number.
    fn from(protocol: u8) -> (r: IPProtocol) {
        IPProtocol { protocol }
    }
}

impl FromSpecImpl<u8> for IPProtocol {
    open spec fn obeys_from_spec() -> bool {
        true
    }

    open spec fn from_spec(protocol: u8) -> IPProtocol {
        IPProtocol { protocol }
    }
}

impl From<IPProtocol> for u8 {
    /// The number of the given `IPProtocol`.
    fn from(this: IPProtocol) -> (r: u8) {
        this.protocol
    }
}

impl FromSpecImpl<IPProtocol> for u8 {
    open spec fn obeys_from_spec() -> bool {
        true
    }

    open spec fn from_spec(this: IPProtocol) -> u8 {
        this.protocol
    }
}

/// What [`ip_protocol`] returns on input `s`.
pub open spec fn spec_ip_protocol<A>(s: Seq<u8>) -> Parsed<IPProtocol, Seq<u8>, A> {
    if s.len() < 1 {
        Parsed::Failure
    } else {
        Parsed::Success { token: IPProtocol { protocol: s[0] }, stream: s.skip(1) }
    }
}

/// Decodes a one-octet IP protocol number. Every number is accepted.
pub fn ip_protocol<'a, A>(stream: &'a [u8]) -> (r: Parsed<IPProtocol, &'a [u8], A>)
    ensures
        r@ == spec_ip_protocol::<A>(stream@),
{
    match octet::<A>(stream) {
        Parsed::Success { token, stream } => Parsed::Success { token: IPProtocol::new(token), stream },
        Parsed::Failure => Parsed::Failure,
        Parsed::Error(atom) => Parsed::Error(atom),
    }
}

} // verus!
