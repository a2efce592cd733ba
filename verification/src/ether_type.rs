//! The EtherType field of an Ethernet frame.

use vstd::prelude::*;
use vstd::std_specs::convert::FromSpecImpl;
use vstd::string::StringExecFns;
use crate::cursor::{be16, u16_be};
use crate::message::{spec_decimal_text, with_decimal};
use crate::parsed::Parsed;

verus! {

/// A 16-bit EtherType code.
///
/// The registry of codes is open: every 16-bit value is a valid `EtherType`,
/// whether or not one of the constants of this type names it. The constants
/// are raw codes; `EtherType::new(EtherType::IPV4)` is the EtherType of IPv4.
#[derive(Clone, Copy, Debug, PartialEq, Eq, Structural, PartialOrd, Ord, Hash)]
pub struct EtherType {
    /// The code as it stands in the frame.
    pub ether_type: u16,
}

impl View for EtherType {
    type V = EtherType;

    open spec fn view(&self) -> EtherType {
        *self
    }
}

impl EtherType {
    /// 802.3 Min data length.
    pub const LANMIN: u16 = 0x002E;
    /// 802.3 Max data length.
    pub const LANMAX: u16 = 0x05DC;
    /// Internet Protocol version 4 (IPv4).
    pub const IPV4: u16 = 0x0800;
    /// Address Resolution Protocol (ARP).
    pub const ARP: u16 = 0x0806;
    /// Wake-on-LAN.
    pub const WOL: u16 = 0x0842;
    /// IETF TRILL Protocol.
    pub const TRILL: u16 = 0x22F3;
    /// DECnet Phase IV.
    pub const DECNET: u16 = 0x6003;
    /// Reverse Address Resolution Protocol.
    pub const RARP: u16 = 0x8035;
    /// AppleTalk (Ethertalk).
    pub const APPLE_TALK: u16 = 0x809B;
    /// AppleTalk Address Resolution Protocol (AARP).
    pub const AARP: u16 = 0x80F3;
    /// VLAN-tagged frame (IEEE 802.1Q) and Shortest Path Bridging IEEE 802.1aq.
    pub const VLAN: u16 = 0x8100;
    /// IPX.
    pub const IPX: u16 = 0x8137;
    /// QNX Qnet.
    pub const QNET: u16 = 0x8204;
    /// Internet Protocol Version 6 (IPv6).
    pub const IPV6: u16 = 0x86DD;
    /// Ethernet flow control.
    pub const FLOW_CONTROL: u16 = 0x8808;
    /// CobraNet.
    pub const COBRA_NET: u16 = 0x8819;
    /// MPLS unicast.
    pub const MPLS_UNI: u16 = 0x8847;
    /// MPLS multicast.
    pub const MPLS_MUTLI: u16 = 0x8848;
    /// PPPoE Discovery Stage.
    pub const PPPOE_DISCOVERY: u16 = 0x8863;
    /// PPPoE Session Stage.
    pub const PPPOE_SESSION: u16 = 0x8864;
    /// HomePlug 1.0 MME.
    pub const HOME_PLUG: u16 = 0x887B;
    /// EAP over LAN (IEEE 802.1X).
    pub const EAPOL: u16 = 0x888E;
    /// PROFINET Protocol.
    pub const PROFINET: u16 = 0x8892;
    /// HyperSCSI (SCSI over Ethernet).
    pub const HYPER_SCSI: u16 = 0x889A;
    /// ATA over Ethernet.
    pub const ATAOE: u16 = 0x88A2;
    /// EtherCAT Protocol.
    pub const ETHER_CAT: u16 = 0x88A4;
    /// Provider Bridging (IEEE 802.1ad) & Shortest Path Bridging IEEE 802.1aq.
    pub const QINQ: u16 = 0x88A8;
    /// Ethernet Powerlink.
    pub const POWER_LINK: u16 = 0x88AB;
    /// GOOSE (Generic Object Oriented Substation event).
    pub const GOOSE: u16 = 0x88B8;
    /// GSE (Generic Substation Events) Management Services.
    pub const GSE: u16 = 0x88B9;
    /// Link Layer Discovery Protocol (LLDP).
    pub const LLDP: u16 = 0x88CC;
    /// SERCOS III.
    pub const SERCOS: u16 = 0x88CD;
    /// HomePlug AV MME.
    pub const HOME_PLUG_AV: u16 = 0x88E1;
    /// Media Redundancy Protocol (IEC62439-2).
    pub const MRP: u16 = 0x88E3;
    /// MAC security (IEEE 802.1AE).
    pub const MAC_SEC: u16 = 0x88E5;
    /// Provider Backbone Bridges (PBB) (IEEE 802.1ah).
    pub const PBB: u16 = 0x88E7;
    /// Precision Time Protocol (PTP) over Ethernet (IEEE 1588).
    pub const PTP: u16 = 0x88F7;
    /// Parallel Redundancy Protocol (PRP).
    pub const PRP: u16 = 0x88FB;
    /// IEEE 802.1ag Connectivity Fault Management (CFM) Protocol / ITU-T Recommendation Y.1731 (OAM).
    pub const CFM: u16 = 0x8902;
    /// Fibre Channel over Ethernet (FCoE).
    pub const FCOE: u16 = 0x8906;
    /// FCoE Initialization Protocol.
    pub const FCOEI: u16 = 0x8914;
    /// RDMA over Converged Ethernet (RoCE).
    pub const ROCE: u16 = 0x8915;
    /// TTEthernet Protocol Control Frame (TTE).
    pub const TTE: u16 = 0x891D;
    /// High-availability Seamless Redundancy (HSR).
    pub const HSR: u16 = 0x892F;
    /// Ethernet Configuration Testing Protocol.
    pub const CTP: u16 = 0x9000;
    /// VLAN-tagged (IEEE 802.1Q) frame with double tagging.
    pub const VLAN_DOUBLE: u16 = 0x9100;
    /// Veritas Low Latency Transport (LLT).
    pub const LLT: u16 = 0xCAFE;

    /// The `EtherType` with the given code.
    pub fn new(ether_type: u16) -> (r: EtherType)
        ensures
            r == (EtherType { ether_type }),
    {
        EtherType { ether_type }
    }

    /// The code of this `EtherType`.
    pub fn ether_type(&self) -> (r: u16)
        ensures
            r == self.ether_type,
    {
        self.ether_type
    }

    /// The name of the code, where it has one.
    pub open spec fn spec_name(self) -> Option<Seq<char>> {
        match self.ether_type {
            0x002E => Some("Lanmin"@),
            0x05DC => Some("Lanmax"@),
            0x0800 => Some("Ipv4"@),
            0x0806 => Some("Arp"@),
            0x0842 => Some("Wol"@),
            0x22F3 => Some("Trill"@),
            0x6003 => Some("Decnet"@),
            0x8035 => Some("Rarp"@),
            0x809B => Some("AppleTalk"@),
            0x80F3 => Some("Aarp"@),
            0x8100 => Some("Vlan"@),
            0x8137 => Some("Ipx"@),
            0x8204 => Some("Qnet"@),
            0x86DD => Some("Ipv6"@),
            0x8808 => Some("FlowControl"@),
            0x8819 => Some("CobraNet"@),
            0x8847 => Some("MplsUni"@),
            0x8848 => Some("MplsMutli"@),
            0x8863 => Some("PppoeDiscovery"@),
            0x8864 => Some("PppoeSession"@),
            0x887B => Some("HomePlug"@),
            0x888E => Some("Eapol"@),
            0x8892 => Some("Profinet"@),
            0x889A => Some("HyperScsi"@),
            0x88A2 => Some("Ataoe"@),
            0x88A4 => Some("EtherCat"@),
            0x88A8 => Some("Qinq"@),
            0x88AB => Some("PowerLink"@),
            0x88B8 => Some("Goose"@),
            0x88B9 => Some("Gse"@),
            0x88CC => Some("Lldp"@),
            0x88CD => Some("Sercos"@),
            0x88E1 => Some("HomePlugAv"@),
            0x88E3 => Some("Mrp"@),
            0x88E5 => Some("MacSec"@),
            0x88E7 => Some("Pbb"@),
            0x88F7 => Some("Ptp"@),
            0x88FB => Some("Prp"@),
            0x8902 => Some("Cfm"@),
            0x8906 => Some("Fcoe"@),
            0x8914 => Some("Fcoei"@),
            0x8915 => Some("Roce"@),
            0x891D => Some("Tte"@),
            0x892F => Some("Hsr"@),
            0x9000 => Some("Ctp"@),
            0x9100 => Some("VlanDouble"@),
            0xCAFE => Some("Llt"@),
            _ => None,
        }
    }

    /// The text that shows the code: its name, or `Unknown` where it has
    /// none, then `: ` and the code in decimal.
    pub open spec fn spec_to_string(self) -> Seq<char> {
        match self.spec_name() {
            Some(name) => name + ": "@ + spec_decimal_text(self.ether_type),
            None => "Unknown: "@ + spec_decimal_text(self.ether_type),
        }
    }

    /// The name of the code, where it has one.
    pub fn name(&self) -> (r: Option<&'static str>)
        ensures
            r is Some == self.spec_name() is Some,
            r matches Some(name) ==> name@ == self.spec_name()->0,
    {
        match self.ether_type {
            0x002E => Some("Lanmin"),
            0x05DC => Some("Lanmax"),
            0x0800 => Some("Ipv4"),
            0x0806 => Some("Arp"),
            0x0842 => Some("Wol"),
            0x22F3 => Some("Trill"),
            0x6003 => Some("Decnet"),
            0x8035 => Some("Rarp"),
            0x809B => Some("AppleTalk"),
            0x80F3 => Some("Aarp"),
            0x8100 => Some("Vlan"),
            0x8137 => Some("Ipx"),
            0x8204 => Some("Qnet"),
            0x86DD => Some("Ipv6"),
            0x8808 => Some("FlowControl"),
            0x8819 => Some("CobraNet"),
            0x8847 => Some("MplsUni"),
            0x8848 => Some("MplsMutli"),
            0x8863 => Some("PppoeDiscovery"),
            0x8864 => Some("PppoeSession"),
            0x887B => Some("HomePlug"),
            0x888E => Some("Eapol"),
            0x8892 => Some("Profinet"),
            0x889A => Some("HyperScsi"),
            0x88A2 => Some("Ataoe"),
            0x88A4 => Some("EtherCat"),
            0x88A8 => Some("Qinq"),
            0x88AB => Some("PowerLink"),
            0x88B8 => Some("Goose"),
            0x88B9 => Some("Gse"),
            0x88CC => Some("Lldp"),
            0x88CD => Some("Sercos"),
            0x88E1 => Some("HomePlugAv"),
            0x88E3 => Some("Mrp"),
            0x88E5 => Some("MacSec"),
            0x88E7 => Some("Pbb"),
            0x88F7 => Some("Ptp"),
            0x88FB => Some("Prp"),
            0x8902 => Some("Cfm"),
            0x8906 => Some("Fcoe"),
            0x8914 => Some("Fcoei"),
            0x8915 => Some("Roce"),
            0x891D => Some("Tte"),
            0x892F => Some("Hsr"),
            0x9000 => Some("Ctp"),
            0x9100 => Some("VlanDouble"),
            0xCAFE => Some("Llt"),
            _ => None,
        }
    }

    /// Shows the code: its name, or `Unknown` where it has none, then
    /// `: ` and the code in decimal.
    pub fn to_string(&self) -> (r: String)
        ensures
            r@ == self.spec_to_string(),
    {
        let mut r = match self.name() {
            Some(name) => String::from_str(name),
            None => String::from_str("Unknown"),
        };
        r.append(": ");
        let r = with_decimal(r.as_str(), self.ether_type);
        proof {
            reveal_strlit("Unknown");
            reveal_strlit(": ");
            reveal_strlit("Unknown: ");
            assert("Unknown"@ + ": "@ =~= "Unknown: "@);
        }
        r
    }
}

impl From<u16> for EtherType {
    /// The `EtherType` with the given code.
    fn from(ether_type: u16) -> (r: EtherType) {
        EtherType { ether_type }
    }
}

impl FromSpecImpl<u16> for EtherType {
    open spec fn obeys_from_spec() -> bool {
        true
    }

    open spec fn from_spec(ether_type: u16) -> EtherType {
        EtherType { ether_type }
    }
}

impl From<EtherType> for u16 {
    /// The code of the given `EtherType`.
    fn from(this: EtherType) -> (r: u16) {
        this.ether_type
    }
}

impl FromSpecImpl<EtherType> for u16 {
    open spec fn obeys_from_spec() -> bool {
        true
    }

    open spec fn from_spec(this: EtherType) -> u16 {
        this.ether_type
    }
}

/// What [`ether_type`] returns on input `s`.
pub open spec fn spec_ether_type<A>(s: Seq<u8>) -> Parsed<EtherType, Seq<u8>, A> {
    if s.len() < 2 {
        Parsed::Failure
    } else {
        Parsed::Success { token: EtherType { ether_type: be16(s[0], s[1]) }, stream: s.skip(2) }
    }
}

/// Decodes a 16-bit big-endian EtherType code. Every code is accepted.
pub fn ether_type<'a, A>(stream: &'a [u8]) -> (r: Parsed<EtherType, &'a [u8], A>)
    ensures
        r@ == spec_ether_type::<A>(stream@),
{
    match u16_be::<A>(stream) {
        Parsed::Success { token, stream } => Parsed::Success { token: EtherType::new(token), stream },
        Parsed::Failure => Parsed::Failure,
        Parsed::Error(atom) => Parsed::Error(atom),
    }
}

} // verus!
