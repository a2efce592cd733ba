use binator_network::message::with_decimal;
use binator_network::{EtherType, IPProtocol, IpAddrAtom, Ipv4Atom, Ipv6Atom, TcpAtom};

#[test]
fn decimal_after_a_prefix() {
    for v in 0u16..=u16::MAX {
        assert_eq!(with_decimal("found ", v), format!("found {}", v));
    }
    assert_eq!(with_decimal("", 0), "0");
    assert_eq!(with_decimal("", 9), "9");
    assert_eq!(with_decimal("", 10), "10");
    assert_eq!(with_decimal("", 99), "99");
    assert_eq!(with_decimal("", 100), "100");
    assert_eq!(with_decimal("x", 205), "x205");
    assert_eq!(with_decimal("x", 1000), "x1000");
    assert_eq!(with_decimal("x", 10000), "x10000");
    assert_eq!(with_decimal("x", 65535), "x65535");
    assert_eq!(with_decimal("x", 40004), "x40004");
}

#[test]
fn ether_types_by_name() {
    assert_eq!(EtherType::new(EtherType::IPV4).name(), Some("Ipv4"));
    assert_eq!(EtherType::new(EtherType::APPLE_TALK).name(), Some("AppleTalk"));
    assert_eq!(EtherType::new(EtherType::LLT).name(), Some("Llt"));
    assert_eq!(EtherType::new(EtherType::LANMIN).name(), Some("Lanmin"));
    assert_eq!(EtherType::new(0x1234).name(), None);
    assert_eq!(EtherType::new(0).name(), None);
    assert_eq!(EtherType::new(EtherType::IPV4).to_string(), "Ipv4: 2048");
    assert_eq!(EtherType::new(EtherType::VLAN).to_string(), "Vlan: 33024");
    assert_eq!(EtherType::new(EtherType::LANMIN).to_string(), "Lanmin: 46");
    assert_eq!(EtherType::new(0x1234).to_string(), "Unknown: 4660");
    assert_eq!(EtherType::new(0).to_string(), "Unknown: 0");
    assert_eq!(EtherType::new(0xFFFF).to_string(), "Unknown: 65535");
    assert_eq!(EtherType::from(0x86DD), EtherType::new(EtherType::IPV6));
    assert_eq!(u16::from(EtherType::new(EtherType::ARP)), 0x0806);
}

#[test]
fn ip_protocols_by_name() {
    assert_eq!(IPProtocol::new(IPProtocol::TCP).name(), Some("Tcp"));
    assert_eq!(IPProtocol::new(IPProtocol::HOPOPT).name(), Some("Hopopt"));
    assert_eq!(IPProtocol::new(IPProtocol::ICMP_6).name(), Some("Icmp6"));
    assert_eq!(IPProtocol::new(IPProtocol::ROHC).name(), Some("Rohc"));
    assert_eq!(IPProtocol::new(143).name(), None);
    assert_eq!(IPProtocol::new(255).name(), None);
    assert_eq!(IPProtocol::new(IPProtocol::TCP).to_string(), "Tcp: 6");
    assert_eq!(IPProtocol::new(IPProtocol::UDP).to_string(), "Udp: 17");
    assert_eq!(IPProtocol::new(IPProtocol::HOPOPT).to_string(), "Hopopt: 0");
    assert_eq!(IPProtocol::new(IPProtocol::ROHC).to_string(), "Rohc: 142");
    assert_eq!(IPProtocol::new(200).to_string(), "Unknown: 200");
    assert_eq!(IPProtocol::from(17), IPProtocol::new(IPProtocol::UDP));
    assert_eq!(u8::from(IPProtocol::new(IPProtocol::ICMP)), 1);
}

#[test]
fn every_code_has_a_text() {
    for code in 0u16..=u16::MAX {
        let shown = EtherType::new(code).to_string();
        let name = EtherType::new(code).name().unwrap_or("Unknown");
        assert_eq!(shown, format!("{}: {}", name, code));
    }
    for number in 0u8..=u8::MAX {
        let shown = IPProtocol::new(number).to_string();
        let name = IPProtocol::new(number).name().unwrap_or("Unknown");
        assert_eq!(shown, format!("{}: {}", name, number));
    }
}

#[test]
fn ipv4_errors_in_words() {
    assert_eq!(
        Ipv4Atom::Version(6).to_string(),
        "Ipv4Context: Version field is not 4 found 6"
    );
    assert_eq!(
        Ipv4Atom::Version(15).to_string(),
        "Ipv4Context: Version field is not 4 found 15"
    );
    assert_eq!(
        Ipv4Atom::IHL(4).to_string(),
        "Ipv4Context: IHL field is less than 5 found 4"
    );
    assert_eq!(
        Ipv4Atom::IHL(0).to_string(),
        "Ipv4Context: IHL field is less than 5 found 0"
    );
}

#[test]
fn ipv6_errors_in_words() {
    assert_eq!(
        Ipv6Atom::Version(4).to_string(),
        "Ipv4Context: Version field is not 6 found 4"
    );
}

#[test]
fn tcp_errors_in_words() {
    assert_eq!(
        TcpAtom::DataOffSet.to_string(),
        "DataOffSet: data_offset is less than 5"
    );
    assert_eq!(TcpAtom::MssLen.to_string(), "MssLen: Maximun len size is not 4");
    assert_eq!(
        TcpAtom::WindowScaleLen.to_string(),
        "WindowScaleLen: Maximun len size is not 3"
    );
    assert_eq!(
        TcpAtom::SackPermittedLen.to_string(),
        "SackPermittedLen: Maximun len size is not 3"
    );
    assert_eq!(
        TcpAtom::SackLen(11).to_string(),
        "SackLen: sack length is invalid found 11"
    );
    assert_eq!(
        TcpAtom::SackLen(255).to_string(),
        "SackLen: sack length is invalid found 255"
    );
    assert_eq!(
        TcpAtom::TimestampsLen.to_string(),
        "TimestampsLen: Maximun len size is not 10"
    );
}

#[test]
fn address_errors_in_words() {
    assert_eq!(IpAddrAtom::NotAnOctet.to_string(), "IpAddr: NotAnOctet");
    assert_eq!(IpAddrAtom::LeadingZero.to_string(), "IpAddr: LeadingZero");
}
