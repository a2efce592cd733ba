use binator_network::{
    EtherType, EthernetFrame, IPProtocol, IPv4Header, IPv6Header, Ipv4Addr, Ipv6Addr, Parsed,
    TcpFlags, TcpHeader, TcpOption, UdpHeader,
};

#[test]
fn ether_type() {
    let tests = [
        ([0x08, 0x00], EtherType::new(EtherType::IPV4)),
        ([0x08, 0x06], EtherType::new(EtherType::ARP)),
        ([0x86, 0xDD], EtherType::new(EtherType::IPV6)),
        ([0x81, 0x00], EtherType::new(EtherType::VLAN)),
    ];

    for (stream, expected) in tests {
        assert_eq!(
            binator_network::ether_type::<()>(&stream[..]),
            Parsed::Success {
                token: expected,
                stream: &[][..],
            }
        );
    }
}

#[test]
fn ethernet_frame() {
    let tests = [
        (
            &[
                0x00, 0x23, 0x54, 0x07, 0x93, 0x6C, 0x00, 0x1B, 0x21, 0x0F, 0x91, 0x9B, 0x08,
                0x00,
            ][..],
            EthernetFrame {
                destination: [0x00, 0x23, 0x54, 0x07, 0x93, 0x6C],
                source: [0x00, 0x1B, 0x21, 0x0F, 0x91, 0x9B],
                ether_type: EtherType::new(EtherType::IPV4),
                tci: None,
            },
        ),
        (
            &[
                0x00, 0x23, 0x54, 0x07, 0x93, 0x6C, 0x00, 0x1B, 0x21, 0x0F, 0x91, 0x9B, 0x81,
                0x00, 0x04, 0xD2, 0x08, 0x00,
            ][..],
            EthernetFrame {
                destination: [0x00, 0x23, 0x54, 0x07, 0x93, 0x6C],
                source: [0x00, 0x1B, 0x21, 0x0F, 0x91, 0x9B],
                ether_type: EtherType::new(EtherType::IPV4),
                tci: Some(1234),
            },
        ),
    ];

    for (stream, expected) in tests {
        assert_eq!(
            binator_network::ethernet_frame(stream),
            Parsed::Success {
                token: expected,
                stream: b"".as_slice(),
            }
        );
    }
}

#[test]
fn ip_protocol() {
    let tests = [
        ([1], IPProtocol::new(IPProtocol::ICMP)),
        ([6], IPProtocol::new(IPProtocol::TCP)),
        ([17], IPProtocol::new(IPProtocol::UDP)),
    ];

    for (stream, expected) in tests {
        assert_eq!(
            binator_network::ip_protocol::<()>(&stream[..]),
            Parsed::Success {
                stream: &[][..],
                token: expected
            }
        );
    }
}

#[test]
fn ipv4_header() {
    let data = [
        0x45, 0x00, 0x05, 0xDC, 0x1A, 0xE6, 0x20, 0x00, 0x40, 0x01, 0x22, 0xED, 0x0A, 0x0A, 0x01,
        0x87, 0x0A, 0x0A, 0x01, 0xB4,
    ];

    let expectation = IPv4Header {
        version: 4,
        ihl: 5,
        tos: 0,
        length: 1500,
        id: 0x1AE6,
        flags: 0x01,
        fragment_offset: 0,
        ttl: 64,
        protocol: IPProtocol::new(IPProtocol::ICMP),
        chksum: 0x22ED,
        source_addr: Ipv4Addr::new(10, 10, 1, 135),
        dest_addr: Ipv4Addr::new(10, 10, 1, 180),
        options: "".as_bytes(),
    };
    assert_eq!(
        Parsed::Success {
            token: expectation,
            stream: "".as_bytes(),
        },
        binator_network::ipv4_header(data.as_slice())
    );
}

#[test]
fn ipv6_header() {
    let bytes = [
        0x60, 0x20, 0x01, 0xFF, 0x05, 0x78, 0x3A, 0x05, 0x20, 0x01, 0x0D, 0xB8, 0x5C, 0xF8, 0x1A,
        0xA8, 0x24, 0x81, 0x61, 0xE6, 0x5A, 0xC6, 0x03, 0xE0, 0x20, 0x01, 0x0D, 0xB8, 0x78, 0x90,
        0x2A, 0xE9, 0x90, 0x8F, 0xA9, 0xF4, 0x2F, 0x4A, 0x9B, 0x80,
    ];

    let expectation = IPv6Header {
        version: 6,
        ds: 0,
        ecn: 2,
        flow_label: 511,
        length: 1400,
        next_header: IPProtocol::new(IPProtocol::ICMP_6),
        hop_limit: 5,
        source_addr: Ipv6Addr::new(
            0x2001, 0xDB8, 0x5CF8, 0x1AA8, 0x2481, 0x61E6, 0x5AC6, 0x3E0,
        ),
        dest_addr: Ipv6Addr::new(
            0x2001, 0xDB8, 0x7890, 0x2AE9, 0x908F, 0xA9F4, 0x2F4A, 0x9B80,
        ),
    };
    assert_eq!(
        binator_network::ipv6_header(&bytes[..]),
        Parsed::Success {
            token: expectation,
            stream: "".as_bytes(),
        }
    );
}

#[test]
fn parse_tcp_packet() {
    let bytes = [
        0x45, 0x00, 0x00, 0x38, 0x76, 0xF4, 0x40, 0x00, 0x40, 0x06, 0x80, 0xD9, 0xC0, 0xA8, 0x00,
        0x6C, 0xD0, 0x61, 0xB1, 0x7C, 0xB0, 0xC2, 0x00, 0x50, 0xB0, 0xEE, 0x32, 0xA6, 0x04, 0x39,
        0xAE, 0xE6, 0x50, 0x18, 0x00, 0xE5, 0x76, 0x92, 0x00, 0x00, 0x47, 0x45, 0x54, 0x20, 0x2F,
        0x69, 0x6E, 0x64, 0x65, 0x78, 0x2E, 0x68, 0x74, 0x6D, 0x6C, 0x0A,
    ];

    let Parsed::Success {
        token: _ipv4_header,
        stream,
    } = binator_network::ipv4_header(bytes.as_slice())
    else {
        panic!("the IPv4 header does not decode");
    };
    let Parsed::Success {
        token: tcp_header,
        stream: data,
    } = binator_network::tcp_header(stream)
    else {
        panic!("the TCP header does not decode");
    };

    assert_eq!(tcp_header.source_port, 45250);
    assert_eq!(tcp_header.dest_port, 80);
    assert_eq!(data, b"GET /index.html\x0a");
}

#[test]
fn parse_tcp_packet_with_options() {
    let bytes = [
        0x45, 0x20, 0x00, 0x34, 0x78, 0xD6, 0x40, 0x00, 0x35, 0x06, 0x7E, 0x77, 0x45, 0xA4, 0x10,
        0x00, 0xC0, 0xA8, 0x38, 0x0A, 0x00, 0x50, 0xC2, 0x27, 0x48, 0xF3, 0x02, 0xC2, 0x61, 0xD3,
        0x16, 0xA8, 0x80, 0x12, 0xFF, 0xFF, 0x9B, 0x80, 0x00, 0x00, 0x02, 0x04, 0x05, 0x3A, 0x01,
        0x03, 0x03, 0x04, 0x04, 0x02, 0x00, 0x00,
    ];

    let Parsed::Success {
        token: _ipv4_header,
        stream,
    } = binator_network::ipv4_header(bytes.as_slice())
    else {
        panic!("the IPv4 header does not decode");
    };
    let Parsed::Success {
        token: tcp_header,
        stream,
    } = binator_network::tcp_header(stream)
    else {
        panic!("the TCP header does not decode");
    };

    assert_eq!(tcp_header.source_port, 80);
    assert_eq!(tcp_header.dest_port, 49703);

    assert_eq!(stream, b"");

    let Parsed::Success {
        token: options,
        stream,
    } = binator_network::tcp_options(tcp_header.options)
    else {
        panic!("the TCP options do not decode");
    };

    assert_eq!(options[0], TcpOption::MaximumSegmentSize(1338));
    assert_eq!(options[1], TcpOption::Noop);
    assert_eq!(options[2], TcpOption::WindowScale(4));
    assert_eq!(options[3], TcpOption::SackPermitted);
    assert_eq!(options[4], TcpOption::EndOfOption);
    assert_eq!(options[5], TcpOption::EndOfOption);

    assert_eq!(options.len(), 6);
    assert_eq!(stream, b"");
}

#[test]
fn test_tcp_parse() {
    let stream = [
        0xC2, 0x1F, 0x00, 0x50, 0x0F, 0xD8, 0x7F, 0x4C, 0xEB, 0x2F, 0x05, 0xC8, 0x50, 0x18, 0x01,
        0x00, 0x7C, 0x29, 0x00, 0x00,
    ];

    let mut flags = TcpFlags::default();
    flags.set_ack(true);
    flags.set_psh(true);
    flags.set_data_offset(5).unwrap();
    let expect = TcpHeader {
        source_port: 49695,
        dest_port: 80,
        sequence_no: 0x0FD87F4C,
        ack_no: 0xEB2F05C8,
        flags,
        window: 256,
        checksum: 0x7C29,
        urgent_pointer: 0,
        options: "".as_bytes(),
    };

    let result = binator_network::tcp_header(stream.as_slice());
    let expected = Parsed::Success {
        token: expect,
        stream: "".as_bytes(),
    };

    assert_eq!(result, expected);
}

#[test]
fn udp_header_works() {
    let bytes = [0x00, 0x12, 0x11, 0x11, 0x00, 0x1B, 0x21, 0x0F];
    let expectation = UdpHeader {
        source_port: 0x12,
        dest_port: 0x1111,
        length: 0x1B,
        checksum: 0x210F,
    };
    assert_eq!(
        binator_network::udp_header(&bytes[..]),
        Parsed::Success {
            token: expectation,
            stream: &[][..]
        }
    );
}
