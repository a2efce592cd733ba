use core::convert::Infallible;

use binator_network::cursor::{is, nbit, octet, take, u16_be, u32_be};
use binator_network::ethernet::mac;
use binator_network::ipv6::address;
use binator_network::{
    ethernet_frame, ipv4_header, ipv6_header, tcp_header, udp_header, EtherType, IPProtocol,
    Ipv4Addr, Ipv4Atom, Ipv6Addr, Ipv6Atom, Parsed, TcpAtom,
};

const IPV4: [u8; 24] = [
    0x46, 0x10, 0x00, 0x18, 0xAB, 0xCD, 0xBF, 0xFF, 0x07, 0x11, 0x12, 0x34, 0xC0, 0xA8, 0x01,
    0x02, 0x08, 0x08, 0x04, 0x04, 0x01, 0x02, 0x03, 0x04,
];

#[test]
fn readers_split_the_input() {
    let bytes = [0x12u8, 0x34, 0x56, 0x78, 0x9A];
    assert_eq!(
        octet::<()>(&bytes),
        Parsed::Success { token: 0x12, stream: &bytes[1..] }
    );
    assert_eq!(
        u16_be::<()>(&bytes),
        Parsed::Success { token: 0x1234, stream: &bytes[2..] }
    );
    assert_eq!(
        u32_be::<()>(&bytes),
        Parsed::Success { token: 0x1234_5678, stream: &bytes[4..] }
    );
    assert_eq!(
        take::<()>(&bytes, 3),
        Parsed::Success { token: &bytes[..3], stream: &bytes[3..] }
    );
    assert_eq!(
        take::<()>(&bytes, 0),
        Parsed::Success { token: &bytes[..0], stream: &bytes[..] }
    );
    assert_eq!(
        is::<()>(&bytes, 0x12),
        Parsed::Success { token: 0x12, stream: &bytes[1..] }
    );
    assert_eq!(is::<()>(&bytes, 0x13), Parsed::Failure);
}

#[test]
fn readers_fail_on_short_input() {
    let bytes = [0xFFu8, 0xFF, 0xFF];
    assert_eq!(octet::<()>(&bytes[..0]), Parsed::Failure);
    assert_eq!(is::<()>(&bytes[..0], 0xFF), Parsed::Failure);
    assert_eq!(nbit::<()>(&bytes[..0], 4), Parsed::Failure);
    assert_eq!(u16_be::<()>(&bytes[..1]), Parsed::Failure);
    assert_eq!(u32_be::<()>(&bytes), Parsed::Failure);
    assert_eq!(take::<()>(&bytes, 4), Parsed::Failure);
    assert_eq!(mac::<()>(&[0u8; 5]), Parsed::Failure);
    assert_eq!(address::<()>(&[0u8; 15]), Parsed::Failure);
}

#[test]
fn nbit_splits_an_octet() {
    let stream = [0b1100_0011u8];
    assert_eq!(
        nbit::<()>(&stream, 3),
        Parsed::Success { token: (0b0001_1000, 0b0000_0011), stream: &stream[1..] }
    );
    assert_eq!(
        nbit::<()>(&stream, 4),
        Parsed::Success { token: (0b1100, 0b0011), stream: &stream[1..] }
    );
    assert_eq!(
        nbit::<()>(&stream, 5),
        Parsed::Success { token: (0b110, 0b0_0011), stream: &stream[1..] }
    );
    assert_eq!(
        nbit::<()>(&stream, 7),
        Parsed::Success { token: (1, 0b100_0011), stream: &stream[1..] }
    );
}

#[test]
fn mac_and_address_read_their_octets() {
    let bytes: Vec<u8> = (1u8..=20).collect();
    assert_eq!(
        mac::<()>(&bytes),
        Parsed::Success { token: [1, 2, 3, 4, 5, 6], stream: &bytes[6..] }
    );
    assert_eq!(
        address::<()>(&bytes),
        Parsed::Success {
            token: Ipv6Addr::new(
                0x0102, 0x0304, 0x0506, 0x0708, 0x090A, 0x0B0C, 0x0D0E, 0x0F10
            ),
            stream: &bytes[16..],
        }
    );
}

#[test]
fn every_decoder_fails_on_a_short_buffer() {
    let udp = [0u8; 8];
    for n in 0..8 {
        assert_eq!(udp_header(&udp[..n]), Parsed::Failure);
    }
    let ethernet = [0u8; 14];
    for n in 0..14 {
        assert_eq!(ethernet_frame(&ethernet[..n]), Parsed::Failure);
    }
    let mut ipv4 = [0u8; 20];
    ipv4[0] = 0x45;
    for n in 0..20 {
        assert_eq!(ipv4_header(&ipv4[..n]), Parsed::Failure);
    }
    let mut ipv6 = [0u8; 40];
    ipv6[0] = 0x60;
    for n in 0..40 {
        assert_eq!(ipv6_header(&ipv6[..n]), Parsed::Failure);
    }
    let mut tcp = [0u8; 20];
    tcp[12] = 0x50;
    for n in 0..20 {
        assert_eq!(tcp_header(&tcp[..n]), Parsed::Failure);
    }
}

#[test]
fn short_buffer_with_a_broken_rule_is_fatal_not_decoded() {
    assert_eq!(ipv4_header(&[0x55]), Parsed::Error(Ipv4Atom::Version(5)));
    assert_eq!(ipv4_header(&[0x44]), Parsed::Error(Ipv4Atom::IHL(4)));
    assert_eq!(ipv6_header(&[0x40]), Parsed::Error(Ipv6Atom::Version(4)));
    let mut tcp = [0u8; 14];
    tcp[12] = 0x40;
    assert_eq!(tcp_header(&tcp), Parsed::Error(TcpAtom::DataOffSet));
    assert_eq!(tcp_header(&tcp[..13]), Parsed::Failure);
}

#[test]
fn ipv4_version_and_ihl_are_fatal_whatever_follows() {
    for version in 0u8..16 {
        for ihl in 0u8..16 {
            for len in [1usize, 2, 19, 20, 24, 60, 80] {
                let mut bytes = vec![0xA5u8; len];
                bytes[0] = (version << 4) | ihl;
                let result = ipv4_header(&bytes);
                if version != 4 {
                    assert_eq!(result, Parsed::Error(Ipv4Atom::Version(version)));
                } else if ihl < 5 {
                    assert_eq!(result, Parsed::Error(Ipv4Atom::IHL(ihl)));
                } else if len < usize::from(ihl) * 4 {
                    assert_eq!(result, Parsed::Failure);
                } else {
                    assert!(result.is_success());
                }
            }
        }
    }
}

#[test]
fn ipv4_header_with_options() {
    let Parsed::Success { token, stream } = ipv4_header(&IPV4) else {
        panic!("the header does not decode");
    };
    assert_eq!(token.version, 4);
    assert_eq!(token.ihl, 6);
    assert_eq!(token.tos, 0x10);
    assert_eq!(token.length, 24);
    assert_eq!(token.id, 0xABCD);
    assert_eq!(token.flags, 0b101);
    assert_eq!(token.fragment_offset, 0x1FFF);
    assert_eq!(token.ttl, 7);
    assert_eq!(token.protocol, IPProtocol::new(IPProtocol::UDP));
    assert_eq!(token.protocol.protocol(), 17);
    assert_eq!(token.chksum, 0x1234);
    assert_eq!(token.source_addr, Ipv4Addr::new(192, 168, 1, 2));
    assert_eq!(token.dest_addr, Ipv4Addr::new(8, 8, 4, 4));
    assert_eq!(token.options, &[1, 2, 3, 4][..]);
    assert_eq!(stream, b"");
}

#[test]
fn ipv4_options_region_is_ihl_minus_five_words() {
    for ihl in 5u8..16 {
        let mut bytes = vec![0u8; 64];
        bytes[0] = 0x40 | ihl;
        let Parsed::Success { token, stream } = ipv4_header(&bytes) else {
            panic!("the header does not decode");
        };
        assert_eq!(token.options.len(), (usize::from(ihl) - 5) * 4);
        assert_eq!(stream.len(), 64 - usize::from(ihl) * 4);
        assert_eq!(ipv4_header(&bytes[..usize::from(ihl) * 4 - 1]), Parsed::Failure);
    }
}

#[test]
fn ipv4_header_leaves_the_payload() {
    let mut bytes = IPV4.to_vec();
    bytes.extend_from_slice(b"payload");
    let Parsed::Success { token: _, stream } = ipv4_header(&bytes) else {
        panic!("the header does not decode");
    };
    assert_eq!(stream, b"payload");
}

#[test]
fn ipv6_traffic_class_and_flow_label() {
    let mut bytes = [0u8; 41];
    bytes[0] = 0x6A;
    bytes[1] = 0xB5;
    bytes[2] = 0x43;
    bytes[3] = 0x21;
    bytes[4] = 0x01;
    bytes[5] = 0x02;
    bytes[6] = 0x2B;
    bytes[7] = 0xFF;
    bytes[8] = 0xFE;
    bytes[9] = 0x80;
    bytes[23] = 0x01;
    bytes[24] = 0xFF;
    bytes[25] = 0x02;
    bytes[39] = 0x02;
    bytes[40] = 0x99;
    let Parsed::Success { token, stream } = ipv6_header(&bytes) else {
        panic!("the header does not decode");
    };
    assert_eq!(token.version, 6);
    assert_eq!(token.ds, 0x2A);
    assert_eq!(token.ecn, 3);
    assert_eq!(token.flow_label, 0x54321);
    assert_eq!(token.length, 0x0102);
    assert_eq!(token.next_header, IPProtocol::new(IPProtocol::IPV6_ROUTE));
    assert_eq!(token.hop_limit, 255);
    assert_eq!(token.source_addr, Ipv6Addr::new(0xFE80, 0, 0, 0, 0, 0, 0, 1));
    assert_eq!(token.dest_addr, Ipv6Addr::new(0xFF02, 0, 0, 0, 0, 0, 0, 2));
    assert_eq!(stream, &[0x99][..]);
}

#[test]
fn ipv6_version_is_fatal_whatever_follows() {
    for version in 0u8..16 {
        for len in [1usize, 39, 40, 50] {
            let mut bytes = vec![0x5Au8; len];
            bytes[0] = (version << 4) | 0x0F;
            let result = ipv6_header(&bytes);
            if version != 6 {
                assert_eq!(result, Parsed::Error(Ipv6Atom::Version(version)));
            } else if len < 40 {
                assert_eq!(result, Parsed::Failure);
            } else {
                assert!(result.is_success());
            }
        }
    }
}

#[test]
fn ethernet_unwraps_one_vlan_tag_only() {
    let bytes = [
        1, 2, 3, 4, 5, 6, 7, 8, 9, 10, 11, 12, 0x81, 0x00, 0x00, 0x05, 0x81, 0x00, 0x00, 0x06,
        0x08, 0x00,
    ];
    let Parsed::Success { token, stream } = ethernet_frame(&bytes) else {
        panic!("the frame does not decode");
    };
    assert_eq!(token.destination, [1, 2, 3, 4, 5, 6]);
    assert_eq!(token.source, [7, 8, 9, 10, 11, 12]);
    assert_eq!(token.tci, Some(5));
    assert_eq!(token.ether_type, EtherType::new(EtherType::VLAN));
    assert_eq!(token.ether_type.ether_type(), 0x8100);
    assert_eq!(stream, &[0x00, 0x06, 0x08, 0x00][..]);
}

#[test]
fn ethernet_vlan_tag_needs_four_more_octets() {
    let bytes = [
        1, 2, 3, 4, 5, 6, 7, 8, 9, 10, 11, 12, 0x81, 0x00, 0x04, 0xD2, 0x86, 0xDD, 0x60,
    ];
    for n in 14..18 {
        assert_eq!(ethernet_frame(&bytes[..n]), Parsed::Failure);
    }
    let Parsed::Success { token, stream } = ethernet_frame(&bytes) else {
        panic!("the frame does not decode");
    };
    assert_eq!(token.tci, Some(1234));
    assert_eq!(token.ether_type, EtherType::new(EtherType::IPV6));
    assert_eq!(stream, &[0x60][..]);
}

#[test]
fn ethernet_accepts_codes_without_a_name() {
    let bytes = [0, 0, 0, 0, 0, 0, 0, 0, 0, 0, 0, 0, 0x12, 0x34, 0xAA];
    let expected: Parsed<_, _, Infallible> = Parsed::Success {
        token: binator_network::EthernetFrame {
            destination: [0; 6],
            source: [0; 6],
            ether_type: EtherType::new(0x1234),
            tci: None,
        },
        stream: &bytes[14..],
    };
    assert_eq!(ethernet_frame(&bytes), expected);
}

#[test]
fn udp_header_leaves_the_payload() {
    let bytes = [0xFF, 0xFE, 0x00, 0x35, 0x00, 0x0B, 0xAB, 0xCD, b'a', b'b', b'c'];
    let Parsed::Success { token, stream } = udp_header(&bytes) else {
        panic!("the header does not decode");
    };
    assert_eq!(token.source_port, 0xFFFE);
    assert_eq!(token.dest_port, 53);
    assert_eq!(token.length, 11);
    assert_eq!(token.checksum, 0xABCD);
    assert_eq!(stream, b"abc");
}

#[test]
fn address_values() {
    let v4 = Ipv4Addr::new(10, 10, 1, 135);
    assert_eq!(v4.to_bits(), 0x0A0A_0187);
    assert_eq!(v4.octets(), [10, 10, 1, 135]);
    assert_eq!(Ipv4Addr::from_bits(0xC0A8_0001), Ipv4Addr::new(192, 168, 0, 1));
    assert_eq!(Ipv4Addr::new(255, 255, 255, 255).to_bits(), u32::MAX);

    let v6 = Ipv6Addr::new(0x2001, 0xDB8, 0, 0, 8, 0x800, 0x200C, 0x417A);
    assert_eq!(v6.to_bits(), 0x2001_0DB8_0000_0000_0008_0800_200C_417A);
    assert_eq!(v6.segments(), [0x2001, 0xDB8, 0, 0, 8, 0x800, 0x200C, 0x417A]);
    assert_eq!(
        Ipv6Addr::from_octets([
            0x20, 0x01, 0x0D, 0xB8, 0, 0, 0, 0, 0, 8, 8, 0, 0x20, 0x0C, 0x41, 0x7A
        ]),
        v6
    );
    assert_eq!(Ipv6Addr::from_bits(1), Ipv6Addr::new(0, 0, 0, 0, 0, 0, 0, 1));
    assert_eq!(
        Ipv6Addr::new(0xFFFF, 0xFFFF, 0xFFFF, 0xFFFF, 0xFFFF, 0xFFFF, 0xFFFF, 0xFFFF).to_bits(),
        u128::MAX
    );
}
