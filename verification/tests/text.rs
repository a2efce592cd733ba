use binator_network::ip_addr::{
    colon_h16, dec_octet, dec_octet_0, dec_octet_1, dec_octet_2, dec_octet_3, dec_octet_4,
    double_colon, h16_colon, ls32, to_digit,
};
use binator_network::{
    h16, ipv4_address, ipv6_address, ipv6_reference, IpAddrAtom, Ipv4Addr, Ipv6Addr,
    Ipv6Reference, Parsed,
};

fn v6(text: &str) -> Parsed<[u16; 8], &[u8], IpAddrAtom> {
    match ipv6_address(text.as_bytes()) {
        Parsed::Success { token, stream } => Parsed::Success { token: token.segments(), stream },
        Parsed::Failure => Parsed::Failure,
        Parsed::Error(atom) => Parsed::Error(atom),
    }
}

fn whole(groups: [u16; 8]) -> Parsed<[u16; 8], &'static [u8], IpAddrAtom> {
    Parsed::Success { token: groups, stream: &b""[..] }
}

#[test]
fn digits() {
    assert_eq!(to_digit(b"7x"), Parsed::Success { token: 7, stream: &b"x"[..] });
    assert_eq!(to_digit(b"0"), Parsed::Success { token: 0, stream: &b""[..] });
    assert_eq!(to_digit(b"9"), Parsed::Success { token: 9, stream: &b""[..] });
    assert_eq!(to_digit(b"/"), Parsed::Failure);
    assert_eq!(to_digit(b":"), Parsed::Failure);
    assert_eq!(to_digit(b"a"), Parsed::Failure);
    assert_eq!(to_digit(b""), Parsed::Failure);
}

#[test]
fn every_octet_from_its_decimal_form() {
    for v in 0u8..=255 {
        let text = format!("{}", v);
        assert_eq!(
            dec_octet(text.as_bytes()),
            Parsed::Success { token: v, stream: &b""[..] }
        );
        let text = format!("{}.rest", v);
        assert_eq!(
            dec_octet(text.as_bytes()),
            Parsed::Success { token: v, stream: &b".rest"[..] }
        );
    }
}

#[test]
fn octet_forms_in_their_order() {
    assert_eq!(dec_octet_0(b"255"), Parsed::Success { token: 255, stream: &b""[..] });
    assert_eq!(dec_octet_0(b"2501"), Parsed::Success { token: 250, stream: &b"1"[..] });
    assert_eq!(dec_octet_0(b"256"), Parsed::Error(IpAddrAtom::NotAnOctet));
    assert_eq!(dec_octet_0(b"259"), Parsed::Error(IpAddrAtom::NotAnOctet));
    assert_eq!(dec_octet_0(b"249"), Parsed::Failure);
    assert_eq!(dec_octet_0(b"25"), Parsed::Failure);
    assert_eq!(dec_octet_0(b"25."), Parsed::Failure);

    assert_eq!(dec_octet_1(b"249"), Parsed::Success { token: 249, stream: &b""[..] });
    assert_eq!(dec_octet_1(b"200"), Parsed::Success { token: 200, stream: &b""[..] });
    assert_eq!(dec_octet_1(b"255"), Parsed::Success { token: 255, stream: &b""[..] });
    assert_eq!(dec_octet_1(b"260"), Parsed::Error(IpAddrAtom::NotAnOctet));
    assert_eq!(dec_octet_1(b"299"), Parsed::Error(IpAddrAtom::NotAnOctet));
    assert_eq!(dec_octet_1(b"199"), Parsed::Failure);
    assert_eq!(dec_octet_1(b"24"), Parsed::Failure);

    assert_eq!(dec_octet_2(b"100"), Parsed::Success { token: 100, stream: &b""[..] });
    assert_eq!(dec_octet_2(b"1999"), Parsed::Success { token: 199, stream: &b"9"[..] });
    assert_eq!(dec_octet_2(b"200"), Parsed::Failure);
    assert_eq!(dec_octet_2(b"19"), Parsed::Failure);

    assert_eq!(dec_octet_3(b"10"), Parsed::Success { token: 10, stream: &b""[..] });
    assert_eq!(dec_octet_3(b"999"), Parsed::Success { token: 99, stream: &b"9"[..] });
    assert_eq!(dec_octet_3(b"00"), Parsed::Error(IpAddrAtom::LeadingZero));
    assert_eq!(dec_octet_3(b"09"), Parsed::Error(IpAddrAtom::LeadingZero));
    assert_eq!(dec_octet_3(b"9"), Parsed::Failure);
    assert_eq!(dec_octet_3(b"9."), Parsed::Failure);

    assert_eq!(dec_octet_4(b"0"), Parsed::Success { token: 0, stream: &b""[..] });
    assert_eq!(dec_octet_4(b"98"), Parsed::Success { token: 9, stream: &b"8"[..] });
    assert_eq!(dec_octet_4(b"."), Parsed::Failure);
}

#[test]
fn octet_rules_are_fatal() {
    assert_eq!(dec_octet(b"256"), Parsed::Error(IpAddrAtom::NotAnOctet));
    assert_eq!(dec_octet(b"260"), Parsed::Error(IpAddrAtom::NotAnOctet));
    assert_eq!(dec_octet(b"999"), Parsed::Success { token: 99, stream: &b"9"[..] });
    assert_eq!(dec_octet(b"300"), Parsed::Success { token: 30, stream: &b"0"[..] });
    assert_eq!(dec_octet(b"01"), Parsed::Error(IpAddrAtom::LeadingZero));
    assert_eq!(dec_octet(b"007"), Parsed::Error(IpAddrAtom::LeadingZero));
    assert_eq!(dec_octet(b"0"), Parsed::Success { token: 0, stream: &b""[..] });
    assert_eq!(dec_octet(b"0."), Parsed::Success { token: 0, stream: &b"."[..] });
    assert_eq!(dec_octet(b""), Parsed::Failure);
    assert_eq!(dec_octet(b"x"), Parsed::Failure);
    assert_eq!(dec_octet(b"-1"), Parsed::Failure);
}

#[test]
fn dotted_quads() {
    let quads: [[u8; 4]; 8] = [
        [0, 0, 0, 0],
        [1, 2, 3, 4],
        [9, 10, 99, 100],
        [127, 0, 0, 1],
        [192, 168, 200, 249],
        [250, 251, 254, 255],
        [255, 255, 255, 255],
        [25, 2, 1, 20],
    ];
    for [a, b, c, d] in quads {
        let text = format!("{}.{}.{}.{}", a, b, c, d);
        assert_eq!(
            ipv4_address(text.as_bytes()),
            Parsed::Success { token: Ipv4Addr::new(a, b, c, d), stream: &b""[..] }
        );
        let text = format!("{}.{}.{}.{}:80", a, b, c, d);
        assert_eq!(
            ipv4_address(text.as_bytes()),
            Parsed::Success { token: Ipv4Addr::new(a, b, c, d), stream: &b":80"[..] }
        );
    }
}

#[test]
fn texts_that_are_no_dotted_quad() {
    for text in ["", "m", "1", "1.", "1.2", "1.2.3", "1.2.3.", "1..2.3", ".1.2.3", "1,2,3,4"] {
        assert_eq!(ipv4_address(text.as_bytes()), Parsed::Failure, "{}", text);
    }
    for text in ["256.256.256.256", "1.2.3.256", "1.2.3.260", "1.2.256.4", "256.1.1.1"] {
        assert_eq!(
            ipv4_address(text.as_bytes()),
            Parsed::Error(IpAddrAtom::NotAnOctet),
            "{}",
            text
        );
    }
    for text in ["01.2.3.4", "1.02.3.4", "1.2.3.04", "00.0.0.0", "127.0.0.01"] {
        assert_eq!(
            ipv4_address(text.as_bytes()),
            Parsed::Error(IpAddrAtom::LeadingZero),
            "{}",
            text
        );
    }
    assert_eq!(ipv4_address(b"1.2.3.300"), Parsed::Success {
        token: Ipv4Addr::new(1, 2, 3, 30),
        stream: &b"0"[..],
    });
    assert_eq!(ipv4_address(b"300.1.1.1"), Parsed::Failure);
}

#[test]
fn groups_of_one_to_four_digits() {
    assert_eq!(h16(b"0"), Parsed::Success { token: 0, stream: &b""[..] });
    assert_eq!(h16(b"f"), Parsed::Success { token: 15, stream: &b""[..] });
    assert_eq!(h16(b"F"), Parsed::Success { token: 15, stream: &b""[..] });
    assert_eq!(h16(b"aB"), Parsed::Success { token: 0xAB, stream: &b""[..] });
    assert_eq!(h16(b"0001"), Parsed::Success { token: 1, stream: &b""[..] });
    assert_eq!(h16(b"ffff"), Parsed::Success { token: 0xFFFF, stream: &b""[..] });
    assert_eq!(h16(b"12345"), Parsed::Success { token: 0x1234, stream: &b"5"[..] });
    assert_eq!(h16(b"12:34"), Parsed::Success { token: 0x12, stream: &b":34"[..] });
    assert_eq!(h16(b"1g"), Parsed::Success { token: 1, stream: &b"g"[..] });
    assert_eq!(h16(b""), Parsed::Failure);
    assert_eq!(h16(b"g"), Parsed::Failure);
    assert_eq!(h16(b":1"), Parsed::Failure);
    assert_eq!(h16(b"@"), Parsed::Failure);
    assert_eq!(h16(b"`"), Parsed::Failure);
    assert_eq!(h16(b"G"), Parsed::Failure);
}

#[test]
fn every_group_from_its_hexadecimal_form() {
    for v in (0u16..=0xFFFF).step_by(7).chain([0xFFFF, 0x10, 0x100, 0x1000, 0xF, 0xFF, 0xFFF]) {
        for text in [format!("{:x}", v), format!("{:X}", v), format!("{:04x}", v)] {
            assert_eq!(
                h16(text.as_bytes()),
                Parsed::Success { token: v, stream: &b""[..] },
                "{}",
                text
            );
        }
    }
}

#[test]
fn pieces_of_the_grammar() {
    assert_eq!(h16_colon(b"ab:cd"), Parsed::Success { token: 0xAB, stream: &b"cd"[..] });
    assert_eq!(h16_colon(b"ab::"), Parsed::Success { token: 0xAB, stream: &b":"[..] });
    assert_eq!(h16_colon(b"ab"), Parsed::Failure);
    assert_eq!(h16_colon(b"ab."), Parsed::Failure);
    assert_eq!(h16_colon(b":ab"), Parsed::Failure);

    assert_eq!(colon_h16(b":ab:"), Parsed::Success { token: 0xAB, stream: &b":"[..] });
    assert_eq!(colon_h16(b"::ab"), Parsed::Failure);
    assert_eq!(colon_h16(b"ab"), Parsed::Failure);
    assert_eq!(colon_h16(b":"), Parsed::Failure);

    assert_eq!(double_colon(b"::1"), Parsed::Success { token: (), stream: &b"1"[..] });
    assert_eq!(double_colon(b":::"), Parsed::Success { token: (), stream: &b":"[..] });
    assert_eq!(double_colon(b":1:"), Parsed::Failure);
    assert_eq!(double_colon(b":"), Parsed::Failure);
    assert_eq!(double_colon(b""), Parsed::Failure);

    assert_eq!(ls32(b"12:34"), Parsed::Success { token: (0x12, 0x34), stream: &b""[..] });
    assert_eq!(
        ls32(b"1.2.3.4"),
        Parsed::Success { token: (0x0102, 0x0304), stream: &b""[..] }
    );
    assert_eq!(
        ls32(b"129.144.52.38]"),
        Parsed::Success { token: (0x8190, 0x3426), stream: &b"]"[..] }
    );
    assert_eq!(
        ls32(b"255.255.255.255"),
        Parsed::Success { token: (0xFFFF, 0xFFFF), stream: &b""[..] }
    );
    assert_eq!(ls32(b"12"), Parsed::Failure);
    assert_eq!(ls32(b"1.2.3"), Parsed::Failure);
    assert_eq!(ls32(b"1.2.3.256"), Parsed::Error(IpAddrAtom::NotAnOctet));
    assert_eq!(ls32(b"01.2.3.4"), Parsed::Error(IpAddrAtom::LeadingZero));
}

#[test]
fn addresses_in_full() {
    let cases: [[u16; 8]; 5] = [
        [0, 0, 0, 0, 0, 0, 0, 0],
        [1, 2, 3, 4, 5, 6, 7, 8],
        [0x2001, 0xDB8, 0, 0, 8, 0x800, 0x200C, 0x417A],
        [0xFFFF, 0xFFFF, 0xFFFF, 0xFFFF, 0xFFFF, 0xFFFF, 0xFFFF, 0xFFFF],
        [0x10, 0x100, 0x1000, 0xF, 0xFF, 0xFFF, 0xA, 0xABCD],
    ];
    for g in cases {
        let text = format!(
            "{:x}:{:x}:{:x}:{:x}:{:x}:{:x}:{:x}:{:x}",
            g[0], g[1], g[2], g[3], g[4], g[5], g[6], g[7]
        );
        assert_eq!(v6(&text), whole(g), "{}", text);
        assert_eq!(
            ipv6_address(text.as_bytes()),
            Parsed::Success {
                token: Ipv6Addr::new(g[0], g[1], g[2], g[3], g[4], g[5], g[6], g[7]),
                stream: &b""[..],
            }
        );
    }
}

#[test]
fn hexadecimal_digits_in_either_case() {
    assert_eq!(v6("2001:0DB8:0:CD30::"), v6("2001:db8:0:cd30::"));
    assert_eq!(v6("2001:0DB8:0:CD30::"), whole([0x2001, 0xDB8, 0, 0xCD30, 0, 0, 0, 0]));
    assert_eq!(v6("AbCd:EF01::"), v6("abcd:ef01::"));
}

#[test]
fn the_mark_at_every_place() {
    assert_eq!(v6("::"), whole([0, 0, 0, 0, 0, 0, 0, 0]));
    assert_eq!(v6("::8"), whole([0, 0, 0, 0, 0, 0, 0, 8]));
    assert_eq!(v6("::7:8"), whole([0, 0, 0, 0, 0, 0, 7, 8]));
    assert_eq!(v6("::6:7:8"), whole([0, 0, 0, 0, 0, 6, 7, 8]));
    assert_eq!(v6("::5:6:7:8"), whole([0, 0, 0, 0, 5, 6, 7, 8]));
    assert_eq!(v6("::4:5:6:7:8"), whole([0, 0, 0, 4, 5, 6, 7, 8]));
    assert_eq!(v6("::3:4:5:6:7:8"), whole([0, 0, 3, 4, 5, 6, 7, 8]));
    assert_eq!(v6("::2:3:4:5:6:7:8"), whole([0, 2, 3, 4, 5, 6, 7, 8]));
    assert_eq!(v6("1::"), whole([1, 0, 0, 0, 0, 0, 0, 0]));
    assert_eq!(v6("1::8"), whole([1, 0, 0, 0, 0, 0, 0, 8]));
    assert_eq!(v6("1:2::8"), whole([1, 2, 0, 0, 0, 0, 0, 8]));
    assert_eq!(v6("1:2:3::8"), whole([1, 2, 3, 0, 0, 0, 0, 8]));
    assert_eq!(v6("1:2:3:4::8"), whole([1, 2, 3, 4, 0, 0, 0, 8]));
    assert_eq!(v6("1:2:3:4:5::8"), whole([1, 2, 3, 4, 5, 0, 0, 8]));
    assert_eq!(v6("1:2:3:4:5:6::8"), whole([1, 2, 3, 4, 5, 6, 0, 8]));
    assert_eq!(v6("1:2:3:4:5:6:7::"), whole([1, 2, 3, 4, 5, 6, 7, 0]));
    assert_eq!(v6("1:2:3:4:5:6::"), whole([1, 2, 3, 4, 5, 6, 0, 0]));
    assert_eq!(v6("1::3:4:5:6:7:8"), whole([1, 0, 3, 4, 5, 6, 7, 8]));
    assert_eq!(v6("1:2::4:5:6:7:8"), whole([1, 2, 0, 4, 5, 6, 7, 8]));
}

#[test]
fn last_bits_as_a_dotted_quad() {
    assert_eq!(v6("::13.1.68.3"), whole([0, 0, 0, 0, 0, 0, 0x0D01, 0x4403]));
    assert_eq!(
        v6("::FFFF:129.144.52.38"),
        whole([0, 0, 0, 0, 0, 0xFFFF, 0x8190, 0x3426])
    );
    assert_eq!(
        v6("1:2:3:4:5:6:255.255.255.255"),
        whole([1, 2, 3, 4, 5, 6, 0xFFFF, 0xFFFF])
    );
    assert_eq!(v6("64:ff9b::192.0.2.33"), whole([0x64, 0xFF9B, 0, 0, 0, 0, 0xC000, 0x0221]));
}

#[test]
fn what_follows_an_address_is_left() {
    assert_eq!(
        v6("1:2:3:4:5:6:7:8:9"),
        Parsed::Success { token: [1, 2, 3, 4, 5, 6, 7, 8], stream: &b":9"[..] }
    );
    assert_eq!(
        v6("::1%eth0"),
        Parsed::Success { token: [0, 0, 0, 0, 0, 0, 0, 1], stream: &b"%eth0"[..] }
    );
    assert_eq!(
        v6("::1]:80"),
        Parsed::Success { token: [0, 0, 0, 0, 0, 0, 0, 1], stream: &b"]:80"[..] }
    );
}

#[test]
fn texts_that_are_no_address() {
    for text in ["", "1", "1:2", "1:2:3:4:5:6:7", ":", "g::", "1.2.3.4", "x"] {
        assert_eq!(v6(text), Parsed::Failure, "{}", text);
    }
}

#[test]
fn a_broken_dotted_quad_is_fatal_in_an_address() {
    assert_eq!(v6("::1.2.3.256"), Parsed::Error(IpAddrAtom::NotAnOctet));
    assert_eq!(v6("1:2:3:4:5:6:1.2.3.260"), Parsed::Error(IpAddrAtom::NotAnOctet));
    assert_eq!(
        v6("1:2:3:4:5:6:1.2.3.400"),
        Parsed::Success { token: [1, 2, 3, 4, 5, 6, 0x0102, 0x0328], stream: &b"0"[..] }
    );
    assert_eq!(v6("1:2:3:4:5:6:07::"), Parsed::Error(IpAddrAtom::LeadingZero));
    assert_eq!(v6("::256"), Parsed::Error(IpAddrAtom::NotAnOctet));
    assert_eq!(v6("::01"), Parsed::Error(IpAddrAtom::LeadingZero));
    assert_eq!(v6("1::2:260"), Parsed::Error(IpAddrAtom::NotAnOctet));
    assert_eq!(v6("::255"), whole([0, 0, 0, 0, 0, 0, 0, 0x255]));
    assert_eq!(v6("::300"), whole([0, 0, 0, 0, 0, 0, 0, 0x300]));
    assert_eq!(v6("::1:01"), Parsed::Error(IpAddrAtom::LeadingZero));
    assert_eq!(v6("::1:1"), whole([0, 0, 0, 0, 0, 0, 1, 1]));
    assert_eq!(v6("0:0:0:0:0:0:01:01"), whole([0, 0, 0, 0, 0, 0, 1, 1]));
}

#[test]
fn groups_before_the_mark_are_each_optional() {
    assert_eq!(v6(":1::"), whole([0, 1, 0, 0, 0, 0, 0, 0]));
}

#[test]
fn bracketed_reference() {
    assert_eq!(
        ipv6_reference(b"[::1]:80"),
        Parsed::Success {
            token: Ipv6Reference { ipv6: Ipv6Addr::new(0, 0, 0, 0, 0, 0, 0, 1) },
            stream: &b":80"[..],
        }
    );
    assert_eq!(
        ipv6_reference(b"[2001:db8::7]"),
        Parsed::Success {
            token: Ipv6Reference { ipv6: Ipv6Addr::new(0x2001, 0xDB8, 0, 0, 0, 0, 0, 7) },
            stream: &b""[..],
        }
    );
    assert_eq!(ipv6_reference(b"::1]"), Parsed::Failure);
    assert_eq!(ipv6_reference(b"[::1"), Parsed::Failure);
    assert_eq!(ipv6_reference(b"[::1 ]"), Parsed::Failure);
    assert_eq!(ipv6_reference(b"[]"), Parsed::Failure);
    assert_eq!(ipv6_reference(b"[1.2.3.4]"), Parsed::Failure);
    assert_eq!(ipv6_reference(b""), Parsed::Failure);
    assert_eq!(ipv6_reference(b"[::1.2.3.256]"), Parsed::Error(IpAddrAtom::NotAnOctet));
}

#[test]
fn compressed_forms_of_every_shape() {
    for k in 0usize..=7 {
        for m in 0usize..=(7 - k) {
            let before: Vec<u16> = (0..k).map(|i| 0xA100 + i as u16).collect();
            let after: Vec<u16> = (0..m)
                .map(|i| if i + 1 == m { 0xB1C0 } else { 0xB1 + 16 * i as u16 })
                .collect();
            let lower = |groups: &[u16]| {
                groups.iter().map(|g| format!("{:x}", g)).collect::<Vec<_>>().join(":")
            };
            let padded = |groups: &[u16]| {
                groups.iter().map(|g| format!("{:04X}", g)).collect::<Vec<_>>().join(":")
            };
            let mut groups = [0u16; 8];
            groups[..k].copy_from_slice(&before);
            groups[8 - m..].copy_from_slice(&after);
            let text = format!("{}::{}", lower(&before), lower(&after));
            assert_eq!(v6(&text), whole(groups), "{}", text);
            let text = format!("{}/64", text);
            assert_eq!(
                v6(&text),
                Parsed::Success { token: groups, stream: &b"/64"[..] },
                "{}",
                text
            );
            let text = format!("{}::{}", padded(&before), padded(&after));
            assert_eq!(v6(&text), whole(groups), "{}", text);
        }
    }
}

#[test]
fn compressed_forms_with_a_decimal_last_group() {
    assert_eq!(v6("1::255"), whole([1, 0, 0, 0, 0, 0, 0, 0x255]));
    assert_eq!(v6("1::9"), whole([1, 0, 0, 0, 0, 0, 0, 9]));
    assert_eq!(v6("1::2:199"), whole([1, 0, 0, 0, 0, 0, 2, 0x199]));
    assert_eq!(v6("1:2:3:4:5:6:7::"), whole([1, 2, 3, 4, 5, 6, 7, 0]));
    assert_eq!(v6("1:2:3:4:5:6::256"), whole([1, 2, 3, 4, 5, 6, 0, 0x256]));
    assert_eq!(v6("1::256"), Parsed::Error(IpAddrAtom::NotAnOctet));
    assert_eq!(v6("1:2:3:4:5:6:256::"), Parsed::Error(IpAddrAtom::NotAnOctet));
    assert_eq!(v6("::00B1"), Parsed::Error(IpAddrAtom::LeadingZero));
    assert_eq!(v6("fe80::0001"), Parsed::Error(IpAddrAtom::LeadingZero));
    assert_eq!(v6("fe80::1"), whole([0xFE80, 0, 0, 0, 0, 0, 0, 1]));
    assert_eq!(v6("fe80::0:0001"), Parsed::Error(IpAddrAtom::LeadingZero));
    assert_eq!(v6("fe80::a001"), whole([0xFE80, 0, 0, 0, 0, 0, 0, 0xA001]));
    assert_eq!(v6("fe80:0:0:0:0:0:0:0001"), whole([0xFE80, 0, 0, 0, 0, 0, 0, 1]));
}

#[test]
fn mixed_forms_of_every_shape() {
    let quads: [[u8; 4]; 3] = [[1, 2, 3, 4], [192, 168, 0, 255], [250, 25, 100, 9]];
    let join = |groups: &[u16], colon_after: bool| {
        let text = groups.iter().map(|g| format!("{:x}", g)).collect::<Vec<_>>().join(":");
        if colon_after && !groups.is_empty() {
            format!("{}:", text)
        } else {
            text
        }
    };
    for [a, b, c, d] in quads {
        let low = [u16::from_be_bytes([a, b]), u16::from_be_bytes([c, d])];
        for k in 0usize..=5 {
            for m in 0usize..=(5 - k) {
                let before: Vec<u16> = (0..k).map(|i| 0xA100 + i as u16).collect();
                let middle: Vec<u16> = (0..m).map(|i| 0x21 + 16 * i as u16).collect();
                let text = format!(
                    "{}::{}{}.{}.{}.{}",
                    join(&before, false),
                    join(&middle, true),
                    a,
                    b,
                    c,
                    d
                );
                let mut groups = [0u16; 8];
                groups[..k].copy_from_slice(&before);
                groups[6 - m..6].copy_from_slice(&middle);
                groups[6..].copy_from_slice(&low);
                assert_eq!(v6(&text), whole(groups), "{}", text);
            }
        }
        let first = [1u16, 0x22, 0x333, 0x4444, 0, 0xFFFF];
        let text = format!("{}{}.{}.{}.{}", join(&first, true), a, b, c, d);
        let mut groups = [0u16; 8];
        groups[..6].copy_from_slice(&first);
        groups[6..].copy_from_slice(&low);
        assert_eq!(v6(&text), whole(groups), "{}", text);
    }
}

#[test]
fn full_forms_with_leading_zeros_in_either_case() {
    assert_eq!(
        v6("0001:002:03:4:000A:00b:0C:d"),
        whole([1, 2, 3, 4, 0xA, 0xB, 0xC, 0xD])
    );
    assert_eq!(
        v6("ABCD:EF01:abcd:ef01:AbCd:Ef01:0000:FFFF"),
        whole([0xABCD, 0xEF01, 0xABCD, 0xEF01, 0xABCD, 0xEF01, 0, 0xFFFF])
    );
    assert_eq!(
        v6("0001:002:03:4:000A:00b:1.2.3.4"),
        whole([1, 2, 3, 4, 0xA, 0xB, 0x0102, 0x0304])
    );
}
