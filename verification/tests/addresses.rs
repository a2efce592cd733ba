use binator_network::{h16, ipv4_address, ipv6_address, Parsed};

#[test]
fn test_ipv4_address() {
    let ipv4s: [(&str, Option<[u8; 4]>); 5] = [
        ("", None),
        ("m", None),
        ("127.0.0.1", Some([127, 0, 0, 1])),
        ("256.256.256.256", None),
        ("255.255.255.255", Some([255, 255, 255, 255])),
    ];

    for &(ipv4, std) in ipv4s.iter() {
        println!("test: {}", ipv4);
        match (ipv4_address(ipv4.as_bytes()), std) {
            (Parsed::Success { token, stream }, Some(expected)) => {
                assert_eq!((token.octets(), stream), (expected, b"".as_slice()))
            }
            (Parsed::Failure | Parsed::Error(_), None) => {}
            (Parsed::Success { token, stream }, None) => {
                panic!("We ok on {:?} {:?} but std error on {}", token, stream, ipv4)
            }
            (failure @ (Parsed::Failure | Parsed::Error(_)), Some(expected)) => {
                panic!("We error on {:?} but std ok on {:?}", failure, expected)
            }
        }
    }
}

#[test]
fn test_h16() {
    let h16s = [
        "2001", "DB8", "0", "8", "800", "200C", "417A", "FF01", "101", "1", "13", "68", "3",
        "FFFF", "129", "144", "52", "38", "0DB8", "CD30", "123", "4567", "89AB", "CDEF",
    ];

    for h in &h16s {
        println!("test: {}", h);
        match (h16(h.as_bytes()), u16::from_str_radix(h, 16)) {
            (Parsed::Success { token, stream }, Ok(expected)) => {
                assert_eq!((token, stream), (expected, b"".as_slice()))
            }
            (Parsed::Failure | Parsed::Error(_), Err(_)) => {}
            (Parsed::Success { token, stream }, Err(e)) => {
                panic!("We ok on {:?} {:?} but std error on {}", token, stream, e)
            }
            (failure @ (Parsed::Failure | Parsed::Error(_)), Ok(expected)) => {
                panic!("We error on {:?} but std ok on {}", failure, expected)
            }
        }
    }
}

#[test]
fn test_ipv6_address() {
    let ipv6s: [(&str, Option<[u16; 8]>); 39] = [
        (
            "2001:DB8:0:0:8:800:200C:417A",
            Some([0x2001, 0xDB8, 0, 0, 8, 0x800, 0x200C, 0x417A]),
        ),
        (
            "2001:DB8::8:800:200C:417A",
            Some([0x2001, 0xDB8, 0, 0, 8, 0x800, 0x200C, 0x417A]),
        ),
        (
            "FF01:0:0:0:0:0:0:101",
            Some([0xFF01, 0, 0, 0, 0, 0, 0, 0x101]),
        ),
        (
            "FF01::101",
            Some([0xFF01, 0, 0, 0, 0, 0, 0, 0x101]),
        ),
        (
            "0:0:0:0:0:0:0:1",
            Some([0, 0, 0, 0, 0, 0, 0, 1]),
        ),
        (
            "::1",
            Some([0, 0, 0, 0, 0, 0, 0, 1]),
        ),
        (
            "0:0:0:0:0:0:0:0",
            Some([0, 0, 0, 0, 0, 0, 0, 0]),
        ),
        (
            "::",
            Some([0, 0, 0, 0, 0, 0, 0, 0]),
        ),
        (
            "0:0:0:0:0:0:13.1.68.3",
            Some([0, 0, 0, 0, 0, 0, 0xD01, 0x4403]),
        ),
        (
            "::13.1.68.3",
            Some([0, 0, 0, 0, 0, 0, 0xD01, 0x4403]),
        ),
        (
            "0:0:0:0:0:FFFF:129.144.52.38",
            Some([0, 0, 0, 0, 0, 0xFFFF, 0x8190, 0x3426]),
        ),
        (
            "::FFFF:129.144.52.38",
            Some([0, 0, 0, 0, 0, 0xFFFF, 0x8190, 0x3426]),
        ),
        (
            "2001:0DB8:0000:CD30:0000:0000:0000:0000",
            Some([0x2001, 0xDB8, 0, 0xCD30, 0, 0, 0, 0]),
        ),
        (
            "2001:0DB8::CD30:0:0:0:0",
            Some([0x2001, 0xDB8, 0, 0xCD30, 0, 0, 0, 0]),
        ),
        (
            "2001:0DB8:0:CD30::",
            Some([0x2001, 0xDB8, 0, 0xCD30, 0, 0, 0, 0]),
        ),
        (
            "2001:0DB8:0:CD30:123:4567:89AB:CDEF",
            Some([0x2001, 0xDB8, 0, 0xCD30, 0x123, 0x4567, 0x89AB, 0xCDEF]),
        ),
        (
            "2001:db8:0:0:1:0:0:1",
            Some([0x2001, 0xDB8, 0, 0, 1, 0, 0, 1]),
        ),
        (
            "2001:0db8:0:0:1:0:0:1",
            Some([0x2001, 0xDB8, 0, 0, 1, 0, 0, 1]),
        ),
        (
            "2001:db8::1:0:0:1",
            Some([0x2001, 0xDB8, 0, 0, 1, 0, 0, 1]),
        ),
        (
            "2001:db8::0:1:0:0:1",
            Some([0x2001, 0xDB8, 0, 0, 1, 0, 0, 1]),
        ),
        (
            "2001:0db8::1:0:0:1",
            Some([0x2001, 0xDB8, 0, 0, 1, 0, 0, 1]),
        ),
        (
            "2001:db8:0:0:1::1",
            Some([0x2001, 0xDB8, 0, 0, 1, 0, 0, 1]),
        ),
        (
            "2001:db8:0000:0:1::1",
            Some([0x2001, 0xDB8, 0, 0, 1, 0, 0, 1]),
        ),
        (
            "2001:DB8:0:0:1::1",
            Some([0x2001, 0xDB8, 0, 0, 1, 0, 0, 1]),
        ),
        (
            "2001:db8:aaaa:bbbb:cccc:dddd:eeee:0001",
            Some([0x2001, 0xDB8, 0xAAAA, 0xBBBB, 0xCCCC, 0xDDDD, 0xEEEE, 1]),
        ),
        (
            "2001:db8:aaaa:bbbb:cccc:dddd:eeee:001",
            Some([0x2001, 0xDB8, 0xAAAA, 0xBBBB, 0xCCCC, 0xDDDD, 0xEEEE, 1]),
        ),
        (
            "2001:db8:aaaa:bbbb:cccc:dddd:eeee:01",
            Some([0x2001, 0xDB8, 0xAAAA, 0xBBBB, 0xCCCC, 0xDDDD, 0xEEEE, 1]),
        ),
        (
            "2001:db8:aaaa:bbbb:cccc:dddd:eeee:1",
            Some([0x2001, 0xDB8, 0xAAAA, 0xBBBB, 0xCCCC, 0xDDDD, 0xEEEE, 1]),
        ),
        (
            "2001:db8:aaaa:bbbb:cccc:dddd::1",
            Some([0x2001, 0xDB8, 0xAAAA, 0xBBBB, 0xCCCC, 0xDDDD, 0, 1]),
        ),
        (
            "2001:db8:aaaa:bbbb:cccc:dddd:0:1",
            Some([0x2001, 0xDB8, 0xAAAA, 0xBBBB, 0xCCCC, 0xDDDD, 0, 1]),
        ),
        (
            "2001:db8:0:0:0::1",
            Some([0x2001, 0xDB8, 0, 0, 0, 0, 0, 1]),
        ),
        (
            "2001:db8:0:0::1",
            Some([0x2001, 0xDB8, 0, 0, 0, 0, 0, 1]),
        ),
        (
            "2001:db8:0::1",
            Some([0x2001, 0xDB8, 0, 0, 0, 0, 0, 1]),
        ),
        (
            "2001:db8::1",
            Some([0x2001, 0xDB8, 0, 0, 0, 0, 0, 1]),
        ),
        (
            "2001:db8::aaaa:0:0:1",
            Some([0x2001, 0xDB8, 0, 0, 0xAAAA, 0, 0, 1]),
        ),
        (
            "2001:db8:0:0:aaaa::1",
            Some([0x2001, 0xDB8, 0, 0, 0xAAAA, 0, 0, 1]),
        ),
        (
            "2001:db8:aaaa:bbbb:cccc:dddd:eeee:aaaa",
            Some([0x2001, 0xDB8, 0xAAAA, 0xBBBB, 0xCCCC, 0xDDDD, 0xEEEE, 0xAAAA]),
        ),
        (
            "2001:db8:aaaa:bbbb:cccc:dddd:eeee:AAAA",
            Some([0x2001, 0xDB8, 0xAAAA, 0xBBBB, 0xCCCC, 0xDDDD, 0xEEEE, 0xAAAA]),
        ),
        (
            "2001:db8:aaaa:bbbb:cccc:dddd:eeee:AaAa",
            Some([0x2001, 0xDB8, 0xAAAA, 0xBBBB, 0xCCCC, 0xDDDD, 0xEEEE, 0xAAAA]),
        ),
    ];

    for &(ipv6, std) in ipv6s.iter() {
        println!("test: {}", ipv6);
        match (ipv6_address(ipv6.as_bytes()), std) {
            (Parsed::Success { token, stream }, Some(expected)) => {
                assert_eq!((token.segments(), stream), (expected, "".as_bytes()))
            }
            (Parsed::Failure | Parsed::Error(_), None) => {}
            (Parsed::Success { token, stream }, None) => {
                panic!("We ok on {:?} {:?} but std error on {}", token, stream, ipv6)
            }
            (failure @ (Parsed::Failure | Parsed::Error(_)), Some(expected)) => {
                panic!("We error on {:?} but std ok on {:?}", failure, expected)
            }
        }
    }
}
