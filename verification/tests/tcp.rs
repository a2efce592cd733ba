use binator_network::tcp::{
    mss, noop, sack, sack_permitted, tcp_flags, tcp_option, tipestamps, unknown, window_scale,
};
use binator_network::{tcp_header, tcp_options, Parsed, Sack, TcpAtom, TcpFlags, TcpOption};

#[test]
fn flags_start_clear() {
    let flags = TcpFlags::default();
    assert_eq!(flags, TcpFlags::from(0));
    assert_eq!(flags.get_data_offset(), 0);
    assert!(!flags.get_fin());
    assert!(!flags.get_syn());
    assert!(!flags.get_rst());
    assert!(!flags.get_psh());
    assert!(!flags.get_ack());
    assert!(!flags.get_urg());
    assert!(!flags.get_ece());
    assert!(!flags.get_cwr());
    assert!(!flags.get_ns());
    assert!(!flags.get_reserved_2());
    assert!(!flags.get_reserved_1());
    assert!(!flags.get_reserved_0());
}

#[test]
fn each_flag_has_its_bit() {
    assert!(TcpFlags::from(0x0001).get_fin());
    assert!(TcpFlags::from(0x0002).get_syn());
    assert!(TcpFlags::from(0x0004).get_rst());
    assert!(TcpFlags::from(0x0008).get_psh());
    assert!(TcpFlags::from(0x0010).get_ack());
    assert!(TcpFlags::from(0x0020).get_urg());
    assert!(TcpFlags::from(0x0040).get_ece());
    assert!(TcpFlags::from(0x0080).get_cwr());
    assert!(TcpFlags::from(0x0100).get_ns());
    assert!(TcpFlags::from(0x0200).get_reserved_2());
    assert!(TcpFlags::from(0x0400).get_reserved_1());
    assert!(TcpFlags::from(0x0800).get_reserved_0());
    assert_eq!(TcpFlags::from(0xF000).get_data_offset(), 15);
    assert_eq!(TcpFlags::from(0x5FFF).get_data_offset(), 5);
    assert!(!TcpFlags::from(0xFFFE).get_fin());
    assert!(!TcpFlags::from(0xF7FF).get_reserved_0());
}

#[test]
fn setters_write_one_bit() {
    let mut flags = TcpFlags::default();
    assert!(flags.set_fin(true));
    assert_eq!(flags, TcpFlags::from(0x0001));
    assert!(flags.set_syn(true));
    assert!(flags.set_rst(true));
    assert!(flags.set_psh(true));
    assert!(flags.set_ack(true));
    assert!(flags.set_urg(true));
    assert!(flags.set_ece(true));
    assert!(flags.set_cwr(true));
    assert!(flags.set_ns(true));
    assert!(flags.set_reserved_2(true));
    assert!(flags.set_reserved_1(true));
    assert!(flags.set_reserved_0(true));
    assert_eq!(flags, TcpFlags::from(0x0FFF));
    assert!(!flags.set_ack(false));
    assert_eq!(flags, TcpFlags::from(0x0FEF));
    assert!(!flags.get_ack());
    assert!(flags.get_psh());
    assert!(!flags.set_ack(false));
    assert_eq!(flags, TcpFlags::from(0x0FEF));
    assert!(!flags.set_reserved_0(false));
    assert!(!flags.set_fin(false));
    assert_eq!(flags, TcpFlags::from(0x07EE));
    assert_eq!(flags.get_data_offset(), 0);
}

#[test]
fn data_offset_is_five_to_fifteen() {
    let mut flags = TcpFlags::from(0x0FFF);
    for n in [0usize, 1, 4, 16, 17, 255, usize::MAX] {
        assert_eq!(flags.set_data_offset(n), Err(n));
        assert_eq!(flags, TcpFlags::from(0x0FFF));
    }
    for n in 5usize..16 {
        assert_eq!(flags.set_data_offset(n), Ok(n));
        assert_eq!(usize::from(flags.get_data_offset()), n);
        assert!(flags.get_fin());
        assert!(flags.get_reserved_0());
    }
    assert_eq!(flags, TcpFlags::from(0xFFFF));
    assert_eq!(flags.set_data_offset(5), Ok(5));
    assert_eq!(flags, TcpFlags::from(0x5FFF));
}

#[test]
fn flags_word_needs_a_data_offset_of_five() {
    assert_eq!(tcp_flags(&[0x50]), Parsed::Failure);
    assert_eq!(tcp_flags(&[]), Parsed::Failure);
    for offset in 0u8..16 {
        let bytes = [offset << 4 | 0x0A, 0x55, 0x77];
        let result = tcp_flags(&bytes);
        if offset < 5 {
            assert_eq!(result, Parsed::Error(TcpAtom::DataOffSet));
        } else {
            assert_eq!(
                result,
                Parsed::Success {
                    token: TcpFlags::from(u16::from_be_bytes([bytes[0], bytes[1]])),
                    stream: &bytes[2..],
                }
            );
        }
    }
}

#[test]
fn header_data_offset_is_fatal_whatever_follows() {
    for offset in 0u8..16 {
        for len in [14usize, 19, 20, 40, 60, 70] {
            let mut bytes = vec![0x33u8; len];
            bytes[12] = offset << 4;
            let result = tcp_header(&bytes);
            if offset < 5 {
                assert_eq!(result, Parsed::Error(TcpAtom::DataOffSet));
            } else if len < usize::from(offset) * 4 {
                assert_eq!(result, Parsed::Failure);
            } else {
                let Parsed::Success { token, stream } = result else {
                    panic!("the header does not decode");
                };
                assert_eq!(token.options.len(), (usize::from(offset) - 5) * 4);
                assert_eq!(stream.len(), len - usize::from(offset) * 4);
            }
        }
    }
}

#[test]
fn header_fields_and_options_region() {
    let bytes = [
        0x01, 0xBB, 0xC0, 0x01, 0x11, 0x22, 0x33, 0x44, 0x55, 0x66, 0x77, 0x88, 0x60, 0x02, 0x72,
        0x10, 0xFE, 0xDC, 0x00, 0x09, 0x02, 0x04, 0x05, 0xB4, b'x',
    ];
    let Parsed::Success { token, stream } = tcp_header(&bytes) else {
        panic!("the header does not decode");
    };
    assert_eq!(token.source_port, 443);
    assert_eq!(token.dest_port, 0xC001);
    assert_eq!(token.sequence_no, 0x1122_3344);
    assert_eq!(token.ack_no, 0x5566_7788);
    assert_eq!(token.flags, TcpFlags::from(0x6002));
    assert_eq!(token.flags.get_data_offset(), 6);
    assert!(token.flags.get_syn());
    assert!(!token.flags.get_ack());
    assert_eq!(token.window, 0x7210);
    assert_eq!(token.checksum, 0xFEDC);
    assert_eq!(token.urgent_pointer, 9);
    assert_eq!(token.options, &[0x02, 0x04, 0x05, 0xB4][..]);
    assert_eq!(stream, b"x");
    assert_eq!(
        tcp_options(token.options),
        Parsed::Success {
            token: vec![TcpOption::MaximumSegmentSize(1460)],
            stream: &b""[..],
        }
    );
}

#[test]
fn options_scenario() {
    let bytes = [0x02, 0x04, 0x05, 0x3A, 0x01, 0x03, 0x03, 0x04, 0x04, 0x02, 0x00, 0x00];
    assert_eq!(
        tcp_options(&bytes),
        Parsed::Success {
            token: vec![
                TcpOption::MaximumSegmentSize(1338),
                TcpOption::Noop,
                TcpOption::WindowScale(4),
                TcpOption::SackPermitted,
                TcpOption::EndOfOption,
                TcpOption::EndOfOption,
            ],
            stream: &b""[..],
        }
    );
}

#[test]
fn no_option_in_an_empty_region() {
    assert_eq!(
        tcp_options(&[]),
        Parsed::Success { token: vec![], stream: &b""[..] }
    );
    assert_eq!(tcp_option(&[]), Parsed::Failure);
}

#[test]
fn single_options() {
    let rest = &b"rest"[..];
    let mut bytes = vec![0x00];
    bytes.extend_from_slice(rest);
    assert_eq!(
        tcp_option(&bytes),
        Parsed::Success { token: TcpOption::EndOfOption, stream: rest }
    );
    bytes[0] = 1;
    assert_eq!(tcp_option(&bytes), Parsed::Success { token: TcpOption::Noop, stream: rest });
    assert_eq!(noop(rest), Parsed::Success { token: TcpOption::Noop, stream: rest });

    let bytes = [2, 4, 0xFF, 0xFE, 9];
    assert_eq!(
        tcp_option(&bytes),
        Parsed::Success { token: TcpOption::MaximumSegmentSize(0xFFFE), stream: &bytes[4..] }
    );
    assert_eq!(
        mss(&bytes[1..]),
        Parsed::Success { token: TcpOption::MaximumSegmentSize(0xFFFE), stream: &bytes[4..] }
    );

    let bytes = [3, 3, 14, 9];
    assert_eq!(
        tcp_option(&bytes),
        Parsed::Success { token: TcpOption::WindowScale(14), stream: &bytes[3..] }
    );
    assert_eq!(
        window_scale(&bytes[1..]),
        Parsed::Success { token: TcpOption::WindowScale(14), stream: &bytes[3..] }
    );

    let bytes = [4, 2, 9];
    assert_eq!(
        tcp_option(&bytes),
        Parsed::Success { token: TcpOption::SackPermitted, stream: &bytes[2..] }
    );
    assert_eq!(
        sack_permitted(&bytes[1..]),
        Parsed::Success { token: TcpOption::SackPermitted, stream: &bytes[2..] }
    );

    let bytes = [8, 10, 0x01, 0x02, 0x03, 0x04, 0xA1, 0xA2, 0xA3, 0xA4, 9];
    assert_eq!(
        tcp_option(&bytes),
        Parsed::Success {
            token: TcpOption::Timestamps((0x0102_0304, 0xA1A2_A3A4)),
            stream: &bytes[10..],
        }
    );
    assert_eq!(
        tipestamps(&bytes[1..]),
        Parsed::Success {
            token: TcpOption::Timestamps((0x0102_0304, 0xA1A2_A3A4)),
            stream: &bytes[10..],
        }
    );
}

fn sack_option(len: u8, words: usize) -> Vec<u8> {
    let mut bytes = vec![5, len];
    for k in 0..words {
        let word = 0x1000_0000u32 + (k as u32) * 0x0101_0101;
        bytes.extend_from_slice(&word.to_be_bytes());
    }
    bytes.push(0xEE);
    bytes
}

#[test]
fn sack_of_one_to_four_blocks() {
    let w = |k: u32| 0x1000_0000u32 + k * 0x0101_0101;

    let bytes = sack_option(10, 2);
    assert_eq!(
        tcp_option(&bytes),
        Parsed::Success { token: TcpOption::Sack(Sack::A([w(0), w(1)])), stream: &[0xEE][..] }
    );
    assert_eq!(
        sack(&bytes[1..]),
        Parsed::Success { token: TcpOption::Sack(Sack::A([w(0), w(1)])), stream: &[0xEE][..] }
    );

    let bytes = sack_option(18, 4);
    assert_eq!(
        tcp_option(&bytes),
        Parsed::Success {
            token: TcpOption::Sack(Sack::B([w(0), w(1), w(2), w(3)])),
            stream: &[0xEE][..],
        }
    );

    let bytes = sack_option(26, 6);
    assert_eq!(
        tcp_option(&bytes),
        Parsed::Success {
            token: TcpOption::Sack(Sack::C([w(0), w(1), w(2), w(3), w(4), w(5)])),
            stream: &[0xEE][..],
        }
    );

    let bytes = sack_option(34, 8);
    assert_eq!(
        tcp_option(&bytes),
        Parsed::Success {
            token: TcpOption::Sack(Sack::D([w(0), w(1), w(2), w(3), w(4), w(5), w(6), w(7)])),
            stream: &[0xEE][..],
        }
    );
}

#[test]
fn sack_length_must_be_known() {
    for len in 0u8..=255 {
        let mut bytes = vec![5, len];
        bytes.extend_from_slice(&[0u8; 40]);
        let result = tcp_option(&bytes);
        if len == 10 || len == 18 || len == 26 || len == 34 {
            let Parsed::Success { token: _, stream } = result else {
                panic!("the option does not decode");
            };
            assert_eq!(stream.len(), 42 - usize::from(len));
        } else {
            assert_eq!(result, Parsed::Error(TcpAtom::SackLen(len)));
            assert_eq!(tcp_options(&bytes), Parsed::Error(TcpAtom::SackLen(len)));
            assert_eq!(tcp_option(&bytes[..2]), Parsed::Error(TcpAtom::SackLen(len)));
        }
    }
}

#[test]
fn fixed_lengths_must_match() {
    for len in 0u8..=255 {
        let tail = [0u8; 12];
        let option = |code: u8| {
            let mut bytes = vec![code, len];
            bytes.extend_from_slice(&tail);
            bytes
        };
        if len != 4 {
            assert_eq!(tcp_option(&option(2)), Parsed::Error(TcpAtom::MssLen));
            assert_eq!(tcp_options(&option(2)), Parsed::Error(TcpAtom::MssLen));
            assert_eq!(mss(&[len]), Parsed::Error(TcpAtom::MssLen));
        } else {
            assert!(tcp_option(&option(2)).is_success());
        }
        if len != 3 {
            assert_eq!(tcp_option(&option(3)), Parsed::Error(TcpAtom::WindowScaleLen));
            assert_eq!(window_scale(&[len]), Parsed::Error(TcpAtom::WindowScaleLen));
        } else {
            assert!(tcp_option(&option(3)).is_success());
        }
        if len != 2 {
            assert_eq!(tcp_option(&option(4)), Parsed::Error(TcpAtom::SackPermittedLen));
            assert_eq!(sack_permitted(&[len]), Parsed::Error(TcpAtom::SackPermittedLen));
        } else {
            assert!(tcp_option(&option(4)).is_success());
        }
        if len != 10 {
            assert_eq!(tcp_option(&option(8)), Parsed::Error(TcpAtom::TimestampsLen));
            assert_eq!(tipestamps(&[len]), Parsed::Error(TcpAtom::TimestampsLen));
        } else {
            assert!(tcp_option(&option(8)).is_success());
        }
    }
}

#[test]
fn fatal_option_after_good_ones() {
    let bytes = [1, 1, 3, 3, 7, 2, 5, 0, 0, 0];
    assert_eq!(tcp_options(&bytes), Parsed::Error(TcpAtom::MssLen));
}

#[test]
fn unknown_option_keeps_its_payload() {
    let bytes = [0xFD, 3, 0xAA, 0xBB, 0xCC, 1];
    assert_eq!(
        tcp_option(&bytes),
        Parsed::Success {
            token: TcpOption::Unknown((0xFD, &bytes[2..5])),
            stream: &bytes[5..],
        }
    );
    assert_eq!(
        unknown(0xFD, &bytes[1..]),
        Parsed::Success {
            token: TcpOption::Unknown((0xFD, &bytes[2..5])),
            stream: &bytes[5..],
        }
    );
    assert_eq!(
        tcp_options(&bytes),
        Parsed::Success {
            token: vec![TcpOption::Unknown((0xFD, &bytes[2..5])), TcpOption::Noop],
            stream: &b""[..],
        }
    );
    let empty = [6, 0];
    assert_eq!(
        tcp_option(&empty),
        Parsed::Success { token: TcpOption::Unknown((6, &b""[..])), stream: &b""[..] }
    );
    assert_eq!(tcp_option(&bytes[..4]), Parsed::Failure);
    assert_eq!(tcp_option(&bytes[..1]), Parsed::Failure);
}

#[test]
fn input_that_ends_inside_an_option_fails() {
    assert_eq!(tcp_option(&[2]), Parsed::Failure);
    assert_eq!(tcp_option(&[2, 4, 5]), Parsed::Failure);
    assert_eq!(tcp_option(&[3, 3]), Parsed::Failure);
    assert_eq!(tcp_option(&[4]), Parsed::Failure);
    assert_eq!(tcp_option(&[5]), Parsed::Failure);
    assert_eq!(tcp_option(&[5, 10, 0, 0, 0, 0, 0, 0, 0]), Parsed::Failure);
    assert_eq!(tcp_option(&[8, 10, 0, 0, 0, 0, 0, 0, 0]), Parsed::Failure);
    assert_eq!(tcp_options(&[1, 2, 4, 5]), Parsed::Failure);
    assert_eq!(tcp_options(&[1, 0, 200, 4, 1, 2]), Parsed::Failure);
}

#[test]
fn decoded_options_take_the_whole_region() {
    let bytes = [
        1, 2, 4, 5, 0xB4, 3, 3, 7, 4, 2, 8, 10, 0, 0, 0, 1, 0, 0, 0, 2, 5, 10, 0, 0, 0, 3, 0, 0,
        0, 4, 0x1E, 2, 0xAB, 0xCD, 0, 0,
    ];
    let Parsed::Success { token, stream } = tcp_options(&bytes) else {
        panic!("the options do not decode");
    };
    assert_eq!(stream, b"");
    assert_eq!(
        token,
        vec![
            TcpOption::Noop,
            TcpOption::MaximumSegmentSize(1460),
            TcpOption::WindowScale(7),
            TcpOption::SackPermitted,
            TcpOption::Timestamps((1, 2)),
            TcpOption::Sack(Sack::A([3, 4])),
            TcpOption::Unknown((0x1E, &bytes[32..34])),
            TcpOption::EndOfOption,
            TcpOption::EndOfOption,
        ]
    );
    let wire: usize = token
        .iter()
        .map(|option| match option {
            TcpOption::EndOfOption | TcpOption::Noop => 1,
            TcpOption::MaximumSegmentSize(_) => 4,
            TcpOption::WindowScale(_) => 3,
            TcpOption::SackPermitted => 2,
            TcpOption::Sack(Sack::A(_)) => 10,
            TcpOption::Sack(Sack::B(_)) => 18,
            TcpOption::Sack(Sack::C(_)) => 26,
            TcpOption::Sack(Sack::D(_)) => 34,
            TcpOption::Timestamps(_) => 10,
            TcpOption::Unknown((_, payload)) => 2 + payload.len(),
        })
        .sum();
    assert_eq!(wire, bytes.len());
    assert_eq!(token.clone(), token);
}
