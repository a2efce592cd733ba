//! What holds of the textual address grammars on every input.
//!
//! The decimal and hexadecimal forms of numbers are defined here, and with
//! them the dotted-quad form of an IPv4 address and the texts of the groups
//! of an IPv6 address. The laws say which texts the decoders of octets, of
//! IPv4 addresses and of groups accept, that every decoder takes characters
//! from the front of the text only, and that the case of hexadecimal digits
//! does not matter.

use vstd::prelude::*;
use crate::address::{lemma_ipv4_octets_round_trip, Ipv4Addr};
use crate::ip_addr::{
    CHAR_0,
    COLON,
    DOT,
    LOWER_A,
    UPPER_A,
    UPPER_F,
    Gathered,
    IpAddrAtom,
    spec_colon_h16,
    spec_dec_octet,
    spec_dec_octet_dot,
    spec_double_colon,
    spec_h16,
    spec_h16_colon,
    spec_h16_len,
    spec_h16_value,
    spec_hex_value,
    spec_ipv4_address,
    spec_ipv6_address,
    spec_ipv6_address_0,
    spec_ipv6_address_1,
    spec_ipv6_address_2,
    spec_ipv6_address_3,
    spec_ipv6_address_4,
    spec_ipv6_address_5,
    spec_ipv6_address_6,
    spec_ipv6_address_7,
    spec_ipv6_address_8,
    spec_ipv6_reference,
    spec_is_digit,
    spec_is_hex,
    spec_ls32,
    spec_start,
    spec_then_double_colon,
    spec_then_h16,
    spec_then_h16_colon,
    spec_then_ls32,
    spec_then_opt_colon_h16,
    spec_then_opt_h16,
};
use crate::parsed::Parsed;

verus! {

/// The decimal form of `v`, without leading zeros.
#[verifier::opaque]
pub open spec fn spec_decimal(v: u8) -> Seq<u8> {
    if v < 10 {
        seq![(CHAR_0 + v) as u8]
    } else if v < 100 {
        seq![(CHAR_0 + v / 10) as u8, (CHAR_0 + v % 10) as u8]
    } else {
        seq![(CHAR_0 + v / 100) as u8, (CHAR_0 + v / 10 % 10) as u8, (CHAR_0 + v % 10) as u8]
    }
}

/// The dotted-quad form of the address `a.b.c.d`: the decimal forms of the
/// four octets, without leading zeros, with a `.` between them.
pub open spec fn spec_dotted_quad(a: u8, b: u8, c: u8, d: u8) -> Seq<u8> {
    spec_decimal(a) + seq![DOT] + spec_decimal(b) + seq![DOT] + spec_decimal(c) + seq![DOT]
        + spec_decimal(d)
}

/// True when `t` does not start with a decimal digit.
pub open spec fn spec_no_digit_ahead(t: Seq<u8>) -> bool {
    t.len() == 0 || !spec_is_digit(t[0])
}

/// Every number from 0 to 255 is decoded from its decimal form, where no
/// further digit follows it.
pub proof fn lemma_dec_octet_accepts_decimal(v: u8, t: Seq<u8>)
    requires
        spec_no_digit_ahead(t),
    ensures
        spec_dec_octet(spec_decimal(v) + t) == (Parsed::<u8, Seq<u8>, IpAddrAtom>::Success {
            token: v,
            stream: t,
        }),
{
    reveal(spec_dec_octet);
    reveal(spec_decimal);
    let s = spec_decimal(v) + t;
    if v < 10 {
        assert(s.skip(1) =~= t);
    } else if v < 100 {
        assert(s.skip(2) =~= t);
    } else {
        assert(s.skip(3) =~= t);
    }
}

/// What a decimal octet was decoded from is the decimal form of its value,
/// without leading zeros.
pub proof fn lemma_dec_octet_only_decimal(s: Seq<u8>)
    ensures
        spec_dec_octet(s) matches Parsed::Success { token, stream } ==> s == spec_decimal(token)
            + stream,
{
    reveal(spec_dec_octet);
    reveal(spec_decimal);
    match spec_dec_octet(s) {
        Parsed::Success { token, stream } => {
            assert(s =~= spec_decimal(token) + stream);
        },
        _ => {},
    }
}

/// A decimal octet and the `.` after it are decoded from the decimal form
/// of the octet followed by `.`.
pub proof fn lemma_dec_octet_dot_accepts_decimal(v: u8, t: Seq<u8>)
    ensures
        spec_dec_octet_dot(spec_decimal(v) + seq![DOT] + t) == (Parsed::<
            u8,
            Seq<u8>,
            IpAddrAtom,
        >::Success { token: v, stream: t }),
{
    let dot_t = seq![DOT] + t;
    lemma_dec_octet_accepts_decimal(v, dot_t);
    assert(spec_decimal(v) + seq![DOT] + t =~= spec_decimal(v) + dot_t);
    assert(dot_t.skip(1) =~= t);
}

/// What a decimal octet and the `.` after it were decoded from is the
/// decimal form of the octet followed by `.`.
pub proof fn lemma_dec_octet_dot_only_decimal(s: Seq<u8>)
    ensures
        spec_dec_octet_dot(s) matches Parsed::Success { token, stream } ==> s == spec_decimal(token)
            + seq![DOT] + stream,
{
    lemma_dec_octet_only_decimal(s);
    match spec_dec_octet(s) {
        Parsed::Success { token, stream } => {
            if stream.len() >= 1 && stream[0] == DOT {
                assert(stream =~= seq![DOT] + stream.skip(1));
                assert(s =~= spec_decimal(token) + seq![DOT] + stream.skip(1));
            }
        },
        _ => {},
    }
}

/// Four parts with a separator between them and a tail after them make the
/// same text however the concatenations are grouped.
proof fn lemma_quad_grouping(
    a: Seq<u8>,
    b: Seq<u8>,
    c: Seq<u8>,
    d: Seq<u8>,
    dot: Seq<u8>,
    t: Seq<u8>,
)
    ensures
        a + dot + b + dot + c + dot + d + t == a + dot + (b + dot + (c + dot + (d + t))),
{
    assert(a + dot + b + dot + c + dot + d + t =~= a + dot + (b + dot + (c + dot + (d + t))));
}

/// The outcome of [`spec_ipv4_address`] on an input whose four steps
/// succeed.
proof fn lemma_ipv4_address_steps(
    s0: Seq<u8>,
    s1: Seq<u8>,
    s2: Seq<u8>,
    s3: Seq<u8>,
    t: Seq<u8>,
    a: u8,
    b: u8,
    c: u8,
    d: u8,
)
    requires
        spec_dec_octet_dot(s0) == (Parsed::<u8, Seq<u8>, IpAddrAtom>::Success {
            token: a,
            stream: s1,
        }),
        spec_dec_octet_dot(s1) == (Parsed::<u8, Seq<u8>, IpAddrAtom>::Success {
            token: b,
            stream: s2,
        }),
        spec_dec_octet_dot(s2) == (Parsed::<u8, Seq<u8>, IpAddrAtom>::Success {
            token: c,
            stream: s3,
        }),
        spec_dec_octet(s3) == (Parsed::<u8, Seq<u8>, IpAddrAtom>::Success { token: d, stream: t }),
    ensures
        spec_ipv4_address(s0) == (Parsed::<Ipv4Addr, Seq<u8>, IpAddrAtom>::Success {
            token: Ipv4Addr::spec_new(a, b, c, d),
            stream: t,
        }),
{
    reveal(spec_ipv4_address);
}

/// Every IPv4 address is decoded from its dotted-quad form, where no
/// further digit follows it.
pub proof fn lemma_ipv4_address_accepts_dotted_quad(a: u8, b: u8, c: u8, d: u8, t: Seq<u8>)
    requires
        spec_no_digit_ahead(t),
    ensures
        spec_ipv4_address(spec_dotted_quad(a, b, c, d) + t) == (Parsed::<
            Ipv4Addr,
            Seq<u8>,
            IpAddrAtom,
        >::Success { token: Ipv4Addr::spec_new(a, b, c, d), stream: t }),
{
    let dot = seq![DOT];
    let s3 = spec_decimal(d) + t;
    let s2 = spec_decimal(c) + dot + s3;
    let s1 = spec_decimal(b) + dot + s2;
    let s0 = spec_decimal(a) + dot + s1;
    lemma_quad_grouping(spec_decimal(a), spec_decimal(b), spec_decimal(c), spec_decimal(d), dot, t);
    lemma_dec_octet_dot_accepts_decimal(a, s1);
    lemma_dec_octet_dot_accepts_decimal(b, s2);
    lemma_dec_octet_dot_accepts_decimal(c, s3);
    lemma_dec_octet_accepts_decimal(d, t);
    lemma_ipv4_address_steps(s0, s1, s2, s3, t, a, b, c, d);
}

/// The four steps of [`spec_ipv4_address`] on an input on which it
/// succeeds.
proof fn lemma_ipv4_address_steps_of_success(s0: Seq<u8>) -> (r: (
    Seq<u8>,
    Seq<u8>,
    Seq<u8>,
    Seq<u8>,
    u8,
    u8,
    u8,
    u8,
))
    requires
        spec_ipv4_address(s0) is Success,
    ensures
        spec_dec_octet_dot(s0) == (Parsed::<u8, Seq<u8>, IpAddrAtom>::Success {
            token: r.4,
            stream: r.0,
        }),
        spec_dec_octet_dot(r.0) == (Parsed::<u8, Seq<u8>, IpAddrAtom>::Success {
            token: r.5,
            stream: r.1,
        }),
        spec_dec_octet_dot(r.1) == (Parsed::<u8, Seq<u8>, IpAddrAtom>::Success {
            token: r.6,
            stream: r.2,
        }),
        spec_dec_octet(r.2) == (Parsed::<u8, Seq<u8>, IpAddrAtom>::Success {
            token: r.7,
            stream: r.3,
        }),
        spec_ipv4_address(s0) == (Parsed::<Ipv4Addr, Seq<u8>, IpAddrAtom>::Success {
            token: Ipv4Addr::spec_new(r.4, r.5, r.6, r.7),
            stream: r.3,
        }),
{
    reveal(spec_ipv4_address);
    let first = spec_dec_octet_dot(s0);
    let second = spec_dec_octet_dot(first->Success_stream);
    let third = spec_dec_octet_dot(second->Success_stream);
    let fourth = spec_dec_octet(third->Success_stream);
    (
        first->Success_stream,
        second->Success_stream,
        third->Success_stream,
        fourth->Success_stream,
        first->Success_token,
        second->Success_token,
        third->Success_token,
        fourth->Success_token,
    )
}

/// What an IPv4 address was decoded from is the dotted-quad form of that
/// address: four decimal numbers up to 255 without leading zeros.
pub proof fn lemma_ipv4_address_only_dotted_quad(s: Seq<u8>)
    ensures
        spec_ipv4_address(s) matches Parsed::Success { token, stream } ==> exists|
            a: u8,
            b: u8,
            c: u8,
            d: u8,
        |
            token == Ipv4Addr::spec_new(a, b, c, d) && s == #[trigger] spec_dotted_quad(a, b, c, d)
                + stream,
{
    if spec_ipv4_address(s) is Success {
        let (s1, s2, s3, t, a, b, c, d) = lemma_ipv4_address_steps_of_success(s);
        let dot = seq![DOT];
        lemma_dec_octet_dot_only_decimal(s);
        lemma_dec_octet_dot_only_decimal(s1);
        lemma_dec_octet_dot_only_decimal(s2);
        lemma_dec_octet_only_decimal(s3);
        lemma_quad_grouping(
            spec_decimal(a),
            spec_decimal(b),
            spec_decimal(c),
            spec_decimal(d),
            dot,
            t,
        );
        assert(s == spec_dotted_quad(a, b, c, d) + t);
    }
}

/// A text is decoded in full to an IPv4 address exactly when it is the
/// dotted-quad form of that address.
pub proof fn lemma_ipv4_address_whole_text(s: Seq<u8>, addr: Ipv4Addr)
    ensures
        spec_ipv4_address(s) == (Parsed::<Ipv4Addr, Seq<u8>, IpAddrAtom>::Success {
            token: addr,
            stream: Seq::empty(),
        }) <==> s == spec_dotted_quad(
            addr.spec_octets()[0],
            addr.spec_octets()[1],
            addr.spec_octets()[2],
            addr.spec_octets()[3],
        ),
{
    let o = addr.spec_octets();
    let e = Seq::<u8>::empty();
    lemma_ipv4_octets_round_trip(addr, 0, 0, 0, 0);
    if s == spec_dotted_quad(o[0], o[1], o[2], o[3]) {
        lemma_ipv4_address_accepts_dotted_quad(o[0], o[1], o[2], o[3], e);
        assert(s + e =~= s);
    }
    if spec_ipv4_address(s) == (Parsed::<Ipv4Addr, Seq<u8>, IpAddrAtom>::Success {
        token: addr,
        stream: e,
    }) {
        lemma_ipv4_address_only_dotted_quad(s);
        let (a, b, c, d) = choose|a: u8, b: u8, c: u8, d: u8|
            addr == Ipv4Addr::spec_new(a, b, c, d) && s == #[trigger] spec_dotted_quad(a, b, c, d)
                + e;
        lemma_ipv4_octets_round_trip(addr, a, b, c, d);
        assert(spec_dotted_quad(a, b, c, d) + e =~= spec_dotted_quad(a, b, c, d));
        assert(o[0] == a && o[1] == b && o[2] == c && o[3] == d);
    }
}

/// The character of the hexadecimal digit of value `n`, in lower case.
pub open spec fn spec_hex_char(n: u16) -> u8
    recommends
        n < 16,
{
    if n < 10 {
        (CHAR_0 + n) as u8
    } else {
        (LOWER_A + n - 10) as u8
    }
}

/// The hexadecimal form of `v`, in lower case and without leading zeros.
#[verifier::opaque]
pub open spec fn spec_hex(v: u16) -> Seq<u8> {
    if v < 0x10 {
        seq![spec_hex_char(v)]
    } else if v < 0x100 {
        seq![spec_hex_char(v / 0x10), spec_hex_char(v % 0x10)]
    } else if v < 0x1000 {
        seq![spec_hex_char(v / 0x100), spec_hex_char(v / 0x10 % 0x10), spec_hex_char(v % 0x10)]
    } else {
        seq![
            spec_hex_char(v / 0x1000),
            spec_hex_char(v / 0x100 % 0x10),
            spec_hex_char(v / 0x10 % 0x10),
            spec_hex_char(v % 0x10),
        ]
    }
}

/// True when `t` does not start with a hexadecimal digit.
pub open spec fn spec_no_hex_ahead(t: Seq<u8>) -> bool {
    t.len() == 0 || !spec_is_hex(t[0])
}

/// A group is a number of at most 16 bits.
pub proof fn lemma_h16_value_bound(s: Seq<u8>, n: int)
    requires
        0 <= n <= 4,
        n <= s.len(),
        forall|i: int| 0 <= i < n ==> spec_is_hex(#[trigger] s[i]),
    ensures
        0 <= spec_h16_value(s, n) <= 0xffff,
{
    reveal_with_fuel(spec_h16_value, 5);
}

/// A hexadecimal digit in lower case is a hexadecimal digit, of the value
/// that it was made from.
proof fn lemma_hex_char(n: u16)
    requires
        n < 16,
    ensures
        spec_is_hex(spec_hex_char(n)),
        spec_hex_value(spec_hex_char(n)) == n,
{
}

/// The outcome of [`spec_h16`] on an input that starts with exactly `n`
/// hexadecimal digits, or with four and more.
proof fn lemma_h16_of_digits(s: Seq<u8>, n: int)
    requires
        1 <= n <= 4,
        n <= s.len(),
        forall|i: int| 0 <= i < n ==> spec_is_hex(#[trigger] s[i]),
        n < 4 ==> s.len() == n || !spec_is_hex(s[n]),
    ensures
        spec_h16(s) == (Parsed::<u16, Seq<u8>, IpAddrAtom>::Success {
            token: spec_h16_value(s, n) as u16,
            stream: s.skip(n),
        }),
{
    reveal(spec_h16);
    assert(spec_is_hex(s[0]));
    if n >= 2 {
        assert(spec_is_hex(s[1]));
    }
    if n >= 3 {
        assert(spec_is_hex(s[2]));
    }
    if n >= 4 {
        assert(spec_is_hex(s[3]));
    }
}

/// The number that up to four characters denote in base 16, written out.
proof fn lemma_h16_value_unfold(s: Seq<u8>)
    ensures
        spec_h16_value(s, 1) == spec_hex_value(s[0]),
        spec_h16_value(s, 2) == spec_hex_value(s[0]) * 16 + spec_hex_value(s[1]),
        spec_h16_value(s, 3) == (spec_hex_value(s[0]) * 16 + spec_hex_value(s[1])) * 16
            + spec_hex_value(s[2]),
        spec_h16_value(s, 4) == ((spec_hex_value(s[0]) * 16 + spec_hex_value(s[1])) * 16
            + spec_hex_value(s[2])) * 16 + spec_hex_value(s[3]),
{
    reveal_with_fuel(spec_h16_value, 5);
}

/// The hexadecimal form of a group of one digit.
proof fn lemma_hex_digits_1(v: u16)
    requires
        v < 0x10,
    ensures
        spec_hex(v).len() == 1,
        spec_is_hex(spec_hex(v)[0]),
        spec_h16_value(spec_hex(v), 1) == v,
{
    reveal(spec_hex);
    lemma_h16_value_unfold(spec_hex(v));
    lemma_hex_char(v);
}

/// The hexadecimal form of a group of two digits.
proof fn lemma_hex_digits_2(v: u16)
    requires
        0x10 <= v < 0x100,
    ensures
        spec_hex(v).len() == 2,
        spec_is_hex(spec_hex(v)[0]),
        spec_is_hex(spec_hex(v)[1]),
        spec_h16_value(spec_hex(v), 2) == v,
{
    reveal(spec_hex);
    lemma_h16_value_unfold(spec_hex(v));
    lemma_hex_char((v / 0x10) as u16);
    lemma_hex_char((v % 0x10) as u16);
}

/// The hexadecimal form of a group of three digits.
proof fn lemma_hex_digits_3(v: u16)
    requires
        0x100 <= v < 0x1000,
    ensures
        spec_hex(v).len() == 3,
        spec_is_hex(spec_hex(v)[0]),
        spec_is_hex(spec_hex(v)[1]),
        spec_is_hex(spec_hex(v)[2]),
        spec_h16_value(spec_hex(v), 3) == v,
{
    reveal(spec_hex);
    lemma_h16_value_unfold(spec_hex(v));
    lemma_hex_char((v / 0x100) as u16);
    lemma_hex_char((v / 0x10 % 0x10) as u16);
    lemma_hex_char((v % 0x10) as u16);
}

/// The hexadecimal form of a group of four digits.
proof fn lemma_hex_digits_4(v: u16)
    requires
        0x1000 <= v,
    ensures
        spec_hex(v).len() == 4,
        spec_is_hex(spec_hex(v)[0]),
        spec_is_hex(spec_hex(v)[1]),
        spec_is_hex(spec_hex(v)[2]),
        spec_is_hex(spec_hex(v)[3]),
        spec_h16_value(spec_hex(v), 4) == v,
{
    reveal(spec_hex);
    lemma_h16_value_unfold(spec_hex(v));
    lemma_hex_char((v / 0x1000) as u16);
    lemma_hex_char((v / 0x100 % 0x10) as u16);
    lemma_hex_char((v / 0x10 % 0x10) as u16);
    lemma_hex_char((v % 0x10) as u16);
}

/// The hexadecimal form of a group: one to four hexadecimal digits that
/// denote the group.
pub proof fn lemma_hex_digits(v: u16)
    ensures
        1 <= spec_hex(v).len() <= 4,
        forall|i: int| 0 <= i < spec_hex(v).len() ==> spec_is_hex(#[trigger] spec_hex(v)[i]),
        spec_h16_value(spec_hex(v), spec_hex(v).len() as int) == v,
{
    if v < 0x10 {
        lemma_hex_digits_1(v);
    } else if v < 0x100 {
        lemma_hex_digits_2(v);
    } else if v < 0x1000 {
        lemma_hex_digits_3(v);
    } else {
        lemma_hex_digits_4(v);
    }
}

/// The number that the first `n` characters of a text denote depends on
/// those characters only.
proof fn lemma_h16_value_of_prefix(x: Seq<u8>, t: Seq<u8>)
    requires
        1 <= x.len() <= 4,
    ensures
        spec_h16_value(x + t, x.len() as int) == spec_h16_value(x, x.len() as int),
{
    let s = x + t;
    lemma_h16_value_unfold(x);
    lemma_h16_value_unfold(s);
    assert(s[0] == x[0]);
    if x.len() >= 2 {
        assert(s[1] == x[1]);
    }
    if x.len() >= 3 {
        assert(s[2] == x[2]);
    }
    if x.len() >= 4 {
        assert(s[3] == x[3]);
    }
}

/// True when `x` is the text of a group: one to four hexadecimal digits, in
/// either case.
pub open spec fn spec_is_group_text(x: Seq<u8>) -> bool {
    1 <= x.len() <= 4 && forall|i: int| 0 <= i < x.len() ==> spec_is_hex(#[trigger] x[i])
}

/// The group that the text `x` denotes in base 16.
pub open spec fn spec_group_value(x: Seq<u8>) -> u16
    recommends
        spec_is_group_text(x),
{
    spec_h16_value(x, x.len() as int) as u16
}

/// Every text of a group is decoded to the group that it denotes, where no
/// further hexadecimal digit follows it.
pub proof fn lemma_h16_accepts_group_text(x: Seq<u8>, t: Seq<u8>)
    requires
        spec_is_group_text(x),
        spec_no_hex_ahead(t),
    ensures
        spec_h16(x + t) == (Parsed::<u16, Seq<u8>, IpAddrAtom>::Success {
            token: spec_group_value(x),
            stream: t,
        }),
{
    let s = x + t;
    let n = x.len() as int;
    lemma_h16_value_of_prefix(x, t);
    assert forall|i: int| 0 <= i < n implies spec_is_hex(#[trigger] s[i]) by {
        assert(s[i] == x[i]);
    }
    assert(s.skip(n) =~= t);
    assert(n < 4 ==> s.len() == n || !spec_is_hex(s[n])) by {
        if s.len() > n {
            assert(s[n] == t[0]);
        }
    }
    lemma_h16_of_digits(s, n);
}

/// The text of a group and the `:` after it are decoded to the group.
pub proof fn lemma_h16_colon_accepts_group_text(x: Seq<u8>, t: Seq<u8>)
    requires
        spec_is_group_text(x),
    ensures
        spec_h16_colon(x + seq![COLON] + t) == (Parsed::<u16, Seq<u8>, IpAddrAtom>::Success {
            token: spec_group_value(x),
            stream: t,
        }),
{
    let colon_t = seq![COLON] + t;
    lemma_h16_accepts_group_text(x, colon_t);
    assert(x + seq![COLON] + t =~= x + colon_t);
    assert(colon_t.skip(1) =~= t);
}

/// The last 32 bits are decoded from the texts of two groups with a `:`
/// between them, where no further hexadecimal digit follows them.
pub proof fn lemma_ls32_accepts_group_texts(x: Seq<u8>, y: Seq<u8>, t: Seq<u8>)
    requires
        spec_is_group_text(x),
        spec_is_group_text(y),
        spec_no_hex_ahead(t),
    ensures
        spec_ls32(x + seq![COLON] + (y + t)) == (Parsed::<(u16, u16), Seq<u8>, IpAddrAtom>::Success {
            token: (spec_group_value(x), spec_group_value(y)),
            stream: t,
        }),
{
    reveal(spec_ls32);
    let colon = seq![COLON];
    let rest = y + t;
    lemma_h16_accepts_group_text(x, colon + rest);
    assert(x + colon + rest =~= x + (colon + rest));
    assert((colon + rest).skip(1) =~= rest);
    lemma_h16_accepts_group_text(y, t);
}

/// The hexadecimal form of a group is a text of that group.
pub proof fn lemma_hex_is_group_text(v: u16)
    ensures
        spec_is_group_text(spec_hex(v)),
        spec_group_value(spec_hex(v)) == v,
{
    lemma_hex_digits(v);
}

/// Every group is decoded from its hexadecimal form, where no further
/// hexadecimal digit follows it.
pub proof fn lemma_h16_accepts_hex(v: u16, t: Seq<u8>)
    requires
        spec_no_hex_ahead(t),
    ensures
        spec_h16(spec_hex(v) + t) == (Parsed::<u16, Seq<u8>, IpAddrAtom>::Success {
            token: v,
            stream: t,
        }),
{
    lemma_hex_is_group_text(v);
    lemma_h16_accepts_group_text(spec_hex(v), t);
}

/// True when `rest` is what is left of `s` after some of its first
/// characters.
pub open spec fn spec_is_rest_of(rest: Seq<u8>, s: Seq<u8>) -> bool {
    rest.len() <= s.len() && rest == s.skip(s.len() - rest.len())
}

/// True when the outcome `r` on input `s` is no success, or leaves a rest
/// of `s`.
pub open spec fn spec_leaves_rest_of<T>(r: Parsed<T, Seq<u8>, IpAddrAtom>, s: Seq<u8>) -> bool {
    r matches Parsed::Success { token: _, stream } ==> spec_is_rest_of(stream, s)
}

/// What is left after the first `n` characters of a text is a rest of it.
proof fn lemma_skip_is_rest(s: Seq<u8>, n: int)
    requires
        0 <= n <= s.len(),
    ensures
        spec_is_rest_of(s.skip(n), s),
{
    assert(s.skip(n) =~= s.skip(s.len() - s.skip(n).len()));
}

/// A rest of a rest of a text is a rest of that text.
proof fn lemma_rest_of_rest(a: Seq<u8>, b: Seq<u8>, c: Seq<u8>)
    requires
        spec_is_rest_of(a, b),
        spec_is_rest_of(b, c),
    ensures
        spec_is_rest_of(a, c),
{
    assert(a =~= c.skip(c.len() - a.len()));
}

/// A text after which another follows is left when the first is taken.
proof fn lemma_tail_is_rest(x: Seq<u8>, t: Seq<u8>)
    ensures
        spec_is_rest_of(t, x + t),
{
    assert(t =~= (x + t).skip((x + t).len() - t.len()));
}

/// What a decimal octet leaves is a rest of its input.
pub proof fn lemma_dec_octet_leaves_rest(s: Seq<u8>)
    ensures
        spec_leaves_rest_of(spec_dec_octet(s), s),
        spec_leaves_rest_of(spec_dec_octet_dot(s), s),
{
    lemma_dec_octet_only_decimal(s);
    lemma_dec_octet_dot_only_decimal(s);
    match spec_dec_octet(s) {
        Parsed::Success { token, stream } => {
            lemma_tail_is_rest(spec_decimal(token), stream);
        },
        _ => {},
    }
    match spec_dec_octet_dot(s) {
        Parsed::Success { token, stream } => {
            lemma_tail_is_rest(spec_decimal(token) + seq![DOT], stream);
        },
        _ => {},
    }
}

/// What an IPv4 address leaves is a rest of its input: the decoder takes
/// characters from the front of the text only.
pub proof fn lemma_ipv4_address_leaves_rest(s: Seq<u8>)
    ensures
        spec_leaves_rest_of(spec_ipv4_address(s), s),
{
    lemma_ipv4_address_only_dotted_quad(s);
    match spec_ipv4_address(s) {
        Parsed::Success { token, stream } => {
            let (a, b, c, d) = choose|a: u8, b: u8, c: u8, d: u8|
                token == Ipv4Addr::spec_new(a, b, c, d) && s == #[trigger] spec_dotted_quad(
                    a,
                    b,
                    c,
                    d,
                ) + stream;
            lemma_tail_is_rest(spec_dotted_quad(a, b, c, d), stream);
        },
        _ => {},
    }
}

/// What a group leaves is a rest of its input, and shorter than the input.
proof fn lemma_h16_leaves_rest(s: Seq<u8>)
    ensures
        spec_leaves_rest_of(spec_h16(s), s),
        spec_leaves_rest_of(spec_h16_colon(s), s),
        spec_leaves_rest_of(spec_colon_h16(s), s),
        spec_leaves_rest_of(spec_double_colon(s), s),
{
    reveal(spec_h16);
    let n = spec_h16_len(s);
    if n > 0 {
        lemma_skip_is_rest(s, n);
        let t = s.skip(n);
        if t.len() >= 1 {
            lemma_skip_is_rest(t, 1);
            lemma_rest_of_rest(t.skip(1), t, s);
        }
    }
    if s.len() >= 1 {
        lemma_skip_is_rest(s, 1);
        let t = s.skip(1);
        let m = spec_h16_len(t);
        if m > 0 {
            lemma_skip_is_rest(t, m);
            lemma_rest_of_rest(t.skip(m), t, s);
        }
    }
    if s.len() >= 2 {
        lemma_skip_is_rest(s, 2);
    }
}

/// What the last 32 bits leave is a rest of their input.
proof fn lemma_ls32_leaves_rest(s: Seq<u8>)
    ensures
        spec_leaves_rest_of(spec_ls32(s), s),
{
    reveal(spec_ls32);
    lemma_ipv4_address_leaves_rest(s);
    lemma_h16_leaves_rest(s);
    match spec_h16(s) {
        Parsed::Success { token: _, stream } => {
            lemma_h16_leaves_rest(stream);
            match spec_colon_h16(stream) {
                Parsed::Success { token: _, stream: rest } => {
                    lemma_rest_of_rest(rest, stream, s);
                },
                _ => {},
            }
        },
        _ => {},
    }
}

/// A step of an alternative leaves a rest of the input of the alternative.
proof fn lemma_then_h16_colon_leaves_rest(st: Gathered, s: Seq<u8>)
    requires
        spec_leaves_rest_of(st, s),
    ensures
        spec_leaves_rest_of(spec_then_h16_colon(st), s),
{
    match st {
        Parsed::Success { token: _, stream } => {
            lemma_h16_leaves_rest(stream);
            lemma_skip_is_rest(stream, 0);
            assert(stream.skip(0) =~= stream);
            match spec_then_h16_colon(st) {
                Parsed::Success { token: _, stream: rest } => {
                    lemma_rest_of_rest(rest, stream, s);
                },
                _ => {},
            }
        },
        _ => {},
    }
}

/// A step of an alternative leaves a rest of the input of the alternative.
proof fn lemma_then_h16_leaves_rest(st: Gathered, s: Seq<u8>)
    requires
        spec_leaves_rest_of(st, s),
    ensures
        spec_leaves_rest_of(spec_then_h16(st), s),
{
    match st {
        Parsed::Success { token: _, stream } => {
            lemma_h16_leaves_rest(stream);
            lemma_skip_is_rest(stream, 0);
            assert(stream.skip(0) =~= stream);
            match spec_then_h16(st) {
                Parsed::Success { token: _, stream: rest } => {
                    lemma_rest_of_rest(rest, stream, s);
                },
                _ => {},
            }
        },
        _ => {},
    }
}

/// A step of an alternative leaves a rest of the input of the alternative.
proof fn lemma_then_opt_h16_leaves_rest(st: Gathered, s: Seq<u8>)
    requires
        spec_leaves_rest_of(st, s),
    ensures
        spec_leaves_rest_of(spec_then_opt_h16(st), s),
{
    match st {
        Parsed::Success { token: _, stream } => {
            lemma_h16_leaves_rest(stream);
            lemma_skip_is_rest(stream, 0);
            assert(stream.skip(0) =~= stream);
            match spec_then_opt_h16(st) {
                Parsed::Success { token: _, stream: rest } => {
                    lemma_rest_of_rest(rest, stream, s);
                },
                _ => {},
            }
        },
        _ => {},
    }
}

/// A step of an alternative leaves a rest of the input of the alternative.
proof fn lemma_then_opt_colon_h16_leaves_rest(st: Gathered, s: Seq<u8>)
    requires
        spec_leaves_rest_of(st, s),
    ensures
        spec_leaves_rest_of(spec_then_opt_colon_h16(st), s),
{
    match st {
        Parsed::Success { token: _, stream } => {
            lemma_h16_leaves_rest(stream);
            lemma_skip_is_rest(stream, 0);
            assert(stream.skip(0) =~= stream);
            match spec_then_opt_colon_h16(st) {
                Parsed::Success { token: _, stream: rest } => {
                    lemma_rest_of_rest(rest, stream, s);
                },
                _ => {},
            }
        },
        _ => {},
    }
}

/// A step of an alternative leaves a rest of the input of the alternative.
proof fn lemma_then_double_colon_leaves_rest(st: Gathered, s: Seq<u8>)
    requires
        spec_leaves_rest_of(st, s),
    ensures
        spec_leaves_rest_of(spec_then_double_colon(st), s),
{
    match st {
        Parsed::Success { token: _, stream } => {
            lemma_h16_leaves_rest(stream);
            lemma_skip_is_rest(stream, 0);
            assert(stream.skip(0) =~= stream);
            match spec_then_double_colon(st) {
                Parsed::Success { token: _, stream: rest } => {
                    lemma_rest_of_rest(rest, stream, s);
                },
                _ => {},
            }
        },
        _ => {},
    }
}

/// A step of an alternative leaves a rest of the input of the alternative.
proof fn lemma_then_ls32_leaves_rest(st: Gathered, s: Seq<u8>)
    requires
        spec_leaves_rest_of(st, s),
    ensures
        spec_leaves_rest_of(spec_then_ls32(st), s),
{
    match st {
        Parsed::Success { token: _, stream } => {
            lemma_ls32_leaves_rest(stream);
            lemma_skip_is_rest(stream, 0);
            assert(stream.skip(0) =~= stream);
            match spec_then_ls32(st) {
                Parsed::Success { token: _, stream: rest } => {
                    lemma_rest_of_rest(rest, stream, s);
                },
                _ => {},
            }
        },
        _ => {},
    }
}

/// What this alternative leaves is a rest of its input.
proof fn lemma_ipv6_address_0_leaves_rest(s: Seq<u8>)
    ensures
        spec_leaves_rest_of(spec_ipv6_address_0(s), s),
{
    reveal(spec_ipv6_address_0);
    let st = spec_start(s);
    lemma_skip_is_rest(s, 0);
    assert(s.skip(0) =~= s);
    lemma_then_h16_colon_leaves_rest(st, s);
    let st = spec_then_h16_colon(st);
    lemma_then_h16_colon_leaves_rest(st, s);
    let st = spec_then_h16_colon(st);
    lemma_then_h16_colon_leaves_rest(st, s);
    let st = spec_then_h16_colon(st);
    lemma_then_h16_colon_leaves_rest(st, s);
    let st = spec_then_h16_colon(st);
    lemma_then_h16_colon_leaves_rest(st, s);
    let st = spec_then_h16_colon(st);
    lemma_then_h16_colon_leaves_rest(st, s);
    let st = spec_then_h16_colon(st);
    lemma_then_ls32_leaves_rest(st, s);
    let st = spec_then_ls32(st);
}

/// What this alternative leaves is a rest of its input.
proof fn lemma_ipv6_address_1_leaves_rest(s: Seq<u8>)
    ensures
        spec_leaves_rest_of(spec_ipv6_address_1(s), s),
{
    reveal(spec_ipv6_address_1);
    let st = spec_start(s);
    lemma_skip_is_rest(s, 0);
    assert(s.skip(0) =~= s);
    lemma_then_double_colon_leaves_rest(st, s);
    let st = spec_then_double_colon(st);
    lemma_then_h16_colon_leaves_rest(st, s);
    let st = spec_then_h16_colon(st);
    lemma_then_h16_colon_leaves_rest(st, s);
    let st = spec_then_h16_colon(st);
    lemma_then_h16_colon_leaves_rest(st, s);
    let st = spec_then_h16_colon(st);
    lemma_then_h16_colon_leaves_rest(st, s);
    let st = spec_then_h16_colon(st);
    lemma_then_h16_colon_leaves_rest(st, s);
    let st = spec_then_h16_colon(st);
    lemma_then_ls32_leaves_rest(st, s);
    let st = spec_then_ls32(st);
}

/// What this alternative leaves is a rest of its input.
proof fn lemma_ipv6_address_2_leaves_rest(s: Seq<u8>)
    ensures
        spec_leaves_rest_of(spec_ipv6_address_2(s), s),
{
    reveal(spec_ipv6_address_2);
    let st = spec_start(s);
    lemma_skip_is_rest(s, 0);
    assert(s.skip(0) =~= s);
    lemma_then_opt_h16_leaves_rest(st, s);
    let st = spec_then_opt_h16(st);
    lemma_then_double_colon_leaves_rest(st, s);
    let st = spec_then_double_colon(st);
    lemma_then_h16_colon_leaves_rest(st, s);
    let st = spec_then_h16_colon(st);
    lemma_then_h16_colon_leaves_rest(st, s);
    let st = spec_then_h16_colon(st);
    lemma_then_h16_colon_leaves_rest(st, s);
    let st = spec_then_h16_colon(st);
    lemma_then_h16_colon_leaves_rest(st, s);
    let st = spec_then_h16_colon(st);
    lemma_then_ls32_leaves_rest(st, s);
    let st = spec_then_ls32(st);
}

/// What this alternative leaves is a rest of its input.
proof fn lemma_ipv6_address_3_leaves_rest(s: Seq<u8>)
    ensures
        spec_leaves_rest_of(spec_ipv6_address_3(s), s),
{
    reveal(spec_ipv6_address_3);
    let st = spec_start(s);
    lemma_skip_is_rest(s, 0);
    assert(s.skip(0) =~= s);
    lemma_then_opt_h16_leaves_rest(st, s);
    let st = spec_then_opt_h16(st);
    lemma_then_opt_colon_h16_leaves_rest(st, s);
    let st = spec_then_opt_colon_h16(st);
    lemma_then_double_colon_leaves_rest(st, s);
    let st = spec_then_double_colon(st);
    lemma_then_h16_colon_leaves_rest(st, s);
    let st = spec_then_h16_colon(st);
    lemma_then_h16_colon_leaves_rest(st, s);
    let st = spec_then_h16_colon(st);
    lemma_then_h16_colon_leaves_rest(st, s);
    let st = spec_then_h16_colon(st);
    lemma_then_ls32_leaves_rest(st, s);
    let st = spec_then_ls32(st);
}

/// What this alternative leaves is a rest of its input.
proof fn lemma_ipv6_address_4_leaves_rest(s: Seq<u8>)
    ensures
        spec_leaves_rest_of(spec_ipv6_address_4(s), s),
{
    reveal(spec_ipv6_address_4);
    let st = spec_start(s);
    lemma_skip_is_rest(s, 0);
    assert(s.skip(0) =~= s);
    lemma_then_opt_h16_leaves_rest(st, s);
    let st = spec_then_opt_h16(st);
    lemma_then_opt_colon_h16_leaves_rest(st, s);
    let st = spec_then_opt_colon_h16(st);
    lemma_then_opt_colon_h16_leaves_rest(st, s);
    let st = spec_then_opt_colon_h16(st);
    lemma_then_double_colon_leaves_rest(st, s);
    let st = spec_then_double_colon(st);
    lemma_then_h16_colon_leaves_rest(st, s);
    let st = spec_then_h16_colon(st);
    lemma_then_h16_colon_leaves_rest(st, s);
    let st = spec_then_h16_colon(st);
    lemma_then_ls32_leaves_rest(st, s);
    let st = spec_then_ls32(st);
}

/// What this alternative leaves is a rest of its input.
proof fn lemma_ipv6_address_5_leaves_rest(s: Seq<u8>)
    ensures
        spec_leaves_rest_of(spec_ipv6_address_5(s), s),
{
    reveal(spec_ipv6_address_5);
    let st = spec_start(s);
    lemma_skip_is_rest(s, 0);
    assert(s.skip(0) =~= s);
    lemma_then_opt_h16_leaves_rest(st, s);
    let st = spec_then_opt_h16(st);
    lemma_then_opt_colon_h16_leaves_rest(st, s);
    let st = spec_then_opt_colon_h16(st);
    lemma_then_opt_colon_h16_leaves_rest(st, s);
    let st = spec_then_opt_colon_h16(st);
    lemma_then_opt_colon_h16_leaves_rest(st, s);
    let st = spec_then_opt_colon_h16(st);
    lemma_then_double_colon_leaves_rest(st, s);
    let st = spec_then_double_colon(st);
    lemma_then_h16_colon_leaves_rest(st, s);
    let st = spec_then_h16_colon(st);
    lemma_then_ls32_leaves_rest(st, s);
    let st = spec_then_ls32(st);
}

/// What this alternative leaves is a rest of its input.
proof fn lemma_ipv6_address_6_leaves_rest(s: Seq<u8>)
    ensures
        spec_leaves_rest_of(spec_ipv6_address_6(s), s),
{
    reveal(spec_ipv6_address_6);
    let st = spec_start(s);
    lemma_skip_is_rest(s, 0);
    assert(s.skip(0) =~= s);
    lemma_then_opt_h16_leaves_rest(st, s);
    let st = spec_then_opt_h16(st);
    lemma_then_opt_colon_h16_leaves_rest(st, s);
    let st = spec_then_opt_colon_h16(st);
    lemma_then_opt_colon_h16_leaves_rest(st, s);
    let st = spec_then_opt_colon_h16(st);
    lemma_then_opt_colon_h16_leaves_rest(st, s);
    let st = spec_then_opt_colon_h16(st);
    lemma_then_opt_colon_h16_leaves_rest(st, s);
    let st = spec_then_opt_colon_h16(st);
    lemma_then_double_colon_leaves_rest(st, s);
    let st = spec_then_double_colon(st);
    lemma_then_ls32_leaves_rest(st, s);
    let st = spec_then_ls32(st);
}

/// What this alternative leaves is a rest of its input.
proof fn lemma_ipv6_address_7_leaves_rest(s: Seq<u8>)
    ensures
        spec_leaves_rest_of(spec_ipv6_address_7(s), s),
{
    reveal(spec_ipv6_address_7);
    let st = spec_start(s);
    lemma_skip_is_rest(s, 0);
    assert(s.skip(0) =~= s);
    lemma_then_opt_h16_leaves_rest(st, s);
    let st = spec_then_opt_h16(st);
    lemma_then_opt_colon_h16_leaves_rest(st, s);
    let st = spec_then_opt_colon_h16(st);
    lemma_then_opt_colon_h16_leaves_rest(st, s);
    let st = spec_then_opt_colon_h16(st);
    lemma_then_opt_colon_h16_leaves_rest(st, s);
    let st = spec_then_opt_colon_h16(st);
    lemma_then_opt_colon_h16_leaves_rest(st, s);
    let st = spec_then_opt_colon_h16(st);
    lemma_then_opt_colon_h16_leaves_rest(st, s);
    let st = spec_then_opt_colon_h16(st);
    lemma_then_double_colon_leaves_rest(st, s);
    let st = spec_then_double_colon(st);
    lemma_then_h16_leaves_rest(st, s);
    let st = spec_then_h16(st);
}

/// What this alternative leaves is a rest of its input.
proof fn lemma_ipv6_address_8_leaves_rest(s: Seq<u8>)
    ensures
        spec_leaves_rest_of(spec_ipv6_address_8(s), s),
{
    reveal(spec_ipv6_address_8);
    let st = spec_start(s);
    lemma_skip_is_rest(s, 0);
    assert(s.skip(0) =~= s);
    lemma_then_opt_h16_leaves_rest(st, s);
    let st = spec_then_opt_h16(st);
    lemma_then_opt_colon_h16_leaves_rest(st, s);
    let st = spec_then_opt_colon_h16(st);
    lemma_then_opt_colon_h16_leaves_rest(st, s);
    let st = spec_then_opt_colon_h16(st);
    lemma_then_opt_colon_h16_leaves_rest(st, s);
    let st = spec_then_opt_colon_h16(st);
    lemma_then_opt_colon_h16_leaves_rest(st, s);
    let st = spec_then_opt_colon_h16(st);
    lemma_then_opt_colon_h16_leaves_rest(st, s);
    let st = spec_then_opt_colon_h16(st);
    lemma_then_opt_colon_h16_leaves_rest(st, s);
    let st = spec_then_opt_colon_h16(st);
    lemma_then_double_colon_leaves_rest(st, s);
    let st = spec_then_double_colon(st);
}

/// What an IPv6 address leaves is a rest of its input: the decoder takes
/// characters from the front of the text only.
pub proof fn lemma_ipv6_address_leaves_rest(s: Seq<u8>)
    ensures
        spec_leaves_rest_of(spec_ipv6_address(s), s),
{
    lemma_ipv6_address_0_leaves_rest(s);
    lemma_ipv6_address_1_leaves_rest(s);
    lemma_ipv6_address_2_leaves_rest(s);
    lemma_ipv6_address_3_leaves_rest(s);
    lemma_ipv6_address_4_leaves_rest(s);
    lemma_ipv6_address_5_leaves_rest(s);
    lemma_ipv6_address_6_leaves_rest(s);
    lemma_ipv6_address_7_leaves_rest(s);
    lemma_ipv6_address_8_leaves_rest(s);
}

/// What a bracketed IPv6 address leaves is a rest of its input.
pub proof fn lemma_ipv6_reference_leaves_rest(s: Seq<u8>)
    ensures
        spec_leaves_rest_of(spec_ipv6_reference(s), s),
{
    if s.len() >= 1 {
        lemma_skip_is_rest(s, 1);
        let t = s.skip(1);
        lemma_ipv6_address_leaves_rest(t);
        match spec_ipv6_address(t) {
            Parsed::Success { token: _, stream } => {
                lemma_rest_of_rest(stream, t, s);
                if stream.len() >= 1 {
                    lemma_skip_is_rest(stream, 1);
                    lemma_rest_of_rest(stream.skip(1), stream, s);
                }
            },
            _ => {},
        }
    }
}

/// The character `b`, in lower case where it is one of the letters `A` to
/// `F`.
pub open spec fn spec_lower(b: u8) -> u8 {
    if UPPER_A <= b <= UPPER_F {
        (b + 0x20) as u8
    } else {
        b
    }
}

/// The text `s` with its hexadecimal digits in lower case.
pub open spec fn spec_lower_text(s: Seq<u8>) -> Seq<u8> {
    Seq::new(s.len(), |i: int| spec_lower(s[i]))
}

/// The outcome `r` with the text that it leaves in lower case.
pub open spec fn spec_lower_rest<T>(r: Parsed<T, Seq<u8>, IpAddrAtom>) -> Parsed<
    T,
    Seq<u8>,
    IpAddrAtom,
> {
    match r {
        Parsed::Success { token, stream } => Parsed::Success {
            token,
            stream: spec_lower_text(stream),
        },
        Parsed::Failure => Parsed::Failure,
        Parsed::Error(atom) => Parsed::Error(atom),
    }
}

/// Taking characters from the front of a text and putting it in lower case
/// can be done in either order.
proof fn lemma_lower_skip(s: Seq<u8>, n: int)
    requires
        0 <= n <= s.len(),
    ensures
        spec_lower_text(s).skip(n) == spec_lower_text(s.skip(n)),
{
    assert(spec_lower_text(s).skip(n) =~= spec_lower_text(s.skip(n)));
}

/// A decimal octet does not depend on the case of the text.
proof fn lemma_dec_octet_lower(s: Seq<u8>)
    ensures
        spec_dec_octet(spec_lower_text(s)) == spec_lower_rest(spec_dec_octet(s)),
        spec_dec_octet_dot(spec_lower_text(s)) == spec_lower_rest(spec_dec_octet_dot(s)),
{
    reveal(spec_dec_octet);
    let l = spec_lower_text(s);
    if s.len() >= 1 {
        lemma_lower_skip(s, 1);
    }
    if s.len() >= 2 {
        lemma_lower_skip(s, 2);
    }
    if s.len() >= 3 {
        lemma_lower_skip(s, 3);
    }
    assert(spec_dec_octet(l) == spec_lower_rest(spec_dec_octet(s)));
    match spec_dec_octet(s) {
        Parsed::Success { token: _, stream } => {
            if stream.len() >= 1 {
                lemma_lower_skip(stream, 1);
            }
        },
        _ => {},
    }
}

/// An IPv4 address does not depend on the case of the text.
proof fn lemma_ipv4_address_lower(s: Seq<u8>)
    ensures
        spec_ipv4_address(spec_lower_text(s)) == spec_lower_rest(spec_ipv4_address(s)),
{
    reveal(spec_ipv4_address);
    lemma_dec_octet_lower(s);
    match spec_dec_octet_dot(s) {
        Parsed::Success { token: _, stream: s1 } => {
            lemma_dec_octet_lower(s1);
            match spec_dec_octet_dot(s1) {
                Parsed::Success { token: _, stream: s2 } => {
                    lemma_dec_octet_lower(s2);
                    match spec_dec_octet_dot(s2) {
                        Parsed::Success { token: _, stream: s3 } => {
                            lemma_dec_octet_lower(s3);
                        },
                        _ => {},
                    }
                },
                _ => {},
            }
        },
        _ => {},
    }
}

/// A group has the same value in either case.
proof fn lemma_h16_lower(s: Seq<u8>)
    ensures
        spec_h16(spec_lower_text(s)) == spec_lower_rest(spec_h16(s)),
        spec_h16_colon(spec_lower_text(s)) == spec_lower_rest(spec_h16_colon(s)),
        spec_double_colon(spec_lower_text(s)) == spec_lower_rest(spec_double_colon(s)),
{
    reveal(spec_h16);
    let l = spec_lower_text(s);
    let n = spec_h16_len(s);
    assert(spec_h16_len(l) == n);
    lemma_h16_value_unfold(s);
    lemma_h16_value_unfold(l);
    if n > 0 {
        lemma_lower_skip(s, n);
        let t = s.skip(n);
        if t.len() >= 1 {
            lemma_lower_skip(t, 1);
        }
    }
    if s.len() >= 2 {
        lemma_lower_skip(s, 2);
    }
}

/// A `:` and a group have the same value in either case.
proof fn lemma_colon_h16_lower(s: Seq<u8>)
    ensures
        spec_colon_h16(spec_lower_text(s)) == spec_lower_rest(spec_colon_h16(s)),
{
    if s.len() >= 1 {
        lemma_lower_skip(s, 1);
        lemma_h16_lower(s.skip(1));
    }
}

/// The last 32 bits have the same value in either case.
proof fn lemma_ls32_lower(s: Seq<u8>)
    ensures
        spec_ls32(spec_lower_text(s)) == spec_lower_rest(spec_ls32(s)),
{
    reveal(spec_ls32);
    lemma_ipv4_address_lower(s);
    lemma_h16_lower(s);
    match spec_h16(s) {
        Parsed::Success { token: _, stream } => {
            lemma_colon_h16_lower(stream);
        },
        _ => {},
    }
}

/// A step of an alternative gathers the same groups in either case.
proof fn lemma_then_h16_colon_lower(st: Gathered)
    ensures
        spec_then_h16_colon(spec_lower_rest(st)) == spec_lower_rest(spec_then_h16_colon(st)),
{
    match st {
        Parsed::Success { token: _, stream } => {
            lemma_h16_lower(stream);
        },
        _ => {},
    }
}

/// A step of an alternative gathers the same groups in either case.
proof fn lemma_then_h16_lower(st: Gathered)
    ensures
        spec_then_h16(spec_lower_rest(st)) == spec_lower_rest(spec_then_h16(st)),
{
    match st {
        Parsed::Success { token: _, stream } => {
            lemma_h16_lower(stream);
        },
        _ => {},
    }
}

/// A step of an alternative gathers the same groups in either case.
proof fn lemma_then_opt_h16_lower(st: Gathered)
    ensures
        spec_then_opt_h16(spec_lower_rest(st)) == spec_lower_rest(spec_then_opt_h16(st)),
{
    match st {
        Parsed::Success { token: _, stream } => {
            lemma_h16_lower(stream);
        },
        _ => {},
    }
}

/// A step of an alternative gathers the same groups in either case.
proof fn lemma_then_opt_colon_h16_lower(st: Gathered)
    ensures
        spec_then_opt_colon_h16(spec_lower_rest(st)) == spec_lower_rest(spec_then_opt_colon_h16(st)),
{
    match st {
        Parsed::Success { token: _, stream } => {
            lemma_colon_h16_lower(stream);
        },
        _ => {},
    }
}

/// A step of an alternative gathers the same groups in either case.
proof fn lemma_then_double_colon_lower(st: Gathered)
    ensures
        spec_then_double_colon(spec_lower_rest(st)) == spec_lower_rest(spec_then_double_colon(st)),
{
    match st {
        Parsed::Success { token: _, stream } => {
            lemma_h16_lower(stream);
        },
        _ => {},
    }
}

/// A step of an alternative gathers the same groups in either case.
proof fn lemma_then_ls32_lower(st: Gathered)
    ensures
        spec_then_ls32(spec_lower_rest(st)) == spec_lower_rest(spec_then_ls32(st)),
{
    match st {
        Parsed::Success { token: _, stream } => {
            lemma_ls32_lower(stream);
        },
        _ => {},
    }
}

/// This alternative decodes the same address in either case.
proof fn lemma_ipv6_address_0_lower(s: Seq<u8>)
    ensures
        spec_ipv6_address_0(spec_lower_text(s)) == spec_lower_rest(spec_ipv6_address_0(s)),
{
    reveal(spec_ipv6_address_0);
    let st = spec_start(s);
    assert(spec_start(spec_lower_text(s)) == spec_lower_rest(st));
    lemma_then_h16_colon_lower(st);
    let st = spec_then_h16_colon(st);
    lemma_then_h16_colon_lower(st);
    let st = spec_then_h16_colon(st);
    lemma_then_h16_colon_lower(st);
    let st = spec_then_h16_colon(st);
    lemma_then_h16_colon_lower(st);
    let st = spec_then_h16_colon(st);
    lemma_then_h16_colon_lower(st);
    let st = spec_then_h16_colon(st);
    lemma_then_h16_colon_lower(st);
    let st = spec_then_h16_colon(st);
    lemma_then_ls32_lower(st);
    let st = spec_then_ls32(st);
}

/// This alternative decodes the same address in either case.
proof fn lemma_ipv6_address_1_lower(s: Seq<u8>)
    ensures
        spec_ipv6_address_1(spec_lower_text(s)) == spec_lower_rest(spec_ipv6_address_1(s)),
{
    reveal(spec_ipv6_address_1);
    let st = spec_start(s);
    assert(spec_start(spec_lower_text(s)) == spec_lower_rest(st));
    lemma_then_double_colon_lower(st);
    let st = spec_then_double_colon(st);
    lemma_then_h16_colon_lower(st);
    let st = spec_then_h16_colon(st);
    lemma_then_h16_colon_lower(st);
    let st = spec_then_h16_colon(st);
    lemma_then_h16_colon_lower(st);
    let st = spec_then_h16_colon(st);
    lemma_then_h16_colon_lower(st);
    let st = spec_then_h16_colon(st);
    lemma_then_h16_colon_lower(st);
    let st = spec_then_h16_colon(st);
    lemma_then_ls32_lower(st);
    let st = spec_then_ls32(st);
}

/// This alternative decodes the same address in either case.
proof fn lemma_ipv6_address_2_lower(s: Seq<u8>)
    ensures
        spec_ipv6_address_2(spec_lower_text(s)) == spec_lower_rest(spec_ipv6_address_2(s)),
{
    reveal(spec_ipv6_address_2);
    let st = spec_start(s);
    assert(spec_start(spec_lower_text(s)) == spec_lower_rest(st));
    lemma_then_opt_h16_lower(st);
    let st = spec_then_opt_h16(st);
    lemma_then_double_colon_lower(st);
    let st = spec_then_double_colon(st);
    lemma_then_h16_colon_lower(st);
    let st = spec_then_h16_colon(st);
    lemma_then_h16_colon_lower(st);
    let st = spec_then_h16_colon(st);
    lemma_then_h16_colon_lower(st);
    let st = spec_then_h16_colon(st);
    lemma_then_h16_colon_lower(st);
    let st = spec_then_h16_colon(st);
    lemma_then_ls32_lower(st);
    let st = spec_then_ls32(st);
}

/// This alternative decodes the same address in either case.
proof fn lemma_ipv6_address_3_lower(s: Seq<u8>)
    ensures
        spec_ipv6_address_3(spec_lower_text(s)) == spec_lower_rest(spec_ipv6_address_3(s)),
{
    reveal(spec_ipv6_address_3);
    let st = spec_start(s);
    assert(spec_start(spec_lower_text(s)) == spec_lower_rest(st));
    lemma_then_opt_h16_lower(st);
    let st = spec_then_opt_h16(st);
    lemma_then_opt_colon_h16_lower(st);
    let st = spec_then_opt_colon_h16(st);
    lemma_then_double_colon_lower(st);
    let st = spec_then_double_colon(st);
    lemma_then_h16_colon_lower(st);
    let st = spec_then_h16_colon(st);
    lemma_then_h16_colon_lower(st);
    let st = spec_then_h16_colon(st);
    lemma_then_h16_colon_lower(st);
    let st = spec_then_h16_colon(st);
    lemma_then_ls32_lower(st);
    let st = spec_then_ls32(st);
}

/// This alternative decodes the same address in either case.
proof fn lemma_ipv6_address_4_lower(s: Seq<u8>)
    ensures
        spec_ipv6_address_4(spec_lower_text(s)) == spec_lower_rest(spec_ipv6_address_4(s)),
{
    reveal(spec_ipv6_address_4);
    let st = spec_start(s);
    assert(spec_start(spec_lower_text(s)) == spec_lower_rest(st));
    lemma_then_opt_h16_lower(st);
    let st = spec_then_opt_h16(st);
    lemma_then_opt_colon_h16_lower(st);
    let st = spec_then_opt_colon_h16(st);
    lemma_then_opt_colon_h16_lower(st);
    let st = spec_then_opt_colon_h16(st);
    lemma_then_double_colon_lower(st);
    let st = spec_then_double_colon(st);
    lemma_then_h16_colon_lower(st);
    let st = spec_then_h16_colon(st);
    lemma_then_h16_colon_lower(st);
    let st = spec_then_h16_colon(st);
    lemma_then_ls32_lower(st);
    let st = spec_then_ls32(st);
}

/// This alternative decodes the same address in either case.
proof fn lemma_ipv6_address_5_lower(s: Seq<u8>)
    ensures
        spec_ipv6_address_5(spec_lower_text(s)) == spec_lower_rest(spec_ipv6_address_5(s)),
{
    reveal(spec_ipv6_address_5);
    let st = spec_start(s);
    assert(spec_start(spec_lower_text(s)) == spec_lower_rest(st));
    lemma_then_opt_h16_lower(st);
    let st = spec_then_opt_h16(st);
    lemma_then_opt_colon_h16_lower(st);
    let st = spec_then_opt_colon_h16(st);
    lemma_then_opt_colon_h16_lower(st);
    let st = spec_then_opt_colon_h16(st);
    lemma_then_opt_colon_h16_lower(st);
    let st = spec_then_opt_colon_h16(st);
    lemma_then_double_colon_lower(st);
    let st = spec_then_double_colon(st);
    lemma_then_h16_colon_lower(st);
    let st = spec_then_h16_colon(st);
    lemma_then_ls32_lower(st);
    let st = spec_then_ls32(st);
}

/// This alternative decodes the same address in either case.
proof fn lemma_ipv6_address_6_lower(s: Seq<u8>)
    ensures
        spec_ipv6_address_6(spec_lower_text(s)) == spec_lower_rest(spec_ipv6_address_6(s)),
{
    reveal(spec_ipv6_address_6);
    let st = spec_start(s);
    assert(spec_start(spec_lower_text(s)) == spec_lower_rest(st));
    lemma_then_opt_h16_lower(st);
    let st = spec_then_opt_h16(st);
    lemma_then_opt_colon_h16_lower(st);
    let st = spec_then_opt_colon_h16(st);
    lemma_then_opt_colon_h16_lower(st);
    let st = spec_then_opt_colon_h16(st);
    lemma_then_opt_colon_h16_lower(st);
    let st = spec_then_opt_colon_h16(st);
    lemma_then_opt_colon_h16_lower(st);
    let st = spec_then_opt_colon_h16(st);
    lemma_then_double_colon_lower(st);
    let st = spec_then_double_colon(st);
    lemma_then_ls32_lower(st);
    let st = spec_then_ls32(st);
}

/// This alternative decodes the same address in either case.
proof fn lemma_ipv6_address_7_lower(s: Seq<u8>)
    ensures
        spec_ipv6_address_7(spec_lower_text(s)) == spec_lower_rest(spec_ipv6_address_7(s)),
{
    reveal(spec_ipv6_address_7);
    let st = spec_start(s);
    assert(spec_start(spec_lower_text(s)) == spec_lower_rest(st));
    lemma_then_opt_h16_lower(st);
    let st = spec_then_opt_h16(st);
    lemma_then_opt_colon_h16_lower(st);
    let st = spec_then_opt_colon_h16(st);
    lemma_then_opt_colon_h16_lower(st);
    let st = spec_then_opt_colon_h16(st);
    lemma_then_opt_colon_h16_lower(st);
    let st = spec_then_opt_colon_h16(st);
    lemma_then_opt_colon_h16_lower(st);
    let st = spec_then_opt_colon_h16(st);
    lemma_then_opt_colon_h16_lower(st);
    let st = spec_then_opt_colon_h16(st);
    lemma_then_double_colon_lower(st);
    let st = spec_then_double_colon(st);
    lemma_then_h16_lower(st);
    let st = spec_then_h16(st);
}

/// This alternative decodes the same address in either case.
proof fn lemma_ipv6_address_8_lower(s: Seq<u8>)
    ensures
        spec_ipv6_address_8(spec_lower_text(s)) == spec_lower_rest(spec_ipv6_address_8(s)),
{
    reveal(spec_ipv6_address_8);
    let st = spec_start(s);
    assert(spec_start(spec_lower_text(s)) == spec_lower_rest(st));
    lemma_then_opt_h16_lower(st);
    let st = spec_then_opt_h16(st);
    lemma_then_opt_colon_h16_lower(st);
    let st = spec_then_opt_colon_h16(st);
    lemma_then_opt_colon_h16_lower(st);
    let st = spec_then_opt_colon_h16(st);
    lemma_then_opt_colon_h16_lower(st);
    let st = spec_then_opt_colon_h16(st);
    lemma_then_opt_colon_h16_lower(st);
    let st = spec_then_opt_colon_h16(st);
    lemma_then_opt_colon_h16_lower(st);
    let st = spec_then_opt_colon_h16(st);
    lemma_then_opt_colon_h16_lower(st);
    let st = spec_then_opt_colon_h16(st);
    lemma_then_double_colon_lower(st);
    let st = spec_then_double_colon(st);
}

/// The case of the hexadecimal digits of a text does not matter: a text
/// and the same text in lower case are decoded to the same address, or both
/// to none.
pub proof fn lemma_ipv6_address_ignores_case(s: Seq<u8>)
    ensures
        spec_ipv6_address(spec_lower_text(s)) == spec_lower_rest(spec_ipv6_address(s)),
{
    lemma_ipv6_address_0_lower(s);
    lemma_ipv6_address_1_lower(s);
    lemma_ipv6_address_2_lower(s);
    lemma_ipv6_address_3_lower(s);
    lemma_ipv6_address_4_lower(s);
    lemma_ipv6_address_5_lower(s);
    lemma_ipv6_address_6_lower(s);
    lemma_ipv6_address_7_lower(s);
    lemma_ipv6_address_8_lower(s);
}

} // verus!
