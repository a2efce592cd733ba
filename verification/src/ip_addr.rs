//! The textual forms of IPv4 and IPv6 addresses.
//!
//! Both grammars are ordered choices: the alternatives of a production are
//! tried in a fixed order on the same input, and the first that does not
//! fail decides. A fatal error of an alternative is the outcome of the whole
//! production: no later alternative is tried.

use vstd::prelude::*;
use vstd::string::StringExecFns;
use crate::address::{Ipv4Addr, Ipv6Addr};
use crate::cursor::{advance, is, spec_is};
use crate::parsed::Parsed;

verus! {

/// The character `0`.
pub const CHAR_0: u8 = 0x30;

/// The character `1`.
pub const CHAR_1: u8 = 0x31;

/// The character `2`.
pub const CHAR_2: u8 = 0x32;

/// The character `5`.
pub const CHAR_5: u8 = 0x35;

/// The character `9`.
pub const CHAR_9: u8 = 0x39;

/// The character `.`.
pub const DOT: u8 = 0x2e;

/// The character `:`.
pub const COLON: u8 = 0x3a;

/// The character `[`.
pub const BRACKET_OPEN: u8 = 0x5b;

/// The character `]`.
pub const BRACKET_CLOSE: u8 = 0x5d;

/// The character `A`.
pub const UPPER_A: u8 = 0x41;

/// The character `F`.
pub const UPPER_F: u8 = 0x46;

/// The character `a`.
pub const LOWER_A: u8 = 0x61;

/// The character `f`.
pub const LOWER_F: u8 = 0x66;

/// Why a text can never be an IP address.
#[derive(Clone, Copy, Debug, PartialEq, Eq, Structural)]
pub enum IpAddrAtom {
    /// A decimal number of an IPv4 address is larger than 255.
    NotAnOctet,
    /// A decimal number of an IPv4 address starts with a zero that another
    /// digit follows.
    LeadingZero,
}

impl IpAddrAtom {
    /// The text that describes the error.
    pub open spec fn spec_to_string(self) -> Seq<char> {
        match self {
            IpAddrAtom::NotAnOctet => "IpAddr: NotAnOctet"@,
            IpAddrAtom::LeadingZero => "IpAddr: LeadingZero"@,
        }
    }

    /// Describes the error in words.
    pub fn to_string(&self) -> (r: String)
        ensures
            r@ == self.spec_to_string(),
    {
        match self {
            IpAddrAtom::NotAnOctet => String::from_str("IpAddr: NotAnOctet"),
            IpAddrAtom::LeadingZero => String::from_str("IpAddr: LeadingZero"),
        }
    }
}

/// The outcome `first` of an alternative, or `second` where `first` failed.
pub open spec fn spec_or<T>(
    first: Parsed<T, Seq<u8>, IpAddrAtom>,
    second: Parsed<T, Seq<u8>, IpAddrAtom>,
) -> Parsed<T, Seq<u8>, IpAddrAtom> {
    if first is Failure {
        second
    } else {
        first
    }
}

/// True when `b` is one of the characters `0` to `9`.
pub open spec fn spec_is_digit(b: u8) -> bool {
    CHAR_0 <= b <= CHAR_9
}

/// What [`to_digit`] returns on input `s`.
pub open spec fn spec_to_digit(s: Seq<u8>) -> Parsed<u8, Seq<u8>, IpAddrAtom> {
    if s.len() >= 1 && spec_is_digit(s[0]) {
        Parsed::Success { token: (s[0] - CHAR_0) as u8, stream: s.skip(1) }
    } else {
        Parsed::Failure
    }
}

/// What [`dec_octet_0`] returns on input `s`: `25` and one digit, which
/// must not make the number larger than 255.
pub open spec fn spec_dec_octet_0(s: Seq<u8>) -> Parsed<u8, Seq<u8>, IpAddrAtom> {
    if s.len() >= 3 && s[0] == CHAR_2 && s[1] == CHAR_5 && spec_is_digit(s[2]) {
        if 250 + (s[2] - CHAR_0) <= 255 {
            Parsed::Success { token: (250 + (s[2] - CHAR_0)) as u8, stream: s.skip(3) }
        } else {
            Parsed::Error(IpAddrAtom::NotAnOctet)
        }
    } else {
        Parsed::Failure
    }
}

/// What [`dec_octet_1`] returns on input `s`: `2` and two digits, which
/// must not make the number larger than 255.
pub open spec fn spec_dec_octet_1(s: Seq<u8>) -> Parsed<u8, Seq<u8>, IpAddrAtom> {
    if s.len() >= 3 && s[0] == CHAR_2 && spec_is_digit(s[1]) && spec_is_digit(s[2]) {
        if 200 + (s[1] - CHAR_0) * 10 + (s[2] - CHAR_0) <= 255 {
            Parsed::Success {
                token: (200 + (s[1] - CHAR_0) * 10 + (s[2] - CHAR_0)) as u8,
                stream: s.skip(3),
            }
        } else {
            Parsed::Error(IpAddrAtom::NotAnOctet)
        }
    } else {
        Parsed::Failure
    }
}

/// What [`dec_octet_2`] returns on input `s`: `1` and two digits.
pub open spec fn spec_dec_octet_2(s: Seq<u8>) -> Parsed<u8, Seq<u8>, IpAddrAtom> {
    if s.len() >= 3 && s[0] == CHAR_1 && spec_is_digit(s[1]) && spec_is_digit(s[2]) {
        Parsed::Success {
            token: (100 + (s[1] - CHAR_0) * 10 + (s[2] - CHAR_0)) as u8,
            stream: s.skip(3),
        }
    } else {
        Parsed::Failure
    }
}

/// What [`dec_octet_3`] returns on input `s`: two digits, the first of
/// which must not be `0`.
pub open spec fn spec_dec_octet_3(s: Seq<u8>) -> Parsed<u8, Seq<u8>, IpAddrAtom> {
    if s.len() >= 2 && spec_is_digit(s[0]) && spec_is_digit(s[1]) {
        if s[0] == CHAR_0 {
            Parsed::Error(IpAddrAtom::LeadingZero)
        } else {
            Parsed::Success {
                token: ((s[0] - CHAR_0) * 10 + (s[1] - CHAR_0)) as u8,
                stream: s.skip(2),
            }
        }
    } else {
        Parsed::Failure
    }
}

/// What [`dec_octet_4`] returns on input `s`: one digit.
pub open spec fn spec_dec_octet_4(s: Seq<u8>) -> Parsed<u8, Seq<u8>, IpAddrAtom> {
    spec_to_digit(s)
}

/// What [`dec_octet`] returns on input `s`: the first of the five forms of
/// a decimal octet that does not fail, the three-digit forms first.
#[verifier::opaque]
pub open spec fn spec_dec_octet(s: Seq<u8>) -> Parsed<u8, Seq<u8>, IpAddrAtom> {
    spec_or(
        spec_dec_octet_0(s),
        spec_or(
            spec_dec_octet_1(s),
            spec_or(spec_dec_octet_2(s), spec_or(spec_dec_octet_3(s), spec_dec_octet_4(s))),
        ),
    )
}

/// What [`dec_octet_dot`] returns on input `s`: a decimal octet and the
/// `.` that follows it.
pub open spec fn spec_dec_octet_dot(s: Seq<u8>) -> Parsed<u8, Seq<u8>, IpAddrAtom> {
    match spec_dec_octet(s) {
        Parsed::Success { token, stream } => match spec_is::<IpAddrAtom>(stream, DOT) {
            Parsed::Success { token: _, stream } => Parsed::Success { token, stream },
            Parsed::Failure => Parsed::Failure,
            Parsed::Error(atom) => Parsed::Error(atom),
        },
        Parsed::Failure => Parsed::Failure,
        Parsed::Error(atom) => Parsed::Error(atom),
    }
}

/// What [`ipv4_address`] returns on input `s`: four decimal octets with a
/// `.` between them.
#[verifier::opaque]
pub open spec fn spec_ipv4_address(s: Seq<u8>) -> Parsed<Ipv4Addr, Seq<u8>, IpAddrAtom> {
    match spec_dec_octet_dot(s) {
        Parsed::Success { token: a, stream } => match spec_dec_octet_dot(stream) {
            Parsed::Success { token: b, stream } => match spec_dec_octet_dot(stream) {
                Parsed::Success { token: c, stream } => match spec_dec_octet(stream) {
                    Parsed::Success { token: d, stream } => Parsed::Success {
                        token: Ipv4Addr::spec_new(a, b, c, d),
                        stream,
                    },
                    Parsed::Failure => Parsed::Failure,
                    Parsed::Error(atom) => Parsed::Error(atom),
                },
                Parsed::Failure => Parsed::Failure,
                Parsed::Error(atom) => Parsed::Error(atom),
            },
            Parsed::Failure => Parsed::Failure,
            Parsed::Error(atom) => Parsed::Error(atom),
        },
        Parsed::Failure => Parsed::Failure,
        Parsed::Error(atom) => Parsed::Error(atom),
    }
}

/// Reads one of the characters `0` to `9` and returns its value.
pub fn to_digit<'a>(stream: &'a [u8]) -> (r: Parsed<u8, &'a [u8], IpAddrAtom>)
    ensures
        r@ == spec_to_digit(stream@),
{
    if stream.len() >= 1 && CHAR_0 <= stream[0] && stream[0] <= CHAR_9 {
        Parsed::Success { token: stream[0] - CHAR_0, stream: advance(stream, 1) }
    } else {
        Parsed::Failure
    }
}

/// The form `25x` of a decimal octet: 250 to 255.
pub fn dec_octet_0<'a>(stream: &'a [u8]) -> (r: Parsed<u8, &'a [u8], IpAddrAtom>)
    ensures
        r@ == spec_dec_octet_0(stream@),
{
    let ghost s = stream@;
    let stream = match is::<IpAddrAtom>(stream, CHAR_2) {
        Parsed::Success { token: _, stream } => stream,
        Parsed::Failure => return Parsed::Failure,
        Parsed::Error(atom) => return Parsed::Error(atom),
    };
    let stream = match is::<IpAddrAtom>(stream, CHAR_5) {
        Parsed::Success { token: _, stream } => stream,
        Parsed::Failure => return Parsed::Failure,
        Parsed::Error(atom) => return Parsed::Error(atom),
    };
    let (c, stream) = match to_digit(stream) {
        Parsed::Success { token, stream } => (token, stream),
        Parsed::Failure => return Parsed::Failure,
        Parsed::Error(atom) => return Parsed::Error(atom),
    };
    assert(stream@ =~= s.skip(3));
    match 250u8.checked_add(c) {
        Some(token) => Parsed::Success { token, stream },
        None => Parsed::Error(IpAddrAtom::NotAnOctet),
    }
}

/// The form `2xx` of a decimal octet: 200 to 249.
pub fn dec_octet_1<'a>(stream: &'a [u8]) -> (r: Parsed<u8, &'a [u8], IpAddrAtom>)
    ensures
        r@ == spec_dec_octet_1(stream@),
{
    let ghost s = stream@;
    let stream = match is::<IpAddrAtom>(stream, CHAR_2) {
        Parsed::Success { token: _, stream } => stream,
        Parsed::Failure => return Parsed::Failure,
        Parsed::Error(atom) => return Parsed::Error(atom),
    };
    let (b, stream) = match to_digit(stream) {
        Parsed::Success { token, stream } => (token, stream),
        Parsed::Failure => return Parsed::Failure,
        Parsed::Error(atom) => return Parsed::Error(atom),
    };
    let (c, stream) = match to_digit(stream) {
        Parsed::Success { token, stream } => (token, stream),
        Parsed::Failure => return Parsed::Failure,
        Parsed::Error(atom) => return Parsed::Error(atom),
    };
    assert(stream@ =~= s.skip(3));
    match 200u8.checked_add(b * 10 + c) {
        Some(token) => Parsed::Success { token, stream },
        None => Parsed::Error(IpAddrAtom::NotAnOctet),
    }
}

/// The form `1xx` of a decimal octet: 100 to 199.
pub fn dec_octet_2<'a>(stream: &'a [u8]) -> (r: Parsed<u8, &'a [u8], IpAddrAtom>)
    ensures
        r@ == spec_dec_octet_2(stream@),
{
    let ghost s = stream@;
    let stream = match is::<IpAddrAtom>(stream, CHAR_1) {
        Parsed::Success { token: _, stream } => stream,
        Parsed::Failure => return Parsed::Failure,
        Parsed::Error(atom) => return Parsed::Error(atom),
    };
    let (b, stream) = match to_digit(stream) {
        Parsed::Success { token, stream } => (token, stream),
        Parsed::Failure => return Parsed::Failure,
        Parsed::Error(atom) => return Parsed::Error(atom),
    };
    let (c, stream) = match to_digit(stream) {
        Parsed::Success { token, stream } => (token, stream),
        Parsed::Failure => return Parsed::Failure,
        Parsed::Error(atom) => return Parsed::Error(atom),
    };
    assert(stream@ =~= s.skip(3));
    match 100u8.checked_add(b * 10 + c) {
        Some(token) => Parsed::Success { token, stream },
        None => Parsed::Error(IpAddrAtom::NotAnOctet),
    }
}

/// The form `xx` of a decimal octet: 10 to 99. A first digit `0` is a fatal
/// error.
pub fn dec_octet_3<'a>(stream: &'a [u8]) -> (r: Parsed<u8, &'a [u8], IpAddrAtom>)
    ensures
        r@ == spec_dec_octet_3(stream@),
{
    let ghost s = stream@;
    let (a, stream) = match to_digit(stream) {
        Parsed::Success { token, stream } => (token, stream),
        Parsed::Failure => return Parsed::Failure,
        Parsed::Error(atom) => return Parsed::Error(atom),
    };
    let (b, stream) = match to_digit(stream) {
        Parsed::Success { token, stream } => (token, stream),
        Parsed::Failure => return Parsed::Failure,
        Parsed::Error(atom) => return Parsed::Error(atom),
    };
    assert(stream@ =~= s.skip(2));
    if a == 0 {
        Parsed::Error(IpAddrAtom::LeadingZero)
    } else {
        Parsed::Success { token: a * 10 + b, stream }
    }
}

/// The form `x` of a decimal octet: 0 to 9.
pub fn dec_octet_4<'a>(stream: &'a [u8]) -> (r: Parsed<u8, &'a [u8], IpAddrAtom>)
    ensures
        r@ == spec_dec_octet_4(stream@),
{
    to_digit(stream)
}

/// Decodes a decimal octet: a number from 0 to 255 without a leading zero.
///
/// The five forms are tried in this order: `25x`, `2xx`, `1xx`, `xx`, `x`.
/// A number larger than 255 and a leading zero are fatal errors.
pub fn dec_octet<'a>(stream: &'a [u8]) -> (r: Parsed<u8, &'a [u8], IpAddrAtom>)
    ensures
        r@ == spec_dec_octet(stream@),
{
    proof {
        reveal(spec_dec_octet);
    }
    match dec_octet_0(stream) {
        Parsed::Failure => {},
        other => return other,
    }
    match dec_octet_1(stream) {
        Parsed::Failure => {},
        other => return other,
    }
    match dec_octet_2(stream) {
        Parsed::Failure => {},
        other => return other,
    }
    match dec_octet_3(stream) {
        Parsed::Failure => {},
        other => return other,
    }
    dec_octet_4(stream)
}

/// Decodes a decimal octet and the `.` that follows it.
pub fn dec_octet_dot<'a>(stream: &'a [u8]) -> (r: Parsed<u8, &'a [u8], IpAddrAtom>)
    ensures
        r@ == spec_dec_octet_dot(stream@),
{
    match dec_octet(stream) {
        Parsed::Success { token, stream } => match is::<IpAddrAtom>(stream, DOT) {
            Parsed::Success { token: _, stream } => Parsed::Success { token, stream },
            Parsed::Failure => Parsed::Failure,
            Parsed::Error(atom) => Parsed::Error(atom),
        },
        Parsed::Failure => Parsed::Failure,
        Parsed::Error(atom) => Parsed::Error(atom),
    }
}

/// Decodes an IPv4 address in dotted-quad form: four decimal octets with a
/// `.` between them. What follows the fourth octet is left unread.
pub fn ipv4_address<'a>(stream: &'a [u8]) -> (r: Parsed<Ipv4Addr, &'a [u8], IpAddrAtom>)
    ensures
        r@ == spec_ipv4_address(stream@),
{
    proof {
        reveal(spec_ipv4_address);
    }
    let (a, stream) = match dec_octet_dot(stream) {
        Parsed::Success { token, stream } => (token, stream),
        Parsed::Failure => return Parsed::Failure,
        Parsed::Error(atom) => return Parsed::Error(atom),
    };
    let (b, stream) = match dec_octet_dot(stream) {
        Parsed::Success { token, stream } => (token, stream),
        Parsed::Failure => return Parsed::Failure,
        Parsed::Error(atom) => return Parsed::Error(atom),
    };
    let (c, stream) = match dec_octet_dot(stream) {
        Parsed::Success { token, stream } => (token, stream),
        Parsed::Failure => return Parsed::Failure,
        Parsed::Error(atom) => return Parsed::Error(atom),
    };
    let (d, stream) = match dec_octet(stream) {
        Parsed::Success { token, stream } => (token, stream),
        Parsed::Failure => return Parsed::Failure,
        Parsed::Error(atom) => return Parsed::Error(atom),
    };
    Parsed::Success { token: Ipv4Addr::new(a, b, c, d), stream }
}

/// True when `b` is a hexadecimal digit, in either case.
pub open spec fn spec_is_hex(b: u8) -> bool {
    (CHAR_0 <= b <= CHAR_9) || (UPPER_A <= b <= UPPER_F) || (LOWER_A <= b <= LOWER_F)
}

/// The value of the hexadecimal digit `b`.
pub open spec fn spec_hex_value(b: u8) -> int
    recommends
        spec_is_hex(b),
{
    if b <= CHAR_9 {
        b - CHAR_0
    } else if b <= UPPER_F {
        b - UPPER_A + 10
    } else {
        b - LOWER_A + 10
    }
}

/// Number of hexadecimal digits at the front of `s`, four at most.
pub open spec fn spec_h16_len(s: Seq<u8>) -> int {
    if !(s.len() >= 1 && spec_is_hex(s[0])) {
        0
    } else if !(s.len() >= 2 && spec_is_hex(s[1])) {
        1
    } else if !(s.len() >= 3 && spec_is_hex(s[2])) {
        2
    } else if !(s.len() >= 4 && spec_is_hex(s[3])) {
        3
    } else {
        4
    }
}

/// The number that the first `n` characters of `s` denote in base 16.
pub open spec fn spec_h16_value(s: Seq<u8>, n: int) -> int
    recommends
        0 <= n <= s.len(),
    decreases n,
{
    if n <= 0 {
        0
    } else {
        spec_h16_value(s, n - 1) * 16 + spec_hex_value(s[n - 1])
    }
}

/// What [`h16`] returns on input `s`: the group that the one to four
/// hexadecimal digits at the front of `s` denote.
#[verifier::opaque]
pub open spec fn spec_h16(s: Seq<u8>) -> Parsed<u16, Seq<u8>, IpAddrAtom> {
    if spec_h16_len(s) == 0 {
        Parsed::Failure
    } else {
        Parsed::Success {
            token: spec_h16_value(s, spec_h16_len(s)) as u16,
            stream: s.skip(spec_h16_len(s)),
        }
    }
}

/// What [`h16_colon`] returns on input `s`: a group and the `:` that
/// follows it.
pub open spec fn spec_h16_colon(s: Seq<u8>) -> Parsed<u16, Seq<u8>, IpAddrAtom> {
    match spec_h16(s) {
        Parsed::Success { token, stream } => match spec_is::<IpAddrAtom>(stream, COLON) {
            Parsed::Success { token: _, stream } => Parsed::Success { token, stream },
            Parsed::Failure => Parsed::Failure,
            Parsed::Error(atom) => Parsed::Error(atom),
        },
        Parsed::Failure => Parsed::Failure,
        Parsed::Error(atom) => Parsed::Error(atom),
    }
}

/// What [`colon_h16`] returns on input `s`: a `:` and the group that
/// follows it.
pub open spec fn spec_colon_h16(s: Seq<u8>) -> Parsed<u16, Seq<u8>, IpAddrAtom> {
    match spec_is::<IpAddrAtom>(s, COLON) {
        Parsed::Success { token: _, stream } => spec_h16(stream),
        Parsed::Failure => Parsed::Failure,
        Parsed::Error(atom) => Parsed::Error(atom),
    }
}

/// What [`double_colon`] returns on input `s`: the mark `::`.
pub open spec fn spec_double_colon(s: Seq<u8>) -> Parsed<(), Seq<u8>, IpAddrAtom> {
    if s.len() >= 2 && s[0] == COLON && s[1] == COLON {
        Parsed::Success { token: (), stream: s.skip(2) }
    } else {
        Parsed::Failure
    }
}

/// The two groups that hold the 32 bits of an IPv4 address.
pub open spec fn spec_ipv4_groups(addr: Ipv4Addr) -> (u16, u16) {
    ((addr.bits / 0x1_0000) as u16, (addr.bits % 0x1_0000) as u16)
}

/// What [`ls32`] returns on input `s`: the last two groups of an address,
/// written as two groups with a `:` between them or, where that form fails,
/// as an IPv4 address.
#[verifier::opaque]
pub open spec fn spec_ls32(s: Seq<u8>) -> Parsed<(u16, u16), Seq<u8>, IpAddrAtom> {
    let groups: Parsed<(u16, u16), Seq<u8>, IpAddrAtom> = match spec_h16(s) {
        Parsed::Success { token: g, stream } => match spec_colon_h16(stream) {
            Parsed::Success { token: h, stream } => Parsed::Success { token: (g, h), stream },
            Parsed::Failure => Parsed::Failure,
            Parsed::Error(atom) => Parsed::Error(atom),
        },
        Parsed::Failure => Parsed::Failure,
        Parsed::Error(atom) => Parsed::Error(atom),
    };
    let quad: Parsed<(u16, u16), Seq<u8>, IpAddrAtom> = match spec_ipv4_address(s) {
        Parsed::Success { token, stream } => Parsed::Success {
            token: spec_ipv4_groups(token),
            stream,
        },
        Parsed::Failure => Parsed::Failure,
        Parsed::Error(atom) => Parsed::Error(atom),
    };
    spec_or(groups, quad)
}

/// The value of the hexadecimal digit at the front of `stream`, where there
/// is one.
fn hex_digit(stream: &[u8]) -> (r: Option<u16>)
    ensures
        r is Some <==> stream@.len() >= 1 && spec_is_hex(stream@[0]),
        r is Some ==> r->0 == spec_hex_value(stream@[0]),
{
    if stream.len() < 1 {
        return None;
    }
    let b: u8 = stream[0];
    if CHAR_0 <= b && b <= CHAR_9 {
        Some((b - CHAR_0) as u16)
    } else if UPPER_A <= b && b <= UPPER_F {
        Some((b - UPPER_A + 10) as u16)
    } else if LOWER_A <= b && b <= LOWER_F {
        Some((b - LOWER_A + 10) as u16)
    } else {
        None
    }
}

/// Decodes a group of an IPv6 address: one to four hexadecimal digits, in
/// either case. A fifth digit is left unread.
pub fn h16<'a>(stream: &'a [u8]) -> (r: Parsed<u16, &'a [u8], IpAddrAtom>)
    ensures
        r@ == spec_h16(stream@),
        !(r is Error),
{
    proof {
        reveal(spec_h16);
    }
    let ghost s = stream@;
    let mut value: u16 = match hex_digit(stream) {
        Some(digit) => digit,
        None => return Parsed::Failure,
    };
    let mut rest: &'a [u8] = advance(stream, 1);
    let mut n: usize = 1;
    reveal_with_fuel(spec_h16_value, 5);
    while n < 4
        invariant
            s == stream@,
            1 <= n <= 4,
            n <= s.len(),
            rest@ == s.skip(n as int),
            forall|i: int| 0 <= i < n ==> spec_is_hex(#[trigger] s[i]),
            value == spec_h16_value(s, n as int),
            n <= 3 ==> value < 0x1000,
            n <= 2 ==> value < 0x100,
            n <= 1 ==> value < 0x10,
        decreases 4 - n,
    {
        match hex_digit(rest) {
            Some(digit) => {
                value = value * 16 + digit;
                rest = advance(rest, 1);
                assert(rest@ =~= s.skip(n + 1));
                n = n + 1;
            },
            None => {
                proof {
                    reveal(spec_h16);
                }
                assert(spec_h16_len(s) == n);
                return Parsed::Success { token: value, stream: rest };
            },
        }
    }
    assert(spec_h16_len(s) == 4);
    Parsed::Success { token: value, stream: rest }
}

/// Decodes a group and the `:` that follows it.
pub fn h16_colon<'a>(stream: &'a [u8]) -> (r: Parsed<u16, &'a [u8], IpAddrAtom>)
    ensures
        r@ == spec_h16_colon(stream@),
        !(r is Error),
{
    match h16(stream) {
        Parsed::Success { token, stream } => match is::<IpAddrAtom>(stream, COLON) {
            Parsed::Success { token: _, stream } => Parsed::Success { token, stream },
            _ => Parsed::Failure,
        },
        _ => Parsed::Failure,
    }
}

/// Decodes a `:` and the group that follows it.
pub fn colon_h16<'a>(stream: &'a [u8]) -> (r: Parsed<u16, &'a [u8], IpAddrAtom>)
    ensures
        r@ == spec_colon_h16(stream@),
        !(r is Error),
{
    match is::<IpAddrAtom>(stream, COLON) {
        Parsed::Success { token: _, stream } => h16(stream),
        _ => Parsed::Failure,
    }
}

/// Decodes the mark `::`, which stands for one or more groups of zeros.
pub fn double_colon<'a>(stream: &'a [u8]) -> (r: Parsed<(), &'a [u8], IpAddrAtom>)
    ensures
        r@ == spec_double_colon(stream@),
        !(r is Error),
{
    let ghost s = stream@;
    match is::<IpAddrAtom>(stream, COLON) {
        Parsed::Success { token: _, stream } => match is::<IpAddrAtom>(stream, COLON) {
            Parsed::Success { token: _, stream } => {
                assert(stream@ =~= s.skip(2));
                Parsed::Success { token: (), stream }
            },
            _ => Parsed::Failure,
        },
        _ => Parsed::Failure,
    }
}

/// Decodes the last 32 bits of an IPv6 address: two groups with a `:`
/// between them or, where that form fails, an IPv4 address in dotted-quad
/// form.
pub fn ls32<'a>(stream: &'a [u8]) -> (r: Parsed<(u16, u16), &'a [u8], IpAddrAtom>)
    ensures
        r@ == spec_ls32(stream@),
{
    proof {
        reveal(spec_ls32);
    }
    match h16(stream) {
        Parsed::Success { token: g, stream: rest } => match colon_h16(rest) {
            Parsed::Success { token: h, stream: rest } => {
                return Parsed::Success { token: (g, h), stream: rest };
            },
            _ => {},
        },
        _ => {},
    }
    match ipv4_address(stream) {
        Parsed::Success { token, stream } => {
            let bits: u32 = token.to_bits();
            Parsed::Success {
                token: ((bits / 0x1_0000) as u16, (bits % 0x1_0000) as u16),
                stream,
            }
        },
        Parsed::Failure => Parsed::Failure,
        Parsed::Error(atom) => Parsed::Error(atom),
    }
}

/// The groups that one alternative of the IPv6 grammar has gathered so
/// far: the first `len` entries of `segments`.
#[derive(Clone, Copy, Debug)]
pub struct Groups {
    /// Room for the eight groups of an address.
    pub segments: [u16; 8],
    /// Number of groups gathered.
    pub len: usize,
}

impl View for Groups {
    type V = Seq<u16>;

    open spec fn view(&self) -> Seq<u16> {
        self.segments@.take(self.len as int)
    }
}

impl Groups {
    /// No group yet: the room for the eight groups holds zeros.
    pub fn new() -> (r: Groups)
        ensures
            r.len == 0,
            r.segments@ == Seq::new(8, |i: int| 0u16),
            r@ == Seq::<u16>::empty(),
    {
        let r = Groups { segments: [0u16; 8], len: 0 };
        assert(r.segments@ =~= Seq::new(8, |i: int| 0u16));
        assert(r@ =~= Seq::<u16>::empty());
        r
    }

    /// These groups and `group` after them.
    pub fn push(self, group: u16) -> (r: Groups)
        requires
            self.len < 8,
        ensures
            r.len == self.len + 1,
            r@ == self@.push(group),
    {
        let mut segments: [u16; 8] = self.segments;
        segments[self.len] = group;
        let r = Groups { segments, len: self.len + 1 };
        assert(r@ =~= self@.push(group));
        r
    }
}

/// The state of one alternative of the IPv6 grammar in a contract: the
/// groups gathered so far and the input that is left, or the outcome that
/// ended the alternative.
pub type Gathered = Parsed<Seq<u16>, Seq<u8>, IpAddrAtom>;

/// The state of an alternative before its first step.
pub open spec fn spec_start(s: Seq<u8>) -> Gathered {
    Parsed::Success { token: Seq::empty(), stream: s }
}

/// The state after a step that must decode a group: `groups` and the group
/// of `item`, or the outcome of `item` where it is no success.
pub open spec fn spec_push(groups: Seq<u16>, item: Parsed<u16, Seq<u8>, IpAddrAtom>) -> Gathered {
    match item {
        Parsed::Success { token, stream } => Parsed::Success { token: groups.push(token), stream },
        Parsed::Failure => Parsed::Failure,
        Parsed::Error(atom) => Parsed::Error(atom),
    }
}

/// The state after a step that may decode a group: where `item` failed, the
/// group is zero and the input `stream` is left as it was.
pub open spec fn spec_push_opt(
    groups: Seq<u16>,
    stream: Seq<u8>,
    item: Parsed<u16, Seq<u8>, IpAddrAtom>,
) -> Gathered {
    match item {
        Parsed::Success { token, stream: rest } => Parsed::Success {
            token: groups.push(token),
            stream: rest,
        },
        Parsed::Failure => Parsed::Success { token: groups.push(0), stream },
        Parsed::Error(atom) => Parsed::Error(atom),
    }
}

/// The state `st` after a step that decodes a group and the `:` that
/// follows it.
pub open spec fn spec_then_h16_colon(st: Gathered) -> Gathered {
    match st {
        Parsed::Success { token, stream } => spec_push(token, spec_h16_colon(stream)),
        other => other,
    }
}

/// The state `st` after a step that decodes a group.
pub open spec fn spec_then_h16(st: Gathered) -> Gathered {
    match st {
        Parsed::Success { token, stream } => spec_push(token, spec_h16(stream)),
        other => other,
    }
}

/// The state `st` after a step that decodes a group where the input holds
/// one, and counts a zero where it does not.
pub open spec fn spec_then_opt_h16(st: Gathered) -> Gathered {
    match st {
        Parsed::Success { token, stream } => spec_push_opt(token, stream, spec_h16(stream)),
        other => other,
    }
}

/// The state `st` after a step that decodes a `:` and a group where the
/// input holds them, and counts a zero where it does not.
pub open spec fn spec_then_opt_colon_h16(st: Gathered) -> Gathered {
    match st {
        Parsed::Success { token, stream } => spec_push_opt(token, stream, spec_colon_h16(stream)),
        other => other,
    }
}

/// The state `st` after a step that decodes the mark `::`, which counts as
/// one group of zeros.
pub open spec fn spec_then_double_colon(st: Gathered) -> Gathered {
    match st {
        Parsed::Success { token, stream } => match spec_double_colon(stream) {
            Parsed::Success { token: _, stream: rest } => Parsed::Success {
                token: token.push(0),
                stream: rest,
            },
            Parsed::Failure => Parsed::Failure,
            Parsed::Error(atom) => Parsed::Error(atom),
        },
        other => other,
    }
}

/// The state `st` after a step that decodes the last 32 bits: two groups.
pub open spec fn spec_then_ls32(st: Gathered) -> Gathered {
    match st {
        Parsed::Success { token, stream } => match spec_ls32(stream) {
            Parsed::Success { token: pair, stream: rest } => Parsed::Success {
                token: token.push(pair.0).push(pair.1),
                stream: rest,
            },
            Parsed::Failure => Parsed::Failure,
            Parsed::Error(atom) => Parsed::Error(atom),
        },
        other => other,
    }
}

/// The outcome of an alternative whose last state is `st`: the address made
/// of the eight groups gathered.
pub open spec fn spec_finish(st: Gathered) -> Parsed<Ipv6Addr, Seq<u8>, IpAddrAtom> {
    match st {
        Parsed::Success { token, stream } => {
            if token.len() == 8 {
                Parsed::Success {
                    token: Ipv6Addr::spec_new(
                        token[0],
                        token[1],
                        token[2],
                        token[3],
                        token[4],
                        token[5],
                        token[6],
                        token[7],
                    ),
                    stream,
                }
            } else {
                Parsed::Failure
            }
        },
        Parsed::Failure => Parsed::Failure,
        Parsed::Error(atom) => Parsed::Error(atom),
    }
}

/// What [`ipv6_address_0`] returns on input `s`: eight groups in full, without the mark `::`.
///
/// ```text
/// 6( h16 ":" ) ls32
/// ```
#[verifier::opaque]
pub open spec fn spec_ipv6_address_0(s: Seq<u8>) -> Parsed<Ipv6Addr, Seq<u8>, IpAddrAtom> {
    let st = spec_start(s);
    let st = spec_then_h16_colon(st);
    let st = spec_then_h16_colon(st);
    let st = spec_then_h16_colon(st);
    let st = spec_then_h16_colon(st);
    let st = spec_then_h16_colon(st);
    let st = spec_then_h16_colon(st);
    let st = spec_then_ls32(st);
    spec_finish(st)
}

/// What [`ipv6_address_1`] returns on input `s`: the mark `::` first, then seven groups.
///
/// ```text
/// "::" 5( h16 ":" ) ls32
/// ```
#[verifier::opaque]
pub open spec fn spec_ipv6_address_1(s: Seq<u8>) -> Parsed<Ipv6Addr, Seq<u8>, IpAddrAtom> {
    let st = spec_start(s);
    let st = spec_then_double_colon(st);
    let st = spec_then_h16_colon(st);
    let st = spec_then_h16_colon(st);
    let st = spec_then_h16_colon(st);
    let st = spec_then_h16_colon(st);
    let st = spec_then_h16_colon(st);
    let st = spec_then_ls32(st);
    spec_finish(st)
}

/// What [`ipv6_address_2`] returns on input `s`: at most one group, the mark `::`, then six groups.
///
/// ```text
/// [ h16 ] "::" 4( h16 ":" ) ls32
/// ```
#[verifier::opaque]
pub open spec fn spec_ipv6_address_2(s: Seq<u8>) -> Parsed<Ipv6Addr, Seq<u8>, IpAddrAtom> {
    let st = spec_start(s);
    let st = spec_then_opt_h16(st);
    let st = spec_then_double_colon(st);
    let st = spec_then_h16_colon(st);
    let st = spec_then_h16_colon(st);
    let st = spec_then_h16_colon(st);
    let st = spec_then_h16_colon(st);
    let st = spec_then_ls32(st);
    spec_finish(st)
}

/// What [`ipv6_address_3`] returns on input `s`: at most two groups, the mark `::`, then five groups.
///
/// ```text
/// [ *1( h16 ":" ) h16 ] "::" 3( h16 ":" ) ls32
/// ```
#[verifier::opaque]
pub open spec fn spec_ipv6_address_3(s: Seq<u8>) -> Parsed<Ipv6Addr, Seq<u8>, IpAddrAtom> {
    let st = spec_start(s);
    let st = spec_then_opt_h16(st);
    let st = spec_then_opt_colon_h16(st);
    let st = spec_then_double_colon(st);
    let st = spec_then_h16_colon(st);
    let st = spec_then_h16_colon(st);
    let st = spec_then_h16_colon(st);
    let st = spec_then_ls32(st);
    spec_finish(st)
}

/// What [`ipv6_address_4`] returns on input `s`: at most three groups, the mark `::`, then four groups.
///
/// ```text
/// [ *2( h16 ":" ) h16 ] "::" 2( h16 ":" ) ls32
/// ```
#[verifier::opaque]
pub open spec fn spec_ipv6_address_4(s: Seq<u8>) -> Parsed<Ipv6Addr, Seq<u8>, IpAddrAtom> {
    let st = spec_start(s);
    let st = spec_then_opt_h16(st);
    let st = spec_then_opt_colon_h16(st);
    let st = spec_then_opt_colon_h16(st);
    let st = spec_then_double_colon(st);
    let st = spec_then_h16_colon(st);
    let st = spec_then_h16_colon(st);
    let st = spec_then_ls32(st);
    spec_finish(st)
}

/// What [`ipv6_address_5`] returns on input `s`: at most four groups, the mark `::`, then three groups.
///
/// ```text
/// [ *3( h16 ":" ) h16 ] "::" h16 ":" ls32
/// ```
#[verifier::opaque]
pub open spec fn spec_ipv6_address_5(s: Seq<u8>) -> Parsed<Ipv6Addr, Seq<u8>, IpAddrAtom> {
    let st = spec_start(s);
    let st = spec_then_opt_h16(st);
    let st = spec_then_opt_colon_h16(st);
    let st = spec_then_opt_colon_h16(st);
    let st = spec_then_opt_colon_h16(st);
    let st = spec_then_double_colon(st);
    let st = spec_then_h16_colon(st);
    let st = spec_then_ls32(st);
    spec_finish(st)
}

/// What [`ipv6_address_6`] returns on input `s`: at most five groups, the mark `::`, then the last 32 bits.
///
/// ```text
/// [ *4( h16 ":" ) h16 ] "::" ls32
/// ```
#[verifier::opaque]
pub open spec fn spec_ipv6_address_6(s: Seq<u8>) -> Parsed<Ipv6Addr, Seq<u8>, IpAddrAtom> {
    let st = spec_start(s);
    let st = spec_then_opt_h16(st);
    let st = spec_then_opt_colon_h16(st);
    let st = spec_then_opt_colon_h16(st);
    let st = spec_then_opt_colon_h16(st);
    let st = spec_then_opt_colon_h16(st);
    let st = spec_then_double_colon(st);
    let st = spec_then_ls32(st);
    spec_finish(st)
}

/// What [`ipv6_address_7`] returns on input `s`: at most six groups, the mark `::`, then one group.
///
/// ```text
/// [ *5( h16 ":" ) h16 ] "::" h16
/// ```
#[verifier::opaque]
pub open spec fn spec_ipv6_address_7(s: Seq<u8>) -> Parsed<Ipv6Addr, Seq<u8>, IpAddrAtom> {
    let st = spec_start(s);
    let st = spec_then_opt_h16(st);
    let st = spec_then_opt_colon_h16(st);
    let st = spec_then_opt_colon_h16(st);
    let st = spec_then_opt_colon_h16(st);
    let st = spec_then_opt_colon_h16(st);
    let st = spec_then_opt_colon_h16(st);
    let st = spec_then_double_colon(st);
    let st = spec_then_h16(st);
    spec_finish(st)
}

/// What [`ipv6_address_8`] returns on input `s`: at most seven groups, then the mark `::`.
///
/// ```text
/// [ *6( h16 ":" ) h16 ] "::"
/// ```
#[verifier::opaque]
pub open spec fn spec_ipv6_address_8(s: Seq<u8>) -> Parsed<Ipv6Addr, Seq<u8>, IpAddrAtom> {
    let st = spec_start(s);
    let st = spec_then_opt_h16(st);
    let st = spec_then_opt_colon_h16(st);
    let st = spec_then_opt_colon_h16(st);
    let st = spec_then_opt_colon_h16(st);
    let st = spec_then_opt_colon_h16(st);
    let st = spec_then_opt_colon_h16(st);
    let st = spec_then_opt_colon_h16(st);
    let st = spec_then_double_colon(st);
    spec_finish(st)
}

/// What [`ipv6_address`] returns on input `s`: the outcome of the first of
/// the nine alternatives that does not fail.
pub open spec fn spec_ipv6_address(s: Seq<u8>) -> Parsed<Ipv6Addr, Seq<u8>, IpAddrAtom> {
    spec_or(
        spec_ipv6_address_0(s),
        spec_or(
            spec_ipv6_address_1(s),
            spec_or(
                spec_ipv6_address_2(s),
                spec_or(
                    spec_ipv6_address_3(s),
                    spec_or(
                        spec_ipv6_address_4(s),
                        spec_or(
                            spec_ipv6_address_5(s),
                            spec_or(
                                spec_ipv6_address_6(s),
                                spec_or(spec_ipv6_address_7(s), spec_ipv6_address_8(s)),
                            ),
                        ),
                    ),
                ),
            ),
        ),
    )
}

/// The state of one alternative of the IPv6 grammar: the groups gathered so
/// far and the input that is left, or the outcome that ended it.
pub type Gathering<'a> = Parsed<Groups, &'a [u8], IpAddrAtom>;

/// Number of groups that the state `st` holds, where it holds any.
pub open spec fn spec_gathered<'a>(st: Gathering<'a>) -> int {
    match st {
        Parsed::Success { token, stream: _ } => token.len as int,
        _ => 0,
    }
}

/// The state of an alternative before its first step.
fn start<'a>(stream: &'a [u8]) -> (r: Gathering<'a>)
    ensures
        r@ == spec_start(stream@),
        spec_gathered(r) == 0,
{
    Parsed::Success { token: Groups::new(), stream }
}

/// One step of an alternative: a group and the `:` that follows it.
fn then_h16_colon<'a>(st: Gathering<'a>) -> (r: Gathering<'a>)
    requires
        spec_gathered(st) < 8,
    ensures
        r@ == spec_then_h16_colon(st@),
        r is Success ==> spec_gathered(r) == spec_gathered(st) + 1,
{
    match st {
        Parsed::Success { token, stream } => {
            match h16_colon(stream) {
                Parsed::Success { token: group, stream: rest } => Parsed::Success {
                    token: token.push(group),
                    stream: rest,
                },
                Parsed::Failure => Parsed::Failure,
                Parsed::Error(atom) => Parsed::Error(atom),
            }
        },
        Parsed::Failure => Parsed::Failure,
        Parsed::Error(atom) => Parsed::Error(atom),
    }
}

/// One step of an alternative: a group.
fn then_h16<'a>(st: Gathering<'a>) -> (r: Gathering<'a>)
    requires
        spec_gathered(st) < 8,
    ensures
        r@ == spec_then_h16(st@),
        r is Success ==> spec_gathered(r) == spec_gathered(st) + 1,
{
    match st {
        Parsed::Success { token, stream } => {
            match h16(stream) {
                Parsed::Success { token: group, stream: rest } => Parsed::Success {
                    token: token.push(group),
                    stream: rest,
                },
                Parsed::Failure => Parsed::Failure,
                Parsed::Error(atom) => Parsed::Error(atom),
            }
        },
        Parsed::Failure => Parsed::Failure,
        Parsed::Error(atom) => Parsed::Error(atom),
    }
}

/// One step of an alternative: a group, or zero where the input holds none here.
fn then_opt_h16<'a>(st: Gathering<'a>) -> (r: Gathering<'a>)
    requires
        spec_gathered(st) < 8,
    ensures
        r@ == spec_then_opt_h16(st@),
        r is Success ==> spec_gathered(r) == spec_gathered(st) + 1,
{
    match st {
        Parsed::Success { token, stream } => {
            match h16(stream) {
                Parsed::Success { token: group, stream: rest } => Parsed::Success {
                    token: token.push(group),
                    stream: rest,
                },
                Parsed::Failure => Parsed::Success { token: token.push(0), stream },
                Parsed::Error(atom) => Parsed::Error(atom),
            }
        },
        Parsed::Failure => Parsed::Failure,
        Parsed::Error(atom) => Parsed::Error(atom),
    }
}

/// One step of an alternative: a `:` and a group, or zero where the input holds none here.
fn then_opt_colon_h16<'a>(st: Gathering<'a>) -> (r: Gathering<'a>)
    requires
        spec_gathered(st) < 8,
    ensures
        r@ == spec_then_opt_colon_h16(st@),
        r is Success ==> spec_gathered(r) == spec_gathered(st) + 1,
{
    match st {
        Parsed::Success { token, stream } => {
            match colon_h16(stream) {
                Parsed::Success { token: group, stream: rest } => Parsed::Success {
                    token: token.push(group),
                    stream: rest,
                },
                Parsed::Failure => Parsed::Success { token: token.push(0), stream },
                Parsed::Error(atom) => Parsed::Error(atom),
            }
        },
        Parsed::Failure => Parsed::Failure,
        Parsed::Error(atom) => Parsed::Error(atom),
    }
}

/// One step of an alternative: the mark `::`, which counts as one group of
/// zeros.
fn then_double_colon<'a>(st: Gathering<'a>) -> (r: Gathering<'a>)
    requires
        spec_gathered(st) < 8,
    ensures
        r@ == spec_then_double_colon(st@),
        r is Success ==> spec_gathered(r) == spec_gathered(st) + 1,
{
    match st {
        Parsed::Success { token, stream } => {
            match double_colon(stream) {
                Parsed::Success { token: _, stream: rest } => Parsed::Success {
                    token: token.push(0),
                    stream: rest,
                },
                Parsed::Failure => Parsed::Failure,
                Parsed::Error(atom) => Parsed::Error(atom),
            }
        },
        Parsed::Failure => Parsed::Failure,
        Parsed::Error(atom) => Parsed::Error(atom),
    }
}

/// One step of an alternative: the last 32 bits, which are two groups.
fn then_ls32<'a>(st: Gathering<'a>) -> (r: Gathering<'a>)
    requires
        spec_gathered(st) < 7,
    ensures
        r@ == spec_then_ls32(st@),
        r is Success ==> spec_gathered(r) == spec_gathered(st) + 2,
{
    match st {
        Parsed::Success { token, stream } => {
            match ls32(stream) {
                Parsed::Success { token: pair, stream: rest } => Parsed::Success {
                    token: token.push(pair.0).push(pair.1),
                    stream: rest,
                },
                Parsed::Failure => Parsed::Failure,
                Parsed::Error(atom) => Parsed::Error(atom),
            }
        },
        Parsed::Failure => Parsed::Failure,
        Parsed::Error(atom) => Parsed::Error(atom),
    }
}

/// The outcome of an alternative whose last step left the state `st`.
fn finish<'a>(st: Gathering<'a>) -> (r: Parsed<Ipv6Addr, &'a [u8], IpAddrAtom>)
    requires
        st is Success ==> spec_gathered(st) == 8,
    ensures
        r@ == spec_finish(st@),
{
    match st {
        Parsed::Success { token, stream } => {
            let g: [u16; 8] = token.segments;
            assert(token@ =~= g@);
            Parsed::Success {
                token: Ipv6Addr::new(g[0], g[1], g[2], g[3], g[4], g[5], g[6], g[7]),
                stream,
            }
        },
        Parsed::Failure => Parsed::Failure,
        Parsed::Error(atom) => Parsed::Error(atom),
    }
}

/// One alternative of the IPv6 grammar: eight groups in full, without the mark `::`.
///
/// ```text
/// 6( h16 ":" ) ls32
/// ```
pub fn ipv6_address_0<'a>(stream: &'a [u8]) -> (r: Parsed<Ipv6Addr, &'a [u8], IpAddrAtom>)
    ensures
        r@ == spec_ipv6_address_0(stream@),
{
    proof {
        reveal(spec_ipv6_address_0);
    }
    let st = start(stream);
    let st = then_h16_colon(st);
    let st = then_h16_colon(st);
    let st = then_h16_colon(st);
    let st = then_h16_colon(st);
    let st = then_h16_colon(st);
    let st = then_h16_colon(st);
    let st = then_ls32(st);
    finish(st)
}

/// One alternative of the IPv6 grammar: the mark `::` first, then seven groups.
///
/// ```text
/// "::" 5( h16 ":" ) ls32
/// ```
pub fn ipv6_address_1<'a>(stream: &'a [u8]) -> (r: Parsed<Ipv6Addr, &'a [u8], IpAddrAtom>)
    ensures
        r@ == spec_ipv6_address_1(stream@),
{
    proof {
        reveal(spec_ipv6_address_1);
    }
    let st = start(stream);
    let st = then_double_colon(st);
    let st = then_h16_colon(st);
    let st = then_h16_colon(st);
    let st = then_h16_colon(st);
    let st = then_h16_colon(st);
    let st = then_h16_colon(st);
    let st = then_ls32(st);
    finish(st)
}

/// One alternative of the IPv6 grammar: at most one group, the mark `::`, then six groups.
///
/// ```text
/// [ h16 ] "::" 4( h16 ":" ) ls32
/// ```
pub fn ipv6_address_2<'a>(stream: &'a [u8]) -> (r: Parsed<Ipv6Addr, &'a [u8], IpAddrAtom>)
    ensures
        r@ == spec_ipv6_address_2(stream@),
{
    proof {
        reveal(spec_ipv6_address_2);
    }
    let st = start(stream);
    let st = then_opt_h16(st);
    let st = then_double_colon(st);
    let st = then_h16_colon(st);
    let st = then_h16_colon(st);
    let st = then_h16_colon(st);
    let st = then_h16_colon(st);
    let st = then_ls32(st);
    finish(st)
}

/// One alternative of the IPv6 grammar: at most two groups, the mark `::`, then five groups.
///
/// ```text
/// [ *1( h16 ":" ) h16 ] "::" 3( h16 ":" ) ls32
/// ```
pub fn ipv6_address_3<'a>(stream: &'a [u8]) -> (r: Parsed<Ipv6Addr, &'a [u8], IpAddrAtom>)
    ensures
        r@ == spec_ipv6_address_3(stream@),
{
    proof {
        reveal(spec_ipv6_address_3);
    }
    let st = start(stream);
    let st = then_opt_h16(st);
    let st = then_opt_colon_h16(st);
    let st = then_double_colon(st);
    let st = then_h16_colon(st);
    let st = then_h16_colon(st);
    let st = then_h16_colon(st);
    let st = then_ls32(st);
    finish(st)
}

/// One alternative of the IPv6 grammar: at most three groups, the mark `::`, then four groups.
///
/// ```text
/// [ *2( h16 ":" ) h16 ] "::" 2( h16 ":" ) ls32
/// ```
pub fn ipv6_address_4<'a>(stream: &'a [u8]) -> (r: Parsed<Ipv6Addr, &'a [u8], IpAddrAtom>)
    ensures
        r@ == spec_ipv6_address_4(stream@),
{
    proof {
        reveal(spec_ipv6_address_4);
    }
    let st = start(stream);
    let st = then_opt_h16(st);
    let st = then_opt_colon_h16(st);
    let st = then_opt_colon_h16(st);
    let st = then_double_colon(st);
    let st = then_h16_colon(st);
    let st = then_h16_colon(st);
    let st = then_ls32(st);
    finish(st)
}

/// One alternative of the IPv6 grammar: at most four groups, the mark `::`, then three groups.
///
/// ```text
/// [ *3( h16 ":" ) h16 ] "::" h16 ":" ls32
/// ```
pub fn ipv6_address_5<'a>(stream: &'a [u8]) -> (r: Parsed<Ipv6Addr, &'a [u8], IpAddrAtom>)
    ensures
        r@ == spec_ipv6_address_5(stream@),
{
    proof {
        reveal(spec_ipv6_address_5);
    }
    let st = start(stream);
    let st = then_opt_h16(st);
    let st = then_opt_colon_h16(st);
    let st = then_opt_colon_h16(st);
    let st = then_opt_colon_h16(st);
    let st = then_double_colon(st);
    let st = then_h16_colon(st);
    let st = then_ls32(st);
    finish(st)
}

/// One alternative of the IPv6 grammar: at most five groups, the mark `::`, then the last 32 bits.
///
/// ```text
/// [ *4( h16 ":" ) h16 ] "::" ls32
/// ```
pub fn ipv6_address_6<'a>(stream: &'a [u8]) -> (r: Parsed<Ipv6Addr, &'a [u8], IpAddrAtom>)
    ensures
        r@ == spec_ipv6_address_6(stream@),
{
    proof {
        reveal(spec_ipv6_address_6);
    }
    let st = start(stream);
    let st = then_opt_h16(st);
    let st = then_opt_colon_h16(st);
    let st = then_opt_colon_h16(st);
    let st = then_opt_colon_h16(st);
    let st = then_opt_colon_h16(st);
    let st = then_double_colon(st);
    let st = then_ls32(st);
    finish(st)
}

/// One alternative of the IPv6 grammar: at most six groups, the mark `::`, then one group.
///
/// ```text
/// [ *5( h16 ":" ) h16 ] "::" h16
/// ```
pub fn ipv6_address_7<'a>(stream: &'a [u8]) -> (r: Parsed<Ipv6Addr, &'a [u8], IpAddrAtom>)
    ensures
        r@ == spec_ipv6_address_7(stream@),
{
    proof {
        reveal(spec_ipv6_address_7);
    }
    let st = start(stream);
    let st = then_opt_h16(st);
    let st = then_opt_colon_h16(st);
    let st = then_opt_colon_h16(st);
    let st = then_opt_colon_h16(st);
    let st = then_opt_colon_h16(st);
    let st = then_opt_colon_h16(st);
    let st = then_double_colon(st);
    let st = then_h16(st);
    finish(st)
}

/// One alternative of the IPv6 grammar: at most seven groups, then the mark `::`.
///
/// ```text
/// [ *6( h16 ":" ) h16 ] "::"
/// ```
pub fn ipv6_address_8<'a>(stream: &'a [u8]) -> (r: Parsed<Ipv6Addr, &'a [u8], IpAddrAtom>)
    ensures
        r@ == spec_ipv6_address_8(stream@),
{
    proof {
        reveal(spec_ipv6_address_8);
    }
    let st = start(stream);
    let st = then_opt_h16(st);
    let st = then_opt_colon_h16(st);
    let st = then_opt_colon_h16(st);
    let st = then_opt_colon_h16(st);
    let st = then_opt_colon_h16(st);
    let st = then_opt_colon_h16(st);
    let st = then_opt_colon_h16(st);
    let st = then_double_colon(st);
    finish(st)
}

/// Decodes an IPv6 address in its textual form, with or without the mark
/// `::` for groups of zeros, and with the last 32 bits as two groups or as
/// an IPv4 address. What follows the address is left unread.
///
/// The nine alternatives are tried in their order, each from the start of
/// the input; the first that does not fail decides.
pub fn ipv6_address<'a>(stream: &'a [u8]) -> (r: Parsed<Ipv6Addr, &'a [u8], IpAddrAtom>)
    ensures
        r@ == spec_ipv6_address(stream@),
{
    match ipv6_address_0(stream) {
        Parsed::Failure => {},
        other => return other,
    }
    match ipv6_address_1(stream) {
        Parsed::Failure => {},
        other => return other,
    }
    match ipv6_address_2(stream) {
        Parsed::Failure => {},
        other => return other,
    }
    match ipv6_address_3(stream) {
        Parsed::Failure => {},
        other => return other,
    }
    match ipv6_address_4(stream) {
        Parsed::Failure => {},
        other => return other,
    }
    match ipv6_address_5(stream) {
        Parsed::Failure => {},
        other => return other,
    }
    match ipv6_address_6(stream) {
        Parsed::Failure => {},
        other => return other,
    }
    match ipv6_address_7(stream) {
        Parsed::Failure => {},
        other => return other,
    }
    ipv6_address_8(stream)
}

/// An IPv6 address between square brackets, as it stands where a port or a
/// path may follow it.
#[derive(Clone, Copy, Debug, PartialEq, Eq, Structural, PartialOrd, Ord, Hash)]
pub struct Ipv6Reference {
    /// The address between the brackets.
    pub ipv6: Ipv6Addr,
}

impl View for Ipv6Reference {
    type V = Ipv6Reference;

    open spec fn view(&self) -> Ipv6Reference {
        *self
    }
}

/// What [`ipv6_reference`] returns on input `s`: `[`, an IPv6 address and
/// `]`.
pub open spec fn spec_ipv6_reference(s: Seq<u8>) -> Parsed<Ipv6Reference, Seq<u8>, IpAddrAtom> {
    match spec_is::<IpAddrAtom>(s, BRACKET_OPEN) {
        Parsed::Success { token: _, stream } => match spec_ipv6_address(stream) {
            Parsed::Success { token: ipv6, stream } => match spec_is::<IpAddrAtom>(stream, BRACKET_CLOSE) {
                Parsed::Success { token: _, stream } => Parsed::Success {
                    token: Ipv6Reference { ipv6 },
                    stream,
                },
                Parsed::Failure => Parsed::Failure,
                Parsed::Error(atom) => Parsed::Error(atom),
            },
            Parsed::Failure => Parsed::Failure,
            Parsed::Error(atom) => Parsed::Error(atom),
        },
        Parsed::Failure => Parsed::Failure,
        Parsed::Error(atom) => Parsed::Error(atom),
    }
}

/// Decodes an IPv6 address between square brackets.
pub fn ipv6_reference<'a>(stream: &'a [u8]) -> (r: Parsed<Ipv6Reference, &'a [u8], IpAddrAtom>)
    ensures
        r@ == spec_ipv6_reference(stream@),
{
    let stream = match is::<IpAddrAtom>(stream, BRACKET_OPEN) {
        Parsed::Success { token: _, stream } => stream,
        Parsed::Failure => return Parsed::Failure,
        Parsed::Error(atom) => return Parsed::Error(atom),
    };
    let (ipv6, stream) = match ipv6_address(stream) {
        Parsed::Success { token, stream } => (token, stream),
        Parsed::Failure => return Parsed::Failure,
        Parsed::Error(atom) => return Parsed::Error(atom),
    };
    match is::<IpAddrAtom>(stream, BRACKET_CLOSE) {
        Parsed::Success { token: _, stream } => Parsed::Success {
            token: Ipv6Reference { ipv6 },
            stream,
        },
        Parsed::Failure => Parsed::Failure,
        Parsed::Error(atom) => Parsed::Error(atom),
    }
}

} // verus!
