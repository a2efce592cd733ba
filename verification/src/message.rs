//! Building the texts that describe values and fatal errors.

use vstd::prelude::*;
use vstd::string::StringExecFns;

verus! {

/// The character of the decimal digit `d`.
pub open spec fn spec_digit_char(d: int) -> char
    recommends
        0 <= d < 10,
{
    (0x30 + d) as char
}

/// The decimal form of `v`, without leading zeros.
pub open spec fn spec_decimal_text(v: u16) -> Seq<char>
    decreases v,
{
    if v < 10 {
        seq![spec_digit_char(v as int)]
    } else {
        spec_decimal_text(v / 10).push(spec_digit_char(v as int % 10))
    }
}

/// The text of the decimal digit `d`.
fn digit(d: u16) -> (r: &'static str)
    requires
        d < 10,
    ensures
        r@ == seq![spec_digit_char(d as int)],
{
    proof {
        reveal_strlit("0");
        reveal_strlit("1");
        reveal_strlit("2");
        reveal_strlit("3");
        reveal_strlit("4");
        reveal_strlit("5");
        reveal_strlit("6");
        reveal_strlit("7");
        reveal_strlit("8");
        reveal_strlit("9");
    }
    let r = match d {
        0 => "0",
        1 => "1",
        2 => "2",
        3 => "3",
        4 => "4",
        5 => "5",
        6 => "6",
        7 => "7",
        8 => "8",
        _ => "9",
    };
    assert(r@ =~= seq![spec_digit_char(d as int)]);
    r
}

/// `prefix` with the decimal form of `v` after it.
pub fn with_decimal(prefix: &str, v: u16) -> (r: String)
    ensures
        r@ == prefix@ + spec_decimal_text(v),
{
    let mut r = String::from_str(prefix);
    if v >= 10000 {
        r.append(digit(v / 10000));
    }
    if v >= 1000 {
        r.append(digit(v / 1000 % 10));
    }
    if v >= 100 {
        r.append(digit(v / 100 % 10));
    }
    if v >= 10 {
        r.append(digit(v / 10 % 10));
    }
    r.append(digit(v % 10));
    proof {
        reveal_with_fuel(spec_decimal_text, 5);
        assert(r@ =~= prefix@ + spec_decimal_text(v));
    }
    r
}

} // verus!
