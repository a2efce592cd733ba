//! The textual forms of an IPv6 address, and the laws that the decoder
//! accepts them.
//!
//! A group is written as one to four hexadecimal digits, in either case and
//! with or without leading zeros. In the full form the eight groups stand
//! with a `:` between them. In a compressed form the mark `::` stands for
//! the groups of zeros that are left out: `1:2::3` is the address
//! `1:2:0:0:0:0:0:3`. In a mixed form the last 32 bits are written as an
//! IPv4 address: `::ffff:1.2.3.4` is the address `0:0:0:0:0:ffff:102:304`.

use vstd::prelude::*;
use crate::address::Ipv6Addr;
use crate::cursor::be16;
use crate::ip_addr::{
    COLON,
    DOT,
    Gathered,
    IpAddrAtom,
    spec_colon_h16,
    spec_dec_octet,
    spec_dec_octet_dot,
    spec_double_colon,
    spec_finish,
    spec_h16,
    spec_h16_colon,
    spec_h16_len,
    spec_ipv4_address,
    spec_ipv6_address,
    spec_ipv6_address_0,
    spec_ipv6_address_1,
    spec_ipv6_address_2,
    spec_ipv6_address_3,
    spec_ipv6_address_4,
    spec_ipv6_address_5,
    spec_ipv6_address_6,
    spec_ipv6_address_7,
    spec_ipv6_address_8,
    spec_is_digit,
    spec_is_hex,
    spec_ls32,
    spec_start,
    spec_then_double_colon,
    spec_then_h16,
    spec_then_h16_colon,
    spec_then_ls32,
    spec_then_opt_colon_h16,
    spec_then_opt_h16,
};
use crate::ip_addr_laws::{
    lemma_dec_octet_dot_only_decimal,
    lemma_h16_accepts_group_text,
    lemma_h16_colon_accepts_group_text,
    lemma_ipv4_address_accepts_dotted_quad,
    lemma_ls32_accepts_group_texts,
    spec_decimal,
    spec_dotted_quad,
    spec_group_value,
    spec_is_group_text,
    spec_no_digit_ahead,
    spec_no_hex_ahead,
};
use crate::parsed::Parsed;

verus! {

/// True when each of `g` is the text of a group.
pub open spec fn spec_are_group_texts(g: Seq<Seq<u8>>) -> bool {
    forall|i: int| 0 <= i < g.len() ==> spec_is_group_text(#[trigger] g[i])
}

/// The groups that the texts `g` denote.
pub open spec fn spec_group_values(g: Seq<Seq<u8>>) -> Seq<u16> {
    Seq::new(g.len(), |i: int| spec_group_value(g[i]))
}

/// The texts `g` with a `:` between them.
pub open spec fn spec_groups_text(g: Seq<Seq<u8>>) -> Seq<u8>
    decreases g.len(),
{
    if g.len() == 0 {
        Seq::empty()
    } else if g.len() == 1 {
        g[0]
    } else {
        g[0] + seq![COLON] + spec_groups_text(g.skip(1))
    }
}

/// A compressed form of an address: the groups `before`, the mark `::` and
/// the groups `after`.
pub open spec fn spec_compressed_form(before: Seq<Seq<u8>>, after: Seq<Seq<u8>>) -> Seq<u8> {
    spec_groups_text(before) + seq![COLON, COLON] + spec_groups_text(after)
}

/// `n` groups of zeros.
pub open spec fn spec_zeros(n: int) -> Seq<u16> {
    Seq::new(
        if n >= 0 {
            n as nat
        } else {
            0
        },
        |i: int| 0u16,
    )
}

/// The eight groups of the address whose compressed form has the groups
/// `before` and `after`: the mark stands for as many groups of zeros as are
/// missing.
pub open spec fn spec_compressed_groups(before: Seq<Seq<u8>>, after: Seq<Seq<u8>>) -> Seq<u16> {
    spec_group_values(before) + spec_zeros(8 - before.len() - after.len()) + spec_group_values(
        after,
    )
}

/// The address with the eight groups `g`.
pub open spec fn spec_address_of(g: Seq<u16>) -> Ipv6Addr
    recommends
        g.len() == 8,
{
    Ipv6Addr::spec_new(g[0], g[1], g[2], g[3], g[4], g[5], g[6], g[7])
}

/// True when an address can end before `t`: `t` is empty, or starts with a
/// character that is no hexadecimal digit, no `:` and no `.`.
pub open spec fn spec_ends_address(t: Seq<u8>) -> bool {
    t.len() == 0 || (!spec_is_hex(t[0]) && t[0] != COLON && t[0] != DOT)
}

/// The state `st` after `n` steps that each decode a group and the `:`
/// that follows it.
pub open spec fn spec_then_h16_colon_n(st: Gathered, n: nat) -> Gathered
    decreases n,
{
    if n == 0 {
        st
    } else {
        spec_then_h16_colon_n(spec_then_h16_colon(st), (n - 1) as nat)
    }
}

/// The state `st` after `n` steps that each decode a `:` and a group where
/// the input holds them.
pub open spec fn spec_then_opt_colon_h16_n(st: Gathered, n: nat) -> Gathered
    decreases n,
{
    if n == 0 {
        st
    } else {
        spec_then_opt_colon_h16_n(spec_then_opt_colon_h16(st), (n - 1) as nat)
    }
}

/// The state of an alternative on input `s` after the steps that stand
/// before the mark `::`, which decode `n` groups at most.
pub open spec fn spec_groups_before(s: Seq<u8>, n: nat) -> Gathered {
    if n == 0 {
        spec_start(s)
    } else {
        spec_then_opt_colon_h16_n(spec_then_opt_h16(spec_start(s)), (n - 1) as nat)
    }
}

/// The outcome on input `s` of the alternative without the mark `::`.
pub open spec fn spec_alternative_without_mark(s: Seq<u8>) -> Parsed<
    Ipv6Addr,
    Seq<u8>,
    IpAddrAtom,
> {
    spec_finish(spec_then_ls32(spec_then_h16_colon_n(spec_start(s), 6)))
}

/// The outcome on input `s` of the alternative with the mark `::` that
/// decodes `8 - j` groups after the mark, for `j` from 1 to 8.
pub open spec fn spec_alternative(j: nat, s: Seq<u8>) -> Parsed<Ipv6Addr, Seq<u8>, IpAddrAtom> {
    let st = spec_then_double_colon(spec_groups_before(s, (j - 1) as nat));
    if j <= 6 {
        spec_finish(spec_then_ls32(spec_then_h16_colon_n(st, (6 - j) as nat)))
    } else if j == 7 {
        spec_finish(spec_then_h16(st))
    } else {
        spec_finish(st)
    }
}

/// The nine alternatives of the grammar are the alternative without the
/// mark and the eight alternatives with it.
proof fn lemma_alternatives(s: Seq<u8>)
    ensures
        spec_ipv6_address_0(s) == spec_alternative_without_mark(s),
        spec_ipv6_address_1(s) == spec_alternative(1, s),
        spec_ipv6_address_2(s) == spec_alternative(2, s),
        spec_ipv6_address_3(s) == spec_alternative(3, s),
        spec_ipv6_address_4(s) == spec_alternative(4, s),
        spec_ipv6_address_5(s) == spec_alternative(5, s),
        spec_ipv6_address_6(s) == spec_alternative(6, s),
        spec_ipv6_address_7(s) == spec_alternative(7, s),
        spec_ipv6_address_8(s) == spec_alternative(8, s),
{
    reveal(spec_ipv6_address_0);
    reveal(spec_ipv6_address_1);
    reveal(spec_ipv6_address_2);
    reveal(spec_ipv6_address_3);
    reveal(spec_ipv6_address_4);
    reveal(spec_ipv6_address_5);
    reveal(spec_ipv6_address_6);
    reveal(spec_ipv6_address_7);
    reveal(spec_ipv6_address_8);
    reveal_with_fuel(spec_then_h16_colon_n, 8);
    reveal_with_fuel(spec_then_opt_colon_h16_n, 8);
}

/// The texts `g`, each with a `:` after it.
pub open spec fn spec_groups_colon(g: Seq<Seq<u8>>) -> Seq<u8>
    decreases g.len(),
{
    if g.len() == 0 {
        Seq::empty()
    } else {
        g[0] + seq![COLON] + spec_groups_colon(g.skip(1))
    }
}

/// The texts `g`, each with a `:` before it.
pub open spec fn spec_colon_groups(g: Seq<Seq<u8>>) -> Seq<u8>
    decreases g.len(),
{
    if g.len() == 0 {
        Seq::empty()
    } else {
        seq![COLON] + g[0] + spec_colon_groups(g.skip(1))
    }
}

/// The groups that texts denote are the group of the first text and the
/// groups of the others, and the groups of two lists of texts are those of
/// the first list and then those of the second.
proof fn lemma_group_values(a: Seq<Seq<u8>>, b: Seq<Seq<u8>>)
    ensures
        spec_group_values(a + b) == spec_group_values(a) + spec_group_values(b),
        a.len() >= 1 ==> spec_group_values(a) == seq![spec_group_value(a[0])] + spec_group_values(
            a.skip(1),
        ),
        spec_are_group_texts(a) && spec_are_group_texts(b) ==> spec_are_group_texts(a + b),
        spec_are_group_texts(a) ==> forall|n: int|
            0 <= n <= a.len() ==> spec_are_group_texts(#[trigger] a.skip(n))
                && spec_are_group_texts(#[trigger] a.take(n)),
{
    assert(spec_group_values(a + b) =~= spec_group_values(a) + spec_group_values(b));
    if a.len() >= 1 {
        assert(spec_group_values(a) =~= seq![spec_group_value(a[0])] + spec_group_values(
            a.skip(1),
        ));
    }
    if spec_are_group_texts(a) {
        assert forall|n: int| 0 <= n <= a.len() implies spec_are_group_texts(#[trigger] a.skip(n))
            && spec_are_group_texts(#[trigger] a.take(n)) by {
            assert forall|i: int| 0 <= i < a.skip(n).len() implies spec_is_group_text(
                #[trigger] a.skip(n)[i],
            ) by {
                assert(a.skip(n)[i] == a[i + n]);
            }
            assert forall|i: int| 0 <= i < a.take(n).len() implies spec_is_group_text(
                #[trigger] a.take(n)[i],
            ) by {
                assert(a.take(n)[i] == a[i]);
            }
        }
        if spec_are_group_texts(b) {
            assert forall|i: int| 0 <= i < (a + b).len() implies spec_is_group_text(
                #[trigger] (a + b)[i],
            ) by {
                if i < a.len() {
                    assert((a + b)[i] == a[i]);
                } else {
                    assert((a + b)[i] == b[i - a.len()]);
                }
            }
        }
    }
}

/// The text of a group starts with a hexadecimal digit.
proof fn lemma_group_text_starts_with_hex(x: Seq<u8>, y: Seq<u8>)
    requires
        spec_is_group_text(x),
    ensures
        (x + y).len() >= 1,
        spec_is_hex((x + y)[0]),
{
    assert((x + y)[0] == x[0]);
}

/// Texts with a `:` between them are the first text and the others with a
/// `:` before each.
proof fn lemma_groups_text_from_front(g: Seq<Seq<u8>>)
    requires
        g.len() >= 1,
    ensures
        spec_groups_text(g) == g[0] + spec_colon_groups(g.skip(1)),
    decreases g.len(),
{
    if g.len() == 1 {
        assert(spec_colon_groups(g.skip(1)) =~= Seq::<u8>::empty());
        assert(g[0] + Seq::<u8>::empty() =~= g[0]);
    } else {
        let rest = g.skip(1);
        lemma_groups_text_from_front(rest);
        assert(spec_colon_groups(rest) == seq![COLON] + rest[0] + spec_colon_groups(rest.skip(1)));
        assert(g[0] + seq![COLON] + (rest[0] + spec_colon_groups(rest.skip(1))) =~= g[0] + (seq![
            COLON,
        ] + rest[0] + spec_colon_groups(rest.skip(1))));
    }
}

/// Texts with a `:` between them are the first of them with a `:` after
/// each, and the others with a `:` between them.
proof fn lemma_groups_text_split(a: Seq<Seq<u8>>, b: Seq<Seq<u8>>)
    requires
        b.len() >= 1,
    ensures
        spec_groups_text(a + b) == spec_groups_colon(a) + spec_groups_text(b),
    decreases a.len(),
{
    if a.len() == 0 {
        assert(a + b =~= b);
        assert(spec_groups_colon(a) + spec_groups_text(b) =~= spec_groups_text(b));
    } else {
        let g = a + b;
        assert(g.skip(1) =~= a.skip(1) + b);
        assert(g[0] == a[0]);
        lemma_groups_text_split(a.skip(1), b);
        assert(a[0] + seq![COLON] + (spec_groups_colon(a.skip(1)) + spec_groups_text(b)) =~= a[0]
            + seq![COLON] + spec_groups_colon(a.skip(1)) + spec_groups_text(b));
    }
}

/// Texts with a `:` before each can be split anywhere.
proof fn lemma_colon_groups_split(a: Seq<Seq<u8>>, b: Seq<Seq<u8>>)
    ensures
        spec_colon_groups(a + b) == spec_colon_groups(a) + spec_colon_groups(b),
    decreases a.len(),
{
    if a.len() == 0 {
        assert(a + b =~= b);
        assert(spec_colon_groups(a) + spec_colon_groups(b) =~= spec_colon_groups(b));
    } else {
        let g = a + b;
        assert(g.skip(1) =~= a.skip(1) + b);
        assert(g[0] == a[0]);
        lemma_colon_groups_split(a.skip(1), b);
        assert(seq![COLON] + a[0] + (spec_colon_groups(a.skip(1)) + spec_colon_groups(b)) =~= seq![
            COLON,
        ] + a[0] + spec_colon_groups(a.skip(1)) + spec_colon_groups(b));
    }
}

/// Texts with a `:` between them and a `:` after them are the texts with a
/// `:` after each.
proof fn lemma_groups_text_then_colon(g: Seq<Seq<u8>>)
    requires
        g.len() >= 1,
    ensures
        spec_groups_text(g) + seq![COLON] == spec_groups_colon(g),
    decreases g.len(),
{
    if g.len() == 1 {
        assert(spec_groups_colon(g.skip(1)) =~= Seq::<u8>::empty());
        assert(spec_groups_colon(g) =~= g[0] + seq![COLON]);
    } else {
        lemma_groups_text_then_colon(g.skip(1));
        assert(g[0] + seq![COLON] + spec_groups_text(g.skip(1)) + seq![COLON] =~= g[0] + seq![
            COLON,
        ] + (spec_groups_text(g.skip(1)) + seq![COLON]));
    }
}

/// A state that is no success stays as it is, whatever steps follow.
proof fn lemma_steps_after_the_end(st: Gathered, n: nat)
    requires
        !(st is Success),
    ensures
        spec_then_h16_colon_n(st, n) == st,
        spec_then_opt_colon_h16_n(st, n) == st,
    decreases n,
{
    if n > 0 {
        lemma_steps_after_the_end(st, (n - 1) as nat);
    }
}

/// Steps can be taken in two runs.
proof fn lemma_steps_in_two_runs(st: Gathered, a: nat, b: nat)
    ensures
        spec_then_h16_colon_n(st, a + b) == spec_then_h16_colon_n(
            spec_then_h16_colon_n(st, a),
            b,
        ),
        spec_then_opt_colon_h16_n(st, a + b) == spec_then_opt_colon_h16_n(
            spec_then_opt_colon_h16_n(st, a),
            b,
        ),
    decreases a,
{
    if a > 0 {
        lemma_steps_in_two_runs(spec_then_h16_colon(st), (a - 1) as nat, b);
        lemma_steps_in_two_runs(spec_then_opt_colon_h16(st), (a - 1) as nat, b);
        assert((a - 1) as nat + b == (a + b - 1) as nat);
    }
}

/// A run of steps decodes the groups that stand with a `:` after each.
proof fn lemma_run_of_groups_colon(acc: Seq<u16>, g: Seq<Seq<u8>>, r: Seq<u8>)
    requires
        spec_are_group_texts(g),
    ensures
        spec_then_h16_colon_n(
            Gathered::Success { token: acc, stream: spec_groups_colon(g) + r },
            g.len(),
        ) == (Gathered::Success { token: acc + spec_group_values(g), stream: r }),
    decreases g.len(),
{
    if g.len() == 0 {
        assert(spec_groups_colon(g) + r =~= r);
        assert(acc + spec_group_values(g) =~= acc);
    } else {
        let rest = spec_groups_colon(g.skip(1)) + r;
        assert(spec_groups_colon(g) + r =~= g[0] + seq![COLON] + rest);
        lemma_h16_colon_accepts_group_text(g[0], rest);
        lemma_group_values(g, g);
        lemma_run_of_groups_colon(acc.push(spec_group_value(g[0])), g.skip(1), r);
        assert(acc.push(spec_group_value(g[0])) + spec_group_values(g.skip(1)) =~= acc
            + spec_group_values(g));
    }
}

/// A run of optional steps decodes the groups that stand with a `:` before
/// each, where no hexadecimal digit follows the last of them.
proof fn lemma_run_of_colon_groups(acc: Seq<u16>, g: Seq<Seq<u8>>, r: Seq<u8>)
    requires
        spec_are_group_texts(g),
        spec_no_hex_ahead(r),
    ensures
        spec_then_opt_colon_h16_n(
            Gathered::Success { token: acc, stream: spec_colon_groups(g) + r },
            g.len(),
        ) == (Gathered::Success { token: acc + spec_group_values(g), stream: r }),
    decreases g.len(),
{
    if g.len() == 0 {
        assert(spec_colon_groups(g) + r =~= r);
        assert(acc + spec_group_values(g) =~= acc);
    } else {
        let rest = spec_colon_groups(g.skip(1)) + r;
        let s = spec_colon_groups(g) + r;
        assert(s =~= seq![COLON] + (g[0] + rest));
        assert(s.skip(1) =~= g[0] + rest);
        assert(spec_no_hex_ahead(rest)) by {
            if g.len() > 1 {
                assert(rest[0] == COLON);
            } else {
                assert(spec_colon_groups(g.skip(1)) =~= Seq::<u8>::empty());
                assert(rest =~= r);
            }
        }
        lemma_h16_accepts_group_text(g[0], rest);
        lemma_group_values(g, g);
        lemma_run_of_colon_groups(acc.push(spec_group_value(g[0])), g.skip(1), r);
        assert(acc.push(spec_group_value(g[0])) + spec_group_values(g.skip(1)) =~= acc
            + spec_group_values(g));
    }
}

/// A run of optional steps before the mark `::` counts a zero for each
/// step and leaves the mark.
proof fn lemma_run_of_zeros(acc: Seq<u16>, r: Seq<u8>, n: nat)
    ensures
        spec_then_opt_colon_h16_n(
            Gathered::Success { token: acc, stream: seq![COLON, COLON] + r },
            n,
        ) == (Gathered::Success {
            token: acc + spec_zeros(n as int),
            stream: seq![COLON, COLON] + r,
        }),
    decreases n,
{
    let s = seq![COLON, COLON] + r;
    if n == 0 {
        assert(acc + spec_zeros(0) =~= acc);
    } else {
        assert(s.skip(1)[0] == COLON);
        assert(spec_h16_len(s.skip(1)) == 0);
        assert(spec_colon_h16(s) is Failure) by {
            reveal(spec_h16);
        }
        lemma_run_of_zeros(acc.push(0), r, (n - 1) as nat);
        assert(acc.push(0) + spec_zeros(n - 1) =~= acc + spec_zeros(n as int));
    }
}

/// The steps before the mark and the mark itself decode the groups that
/// stand before the mark, count a zero for each step that finds none, and
/// one more for the mark.
proof fn lemma_before_the_mark(before: Seq<Seq<u8>>, r: Seq<u8>, n: nat)
    requires
        spec_are_group_texts(before),
        before.len() <= n,
    ensures
        spec_then_double_colon(
            spec_groups_before(spec_groups_text(before) + seq![COLON, COLON] + r, n),
        ) == (Gathered::Success {
            token: (spec_group_values(before) + spec_zeros(n - before.len())).push(0),
            stream: r,
        }),
{
    let mark = seq![COLON, COLON] + r;
    let s = spec_groups_text(before) + seq![COLON, COLON] + r;
    let empty = Seq::<u16>::empty();
    let values = spec_group_values(before);
    assert(mark.skip(2) =~= r);
    assert(spec_double_colon(mark) == (Parsed::<(), Seq<u8>, IpAddrAtom>::Success {
        token: (),
        stream: r,
    }));
    if before.len() == 0 {
        assert(s =~= mark);
        if n == 0 {
            assert(values + spec_zeros(0) =~= empty);
            assert(spec_groups_before(s, n) == (Gathered::Success { token: empty, stream: mark }));
        } else {
            assert(spec_h16(s) is Failure) by {
                reveal(spec_h16);
            }
            let one = empty.push(0);
            assert(spec_then_opt_h16(spec_start(s)) == (Gathered::Success {
                token: one,
                stream: mark,
            }));
            lemma_run_of_zeros(one, r, (n - 1) as nat);
            assert(one + spec_zeros(n - 1) =~= values + spec_zeros(n - before.len()));
            assert(spec_groups_before(s, n) == (Gathered::Success {
                token: values + spec_zeros(n - before.len()),
                stream: mark,
            }));
        }
    } else {
        let others = before.skip(1);
        let tail = spec_colon_groups(others) + mark;
        lemma_groups_text_from_front(before);
        lemma_group_values(before, before);
        assert(s =~= before[0] + tail);
        assert(spec_no_hex_ahead(tail)) by {
            if others.len() > 0 {
                assert(tail[0] == COLON);
            } else {
                assert(spec_colon_groups(others) =~= Seq::<u8>::empty());
                assert(tail =~= mark);
            }
        }
        lemma_h16_accepts_group_text(before[0], tail);
        let one = empty.push(spec_group_value(before[0]));
        let first = Gathered::Success { token: one, stream: tail };
        assert(spec_then_opt_h16(spec_start(s)) == first);
        lemma_run_of_colon_groups(one, others, mark);
        lemma_run_of_zeros(one + spec_group_values(others), r, (n - before.len()) as nat);
        lemma_steps_in_two_runs(first, others.len(), (n - before.len()) as nat);
        assert(others.len() + (n - before.len()) as nat == (n - 1) as nat);
        assert(one + spec_group_values(others) =~= values);
        assert(spec_groups_before(s, n) == (Gathered::Success {
            token: values + spec_zeros(n - before.len()),
            stream: mark,
        }));
    }
}

/// An alternative that decodes fewer groups before the mark than the text
/// holds there fails at the mark.
proof fn lemma_too_many_before_the_mark(before: Seq<Seq<u8>>, r: Seq<u8>, n: nat)
    requires
        spec_are_group_texts(before),
        before.len() > n,
    ensures
        spec_then_double_colon(
            spec_groups_before(spec_groups_text(before) + seq![COLON, COLON] + r, n),
        ) is Failure,
{
    let mark = seq![COLON, COLON] + r;
    let s = spec_groups_text(before) + seq![COLON, COLON] + r;
    lemma_groups_text_from_front(before);
    lemma_group_values(before, before);
    let others = before.skip(1);
    assert(s =~= before[0] + (spec_colon_groups(others) + mark));
    lemma_group_text_starts_with_hex(before[0], spec_colon_groups(others) + mark);
    if n > 0 {
        let taken = others.take(n - 1);
        let left = others.skip(n - 1);
        assert(others =~= taken + left);
        lemma_group_values(others, others);
        lemma_colon_groups_split(taken, left);
        let tail = spec_colon_groups(left) + mark;
        assert(spec_colon_groups(left) == seq![COLON] + left[0] + spec_colon_groups(left.skip(1)));
        lemma_group_text_starts_with_hex(left[0], spec_colon_groups(left.skip(1)) + mark);
        assert(tail =~= seq![COLON] + (left[0] + (spec_colon_groups(left.skip(1)) + mark)));
        assert(tail[0] == COLON);
        assert(tail[1] == (left[0] + (spec_colon_groups(left.skip(1)) + mark))[0]);
        assert(spec_double_colon(tail) is Failure);
        let first_tail = spec_colon_groups(others) + mark;
        assert(first_tail =~= spec_colon_groups(taken) + tail);
        assert(spec_no_hex_ahead(first_tail)) by {
            assert(first_tail[0] == COLON) by {
                if taken.len() > 0 {
                    assert(spec_colon_groups(taken)[0] == COLON);
                }
            }
        }
        lemma_h16_accepts_group_text(before[0], first_tail);
        let one = Seq::<u16>::empty().push(spec_group_value(before[0]));
        lemma_run_of_colon_groups(one, taken, tail);
    }
}

/// A text that does not start with a decimal digit is no IPv4 address,
/// and no broken one either.
proof fn lemma_ipv4_address_needs_a_digit(y: Seq<u8>)
    requires
        y.len() == 0 || !spec_is_digit(y[0]),
    ensures
        spec_ipv4_address(y) is Failure,
{
    reveal(spec_ipv4_address);
    reveal(spec_dec_octet);
}

/// A text that starts with hexadecimal digits only, up to a character that
/// is neither a decimal digit nor a `.`, is not decoded as an IPv4 address.
proof fn lemma_ipv4_address_needs_a_dot(x: Seq<u8>, y: Seq<u8>)
    requires
        forall|i: int| 0 <= i < x.len() ==> spec_is_hex(#[trigger] x[i]),
        y.len() == 0 || (!spec_is_digit(y[0]) && y[0] != DOT),
    ensures
        !(spec_ipv4_address(x + y) is Success),
{
    let s = x + y;
    if spec_ipv4_address(s) is Success {
        reveal(spec_ipv4_address);
        reveal(spec_decimal);
        lemma_dec_octet_dot_only_decimal(s);
        let token = spec_dec_octet_dot(s)->Success_token;
        let stream = spec_dec_octet_dot(s)->Success_stream;
        let d = spec_decimal(token);
        let p = d.len() as int;
        assert(s == d + seq![DOT] + stream);
        assert(s[p] == DOT);
        assert forall|i: int| 0 <= i < p implies spec_is_digit(s[i]) by {
            assert(s[i] == d[i]);
        }
        if p < x.len() {
            assert(s[p] == x[p]);
        } else if p == x.len() {
            assert(s[p] == y[0]);
        } else {
            assert(s[x.len() as int] == y[0]);
        }
    }
}

/// The steps after the mark of the alternative that fits decode the groups
/// that stand after the mark.
proof fn lemma_after_the_mark(acc: Seq<u16>, after: Seq<Seq<u8>>, t: Seq<u8>)
    requires
        spec_are_group_texts(after),
        after.len() >= 2,
        spec_no_hex_ahead(t),
    ensures
        spec_then_ls32(
            spec_then_h16_colon_n(
                Gathered::Success { token: acc, stream: spec_groups_text(after) + t },
                (after.len() - 2) as nat,
            ),
        ) == (Gathered::Success { token: acc + spec_group_values(after), stream: t }),
{
    let n = after.len() - 2;
    let first = after.take(n);
    let last = after.skip(n);
    assert(after =~= first + last);
    lemma_group_values(after, after);
    lemma_group_values(first, last);
    lemma_groups_text_split(first, last);
    assert(last.skip(1).len() == 1);
    assert(spec_groups_text(last) == last[0] + seq![COLON] + last[1]) by {
        assert(spec_groups_text(last.skip(1)) == last.skip(1)[0]);
    }
    let low = last[0] + seq![COLON] + (last[1] + t);
    assert(spec_groups_text(after) + t =~= spec_groups_colon(first) + low);
    lemma_run_of_groups_colon(acc, first, low);
    lemma_ls32_accepts_group_texts(last[0], last[1], t);
    assert(spec_group_values(last) =~= seq![spec_group_value(last[0]), spec_group_value(last[1])]);
    assert((acc + spec_group_values(first)).push(spec_group_value(last[0])).push(
        spec_group_value(last[1]),
    ) =~= acc + spec_group_values(after));
}

/// An alternative that asks for more groups after the mark than the text
/// holds there fails.
proof fn lemma_too_few_after_the_mark(acc: Seq<u16>, after: Seq<Seq<u8>>, t: Seq<u8>, n: nat)
    requires
        spec_are_group_texts(after),
        n + 1 >= after.len(),
        spec_ends_address(t),
        after.len() >= 1 && n + 1 == after.len() ==> !(spec_ipv4_address(after.last() + t)
            is Error),
    ensures
        spec_then_ls32(
            spec_then_h16_colon_n(
                Gathered::Success { token: acc, stream: spec_groups_text(after) + t },
                n,
            ),
        ) is Failure,
{
    let start = Gathered::Success { token: acc, stream: spec_groups_text(after) + t };
    assert(spec_h16(t) is Failure) by {
        reveal(spec_h16);
    }
    if after.len() == 0 {
        assert(spec_groups_text(after) + t =~= t);
        if n == 0 {
            lemma_ipv4_address_needs_a_digit(t);
            assert(spec_ls32(t) is Failure) by {
                reveal(spec_ls32);
            }
        } else {
            assert(spec_then_h16_colon(start) is Failure);
            lemma_steps_after_the_end(spec_then_h16_colon(start), (n - 1) as nat);
        }
    } else {
        let m = after.len();
        let first = after.take(m - 1);
        let last = after.skip(m - 1);
        let h = after.last();
        assert(after =~= first + last);
        lemma_group_values(after, after);
        lemma_groups_text_split(first, last);
        assert(spec_groups_text(last) == h);
        let lone = h + t;
        assert(spec_groups_text(after) + t =~= spec_groups_colon(first) + lone);
        lemma_run_of_groups_colon(acc, first, lone);
        let reached = Gathered::Success { token: acc + spec_group_values(first), stream: lone };
        assert(spec_then_h16_colon_n(start, first.len()) == reached);
        lemma_h16_accepts_group_text(h, t);
        if n + 1 == m {
            lemma_ipv4_address_needs_a_dot(h, t);
            assert(spec_ls32(lone) is Failure) by {
                reveal(spec_ls32);
            }
        } else {
            assert(spec_then_h16_colon(reached) is Failure);
            lemma_steps_in_two_runs(start, first.len(), (n - first.len()) as nat);
            lemma_steps_after_the_end(
                spec_then_h16_colon(reached),
                (n - first.len() - 1) as nat,
            );
            assert(first.len() + (n - first.len()) as nat == n);
        }
    }
}

/// The alternative that decodes as many groups after the mark as the text
/// holds there decodes the address of the compressed form.
proof fn lemma_alternative_that_fits(before: Seq<Seq<u8>>, after: Seq<Seq<u8>>, t: Seq<u8>)
    requires
        spec_are_group_texts(before),
        spec_are_group_texts(after),
        before.len() + after.len() <= 7,
        spec_ends_address(t),
    ensures
        spec_alternative((8 - after.len()) as nat, spec_compressed_form(before, after) + t) == (
        Parsed::<Ipv6Addr, Seq<u8>, IpAddrAtom>::Success {
            token: spec_address_of(spec_compressed_groups(before, after)),
            stream: t,
        }),
{
    let m = after.len();
    let j = (8 - m) as nat;
    let r = spec_groups_text(after) + t;
    let s = spec_compressed_form(before, after) + t;
    assert(s =~= spec_groups_text(before) + seq![COLON, COLON] + r);
    lemma_before_the_mark(before, r, (j - 1) as nat);
    let acc = (spec_group_values(before) + spec_zeros(j - 1 - before.len())).push(0);
    let groups = spec_compressed_groups(before, after);
    assert(acc =~= spec_group_values(before) + spec_zeros(8 - before.len() - m));
    assert(groups.len() == 8);
    if m >= 2 {
        lemma_after_the_mark(acc, after, t);
        assert(acc + spec_group_values(after) =~= groups);
    } else if m == 1 {
        assert(spec_groups_text(after) == after[0]);
        lemma_h16_accepts_group_text(after[0], t);
        assert(acc.push(spec_group_value(after[0])) =~= groups);
    } else {
        assert(r =~= t);
        assert(acc =~= groups);
    }
}

/// An alternative that asks for more groups after the mark than the text
/// holds there fails.
proof fn lemma_alternative_that_asks_for_more(
    j: nat,
    before: Seq<Seq<u8>>,
    after: Seq<Seq<u8>>,
    t: Seq<u8>,
)
    requires
        spec_are_group_texts(before),
        spec_are_group_texts(after),
        1 <= j,
        j + after.len() <= 7,
        spec_ends_address(t),
        after.len() >= 1 && before.len() + after.len() <= 6 ==> !(spec_ipv4_address(
            after.last() + t,
        ) is Error),
    ensures
        spec_alternative(j, spec_compressed_form(before, after) + t) is Failure,
{
    let m = after.len();
    let r = spec_groups_text(after) + t;
    let s = spec_compressed_form(before, after) + t;
    assert(s =~= spec_groups_text(before) + seq![COLON, COLON] + r);
    if before.len() > j - 1 {
        lemma_too_many_before_the_mark(before, r, (j - 1) as nat);
        let st = spec_then_double_colon(spec_groups_before(s, (j - 1) as nat));
        if j <= 6 {
            lemma_steps_after_the_end(st, (6 - j) as nat);
        }
    } else {
        lemma_before_the_mark(before, r, (j - 1) as nat);
        let acc = (spec_group_values(before) + spec_zeros(j - 1 - before.len())).push(0);
        if j <= 6 {
            lemma_too_few_after_the_mark(acc, after, t, (6 - j) as nat);
        } else {
            assert(r =~= t);
            assert(spec_h16(t) is Failure) by {
                reveal(spec_h16);
            }
        }
    }
}

/// The alternative without the mark fails on a text that holds the mark
/// after six groups at most.
proof fn lemma_without_mark_fails_at_the_mark(before: Seq<Seq<u8>>, r: Seq<u8>)
    requires
        spec_are_group_texts(before),
        before.len() <= 6,
    ensures
        spec_alternative_without_mark(spec_groups_text(before) + seq![COLON, COLON] + r)
            is Failure,
{
    let k = before.len();
    let s = spec_groups_text(before) + seq![COLON, COLON] + r;
    let start = spec_start(s);
    let mark = seq![COLON, COLON] + r;
    let one = seq![COLON] + r;
    assert(s =~= spec_groups_text(before) + mark);
    assert(spec_h16(mark) is Failure && spec_h16(one) is Failure) by {
        reveal(spec_h16);
    }
    if k == 0 {
        assert(s =~= mark);
        assert(spec_then_h16_colon(start) is Failure);
        lemma_steps_after_the_end(spec_then_h16_colon(start), 5);
    } else {
        lemma_groups_text_then_colon(before);
        assert(s =~= spec_groups_colon(before) + one);
        lemma_run_of_groups_colon(Seq::empty(), before, one);
        let reached = Gathered::Success {
            token: Seq::<u16>::empty() + spec_group_values(before),
            stream: one,
        };
        lemma_steps_in_two_runs(start, k, (6 - k) as nat);
        if k < 6 {
            assert(spec_then_h16_colon(reached) is Failure);
            lemma_steps_after_the_end(spec_then_h16_colon(reached), (5 - k) as nat);
        } else {
            lemma_ipv4_address_needs_a_digit(one);
            assert(spec_ls32(one) is Failure) by {
                reveal(spec_ls32);
            }
        }
    }
}

/// The alternative without the mark fails on a compressed form.
proof fn lemma_without_mark_fails_on_compressed_form(
    before: Seq<Seq<u8>>,
    after: Seq<Seq<u8>>,
    t: Seq<u8>,
)
    requires
        spec_are_group_texts(before),
        before.len() + after.len() <= 7,
        spec_ends_address(t),
        before.len() == 7 ==> !(spec_ipv4_address(before.last() + (seq![COLON, COLON] + t))
            is Error),
    ensures
        spec_alternative_without_mark(spec_compressed_form(before, after) + t) is Failure,
{
    let r = spec_groups_text(after) + t;
    let s = spec_compressed_form(before, after) + t;
    assert(s =~= spec_groups_text(before) + seq![COLON, COLON] + r);
    if before.len() <= 6 {
        lemma_without_mark_fails_at_the_mark(before, r);
    } else {
        let first = before.take(6);
        let last = before.skip(6);
        let g = before.last();
        assert(before =~= first + last);
        lemma_group_values(before, before);
        lemma_groups_text_split(first, last);
        assert(spec_groups_text(last) == g);
        assert(r =~= t);
        let tail = seq![COLON, COLON] + t;
        let lone = g + tail;
        assert(s =~= spec_groups_colon(first) + lone);
        lemma_run_of_groups_colon(Seq::empty(), first, lone);
        lemma_h16_accepts_group_text(g, tail);
        lemma_ipv4_address_needs_a_dot(g, tail);
        assert(tail.skip(1) =~= seq![COLON] + t);
        assert(spec_h16(seq![COLON] + t) is Failure) by {
            reveal(spec_h16);
        }
        assert(spec_colon_h16(tail) is Failure);
        assert(spec_ls32(lone) is Failure) by {
            reveal(spec_ls32);
        }
    }
}

/// On a text on which the alternative without the mark and the first
/// alternatives with it fail, the next alternative decides.
proof fn lemma_first_that_does_not_fail(s: Seq<u8>, j: nat)
    requires
        1 <= j <= 8,
        spec_alternative_without_mark(s) is Failure,
        forall|i: nat| 1 <= i < j ==> #[trigger] spec_alternative(i, s) is Failure,
        !(spec_alternative(j, s) is Failure),
    ensures
        spec_ipv6_address(s) == spec_alternative(j, s),
{
    lemma_alternatives(s);
    assert(1 < j ==> spec_alternative(1, s) is Failure);
    assert(2 < j ==> spec_alternative(2, s) is Failure);
    assert(3 < j ==> spec_alternative(3, s) is Failure);
    assert(4 < j ==> spec_alternative(4, s) is Failure);
    assert(5 < j ==> spec_alternative(5, s) is Failure);
    assert(6 < j ==> spec_alternative(6, s) is Failure);
    assert(7 < j ==> spec_alternative(7, s) is Failure);
}

/// Every address is decoded from each of its full forms: eight groups with
/// a `:` between them, where no further hexadecimal digit follows them.
pub proof fn lemma_ipv6_address_accepts_full_form(g: Seq<Seq<u8>>, t: Seq<u8>)
    requires
        spec_are_group_texts(g),
        g.len() == 8,
        spec_no_hex_ahead(t),
    ensures
        spec_ipv6_address(spec_groups_text(g) + t) == (Parsed::<
            Ipv6Addr,
            Seq<u8>,
            IpAddrAtom,
        >::Success { token: spec_address_of(spec_group_values(g)), stream: t }),
{
    let s = spec_groups_text(g) + t;
    lemma_alternatives(s);
    lemma_after_the_mark(Seq::empty(), g, t);
    assert(Seq::<u16>::empty() + spec_group_values(g) =~= spec_group_values(g));
}

/// Every address is decoded from each of its compressed forms, where the
/// address can end after the form, unless the last group of the form reads
/// as a decimal number that is no octet: a number over 255, or a zero before
/// another digit. Such a group is a fatal error where it stands alone as the
/// last 32 bits of an alternative that is tried before the one that fits.
pub proof fn lemma_ipv6_address_accepts_compressed_form(
    before: Seq<Seq<u8>>,
    after: Seq<Seq<u8>>,
    t: Seq<u8>,
)
    requires
        spec_are_group_texts(before),
        spec_are_group_texts(after),
        before.len() + after.len() <= 7,
        spec_ends_address(t),
        after.len() >= 1 && before.len() + after.len() <= 6 ==> !(spec_ipv4_address(
            after.last() + t,
        ) is Error),
        before.len() == 7 ==> !(spec_ipv4_address(before.last() + (seq![COLON, COLON] + t))
            is Error),
    ensures
        spec_ipv6_address(spec_compressed_form(before, after) + t) == (Parsed::<
            Ipv6Addr,
            Seq<u8>,
            IpAddrAtom,
        >::Success { token: spec_address_of(spec_compressed_groups(before, after)), stream: t }),
{
    let s = spec_compressed_form(before, after) + t;
    let fits = (8 - after.len()) as nat;
    lemma_without_mark_fails_on_compressed_form(before, after, t);
    assert forall|i: nat| 1 <= i < fits implies #[trigger] spec_alternative(i, s) is Failure by {
        lemma_alternative_that_asks_for_more(i, before, after, t);
    }
    lemma_alternative_that_fits(before, after, t);
    lemma_first_that_does_not_fail(s, fits);
}

/// A mixed form of an address with the mark: the groups `before`, the
/// mark `::`, the groups `middle` with a `:` after each, and the last 32
/// bits as the dotted quad `a.b.c.d`.
pub open spec fn spec_mixed_form(
    before: Seq<Seq<u8>>,
    middle: Seq<Seq<u8>>,
    a: u8,
    b: u8,
    c: u8,
    d: u8,
) -> Seq<u8> {
    spec_groups_text(before) + seq![COLON, COLON] + spec_groups_colon(middle) + spec_dotted_quad(
        a,
        b,
        c,
        d,
    )
}

/// The eight groups of the address whose mixed form has the groups `before`
/// and `middle` and the dotted quad `a.b.c.d`.
pub open spec fn spec_mixed_groups(
    before: Seq<Seq<u8>>,
    middle: Seq<Seq<u8>>,
    a: u8,
    b: u8,
    c: u8,
    d: u8,
) -> Seq<u16> {
    spec_group_values(before) + spec_zeros(6 - before.len() - middle.len()) + spec_group_values(
        middle,
    ) + seq![be16(a, b), be16(c, d)]
}

/// A group that is read from the front of a dotted quad ends at the first
/// `.`, so that no `:` follows it.
proof fn lemma_h16_stops_at_the_dot(a: u8, rest: Seq<u8>)
    ensures
        spec_h16_colon(spec_decimal(a) + seq![DOT] + rest) is Failure,
        spec_h16(spec_decimal(a) + seq![DOT] + rest) matches Parsed::Success {
            token: _,
            stream,
        } && spec_colon_h16(stream) is Failure,
{
    reveal(spec_decimal);
    reveal(spec_h16);
    let d = spec_decimal(a);
    let s = d + seq![DOT] + rest;
    let p = d.len() as int;
    assert forall|i: int| 0 <= i < p implies spec_is_hex(#[trigger] s[i]) by {
        assert(s[i] == d[i]);
    }
    assert(s[p] == DOT);
    assert(spec_h16_len(s) == p);
    assert(s.skip(p)[0] == DOT);
}

/// The last 32 bits are decoded from a dotted quad, where no further digit
/// follows it.
proof fn lemma_ls32_accepts_dotted_quad(a: u8, b: u8, c: u8, d: u8, t: Seq<u8>)
    requires
        spec_no_digit_ahead(t),
    ensures
        spec_ls32(spec_dotted_quad(a, b, c, d) + t) == (Parsed::<
            (u16, u16),
            Seq<u8>,
            IpAddrAtom,
        >::Success { token: (be16(a, b), be16(c, d)), stream: t }),
{
    reveal(spec_ls32);
    let rest = spec_decimal(b) + seq![DOT] + spec_decimal(c) + seq![DOT] + spec_decimal(d) + t;
    assert(spec_dotted_quad(a, b, c, d) + t =~= spec_decimal(a) + seq![DOT] + rest);
    lemma_h16_stops_at_the_dot(a, rest);
    lemma_ipv4_address_accepts_dotted_quad(a, b, c, d, t);
}

/// The steps of the alternative that fits a mixed form decode the groups
/// before the dotted quad and the dotted quad.
proof fn lemma_up_to_the_quad(
    acc: Seq<u16>,
    middle: Seq<Seq<u8>>,
    a: u8,
    b: u8,
    c: u8,
    d: u8,
    t: Seq<u8>,
)
    requires
        spec_are_group_texts(middle),
        spec_no_digit_ahead(t),
    ensures
        spec_then_ls32(
            spec_then_h16_colon_n(
                Gathered::Success {
                    token: acc,
                    stream: spec_groups_colon(middle) + (spec_dotted_quad(a, b, c, d) + t),
                },
                middle.len(),
            ),
        ) == (Gathered::Success {
            token: acc + spec_group_values(middle) + seq![be16(a, b), be16(c, d)],
            stream: t,
        }),
{
    lemma_run_of_groups_colon(acc, middle, spec_dotted_quad(a, b, c, d) + t);
    lemma_ls32_accepts_dotted_quad(a, b, c, d, t);
    assert((acc + spec_group_values(middle)).push(be16(a, b)).push(be16(c, d)) =~= acc
        + spec_group_values(middle) + seq![be16(a, b), be16(c, d)]);
}

/// An alternative that asks for more groups before the dotted quad than
/// the text holds there fails.
proof fn lemma_too_few_before_the_quad(
    acc: Seq<u16>,
    middle: Seq<Seq<u8>>,
    a: u8,
    b: u8,
    c: u8,
    d: u8,
    t: Seq<u8>,
    n: nat,
)
    requires
        spec_are_group_texts(middle),
        n > middle.len(),
    ensures
        spec_then_ls32(
            spec_then_h16_colon_n(
                Gathered::Success {
                    token: acc,
                    stream: spec_groups_colon(middle) + (spec_dotted_quad(a, b, c, d) + t),
                },
                n,
            ),
        ) is Failure,
{
    let quad = spec_dotted_quad(a, b, c, d) + t;
    let start = Gathered::Success { token: acc, stream: spec_groups_colon(middle) + quad };
    lemma_run_of_groups_colon(acc, middle, quad);
    let reached = Gathered::Success { token: acc + spec_group_values(middle), stream: quad };
    let rest = spec_decimal(b) + seq![DOT] + spec_decimal(c) + seq![DOT] + spec_decimal(d) + t;
    assert(quad =~= spec_decimal(a) + seq![DOT] + rest);
    lemma_h16_stops_at_the_dot(a, rest);
    assert(spec_then_h16_colon(reached) is Failure);
    lemma_steps_in_two_runs(start, middle.len(), (n - middle.len()) as nat);
    lemma_steps_after_the_end(spec_then_h16_colon(reached), (n - middle.len() - 1) as nat);
    assert(middle.len() + (n - middle.len()) as nat == n);
}

/// One alternative with the mark on a mixed form: the one that fits decodes
/// the address, and each one before it fails.
proof fn lemma_alternative_on_mixed_form(
    j: nat,
    before: Seq<Seq<u8>>,
    middle: Seq<Seq<u8>>,
    a: u8,
    b: u8,
    c: u8,
    d: u8,
    t: Seq<u8>,
)
    requires
        spec_are_group_texts(before),
        spec_are_group_texts(middle),
        1 <= j,
        j + middle.len() <= 6,
        before.len() + middle.len() <= 5,
        spec_no_digit_ahead(t),
    ensures
        j + middle.len() < 6 ==> spec_alternative(
            j,
            spec_mixed_form(before, middle, a, b, c, d) + t,
        ) is Failure,
        j + middle.len() == 6 ==> spec_alternative(
            j,
            spec_mixed_form(before, middle, a, b, c, d) + t,
        ) == (Parsed::<Ipv6Addr, Seq<u8>, IpAddrAtom>::Success {
            token: spec_address_of(spec_mixed_groups(before, middle, a, b, c, d)),
            stream: t,
        }),
{
    let r = spec_groups_colon(middle) + (spec_dotted_quad(a, b, c, d) + t);
    let s = spec_mixed_form(before, middle, a, b, c, d) + t;
    assert(s =~= spec_groups_text(before) + seq![COLON, COLON] + r);
    if before.len() > j - 1 {
        lemma_too_many_before_the_mark(before, r, (j - 1) as nat);
        let st = spec_then_double_colon(spec_groups_before(s, (j - 1) as nat));
        lemma_steps_after_the_end(st, (6 - j) as nat);
    } else {
        lemma_before_the_mark(before, r, (j - 1) as nat);
        let acc = (spec_group_values(before) + spec_zeros(j - 1 - before.len())).push(0);
        if j + middle.len() < 6 {
            lemma_too_few_before_the_quad(acc, middle, a, b, c, d, t, (6 - j) as nat);
        } else {
            lemma_up_to_the_quad(acc, middle, a, b, c, d, t);
            let groups = spec_mixed_groups(before, middle, a, b, c, d);
            assert(acc + spec_group_values(middle) + seq![be16(a, b), be16(c, d)] =~= groups);
            assert(groups.len() == 8);
        }
    }
}

/// Every address is decoded from each of its mixed forms with the mark
/// `::`, where no further digit follows the dotted quad.
pub proof fn lemma_ipv6_address_accepts_mixed_form(
    before: Seq<Seq<u8>>,
    middle: Seq<Seq<u8>>,
    a: u8,
    b: u8,
    c: u8,
    d: u8,
    t: Seq<u8>,
)
    requires
        spec_are_group_texts(before),
        spec_are_group_texts(middle),
        before.len() + middle.len() <= 5,
        spec_no_digit_ahead(t),
    ensures
        spec_ipv6_address(spec_mixed_form(before, middle, a, b, c, d) + t) == (Parsed::<
            Ipv6Addr,
            Seq<u8>,
            IpAddrAtom,
        >::Success {
            token: spec_address_of(spec_mixed_groups(before, middle, a, b, c, d)),
            stream: t,
        }),
{
    let r = spec_groups_colon(middle) + (spec_dotted_quad(a, b, c, d) + t);
    let s = spec_mixed_form(before, middle, a, b, c, d) + t;
    let fits = (6 - middle.len()) as nat;
    assert(s =~= spec_groups_text(before) + seq![COLON, COLON] + r);
    lemma_without_mark_fails_at_the_mark(before, r);
    assert forall|i: nat| 1 <= i < fits implies #[trigger] spec_alternative(i, s) is Failure by {
        lemma_alternative_on_mixed_form(i, before, middle, a, b, c, d, t);
    }
    lemma_alternative_on_mixed_form(fits, before, middle, a, b, c, d, t);
    lemma_first_that_does_not_fail(s, fits);
}

/// Every address is decoded from each of its mixed forms without the mark:
/// six groups, each with a `:` after it, and the last 32 bits as a dotted
/// quad, where no further digit follows it.
pub proof fn lemma_ipv6_address_accepts_full_mixed_form(
    first: Seq<Seq<u8>>,
    a: u8,
    b: u8,
    c: u8,
    d: u8,
    t: Seq<u8>,
)
    requires
        spec_are_group_texts(first),
        first.len() == 6,
        spec_no_digit_ahead(t),
    ensures
        spec_ipv6_address(spec_groups_colon(first) + spec_dotted_quad(a, b, c, d) + t) == (
        Parsed::<Ipv6Addr, Seq<u8>, IpAddrAtom>::Success {
            token: spec_address_of(spec_group_values(first) + seq![be16(a, b), be16(c, d)]),
            stream: t,
        }),
{
    let s = spec_groups_colon(first) + spec_dotted_quad(a, b, c, d) + t;
    assert(s =~= spec_groups_colon(first) + (spec_dotted_quad(a, b, c, d) + t));
    lemma_alternatives(s);
    lemma_up_to_the_quad(Seq::empty(), first, a, b, c, d, t);
    assert(Seq::<u16>::empty() + spec_group_values(first) + seq![be16(a, b), be16(c, d)]
        =~= spec_group_values(first) + seq![be16(a, b), be16(c, d)]);
}

} // verus!
