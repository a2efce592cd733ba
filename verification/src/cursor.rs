//! Reading fixed-size items from the front of a byte slice.
//!
//! Every reader takes the unread input and returns the item together with the
//! input that follows it. An input that ends too early is a `Failure`; none of
//! the readers here ever reports a fatal `Error`.

use vstd::prelude::*;
use vstd::slice::slice_subrange;
use crate::parsed::Parsed;

verus! {

/// The 16-bit number whose big-endian encoding is `hi lo`.
pub open spec fn be16(hi: u8, lo: u8) -> u16 {
    (hi as int * 256 + lo as int) as u16
}

/// The 32-bit number whose big-endian encoding is `a b c d`.
pub open spec fn be32(a: u8, b: u8, c: u8, d: u8) -> u32 {
    (((a as int * 256 + b as int) * 256 + c as int) * 256 + d as int) as u32
}

/// The bits of `b` above its low `n` bits, shifted down.
pub open spec fn high_bits(b: u8, n: u8) -> u8 {
    b >> n
}

/// The low `n` bits of `b`.
pub open spec fn low_bits(b: u8, n: u8) -> u8 {
    b & (0xffu8 >> ((8 - n) as u8))
}

/// Splitting an octet after its low four or five bits is a division: the
/// high part is the quotient and the low part the remainder.
pub proof fn lemma_bits_are_quotient_and_remainder(b: u8)
    ensures
        high_bits(b, 4) == b / 16,
        low_bits(b, 4) == b % 16,
        high_bits(b, 5) == b / 32,
        low_bits(b, 5) == b % 32,
{
    assert(b >> 4u8 == b / 16) by (bit_vector);
    assert(b & (0xffu8 >> 4u8) == b % 16) by (bit_vector);
    assert(b >> 5u8 == b / 32) by (bit_vector);
    assert(b & (0xffu8 >> 3u8) == b % 32) by (bit_vector);
}

/// What [`octet`] returns on input `s`.
pub open spec fn spec_octet<A>(s: Seq<u8>) -> Parsed<u8, Seq<u8>, A> {
    if s.len() < 1 {
        Parsed::Failure
    } else {
        Parsed::Success { token: s[0], stream: s.skip(1) }
    }
}

/// What [`is`] returns on input `s` when `expect` is wanted.
pub open spec fn spec_is<A>(s: Seq<u8>, expect: u8) -> Parsed<u8, Seq<u8>, A> {
    if s.len() >= 1 && s[0] == expect {
        Parsed::Success { token: expect, stream: s.skip(1) }
    } else {
        Parsed::Failure
    }
}

/// What [`nbit`] returns on input `s` when the low part is `n` bits wide.
pub open spec fn spec_nbit<A>(s: Seq<u8>, n: u8) -> Parsed<(u8, u8), Seq<u8>, A> {
    if s.len() < 1 {
        Parsed::Failure
    } else {
        Parsed::Success { token: (high_bits(s[0], n), low_bits(s[0], n)), stream: s.skip(1) }
    }
}

/// What [`u16_be`] returns on input `s`.
pub open spec fn spec_u16_be<A>(s: Seq<u8>) -> Parsed<u16, Seq<u8>, A> {
    if s.len() < 2 {
        Parsed::Failure
    } else {
        Parsed::Success { token: be16(s[0], s[1]), stream: s.skip(2) }
    }
}

/// What [`u32_be`] returns on input `s`.
pub open spec fn spec_u32_be<A>(s: Seq<u8>) -> Parsed<u32, Seq<u8>, A> {
    if s.len() < 4 {
        Parsed::Failure
    } else {
        Parsed::Success { token: be32(s[0], s[1], s[2], s[3]), stream: s.skip(4) }
    }
}

/// What [`take`] returns on input `s` when `n` octets are wanted.
pub open spec fn spec_take<A>(s: Seq<u8>, n: int) -> Parsed<Seq<u8>, Seq<u8>, A> {
    if s.len() < n {
        Parsed::Failure
    } else {
        Parsed::Success { token: s.take(n), stream: s.skip(n) }
    }
}

/// The input that follows the first `n` octets of `stream`.
pub fn advance<'a>(stream: &'a [u8], n: usize) -> (rest: &'a [u8])
    requires
        n <= stream@.len(),
    ensures
        rest@ == stream@.skip(n as int),
{
    slice_subrange(stream, n, stream.len())
}

/// Reads one octet.
pub fn octet<'a, A>(stream: &'a [u8]) -> (r: Parsed<u8, &'a [u8], A>)
    ensures
        r@ == spec_octet::<A>(stream@),
{
    if stream.len() < 1 {
        Parsed::Failure
    } else {
        Parsed::Success { token: stream[0], stream: advance(stream, 1) }
    }
}

/// Reads one octet and succeeds only when it equals `expect`.
pub fn is<'a, A>(stream: &'a [u8], expect: u8) -> (r: Parsed<u8, &'a [u8], A>)
    ensures
        r@ == spec_is::<A>(stream@, expect),
{
    if stream.len() >= 1 && stream[0] == expect {
        Parsed::Success { token: expect, stream: advance(stream, 1) }
    } else {
        Parsed::Failure
    }
}

/// Reads one octet and splits it in two: the bits above the low `n` bits,
/// shifted down, and the low `n` bits.
pub fn nbit<'a, A>(stream: &'a [u8], n: u8) -> (r: Parsed<(u8, u8), &'a [u8], A>)
    requires
        0 < n < 8,
    ensures
        r@ == spec_nbit::<A>(stream@, n),
{
    if stream.len() < 1 {
        Parsed::Failure
    } else {
        let b: u8 = stream[0];
        Parsed::Success { token: (b >> n, b & (0xffu8 >> (8 - n))), stream: advance(stream, 1) }
    }
}

/// Reads a 16-bit number, most significant octet first.
pub fn u16_be<'a, A>(stream: &'a [u8]) -> (r: Parsed<u16, &'a [u8], A>)
    ensures
        r@ == spec_u16_be::<A>(stream@),
{
    if stream.len() < 2 {
        Parsed::Failure
    } else {
        let hi: u16 = stream[0] as u16;
        let lo: u16 = stream[1] as u16;
        Parsed::Success { token: hi * 256 + lo, stream: advance(stream, 2) }
    }
}

/// Reads a 32-bit number, most significant octet first.
pub fn u32_be<'a, A>(stream: &'a [u8]) -> (r: Parsed<u32, &'a [u8], A>)
    ensures
        r@ == spec_u32_be::<A>(stream@),
{
    if stream.len() < 4 {
        Parsed::Failure
    } else {
        let a: u32 = stream[0] as u32;
        let b: u32 = stream[1] as u32;
        let c: u32 = stream[2] as u32;
        let d: u32 = stream[3] as u32;
        Parsed::Success { token: ((a * 256 + b) * 256 + c) * 256 + d, stream: advance(stream, 4) }
    }
}

/// Captures the next `n` octets as a span of the input, without copying.
pub fn take<'a, A>(stream: &'a [u8], n: usize) -> (r: Parsed<&'a [u8], &'a [u8], A>)
    ensures
        r@ == spec_take::<A>(stream@, n as int),
{
    if stream.len() < n {
        Parsed::Failure
    } else {
        Parsed::Success { token: slice_subrange(stream, 0, n), stream: advance(stream, n) }
    }
}

} // verus!
