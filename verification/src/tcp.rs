//! The TCP header and its options.

use vstd::prelude::*;
use vstd::std_specs::convert::FromSpecImpl;
use vstd::string::StringExecFns;
use crate::cursor::{advance, be16, be32, octet, take, u16_be, u32_be};
use crate::message::{spec_decimal_text, with_decimal};
use crate::parsed::Parsed;

verus! {

/// True when bit `pos` of `raw` is set, bit 0 being the lowest.
pub open spec fn spec_bit(raw: u16, pos: u16) -> bool {
    raw & (1u16 << pos) != 0
}

/// `raw` with bit `pos` set when `state` holds, and cleared when it does not.
pub open spec fn spec_with_bit(raw: u16, pos: u16, state: bool) -> u16 {
    if state {
        raw | (1u16 << pos)
    } else {
        raw & !(1u16 << pos)
    }
}

/// The data offset that the flags word `raw` holds in its top four bits.
pub open spec fn spec_data_offset(raw: u16) -> u8 {
    (raw >> 12) as u8
}

/// `raw` with its top four bits replaced by `n`.
pub open spec fn spec_with_data_offset(raw: u16, n: u16) -> u16 {
    (raw & 0x0fff) | (n << 12)
}

/// Reads bit `pos` of `raw`.
fn get_bit(raw: u16, pos: u16) -> (b: bool)
    requires
        pos < 16,
    ensures
        b == spec_bit(raw, pos),
{
    raw & (1u16 << pos) != 0
}

/// Writes bit `pos` of `raw` and leaves every other bit as it was.
fn with_bit(raw: u16, pos: u16, state: bool) -> (r: u16)
    requires
        pos < 12,
    ensures
        r == spec_with_bit(raw, pos, state),
        spec_bit(r, pos) == state,
        forall|other: u16|
            other < 16 && other != pos ==> spec_bit(r, other) == spec_bit(raw, other),
        spec_data_offset(r) == spec_data_offset(raw),
{
    proof {
        lemma_bit_written_is_read(raw, pos, state);
        lemma_bit_written_keeps_data_offset(raw, pos, state);
        assert forall|other: u16| other < 16 && other != pos implies spec_bit(
            spec_with_bit(raw, pos, state),
            other,
        ) == spec_bit(raw, other) by {
            lemma_bit_written_keeps_others(raw, pos, other, state);
        }
    }
    if state {
        raw | (1u16 << pos)
    } else {
        raw & !(1u16 << pos)
    }
}

/// The 16-bit flags word of a TCP header: the data offset in the top four
/// bits, then three reserved bits and nine control bits.
#[derive(Clone, Copy, Debug, PartialEq, Eq, Structural)]
pub struct TcpFlags {
    /// The word as it stands in the header.
    pub raw: u16,
}

impl View for TcpFlags {
    type V = TcpFlags;

    open spec fn view(&self) -> TcpFlags {
        *self
    }
}

impl Default for TcpFlags {
    /// The word with no bit set.
    fn default() -> (r: TcpFlags)
        ensures
            r.raw == 0,
    {
        TcpFlags { raw: 0 }
    }
}

impl From<u16> for TcpFlags {
    /// The flags word `raw`.
    fn from(raw: u16) -> (r: TcpFlags) {
        TcpFlags { raw }
    }
}

impl FromSpecImpl<u16> for TcpFlags {
    open spec fn obeys_from_spec() -> bool {
        true
    }

    open spec fn from_spec(raw: u16) -> TcpFlags {
        TcpFlags { raw }
    }
}

impl TcpFlags {
    /// True when the first reserved bit is set.
    pub fn get_reserved_0(&self) -> (b: bool)
        ensures
            b == spec_bit(self.raw, 11),
    {
        get_bit(self.raw, 11)
    }

    /// Sets or clears the first reserved bit and returns `state`.
    pub fn set_reserved_0(&mut self, state: bool) -> (r: bool)
        ensures
            r == state,
            final(self).raw == spec_with_bit(old(self).raw, 11, state),
            spec_bit(final(self).raw, 11) == state,
            forall|other: u16|
                other < 16 && other != 11 ==> spec_bit(final(self).raw, other) == spec_bit(
                    old(self).raw,
                    other,
                ),
            spec_data_offset(final(self).raw) == spec_data_offset(old(self).raw),
    {
        self.raw = with_bit(self.raw, 11, state);
        state
    }

    /// True when the second reserved bit is set.
    pub fn get_reserved_1(&self) -> (b: bool)
        ensures
            b == spec_bit(self.raw, 10),
    {
        get_bit(self.raw, 10)
    }

    /// Sets or clears the second reserved bit and returns `state`.
    pub fn set_reserved_1(&mut self, state: bool) -> (r: bool)
        ensures
            r == state,
            final(self).raw == spec_with_bit(old(self).raw, 10, state),
            spec_bit(final(self).raw, 10) == state,
            forall|other: u16|
                other < 16 && other != 10 ==> spec_bit(final(self).raw, other) == spec_bit(
                    old(self).raw,
                    other,
                ),
            spec_data_offset(final(self).raw) == spec_data_offset(old(self).raw),
    {
        self.raw = with_bit(self.raw, 10, state);
        state
    }

    /// True when the third reserved bit is set.
    pub fn get_reserved_2(&self) -> (b: bool)
        ensures
            b == spec_bit(self.raw, 9),
    {
        get_bit(self.raw, 9)
    }

    /// Sets or clears the third reserved bit and returns `state`.
    pub fn set_reserved_2(&mut self, state: bool) -> (r: bool)
        ensures
            r == state,
            final(self).raw == spec_with_bit(old(self).raw, 9, state),
            spec_bit(final(self).raw, 9) == state,
            forall|other: u16|
                other < 16 && other != 9 ==> spec_bit(final(self).raw, other) == spec_bit(
                    old(self).raw,
                    other,
                ),
            spec_data_offset(final(self).raw) == spec_data_offset(old(self).raw),
    {
        self.raw = with_bit(self.raw, 9, state);
        state
    }

    /// True when the NS (nonce sum) bit is set.
    pub fn get_ns(&self) -> (b: bool)
        ensures
            b == spec_bit(self.raw, 8),
    {
        get_bit(self.raw, 8)
    }

    /// Sets or clears the NS (nonce sum) bit and returns `state`.
    pub fn set_ns(&mut self, state: bool) -> (r: bool)
        ensures
            r == state,
            final(self).raw == spec_with_bit(old(self).raw, 8, state),
            spec_bit(final(self).raw, 8) == state,
            forall|other: u16|
                other < 16 && other != 8 ==> spec_bit(final(self).raw, other) == spec_bit(
                    old(self).raw,
                    other,
                ),
            spec_data_offset(final(self).raw) == spec_data_offset(old(self).raw),
    {
        self.raw = with_bit(self.raw, 8, state);
        state
    }

    /// True when the CWR (congestion window reduced) bit is set.
    pub fn get_cwr(&self) -> (b: bool)
        ensures
            b == spec_bit(self.raw, 7),
    {
        get_bit(self.raw, 7)
    }

    /// Sets or clears the CWR (congestion window reduced) bit and returns `state`.
    pub fn set_cwr(&mut self, state: bool) -> (r: bool)
        ensures
            r == state,
            final(self).raw == spec_with_bit(old(self).raw, 7, state),
            spec_bit(final(self).raw, 7) == state,
            forall|other: u16|
                other < 16 && other != 7 ==> spec_bit(final(self).raw, other) == spec_bit(
                    old(self).raw,
                    other,
                ),
            spec_data_offset(final(self).raw) == spec_data_offset(old(self).raw),
    {
        self.raw = with_bit(self.raw, 7, state);
        state
    }

    /// True when the ECE (ECN echo) bit is set.
    pub fn get_ece(&self) -> (b: bool)
        ensures
            b == spec_bit(self.raw, 6),
    {
        get_bit(self.raw, 6)
    }

    /// Sets or clears the ECE (ECN echo) bit and returns `state`.
    pub fn set_ece(&mut self, state: bool) -> (r: bool)
        ensures
            r == state,
            final(self).raw == spec_with_bit(old(self).raw, 6, state),
            spec_bit(final(self).raw, 6) == state,
            forall|other: u16|
                other < 16 && other != 6 ==> spec_bit(final(self).raw, other) == spec_bit(
                    old(self).raw,
                    other,
                ),
            spec_data_offset(final(self).raw) == spec_data_offset(old(self).raw),
    {
        self.raw = with_bit(self.raw, 6, state);
        state
    }

    /// True when the URG (urgent pointer is significant) bit is set.
    pub fn get_urg(&self) -> (b: bool)
        ensures
            b == spec_bit(self.raw, 5),
    {
        get_bit(self.raw, 5)
    }

    /// Sets or clears the URG (urgent pointer is significant) bit and returns `state`.
    pub fn set_urg(&mut self, state: bool) -> (r: bool)
        ensures
            r == state,
            final(self).raw == spec_with_bit(old(self).raw, 5, state),
            spec_bit(final(self).raw, 5) == state,
            forall|other: u16|
                other < 16 && other != 5 ==> spec_bit(final(self).raw, other) == spec_bit(
                    old(self).raw,
                    other,
                ),
            spec_data_offset(final(self).raw) == spec_data_offset(old(self).raw),
    {
        self.raw = with_bit(self.raw, 5, state);
        state
    }

    /// True when the ACK (acknowledgment number is significant) bit is set.
    pub fn get_ack(&self) -> (b: bool)
        ensures
            b == spec_bit(self.raw, 4),
    {
        get_bit(self.raw, 4)
    }

    /// Sets or clears the ACK (acknowledgment number is significant) bit and returns `state`.
    pub fn set_ack(&mut self, state: bool) -> (r: bool)
        ensures
            r == state,
            final(self).raw == spec_with_bit(old(self).raw, 4, state),
            spec_bit(final(self).raw, 4) == state,
            forall|other: u16|
                other < 16 && other != 4 ==> spec_bit(final(self).raw, other) == spec_bit(
                    old(self).raw,
                    other,
                ),
            spec_data_offset(final(self).raw) == spec_data_offset(old(self).raw),
    {
        self.raw = with_bit(self.raw, 4, state);
        state
    }

    /// True when the PSH (push) bit is set.
    pub fn get_psh(&self) -> (b: bool)
        ensures
            b == spec_bit(self.raw, 3),
    {
        get_bit(self.raw, 3)
    }

    /// Sets or clears the PSH (push) bit and returns `state`.
    pub fn set_psh(&mut self, state: bool) -> (r: bool)
        ensures
            r == state,
            final(self).raw == spec_with_bit(old(self).raw, 3, state),
            spec_bit(final(self).raw, 3) == state,
            forall|other: u16|
                other < 16 && other != 3 ==> spec_bit(final(self).raw, other) == spec_bit(
                    old(self).raw,
                    other,
                ),
            spec_data_offset(final(self).raw) == spec_data_offset(old(self).raw),
    {
        self.raw = with_bit(self.raw, 3, state);
        state
    }

    /// True when the RST (reset the connection) bit is set.
    pub fn get_rst(&self) -> (b: bool)
        ensures
            b == spec_bit(self.raw, 2),
    {
        get_bit(self.raw, 2)
    }

    /// Sets or clears the RST (reset the connection) bit and returns `state`.
    pub fn set_rst(&mut self, state: bool) -> (r: bool)
        ensures
            r == state,
            final(self).raw == spec_with_bit(old(self).raw, 2, state),
            spec_bit(final(self).raw, 2) == state,
            forall|other: u16|
                other < 16 && other != 2 ==> spec_bit(final(self).raw, other) == spec_bit(
                    old(self).raw,
                    other,
                ),
            spec_data_offset(final(self).raw) == spec_data_offset(old(self).raw),
    {
        self.raw = with_bit(self.raw, 2, state);
        state
    }

    /// True when the SYN (synchronize sequence numbers) bit is set.
    pub fn get_syn(&self) -> (b: bool)
        ensures
            b == spec_bit(self.raw, 1),
    {
        get_bit(self.raw, 1)
    }

    /// Sets or clears the SYN (synchronize sequence numbers) bit and returns `state`.
    pub fn set_syn(&mut self, state: bool) -> (r: bool)
        ensures
            r == state,
            final(self).raw == spec_with_bit(old(self).raw, 1, state),
            spec_bit(final(self).raw, 1) == state,
            forall|other: u16|
                other < 16 && other != 1 ==> spec_bit(final(self).raw, other) == spec_bit(
                    old(self).raw,
                    other,
                ),
            spec_data_offset(final(self).raw) == spec_data_offset(old(self).raw),
    {
        self.raw = with_bit(self.raw, 1, state);
        state
    }

    /// True when the FIN (no more data from the sender) bit is set.
    pub fn get_fin(&self) -> (b: bool)
        ensures
            b == spec_bit(self.raw, 0),
    {
        get_bit(self.raw, 0)
    }

    /// Sets or clears the FIN (no more data from the sender) bit and returns `state`.
    pub fn set_fin(&mut self, state: bool) -> (r: bool)
        ensures
            r == state,
            final(self).raw == spec_with_bit(old(self).raw, 0, state),
            spec_bit(final(self).raw, 0) == state,
            forall|other: u16|
                other < 16 && other != 0 ==> spec_bit(final(self).raw, other) == spec_bit(
                    old(self).raw,
                    other,
                ),
            spec_data_offset(final(self).raw) == spec_data_offset(old(self).raw),
    {
        self.raw = with_bit(self.raw, 0, state);
        state
    }

    /// The data offset: the length of the header in 32-bit words.
    pub fn get_data_offset(&self) -> (r: u8)
        ensures
            r == spec_data_offset(self.raw),
            r <= 15,
    {
        let raw: u16 = self.raw;
        assert((raw >> 12u16) <= 15) by (bit_vector);
        (self.raw >> 12u16) as u8
    }

    /// Sets the data offset to `n` when `4 < n < 16` and returns `Ok(n)`;
    /// otherwise changes nothing and returns `Err(n)`.
    pub fn set_data_offset(&mut self, n: usize) -> (r: Result<usize, usize>)
        ensures
            4 < n < 16 ==> r == Ok::<usize, usize>(n) && final(self).raw == spec_with_data_offset(
                old(self).raw,
                n as u16,
            ) && spec_data_offset(final(self).raw) == n,
            !(4 < n < 16) ==> r == Err::<usize, usize>(n) && final(self).raw == old(self).raw,
            forall|pos: u16|
                pos < 12 ==> spec_bit(final(self).raw, pos) == spec_bit(old(self).raw, pos),
    {
        proof {
            if 4 < n < 16 {
                assert forall|pos: u16| pos < 12 implies spec_bit(
                    spec_with_data_offset(self.raw, n as u16),
                    pos,
                ) == spec_bit(self.raw, pos) by {
                    lemma_data_offset_written_is_read(self.raw, n as u16, pos);
                }
                lemma_data_offset_written_is_read(self.raw, n as u16, 0);
            }
        }
        if n > 4 && n < 16 {
            self.raw = (self.raw & 0x0fff) | ((n as u16) << 12u16);
            Ok(n)
        } else {
            Err(n)
        }
    }
}

/// A bit that was just set or cleared reads back as it was written.
pub proof fn lemma_bit_written_is_read(raw: u16, pos: u16, state: bool)
    requires
        pos < 16,
    ensures
        spec_bit(spec_with_bit(raw, pos, state), pos) == state,
{
    assert((raw | (1u16 << pos)) & (1u16 << pos) != 0) by (bit_vector)
        requires
            pos < 16,
    ;
    assert((raw & !(1u16 << pos)) & (1u16 << pos) == 0) by (bit_vector)
        requires
            pos < 16,
    ;
}

/// Writing one bit leaves every other bit as it was.
pub proof fn lemma_bit_written_keeps_others(raw: u16, pos: u16, other: u16, state: bool)
    requires
        pos < 16,
        other < 16,
        pos != other,
    ensures
        spec_bit(spec_with_bit(raw, pos, state), other) == spec_bit(raw, other),
{
    assert((raw | (1u16 << pos)) & (1u16 << other) == raw & (1u16 << other)) by (bit_vector)
        requires
            pos < 16,
            other < 16,
            pos != other,
    ;
    assert((raw & !(1u16 << pos)) & (1u16 << other) == raw & (1u16 << other)) by (bit_vector)
        requires
            pos < 16,
            other < 16,
            pos != other,
    ;
}

/// Writing one of the twelve flag bits leaves the data offset as it was.
pub proof fn lemma_bit_written_keeps_data_offset(raw: u16, pos: u16, state: bool)
    requires
        pos < 12,
    ensures
        spec_data_offset(spec_with_bit(raw, pos, state)) == spec_data_offset(raw),
{
    assert((raw | (1u16 << pos)) >> 12u16 == raw >> 12u16) by (bit_vector)
        requires
            pos < 12,
    ;
    assert((raw & !(1u16 << pos)) >> 12u16 == raw >> 12u16) by (bit_vector)
        requires
            pos < 12,
    ;
}

/// A data offset that was just written reads back, and the twelve flag bits
/// stay as they were.
pub proof fn lemma_data_offset_written_is_read(raw: u16, n: u16, pos: u16)
    requires
        n < 16,
        pos < 12,
    ensures
        spec_data_offset(spec_with_data_offset(raw, n)) == n,
        spec_bit(spec_with_data_offset(raw, n), pos) == spec_bit(raw, pos),
{
    assert(((raw & 0x0fff) | (n << 12u16)) >> 12u16 == n) by (bit_vector)
        requires
            n < 16,
    ;
    assert(((raw & 0x0fff) | (n << 12u16)) & (1u16 << pos) == raw & (1u16 << pos))
        by (bit_vector)
        requires
            n < 16,
            pos < 12,
    ;
}

/// The fields of a TCP header. `Span` is the type of the options region: a
/// part of the input, borrowed and never copied; [`tcp_options`] decodes it.
#[derive(Clone, Debug, PartialEq, Eq)]
pub struct TcpHeader<Span> {
    /// Port of the sender.
    pub source_port: u16,
    /// Port of the receiver.
    pub dest_port: u16,
    /// Sequence number.
    pub sequence_no: u32,
    /// Acknowledgment number.
    pub ack_no: u32,
    /// Data offset and control bits.
    pub flags: TcpFlags,
    /// Size of the receive window.
    pub window: u16,
    /// Checksum of header and data, carried as found and never verified.
    pub checksum: u16,
    /// Urgent pointer.
    pub urgent_pointer: u16,
    /// The options region: `(data offset - 5) * 4` octets.
    pub options: Span,
}

impl<Span: View> View for TcpHeader<Span> {
    type V = TcpHeader<Span::V>;

    open spec fn view(&self) -> TcpHeader<Span::V> {
        TcpHeader {
            source_port: self.source_port,
            dest_port: self.dest_port,
            sequence_no: self.sequence_no,
            ack_no: self.ack_no,
            flags: self.flags,
            window: self.window,
            checksum: self.checksum,
            urgent_pointer: self.urgent_pointer,
            options: self.options@,
        }
    }
}

/// Why an input can never be a TCP header or a list of TCP options.
#[derive(Clone, Copy, Debug, PartialEq, Eq, Structural)]
pub enum TcpAtom {
    /// The data offset is less than 5.
    DataOffSet,
    /// The length of a maximum-segment-size option is not 4.
    MssLen,
    /// The length of a window-scale option is not 3.
    WindowScaleLen,
    /// The length of a SACK-permitted option is not 2.
    SackPermittedLen,
    /// The length of a SACK option is this value, which is none of 10, 18, 26
    /// and 34.
    SackLen(u8),
    /// The length of a timestamps option is not 10.
    TimestampsLen,
}

impl TcpAtom {
    /// The text that describes the error.
    pub open spec fn spec_to_string(self) -> Seq<char> {
        match self {
            TcpAtom::DataOffSet => "DataOffSet: data_offset is less than 5"@,
            TcpAtom::MssLen => "MssLen: Maximun len size is not 4"@,
            TcpAtom::WindowScaleLen => "WindowScaleLen: Maximun len size is not 3"@,
            TcpAtom::SackPermittedLen => "SackPermittedLen: Maximun len size is not 3"@,
            TcpAtom::SackLen(len) => "SackLen: sack length is invalid found "@
                + spec_decimal_text(len as u16),
            TcpAtom::TimestampsLen => "TimestampsLen: Maximun len size is not 10"@,
        }
    }

    /// Describes the error in words, with the length that was found where
    /// the error carries one.
    pub fn to_string(&self) -> (r: String)
        ensures
            r@ == self.spec_to_string(),
    {
        match self {
            TcpAtom::DataOffSet => String::from_str("DataOffSet: data_offset is less than 5"),
            TcpAtom::MssLen => String::from_str("MssLen: Maximun len size is not 4"),
            TcpAtom::WindowScaleLen => String::from_str(
                "WindowScaleLen: Maximun len size is not 3",
            ),
            TcpAtom::SackPermittedLen => String::from_str(
                "SackPermittedLen: Maximun len size is not 3",
            ),
            TcpAtom::SackLen(len) => with_decimal("SackLen: sack length is invalid found ", *len as u16),
            TcpAtom::TimestampsLen => String::from_str(
                "TimestampsLen: Maximun len size is not 10",
            ),
        }
    }
}

/// Number of octets of a TCP header without options.
pub const TCP_HEADER_MIN_LEN: usize = 20;

/// What [`tcp_flags`] returns on input `s`.
pub open spec fn spec_tcp_flags(s: Seq<u8>) -> Parsed<TcpFlags, Seq<u8>, TcpAtom> {
    if s.len() < 2 {
        Parsed::Failure
    } else if spec_data_offset(be16(s[0], s[1])) < 5 {
        Parsed::Error(TcpAtom::DataOffSet)
    } else {
        Parsed::Success { token: TcpFlags { raw: be16(s[0], s[1]) }, stream: s.skip(2) }
    }
}

/// The header that `s` encodes, given that `s` holds all of it.
pub open spec fn spec_tcp_fields(s: Seq<u8>) -> TcpHeader<Seq<u8>>
    recommends
        s.len() >= 20,
        s.len() >= spec_data_offset(be16(s[12], s[13])) * 4,
{
    TcpHeader {
        source_port: be16(s[0], s[1]),
        dest_port: be16(s[2], s[3]),
        sequence_no: be32(s[4], s[5], s[6], s[7]),
        ack_no: be32(s[8], s[9], s[10], s[11]),
        flags: TcpFlags { raw: be16(s[12], s[13]) },
        window: be16(s[14], s[15]),
        checksum: be16(s[16], s[17]),
        urgent_pointer: be16(s[18], s[19]),
        options: s.subrange(20, spec_data_offset(be16(s[12], s[13])) * 4),
    }
}

/// What [`tcp_header`] returns on input `s`.
///
/// An input that ends before the flags word does is a failure. A data offset
/// under 5 is fatal whatever follows the flags word. Otherwise the input
/// must hold the `data offset * 4` octets of the header.
pub open spec fn spec_tcp_header(s: Seq<u8>) -> Parsed<TcpHeader<Seq<u8>>, Seq<u8>, TcpAtom> {
    if s.len() < 14 {
        Parsed::Failure
    } else if spec_data_offset(be16(s[12], s[13])) < 5 {
        Parsed::Error(TcpAtom::DataOffSet)
    } else if s.len() < spec_data_offset(be16(s[12], s[13])) * 4 {
        Parsed::Failure
    } else {
        Parsed::Success {
            token: spec_tcp_fields(s),
            stream: s.skip(spec_data_offset(be16(s[12], s[13])) * 4),
        }
    }
}

/// The data offset is a 4-bit number.
pub proof fn lemma_data_offset_bound(raw: u16)
    ensures
        spec_data_offset(raw) <= 15,
        spec_data_offset(raw) == raw >> 12,
{
    assert((raw >> 12u16) <= 15) by (bit_vector);
}

/// Decodes the flags word of a TCP header. A data offset under 5 is a fatal
/// error.
pub fn tcp_flags<'a>(stream: &'a [u8]) -> (r: Parsed<TcpFlags, &'a [u8], TcpAtom>)
    ensures
        r@ == spec_tcp_flags(stream@),
{
    match u16_be::<TcpAtom>(stream) {
        Parsed::Success { token, stream } => {
            let flags = TcpFlags { raw: token };
            if flags.get_data_offset() >= 5 {
                Parsed::Success { token: flags, stream }
            } else {
                Parsed::Error(TcpAtom::DataOffSet)
            }
        },
        Parsed::Failure => Parsed::Failure,
        Parsed::Error(atom) => Parsed::Error(atom),
    }
}

/// Decodes a TCP header with its options region.
///
/// The data offset must be at least 5 words: a smaller one is a fatal error.
/// The options region is captured as a span of `(data offset - 5) * 4`
/// octets. An input that ends before the header does is a failure.
pub fn tcp_header<'a>(stream: &'a [u8]) -> (r: Parsed<TcpHeader<&'a [u8]>, &'a [u8], TcpAtom>)
    ensures
        r@ == spec_tcp_header(stream@),
        stream@.len() < TCP_HEADER_MIN_LEN ==> !(r is Success),
        stream@.len() >= 14 && spec_data_offset(be16(stream@[12], stream@[13])) < 5 ==> r
            == Parsed::<TcpHeader<&'a [u8]>, &'a [u8], TcpAtom>::Error(TcpAtom::DataOffSet),
        r matches Parsed::Success { token, stream: rest } ==> {
            &&& 5 <= spec_data_offset(token.flags.raw) <= 15
            &&& token.options@.len() == (spec_data_offset(token.flags.raw) - 5) * 4
            &&& rest@.len() + spec_data_offset(token.flags.raw) * 4 == stream@.len()
        },
{
    let ghost s = stream@;
    let (source_port, stream) = match u16_be::<TcpAtom>(stream) {
        Parsed::Success { token, stream } => (token, stream),
        Parsed::Failure => return Parsed::Failure,
        Parsed::Error(atom) => return Parsed::Error(atom),
    };
    let (dest_port, stream) = match u16_be::<TcpAtom>(stream) {
        Parsed::Success { token, stream } => (token, stream),
        Parsed::Failure => return Parsed::Failure,
        Parsed::Error(atom) => return Parsed::Error(atom),
    };
    let (sequence_no, stream) = match u32_be::<TcpAtom>(stream) {
        Parsed::Success { token, stream } => (token, stream),
        Parsed::Failure => return Parsed::Failure,
        Parsed::Error(atom) => return Parsed::Error(atom),
    };
    let (ack_no, stream) = match u32_be::<TcpAtom>(stream) {
        Parsed::Success { token, stream } => (token, stream),
        Parsed::Failure => return Parsed::Failure,
        Parsed::Error(atom) => return Parsed::Error(atom),
    };
    assert(stream@ =~= s.skip(12));
    let (flags, stream) = match tcp_flags(stream) {
        Parsed::Success { token, stream } => (token, stream),
        Parsed::Failure => return Parsed::Failure,
        Parsed::Error(atom) => return Parsed::Error(atom),
    };
    let (window, stream) = match u16_be::<TcpAtom>(stream) {
        Parsed::Success { token, stream } => (token, stream),
        Parsed::Failure => return Parsed::Failure,
        Parsed::Error(atom) => return Parsed::Error(atom),
    };
    let (checksum, stream) = match u16_be::<TcpAtom>(stream) {
        Parsed::Success { token, stream } => (token, stream),
        Parsed::Failure => return Parsed::Failure,
        Parsed::Error(atom) => return Parsed::Error(atom),
    };
    let (urgent_pointer, stream) = match u16_be::<TcpAtom>(stream) {
        Parsed::Success { token, stream } => (token, stream),
        Parsed::Failure => return Parsed::Failure,
        Parsed::Error(atom) => return Parsed::Error(atom),
    };
    assert(stream@ =~= s.skip(20));
    let data_offset: u8 = flags.get_data_offset();
    let options_len: usize = (data_offset - 5) as usize * 4;
    let (options, stream) = match take::<TcpAtom>(stream, options_len) {
        Parsed::Success { token, stream } => (token, stream),
        Parsed::Failure => return Parsed::Failure,
        Parsed::Error(atom) => return Parsed::Error(atom),
    };
    assert(options@ =~= s.subrange(20, data_offset * 4));
    assert(stream@ =~= s.skip(data_offset * 4));
    Parsed::Success {
        token: TcpHeader {
            source_port,
            dest_port,
            sequence_no,
            ack_no,
            flags,
            window,
            checksum,
            urgent_pointer,
            options,
        },
        stream,
    }
}

/// The blocks of a SACK option: one to four pairs of 32-bit sequence
/// numbers, in the order of the option.
#[derive(Clone, Copy, Debug, PartialEq, Eq)]
pub enum Sack {
    /// One block: two numbers.
    A([u32; 2]),
    /// Two blocks: four numbers.
    B([u32; 4]),
    /// Three blocks: six numbers.
    C([u32; 6]),
    /// Four blocks: eight numbers.
    D([u32; 8]),
}

impl View for Sack {
    type V = Seq<u32>;

    /// The numbers of the option, in its order. Their count tells the
    /// variant.
    open spec fn view(&self) -> Seq<u32> {
        match *self {
            Sack::A(words) => words@,
            Sack::B(words) => words@,
            Sack::C(words) => words@,
            Sack::D(words) => words@,
        }
    }
}

/// One TCP option. `Span` is the type of the payload of an option that this
/// crate does not know: a part of the input, borrowed and never copied.
#[derive(Debug, PartialEq, Eq)]
pub enum TcpOption<Span> {
    /// End of the option list.
    EndOfOption,
    /// No operation: padding between options.
    Noop,
    /// Largest segment that the sender is willing to receive.
    MaximumSegmentSize(u16),
    /// Number of bits by which the window field is to be shifted left.
    WindowScale(u8),
    /// The sender accepts selective acknowledgments.
    SackPermitted,
    /// Selective acknowledgment.
    Sack(Sack),
    /// Timestamp value and timestamp echo reply.
    Timestamps((u32, u32)),
    /// An option of another kind: its code and its payload.
    Unknown((u8, Span)),
}

impl<Span: Clone> Clone for TcpOption<Span> {
    /// The same option; the payload of an option of another kind is a clone
    /// of the payload.
    fn clone(&self) -> (r: TcpOption<Span>)
        ensures
            match *self {
                TcpOption::Unknown((code, payload)) => r matches TcpOption::Unknown(
                    (code_r, payload_r),
                ) && code_r == code && cloned::<Span>(payload, payload_r),
                _ => r == *self,
            },
    {
        match self {
            TcpOption::EndOfOption => TcpOption::EndOfOption,
            TcpOption::Noop => TcpOption::Noop,
            TcpOption::MaximumSegmentSize(mss) => TcpOption::MaximumSegmentSize(*mss),
            TcpOption::WindowScale(shift) => TcpOption::WindowScale(*shift),
            TcpOption::SackPermitted => TcpOption::SackPermitted,
            TcpOption::Sack(sack) => TcpOption::Sack(*sack),
            TcpOption::Timestamps(pair) => TcpOption::Timestamps((pair.0, pair.1)),
            TcpOption::Unknown(pair) => TcpOption::Unknown((pair.0, pair.1.clone())),
        }
    }
}

/// A [`TcpOption`] with its payloads as sequences.
pub enum TcpOptionView {
    /// End of the option list.
    EndOfOption,
    /// No operation.
    Noop,
    /// Largest segment that the sender is willing to receive.
    MaximumSegmentSize(u16),
    /// Number of bits by which the window field is to be shifted left.
    WindowScale(u8),
    /// The sender accepts selective acknowledgments.
    SackPermitted,
    /// Selective acknowledgment: two, four, six or eight numbers.
    Sack(Seq<u32>),
    /// Timestamp value and timestamp echo reply.
    Timestamps((u32, u32)),
    /// An option of another kind: its code and its payload.
    Unknown((u8, Seq<u8>)),
}

impl<Span: View<V = Seq<u8>>> View for TcpOption<Span> {
    type V = TcpOptionView;

    open spec fn view(&self) -> TcpOptionView {
        match *self {
            TcpOption::EndOfOption => TcpOptionView::EndOfOption,
            TcpOption::Noop => TcpOptionView::Noop,
            TcpOption::MaximumSegmentSize(mss) => TcpOptionView::MaximumSegmentSize(mss),
            TcpOption::WindowScale(shift) => TcpOptionView::WindowScale(shift),
            TcpOption::SackPermitted => TcpOptionView::SackPermitted,
            TcpOption::Sack(sack) => TcpOptionView::Sack(sack@),
            TcpOption::Timestamps(pair) => TcpOptionView::Timestamps(pair),
            TcpOption::Unknown((code, payload)) => TcpOptionView::Unknown((code, payload@)),
        }
    }
}

impl TcpOptionView {
    /// Number of octets that the option takes in a header: its code, its
    /// length octet where it has one, and its payload.
    pub open spec fn wire_len(self) -> nat {
        match self {
            TcpOptionView::EndOfOption => 1,
            TcpOptionView::Noop => 1,
            TcpOptionView::MaximumSegmentSize(_) => 4,
            TcpOptionView::WindowScale(_) => 3,
            TcpOptionView::SackPermitted => 2,
            TcpOptionView::Sack(words) => 2 + 4 * words.len(),
            TcpOptionView::Timestamps(_) => 10,
            TcpOptionView::Unknown((_, payload)) => 2 + payload.len(),
        }
    }
}

/// The 32-bit big-endian number at offset `i` of `s`.
pub open spec fn spec_word(s: Seq<u8>, i: int) -> u32
    recommends
        0 <= i,
        i + 4 <= s.len(),
{
    be32(s[i], s[i + 1], s[i + 2], s[i + 3])
}

/// The first `n` 32-bit big-endian numbers of `s`.
pub open spec fn spec_words(s: Seq<u8>, n: nat) -> Seq<u32>
    recommends
        4 * n <= s.len(),
{
    Seq::new(n, |k: int| spec_word(s, 4 * k))
}

/// What [`noop`] returns on input `s`, the octets after the option code.
pub open spec fn spec_noop(s: Seq<u8>) -> Parsed<TcpOptionView, Seq<u8>, TcpAtom> {
    Parsed::Success { token: TcpOptionView::Noop, stream: s }
}

/// What [`mss`] returns on input `s`, the octets after the option code.
pub open spec fn spec_mss(s: Seq<u8>) -> Parsed<TcpOptionView, Seq<u8>, TcpAtom> {
    if s.len() < 1 {
        Parsed::Failure
    } else if s[0] != 4 {
        Parsed::Error(TcpAtom::MssLen)
    } else if s.len() < 3 {
        Parsed::Failure
    } else {
        Parsed::Success {
            token: TcpOptionView::MaximumSegmentSize(be16(s[1], s[2])),
            stream: s.skip(3),
        }
    }
}

/// What [`window_scale`] returns on input `s`, the octets after the option
/// code.
pub open spec fn spec_window_scale(s: Seq<u8>) -> Parsed<TcpOptionView, Seq<u8>, TcpAtom> {
    if s.len() < 1 {
        Parsed::Failure
    } else if s[0] != 3 {
        Parsed::Error(TcpAtom::WindowScaleLen)
    } else if s.len() < 2 {
        Parsed::Failure
    } else {
        Parsed::Success { token: TcpOptionView::WindowScale(s[1]), stream: s.skip(2) }
    }
}

/// What [`sack_permitted`] returns on input `s`, the octets after the option
/// code.
pub open spec fn spec_sack_permitted(s: Seq<u8>) -> Parsed<TcpOptionView, Seq<u8>, TcpAtom> {
    if s.len() < 1 {
        Parsed::Failure
    } else if s[0] != 2 {
        Parsed::Error(TcpAtom::SackPermittedLen)
    } else {
        Parsed::Success { token: TcpOptionView::SackPermitted, stream: s.skip(1) }
    }
}

/// True when `len` is the length of a SACK option of one to four blocks.
pub open spec fn spec_sack_len_ok(len: u8) -> bool {
    len == 10 || len == 18 || len == 26 || len == 34
}

/// What [`sack`] returns on input `s`, the octets after the option code.
pub open spec fn spec_sack(s: Seq<u8>) -> Parsed<TcpOptionView, Seq<u8>, TcpAtom> {
    if s.len() < 1 {
        Parsed::Failure
    } else if !spec_sack_len_ok(s[0]) {
        Parsed::Error(TcpAtom::SackLen(s[0]))
    } else if s.len() < s[0] - 1 {
        Parsed::Failure
    } else {
        Parsed::Success {
            token: TcpOptionView::Sack(spec_words(s.skip(1), ((s[0] - 2) / 4) as nat)),
            stream: s.skip(s[0] - 1),
        }
    }
}

/// What [`tipestamps`] returns on input `s`, the octets after the option
/// code.
pub open spec fn spec_tipestamps(s: Seq<u8>) -> Parsed<TcpOptionView, Seq<u8>, TcpAtom> {
    if s.len() < 1 {
        Parsed::Failure
    } else if s[0] != 10 {
        Parsed::Error(TcpAtom::TimestampsLen)
    } else if s.len() < 9 {
        Parsed::Failure
    } else {
        Parsed::Success {
            token: TcpOptionView::Timestamps((spec_word(s, 1), spec_word(s, 5))),
            stream: s.skip(9),
        }
    }
}

/// What [`unknown`] returns for the option code `op` on input `s`, the
/// octets after the code: the length octet counts the octets of the payload
/// that follows it.
pub open spec fn spec_unknown(op: u8, s: Seq<u8>) -> Parsed<TcpOptionView, Seq<u8>, TcpAtom> {
    if s.len() < 1 {
        Parsed::Failure
    } else if s.len() < 1 + s[0] {
        Parsed::Failure
    } else {
        Parsed::Success {
            token: TcpOptionView::Unknown((op, s.subrange(1, 1 + s[0]))),
            stream: s.skip(1 + s[0]),
        }
    }
}

/// What [`tcp_option`] returns on input `s`: the first octet is the code of
/// the option and decides how the rest is read.
pub open spec fn spec_tcp_option(s: Seq<u8>) -> Parsed<TcpOptionView, Seq<u8>, TcpAtom> {
    if s.len() < 1 {
        Parsed::Failure
    } else if s[0] == 0 {
        Parsed::Success { token: TcpOptionView::EndOfOption, stream: s.skip(1) }
    } else if s[0] == 1 {
        spec_noop(s.skip(1))
    } else if s[0] == 2 {
        spec_mss(s.skip(1))
    } else if s[0] == 3 {
        spec_window_scale(s.skip(1))
    } else if s[0] == 4 {
        spec_sack_permitted(s.skip(1))
    } else if s[0] == 5 {
        spec_sack(s.skip(1))
    } else if s[0] == 8 {
        spec_tipestamps(s.skip(1))
    } else {
        spec_unknown(s[0], s.skip(1))
    }
}

/// The 32-bit big-endian number at offset `i` of `stream`.
fn word_at(stream: &[u8], i: usize) -> (r: u32)
    requires
        i + 4 <= stream@.len(),
    ensures
        r == spec_word(stream@, i as int),
{
    let a: u32 = stream[i] as u32;
    let b: u32 = stream[i + 1] as u32;
    let c: u32 = stream[i + 2] as u32;
    let d: u32 = stream[i + 3] as u32;
    ((a * 256 + b) * 256 + c) * 256 + d
}

/// The no-operation option: nothing follows its code.
pub fn noop<'a>(stream: &'a [u8]) -> (r: Parsed<TcpOption<&'a [u8]>, &'a [u8], TcpAtom>)
    ensures
        r@ == spec_noop(stream@),
{
    Parsed::Success { token: TcpOption::Noop, stream }
}

/// Decodes what follows the code of a maximum-segment-size option: the
/// length octet, which must be 4, and a 16-bit size.
pub fn mss<'a>(stream: &'a [u8]) -> (r: Parsed<TcpOption<&'a [u8]>, &'a [u8], TcpAtom>)
    ensures
        r@ == spec_mss(stream@),
        stream@.len() >= 1 && stream@[0] != 4 ==> r == Parsed::<
            TcpOption<&'a [u8]>,
            &'a [u8],
            TcpAtom,
        >::Error(TcpAtom::MssLen),
{
    let ghost s = stream@;
    let (len, stream) = match octet::<TcpAtom>(stream) {
        Parsed::Success { token, stream } => (token, stream),
        Parsed::Failure => return Parsed::Failure,
        Parsed::Error(atom) => return Parsed::Error(atom),
    };
    if len != 4 {
        return Parsed::Error(TcpAtom::MssLen);
    }
    match u16_be::<TcpAtom>(stream) {
        Parsed::Success { token, stream } => {
            assert(stream@ =~= s.skip(3));
            Parsed::Success { token: TcpOption::MaximumSegmentSize(token), stream }
        },
        Parsed::Failure => Parsed::Failure,
        Parsed::Error(atom) => Parsed::Error(atom),
    }
}

/// Decodes what follows the code of a window-scale option: the length
/// octet, which must be 3, and the shift count.
pub fn window_scale<'a>(stream: &'a [u8]) -> (r: Parsed<TcpOption<&'a [u8]>, &'a [u8], TcpAtom>)
    ensures
        r@ == spec_window_scale(stream@),
        stream@.len() >= 1 && stream@[0] != 3 ==> r == Parsed::<
            TcpOption<&'a [u8]>,
            &'a [u8],
            TcpAtom,
        >::Error(TcpAtom::WindowScaleLen),
{
    let ghost s = stream@;
    let (len, stream) = match octet::<TcpAtom>(stream) {
        Parsed::Success { token, stream } => (token, stream),
        Parsed::Failure => return Parsed::Failure,
        Parsed::Error(atom) => return Parsed::Error(atom),
    };
    if len != 3 {
        return Parsed::Error(TcpAtom::WindowScaleLen);
    }
    match octet::<TcpAtom>(stream) {
        Parsed::Success { token, stream } => {
            assert(stream@ =~= s.skip(2));
            Parsed::Success { token: TcpOption::WindowScale(token), stream }
        },
        Parsed::Failure => Parsed::Failure,
        Parsed::Error(atom) => Parsed::Error(atom),
    }
}

/// Decodes what follows the code of a SACK-permitted option: the length
/// octet, which must be 2.
pub fn sack_permitted<'a>(stream: &'a [u8]) -> (r: Parsed<TcpOption<&'a [u8]>, &'a [u8], TcpAtom>)
    ensures
        r@ == spec_sack_permitted(stream@),
        stream@.len() >= 1 && stream@[0] != 2 ==> r == Parsed::<
            TcpOption<&'a [u8]>,
            &'a [u8],
            TcpAtom,
        >::Error(TcpAtom::SackPermittedLen),
{
    let (len, stream) = match octet::<TcpAtom>(stream) {
        Parsed::Success { token, stream } => (token, stream),
        Parsed::Failure => return Parsed::Failure,
        Parsed::Error(atom) => return Parsed::Error(atom),
    };
    if len != 2 {
        return Parsed::Error(TcpAtom::SackPermittedLen);
    }
    Parsed::Success { token: TcpOption::SackPermitted, stream }
}

/// Decodes what follows the code of a SACK option: the length octet, which
/// must be 10, 18, 26 or 34, and the two, four, six or eight 32-bit numbers
/// that it announces.
pub fn sack<'a>(stream: &'a [u8]) -> (r: Parsed<TcpOption<&'a [u8]>, &'a [u8], TcpAtom>)
    ensures
        r@ == spec_sack(stream@),
        stream@.len() >= 1 && !spec_sack_len_ok(stream@[0]) ==> r == Parsed::<
            TcpOption<&'a [u8]>,
            &'a [u8],
            TcpAtom,
        >::Error(TcpAtom::SackLen(stream@[0])),
{
    let ghost s = stream@;
    let (len, stream) = match octet::<TcpAtom>(stream) {
        Parsed::Success { token, stream } => (token, stream),
        Parsed::Failure => return Parsed::Failure,
        Parsed::Error(atom) => return Parsed::Error(atom),
    };
    if len != 10 && len != 18 && len != 26 && len != 34 {
        return Parsed::Error(TcpAtom::SackLen(len));
    }
    let payload_len: usize = (len - 2) as usize;
    if stream.len() < payload_len {
        return Parsed::Failure;
    }
    let blocks: Sack = if len == 10 {
        let words: [u32; 2] = [word_at(stream, 0), word_at(stream, 4)];
        assert(words@ =~= spec_words(s.skip(1), 2));
        Sack::A(words)
    } else if len == 18 {
        let words: [u32; 4] = [
            word_at(stream, 0),
            word_at(stream, 4),
            word_at(stream, 8),
            word_at(stream, 12),
        ];
        assert(words@ =~= spec_words(s.skip(1), 4));
        Sack::B(words)
    } else if len == 26 {
        let words: [u32; 6] = [
            word_at(stream, 0),
            word_at(stream, 4),
            word_at(stream, 8),
            word_at(stream, 12),
            word_at(stream, 16),
            word_at(stream, 20),
        ];
        assert(words@ =~= spec_words(s.skip(1), 6));
        Sack::C(words)
    } else {
        let words: [u32; 8] = [
            word_at(stream, 0),
            word_at(stream, 4),
            word_at(stream, 8),
            word_at(stream, 12),
            word_at(stream, 16),
            word_at(stream, 20),
            word_at(stream, 24),
            word_at(stream, 28),
        ];
        assert(words@ =~= spec_words(s.skip(1), 8));
        Sack::D(words)
    };
    let rest = advance(stream, payload_len);
    assert(rest@ =~= s.skip(len - 1));
    Parsed::Success { token: TcpOption::Sack(blocks), stream: rest }
}

/// Decodes what follows the code of a timestamps option: the length octet,
/// which must be 10, and two 32-bit numbers.
pub fn tipestamps<'a>(stream: &'a [u8]) -> (r: Parsed<TcpOption<&'a [u8]>, &'a [u8], TcpAtom>)
    ensures
        r@ == spec_tipestamps(stream@),
        stream@.len() >= 1 && stream@[0] != 10 ==> r == Parsed::<
            TcpOption<&'a [u8]>,
            &'a [u8],
            TcpAtom,
        >::Error(TcpAtom::TimestampsLen),
{
    let ghost s = stream@;
    let (len, stream) = match octet::<TcpAtom>(stream) {
        Parsed::Success { token, stream } => (token, stream),
        Parsed::Failure => return Parsed::Failure,
        Parsed::Error(atom) => return Parsed::Error(atom),
    };
    if len != 10 {
        return Parsed::Error(TcpAtom::TimestampsLen);
    }
    let (value, stream) = match u32_be::<TcpAtom>(stream) {
        Parsed::Success { token, stream } => (token, stream),
        Parsed::Failure => return Parsed::Failure,
        Parsed::Error(atom) => return Parsed::Error(atom),
    };
    match u32_be::<TcpAtom>(stream) {
        Parsed::Success { token, stream } => {
            assert(stream@ =~= s.skip(9));
            Parsed::Success { token: TcpOption::Timestamps((value, token)), stream }
        },
        Parsed::Failure => Parsed::Failure,
        Parsed::Error(atom) => Parsed::Error(atom),
    }
}

/// Decodes what follows the code `op` of an option of another kind: the
/// length octet and as many octets of payload as it counts, captured as a
/// span.
pub fn unknown<'a>(op: u8, stream: &'a [u8]) -> (r: Parsed<TcpOption<&'a [u8]>, &'a [u8], TcpAtom>)
    ensures
        r@ == spec_unknown(op, stream@),
        !(r is Error),
{
    let ghost s = stream@;
    let (len, stream) = match octet::<TcpAtom>(stream) {
        Parsed::Success { token, stream } => (token, stream),
        Parsed::Failure => return Parsed::Failure,
        Parsed::Error(atom) => return Parsed::Error(atom),
    };
    match take::<TcpAtom>(stream, len as usize) {
        Parsed::Success { token, stream } => {
            assert(token@ =~= s.subrange(1, 1 + len));
            assert(stream@ =~= s.skip(1 + len));
            Parsed::Success { token: TcpOption::Unknown((op, token)), stream }
        },
        Parsed::Failure => Parsed::Failure,
        Parsed::Error(atom) => Parsed::Error(atom),
    }
}

/// Decodes one TCP option: the code octet, then what the code asks for.
pub fn tcp_option<'a>(stream: &'a [u8]) -> (r: Parsed<TcpOption<&'a [u8]>, &'a [u8], TcpAtom>)
    ensures
        r@ == spec_tcp_option(stream@),
{
    let (op, stream) = match octet::<TcpAtom>(stream) {
        Parsed::Success { token, stream } => (token, stream),
        Parsed::Failure => return Parsed::Failure,
        Parsed::Error(atom) => return Parsed::Error(atom),
    };
    match op {
        0 => Parsed::Success { token: TcpOption::EndOfOption, stream },
        1 => noop(stream),
        2 => mss(stream),
        3 => window_scale(stream),
        4 => sack_permitted(stream),
        5 => sack(stream),
        8 => tipestamps(stream),
        op => unknown(op, stream),
    }
}

/// Total number of octets that the options of `options` take in a header.
pub open spec fn total_wire_len(options: Seq<TcpOptionView>) -> nat
    decreases options.len(),
{
    if options.len() == 0 {
        0
    } else {
        options[0].wire_len() + total_wire_len(options.skip(1))
    }
}

/// `r` with `prefix` put before the options that it decoded.
pub open spec fn spec_prepend(
    prefix: Seq<TcpOptionView>,
    r: Parsed<Seq<TcpOptionView>, Seq<u8>, TcpAtom>,
) -> Parsed<Seq<TcpOptionView>, Seq<u8>, TcpAtom> {
    match r {
        Parsed::Success { token, stream } => Parsed::Success { token: prefix + token, stream },
        Parsed::Failure => Parsed::Failure,
        Parsed::Error(atom) => Parsed::Error(atom),
    }
}

/// What [`tcp_options`] returns on input `s`: the options of `s` in their
/// order, decoded one after the other until no octet is left. The first
/// option that cannot be decoded decides the outcome: a failure where the
/// input ends inside it, a fatal error where it breaks a rule.
pub open spec fn spec_tcp_options(s: Seq<u8>) -> Parsed<Seq<TcpOptionView>, Seq<u8>, TcpAtom>
    decreases s.len(),
{
    if s.len() == 0 {
        Parsed::Success { token: Seq::empty(), stream: s }
    } else {
        match spec_tcp_option(s) {
            Parsed::Success { token, stream } => {
                if stream.len() < s.len() {
                    spec_prepend(seq![token], spec_tcp_options(stream))
                } else {
                    Parsed::Failure
                }
            },
            Parsed::Failure => Parsed::Failure,
            Parsed::Error(atom) => Parsed::Error(atom),
        }
    }
}

/// The options of `options`, each by its view.
pub open spec fn options_view<Span: View<V = Seq<u8>>>(options: Seq<TcpOption<Span>>) -> Seq<
    TcpOptionView,
> {
    Seq::new(options.len(), |i: int| options[i]@)
}

/// The outcome `r` of [`tcp_options`], with each option and the rest of the
/// input by its view.
pub open spec fn parsed_options_view<Span: View<V = Seq<u8>>>(
    r: Parsed<Vec<TcpOption<Span>>, Span, TcpAtom>,
) -> Parsed<Seq<TcpOptionView>, Seq<u8>, TcpAtom> {
    match r {
        Parsed::Success { token, stream } => Parsed::Success {
            token: options_view(token@),
            stream: stream@,
        },
        Parsed::Failure => Parsed::Failure,
        Parsed::Error(atom) => Parsed::Error(atom),
    }
}

/// An option that was decoded took exactly the octets that its wire length
/// counts, and at least one.
pub proof fn lemma_tcp_option_consumes(s: Seq<u8>)
    ensures
        spec_tcp_option(s) matches Parsed::Success { token, stream } ==> {
            &&& 1 <= token.wire_len() <= s.len()
            &&& stream == s.skip(token.wire_len() as int)
        },
{
    if spec_tcp_option(s) is Success {
        let t = s.skip(1);
        if s[0] == 2 {
            assert(t.skip(3) =~= s.skip(4));
        } else if s[0] == 3 {
            assert(t.skip(2) =~= s.skip(3));
        } else if s[0] == 4 {
            assert(t.skip(1) =~= s.skip(2));
        } else if s[0] == 5 {
            assert(t.skip(t[0] - 1) =~= s.skip(t[0] as int));
            assert(spec_words(t.skip(1), ((t[0] - 2) / 4) as nat).len() == (t[0] - 2) / 4);
        } else if s[0] == 8 {
            assert(t.skip(9) =~= s.skip(10));
        } else if s[0] != 0 && s[0] != 1 {
            assert(t.skip(1 + t[0]) =~= s.skip(2 + t[0]));
        }
    }
}

/// The length octet of an option of fixed length must be the one its kind
/// asks for, and that of a SACK option one of 10, 18, 26 and 34: any other
/// value is fatal, whatever follows it.
pub proof fn lemma_tcp_option_length_rules(s: Seq<u8>)
    requires
        s.len() >= 2,
    ensures
        s[0] == 2 && s[1] != 4 ==> spec_tcp_option(s) == Parsed::<
            TcpOptionView,
            Seq<u8>,
            TcpAtom,
        >::Error(TcpAtom::MssLen),
        s[0] == 3 && s[1] != 3 ==> spec_tcp_option(s) == Parsed::<
            TcpOptionView,
            Seq<u8>,
            TcpAtom,
        >::Error(TcpAtom::WindowScaleLen),
        s[0] == 4 && s[1] != 2 ==> spec_tcp_option(s) == Parsed::<
            TcpOptionView,
            Seq<u8>,
            TcpAtom,
        >::Error(TcpAtom::SackPermittedLen),
        s[0] == 8 && s[1] != 10 ==> spec_tcp_option(s) == Parsed::<
            TcpOptionView,
            Seq<u8>,
            TcpAtom,
        >::Error(TcpAtom::TimestampsLen),
        s[0] == 5 && !spec_sack_len_ok(s[1]) ==> spec_tcp_option(s) == Parsed::<
            TcpOptionView,
            Seq<u8>,
            TcpAtom,
        >::Error(TcpAtom::SackLen(s[1])),
        spec_tcp_option(s) matches Parsed::Error(atom) ==> spec_tcp_options(s) == Parsed::<
            Seq<TcpOptionView>,
            Seq<u8>,
            TcpAtom,
        >::Error(atom),
{
}

/// The only fatal outcomes of one option are the five length rules.
pub proof fn lemma_tcp_option_fatal_only_by_length(s: Seq<u8>)
    ensures
        spec_tcp_option(s) matches Parsed::Error(atom) ==> s.len() >= 2 && (match atom {
            TcpAtom::DataOffSet => false,
            TcpAtom::MssLen => s[0] == 2 && s[1] != 4,
            TcpAtom::WindowScaleLen => s[0] == 3 && s[1] != 3,
            TcpAtom::SackPermittedLen => s[0] == 4 && s[1] != 2,
            TcpAtom::SackLen(len) => s[0] == 5 && len == s[1] && !spec_sack_len_ok(len),
            TcpAtom::TimestampsLen => s[0] == 8 && s[1] != 10,
        }),
{
}

/// The wire lengths of two lists of options add up.
pub proof fn lemma_total_wire_len_concat(a: Seq<TcpOptionView>, b: Seq<TcpOptionView>)
    ensures
        total_wire_len(a + b) == total_wire_len(a) + total_wire_len(b),
    decreases a.len(),
{
    if a.len() == 0 {
        assert(a + b =~= b);
    } else {
        assert((a + b).skip(1) =~= a.skip(1) + b);
        lemma_total_wire_len_concat(a.skip(1), b);
    }
}

/// Decoding a list of options takes every octet of the input: where it
/// succeeds nothing is left unread, and the wire lengths of the decoded
/// options add up to the length of the input.
pub proof fn lemma_tcp_options_consume_all(s: Seq<u8>)
    ensures
        spec_tcp_options(s) matches Parsed::Success { token, stream } ==> {
            &&& stream.len() == 0
            &&& total_wire_len(token) == s.len()
        },
    decreases s.len(),
{
    if s.len() > 0 {
        lemma_tcp_option_consumes(s);
        match spec_tcp_option(s) {
            Parsed::Success { token, stream } => {
                lemma_tcp_options_consume_all(stream);
                match spec_tcp_options(stream) {
                    Parsed::Success { token: more, stream: rest } => {
                        lemma_total_wire_len_concat(seq![token], more);
                        assert(seq![token].skip(1) =~= Seq::<TcpOptionView>::empty());
                        assert(total_wire_len(seq![token].skip(1)) == 0);
                        assert(total_wire_len(seq![token]) == token.wire_len());
                    },
                    _ => {},
                }
            },
            _ => {},
        }
    }
}

/// The options region that [`tcp_header`] captured holds `(data offset - 5)
/// * 4` octets, and the options decoded from it take all of them.
pub proof fn lemma_tcp_header_options_span(s: Seq<u8>)
    ensures
        spec_tcp_header(s) matches Parsed::Success { token: header, stream: _ } ==> {
            &&& header.options.len() == (spec_data_offset(header.flags.raw) - 5) * 4
            &&& (spec_tcp_options(header.options) matches Parsed::Success {
                token: options,
                stream: rest,
            } ==> rest.len() == 0 && total_wire_len(options) == (spec_data_offset(
                header.flags.raw,
            ) - 5) * 4)
        },
{
    if s.len() >= 14 {
        lemma_data_offset_bound(be16(s[12], s[13]));
        let n = spec_data_offset(be16(s[12], s[13]));
        if n >= 5 && s.len() >= n * 4 {
            lemma_tcp_options_consume_all(s.subrange(20, n * 4));
        }
    }
}

/// Decodes a list of TCP options, most often the options region of a
/// [`TcpHeader`]: one option after the other until no octet is left.
///
/// An input that ends inside an option is a failure. A fixed-length option
/// whose length octet is not the one its kind asks for, and a SACK option
/// whose length is none of 10, 18, 26 and 34, are fatal errors.
pub fn tcp_options<'a>(stream: &'a [u8]) -> (r: Parsed<
    Vec<TcpOption<&'a [u8]>>,
    &'a [u8],
    TcpAtom,
>)
    ensures
        parsed_options_view(r) == spec_tcp_options(stream@),
        r matches Parsed::Success { token, stream: rest } ==> {
            &&& rest@.len() == 0
            &&& total_wire_len(options_view(token@)) == stream@.len()
        },
{
    let ghost s = stream@;
    let mut options: Vec<TcpOption<&'a [u8]>> = Vec::new();
    let mut rest: &'a [u8] = stream;
    proof {
        assert(options_view(options@) + spec_tcp_options(s)->Success_token =~= spec_tcp_options(
            s,
        )->Success_token);
        lemma_tcp_options_consume_all(s);
    }
    while rest.len() > 0
        invariant
            s == stream@,
            spec_tcp_options(s) == spec_prepend(options_view(options@), spec_tcp_options(rest@)),
        decreases rest@.len(),
    {
        let ghost before = options_view(options@);
        let ghost cur = rest@;
        match tcp_option(rest) {
            Parsed::Success { token, stream: next } => {
                proof {
                    lemma_tcp_option_consumes(cur);
                }
                options.push(token);
                rest = next;
                proof {
                    assert(options_view(options@) =~= before + seq![token@]);
                    match spec_tcp_options(rest@) {
                        Parsed::Success { token: more, stream: _ } => {
                            assert(before + (seq![token@] + more) =~= (before + seq![token@])
                                + more);
                        },
                        _ => {},
                    }
                }
            },
            Parsed::Failure => {
                assert(spec_tcp_options(cur) is Failure);
                return Parsed::Failure;
            },
            Parsed::Error(atom) => {
                assert(spec_tcp_options(cur) == Parsed::<
                    Seq<TcpOptionView>,
                    Seq<u8>,
                    TcpAtom,
                >::Error(atom));
                return Parsed::Error(atom);
            },
        }
    }
    proof {
        assert(options_view(options@) + Seq::<TcpOptionView>::empty() =~= options_view(options@));
    }
    Parsed::Success { token: options, stream: rest }
}

} // verus!
