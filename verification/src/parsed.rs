//! The three-way outcome shared by every decoder of this crate.

use vstd::prelude::*;

verus! {

/// Outcome of one decoding step.
///
/// `Success` carries the decoded value and the input that is left after it.
/// `Failure` is the recoverable outcome: the input does not have the expected
/// form, or it ends too early; an ordered choice goes on with its next
/// alternative. `Error` is fatal: the input violates a rule of the format, and
/// decoding stops at once with the atom that names the rule.
#[derive(Clone, Copy, Debug, PartialEq, Eq)]
pub enum Parsed<Token, Stream, Atom> {
    /// The step decoded `token` and left `stream` unread.
    Success {
        /// The decoded value.
        token: Token,
        /// The input that follows the decoded value.
        stream: Stream,
    },
    /// The input does not match; nothing was consumed.
    Failure,
    /// The input breaks a rule of the format; decoding must stop.
    Error(Atom),
}

impl<Token: View, Stream: View, Atom> View for Parsed<Token, Stream, Atom> {
    type V = Parsed<Token::V, Stream::V, Atom>;

    open spec fn view(&self) -> Self::V {
        match *self {
            Parsed::Success { token, stream } => Parsed::Success { token: token@, stream: stream@ },
            Parsed::Failure => Parsed::Failure,
            Parsed::Error(atom) => Parsed::Error(atom),
        }
    }
}

impl<Token, Stream, Atom> Parsed<Token, Stream, Atom> {
    /// True when the outcome is `Success`.
    pub fn is_success(&self) -> (b: bool)
        ensures
            b == (*self is Success),
    {
        match self {
            Parsed::Success { .. } => true,
            _ => false,
        }
    }
}

} // verus!
