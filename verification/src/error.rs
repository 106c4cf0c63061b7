//! The ways in which decoding, rendering and text conversion can fail.

use vstd::prelude::*;

verus! {

/// Every failure is final for the value at hand: nothing is retried and
/// nothing is repaired locally.
#[derive(Clone, Copy, Debug, PartialEq, Eq, Structural)]
pub enum Error {
    /// The top six bits of a word match no known operation.
    UnknownOpcode,
    /// A register selector lies outside `0..=7`.
    InvalidRegisterIndex,
    /// The instruction addresses memory, for which no text is defined.
    UnsupportedMode,
    /// A byte buffer that should hold text is not valid UTF-8.
    InvalidUtf8,
}

/// The outcome of an operation that yields text, with the text taken as the
/// sequence of its characters.
pub open spec fn text_of(outcome: Result<String, Error>) -> Result<Seq<char>, Error> {
    match outcome {
        Ok(text) => Ok(text@),
        Err(error) => Err(error),
    }
}

} // verus!
