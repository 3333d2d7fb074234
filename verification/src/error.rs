//! What a failed decode reports: which field could not be read, and the text that was
//! offered for it.

use vstd::prelude::*;

verus! {

/// The field or structure that a piece of text failed to fill.
#[derive(PartialEq, Eq, Structural, Clone, Copy, Debug)]
pub enum ErrorKind {
    /// A line with fewer than three `#`-separated segments.
    MalformedGame,
    /// No field for the current turn. Splitting always yields a first field, so decoding
    /// never reports this kind; an empty first field is an `InvalidNumber`.
    MissingTurn,
    /// The game data ends after the current turn.
    MissingTotalTurns,
    /// The game data ends after the total number of turns.
    MissingPlayerNum,
    /// A field of the game data that is not an unsigned number of the field's width.
    InvalidNumber,
    /// A bot record that does not have exactly three `-`-separated parts.
    MalformedBot,
    /// A team marker other than `F` or `E`.
    UnknownTeam,
    /// A position that is not two unsigned numbers around one `:`.
    InvalidPosition,
    /// A health that is not a number from 0 to 255.
    InvalidHealth,
    /// An action with a direction missing, or with a part too many.
    MalformedAction,
    /// An action whose leading tag is none of `A`, `M`, `D`, `S`.
    UnknownAction,
    /// A direction that is none of the eight accepted letters.
    UnknownDirection,
}

/// The mathematical value of a decode error: the kind and the offending text.
pub struct Failure {
    pub kind: ErrorKind,
    pub text: Seq<char>,
}

/// A decode error: the kind of the failure and the offending substring of the input.
#[derive(PartialEq, Eq, Debug)]
pub struct DecodeError {
    pub kind: ErrorKind,
    pub text: String,
}

impl View for DecodeError {
    type V = Failure;

    open spec fn view(&self) -> Failure {
        Failure { kind: self.kind, text: self.text@ }
    }
}

/// The result of a decode of plain data, with the error taken by its view.
pub open spec fn outcome<T>(r: Result<T, DecodeError>) -> Result<T, Failure> {
    match r {
        Ok(value) => Ok(value),
        Err(e) => Err(e@),
    }
}

/// The result of a decode, with both the value and the error taken by their views.
pub open spec fn outcome_view<T: View>(r: Result<T, DecodeError>) -> Result<T::V, Failure> {
    match r {
        Ok(value) => Ok(value@),
        Err(e) => Err(e@),
    }
}

} // verus!
