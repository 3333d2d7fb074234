//! The four directions and their one-letter codes.

use crate::error::{outcome, DecodeError, ErrorKind, Failure};
use crate::scan::{chars_of, faults_inside, is_char, located, whole, Fault, Span};
use vstd::prelude::*;
use vstd::string::*;

verus! {

/// A direction on the arena. North, east, south and west are other names for up, right,
/// down and left.
#[derive(PartialEq, Eq, Structural, Clone, Copy, Debug)]
pub enum Direction {
    Up,
    Down,
    Left,
    Right,
}

impl Direction {
    /// What a direction token means: `U` or `N` is up, `D` or `S` down, `L` or `W` left,
    /// `R` or `E` right. Any other token is an unknown direction.
    pub open spec fn spec_decode(token: Seq<char>) -> Result<Direction, Failure> {
        if token == seq!['U'] || token == seq!['N'] {
            Ok(Direction::Up)
        } else if token == seq!['D'] || token == seq!['S'] {
            Ok(Direction::Down)
        } else if token == seq!['L'] || token == seq!['W'] {
            Ok(Direction::Left)
        } else if token == seq!['R'] || token == seq!['E'] {
            Ok(Direction::Right)
        } else {
            Err(Failure { kind: ErrorKind::UnknownDirection, text: token })
        }
    }

    /// The canonical letter of a direction.
    pub open spec fn spec_encode(self) -> Seq<char> {
        match self {
            Direction::Up => seq!['U'],
            Direction::Down => seq!['D'],
            Direction::Left => seq!['L'],
            Direction::Right => seq!['R'],
        }
    }

    pub(crate) fn parse(text: &[char], span: Span) -> (r: Result<Direction, Fault>)
        requires
            span.fits(text@),
        ensures
            located(r, text@) == Self::spec_decode(span.of(text@)),
            faults_inside(r, span),
    {
        if is_char(text, span, 'U') || is_char(text, span, 'N') {
            Ok(Direction::Up)
        } else if is_char(text, span, 'D') || is_char(text, span, 'S') {
            Ok(Direction::Down)
        } else if is_char(text, span, 'L') || is_char(text, span, 'W') {
            Ok(Direction::Left)
        } else if is_char(text, span, 'R') || is_char(text, span, 'E') {
            Ok(Direction::Right)
        } else {
            Err(Fault { kind: ErrorKind::UnknownDirection, span })
        }
    }

    /// Reads a direction token.
    pub fn decode(token: &str) -> (r: Result<Direction, DecodeError>)
        ensures
            outcome(r) == Self::spec_decode(token@),
    {
        let text = chars_of(token);
        match Self::parse(text.as_slice(), whole(&text)) {
            Ok(direction) => Ok(direction),
            Err(fault) => Err(fault.report(token)),
        }
    }

    pub(crate) fn letter(&self) -> (s: &'static str)
        ensures
            s@ == self.spec_encode(),
    {
        proof {
            reveal_strlit("U");
            reveal_strlit("D");
            reveal_strlit("L");
            reveal_strlit("R");
        }
        let s = match self {
            Direction::Up => "U",
            Direction::Down => "D",
            Direction::Left => "L",
            Direction::Right => "R",
        };
        assert(s@ =~= self.spec_encode());
        s
    }

    /// Writes the canonical letter of the direction.
    pub fn encode(&self) -> (s: String)
        ensures
            s@ == self.spec_encode(),
    {
        String::from_str(self.letter())
    }
}

} // verus!
