//! The orders that a friendly bot can be given, and their wire form.

use crate::direction::Direction;
use crate::error::{outcome, DecodeError, ErrorKind, Failure};
use crate::scan::{chars_of, faults_inside, is_char, located, split_spans, whole, Fault, Span};
use crate::text::split;
use vstd::prelude::*;
use vstd::string::*;

verus! {

/// What a bot does in a turn.
#[derive(PartialEq, Eq, Structural, Clone, Copy, Debug)]
pub enum Action {
    Attack(Direction),
    Move(Direction),
    Defend,
    SelfDestruct,
}

impl Default for Action {
    /// A bot that was given no order defends.
    fn default() -> (action: Action)
        ensures
            action == Action::Defend,
    {
        Action::Defend
    }
}

impl Action {
    /// What an action token means. The token is cut at every `-`; the first part is the tag.
    /// `D` and `S` stand alone; `A` and `M` take exactly one more part, a direction. A known
    /// tag with the wrong number of parts is a malformed action, any other tag an unknown
    /// action, and a bad direction is reported as such.
    pub open spec fn spec_decode(token: Seq<char>) -> Result<Action, Failure> {
        let parts = split(token, '-');
        let tag = parts[0];
        let malformed = Failure { kind: ErrorKind::MalformedAction, text: token };
        if tag == seq!['D'] {
            if parts.len() == 1 {
                Ok(Action::Defend)
            } else {
                Err(malformed)
            }
        } else if tag == seq!['S'] {
            if parts.len() == 1 {
                Ok(Action::SelfDestruct)
            } else {
                Err(malformed)
            }
        } else if tag == seq!['A'] || tag == seq!['M'] {
            if parts.len() == 2 {
                match Direction::spec_decode(parts[1]) {
                    Ok(direction) => Ok(
                        if tag == seq!['A'] {
                            Action::Attack(direction)
                        } else {
                            Action::Move(direction)
                        },
                    ),
                    Err(failure) => Err(failure),
                }
            } else {
                Err(malformed)
            }
        } else {
            Err(Failure { kind: ErrorKind::UnknownAction, text: token })
        }
    }

    /// The wire form of an action: the tag, and for an attack or a move a `-` and the
    /// direction's canonical letter.
    pub open spec fn spec_encode(self) -> Seq<char> {
        match self {
            Action::Attack(direction) => seq!['A', '-'] + direction.spec_encode(),
            Action::Move(direction) => seq!['M', '-'] + direction.spec_encode(),
            Action::Defend => seq!['D'],
            Action::SelfDestruct => seq!['S'],
        }
    }

    pub(crate) fn parse(text: &[char], span: Span) -> (r: Result<Action, Fault>)
        requires
            span.fits(text@),
        ensures
            located(r, text@) == Self::spec_decode(span.of(text@)),
            faults_inside(r, span),
    {
        let parts = split_spans(text, span, '-');
        let tag = parts[0];
        let malformed = Fault { kind: ErrorKind::MalformedAction, span };
        if is_char(text, tag, 'D') {
            if parts.len() == 1 {
                Ok(Action::Defend)
            } else {
                Err(malformed)
            }
        } else if is_char(text, tag, 'S') {
            if parts.len() == 1 {
                Ok(Action::SelfDestruct)
            } else {
                Err(malformed)
            }
        } else if is_char(text, tag, 'A') || is_char(text, tag, 'M') {
            if parts.len() == 2 {
                match Direction::parse(text, parts[1]) {
                    Ok(direction) => Ok(
                        if is_char(text, tag, 'A') {
                            Action::Attack(direction)
                        } else {
                            Action::Move(direction)
                        },
                    ),
                    Err(fault) => Err(fault),
                }
            } else {
                Err(malformed)
            }
        } else {
            Err(Fault { kind: ErrorKind::UnknownAction, span })
        }
    }

    /// Reads an action token.
    pub fn decode(token: &str) -> (r: Result<Action, DecodeError>)
        ensures
            outcome(r) == Self::spec_decode(token@),
    {
        let text = chars_of(token);
        match Self::parse(text.as_slice(), whole(&text)) {
            Ok(action) => Ok(action),
            Err(fault) => Err(fault.report(token)),
        }
    }

    pub(crate) fn push_to(&self, out: &mut String)
        ensures
            final(out)@ == old(out)@ + self.spec_encode(),
    {
        proof {
            reveal_strlit("A-");
            reveal_strlit("M-");
            reveal_strlit("D");
            reveal_strlit("S");
        }
        match self {
            Action::Attack(direction) => {
                out.append("A-");
                out.append(direction.letter());
                assert("A-"@ =~= seq!['A', '-']);
            },
            Action::Move(direction) => {
                out.append("M-");
                out.append(direction.letter());
                assert("M-"@ =~= seq!['M', '-']);
            },
            Action::Defend => {
                out.append("D");
                assert("D"@ =~= seq!['D']);
            },
            Action::SelfDestruct => {
                out.append("S");
                assert("S"@ =~= seq!['S']);
            },
        }
        assert(final(out)@ =~= old(out)@ + self.spec_encode());
    }

    /// Writes the wire form of the action.
    pub fn encode(&self) -> (s: String)
        ensures
            s@ == self.spec_encode(),
    {
        let mut s = String::new();
        self.push_to(&mut s);
        assert(Seq::<char>::empty() + self.spec_encode() =~= self.spec_encode());
        s
    }
}

} // verus!
