//! A place on the arena and its `x:y` wire form.

use crate::error::{outcome, DecodeError, ErrorKind, Failure};
use crate::scan::{
    chars_of, faults_inside, find_char, located, parse_decimal, push_decimal, whole, Fault, Span,
};
use crate::text::{decimal, find, parse_unsigned};
use vstd::prelude::*;
use vstd::string::*;

verus! {

/// A place on the arena. Neither coordinate is held against any board size.
#[derive(PartialEq, Eq, Structural, Clone, Copy, Debug)]
pub struct Position {
    pub x: usize,
    pub y: usize,
}

impl Position {
    /// What a position token means. The token is cut once, at its first `:`; what stands
    /// before it is `x` and what stands after it is `y`, each an unsigned decimal numeral
    /// that fits a `usize`. Every other token is an invalid position.
    pub open spec fn spec_decode(token: Seq<char>) -> Result<Position, Failure> {
        let at = find(token, ':');
        let invalid = Failure { kind: ErrorKind::InvalidPosition, text: token };
        if 0 <= at < token.len() {
            match (
                parse_unsigned(token.take(at), usize::MAX as nat),
                parse_unsigned(token.skip(at + 1), usize::MAX as nat),
            ) {
                (Some(x), Some(y)) => Ok(Position { x: x as usize, y: y as usize }),
                _ => Err(invalid),
            }
        } else {
            Err(invalid)
        }
    }

    /// The wire form of a position: the shortest decimal numerals of `x` and `y` around a
    /// `:`.
    pub open spec fn spec_encode(self) -> Seq<char> {
        decimal(self.x as nat).push(':') + decimal(self.y as nat)
    }

    pub(crate) fn parse(text: &[char], span: Span) -> (r: Result<Position, Fault>)
        requires
            span.fits(text@),
        ensures
            located(r, text@) == Self::spec_decode(span.of(text@)),
            faults_inside(r, span),
    {
        let invalid = Fault { kind: ErrorKind::InvalidPosition, span };
        let at = find_char(text, span, ':');
        if at == span.hi {
            return Err(invalid);
        }
        let before = Span { lo: span.lo, hi: at };
        let after = Span { lo: at + 1, hi: span.hi };
        proof {
            let token = span.of(text@);
            assert(before.of(text@) == token.take(at - span.lo));
            assert(after.of(text@) == token.skip(at - span.lo + 1));
        }
        let x = match parse_decimal(text, before, usize::MAX as u64) {
            Some(x) => x as usize,
            None => {
                return Err(invalid);
            },
        };
        let y = match parse_decimal(text, after, usize::MAX as u64) {
            Some(y) => y as usize,
            None => {
                return Err(invalid);
            },
        };
        Ok(Position { x, y })
    }

    /// Reads a position token.
    pub fn decode(token: &str) -> (r: Result<Position, DecodeError>)
        ensures
            outcome(r) == Self::spec_decode(token@),
    {
        let text = chars_of(token);
        match Self::parse(text.as_slice(), whole(&text)) {
            Ok(position) => Ok(position),
            Err(fault) => Err(fault.report(token)),
        }
    }

    pub(crate) fn push_to(&self, out: &mut String)
        ensures
            final(out)@ == old(out)@ + self.spec_encode(),
    {
        proof {
            reveal_strlit(":");
        }
        push_decimal(out, self.x as u64);
        out.append(":");
        push_decimal(out, self.y as u64);
        assert(":"@ =~= seq![':']);
        assert(final(out)@ =~= old(out)@ + self.spec_encode());
    }

    /// Writes the wire form of the position.
    pub fn encode(&self) -> (s: String)
        ensures
            s@ == self.spec_encode(),
    {
        let mut s = String::new();
        self.push_to(&mut s);
        assert(Seq::<char>::empty() + self.spec_encode() =~= self.spec_encode());
        s
    }
}

} // verus!
