//! Executable scanning of a line held as a slice of characters. Every function reads a
//! window of the slice, so that a failure can be reported by its place in the line.

use crate::error::{DecodeError, ErrorKind, Failure};
use crate::text::{
    all_digits, decimal, digit_char, digits_value, find, is_digit, lemma_digits_value_prefix,
    lemma_find_unique, parse_unsigned, split, unsigned_digits,
};
use vstd::prelude::*;
use vstd::string::*;

verus! {

/// A window of a line: the characters from `lo` up to, not including, `hi`.
#[derive(Clone, Copy)]
pub(crate) struct Span {
    pub lo: usize,
    pub hi: usize,
}

impl Span {
    pub(crate) open spec fn fits(self, text: Seq<char>) -> bool {
        self.lo <= self.hi <= text.len()
    }

    pub(crate) open spec fn inside(self, outer: Span) -> bool {
        outer.lo <= self.lo <= self.hi <= outer.hi
    }

    pub(crate) open spec fn of(self, text: Seq<char>) -> Seq<char> {
        text.subrange(self.lo as int, self.hi as int)
    }
}

/// A failure located in a line.
pub(crate) struct Fault {
    pub kind: ErrorKind,
    pub span: Span,
}

impl Fault {
    pub(crate) open spec fn failure(self, text: Seq<char>) -> Failure {
        Failure { kind: self.kind, text: self.span.of(text) }
    }

    /// Copies the offending text out of the line.
    pub(crate) fn report(self, line: &str) -> (e: DecodeError)
        requires
            self.span.fits(line@),
        ensures
            e@ == self.failure(line@),
    {
        let text = line.substring_char(self.span.lo, self.span.hi);
        DecodeError { kind: self.kind, text: String::from_str(text) }
    }
}

/// The result of a scan, with the failure's window replaced by its text.
pub(crate) open spec fn located<T>(r: Result<T, Fault>, text: Seq<char>) -> Result<T, Failure> {
    match r {
        Ok(value) => Ok(value),
        Err(fault) => Err(fault.failure(text)),
    }
}

/// The same, with the value taken by its view.
pub(crate) open spec fn located_view<T: View>(r: Result<T, Fault>, text: Seq<char>) -> Result<
    T::V,
    Failure,
> {
    match r {
        Ok(value) => Ok(value@),
        Err(fault) => Err(fault.failure(text)),
    }
}

/// A failure of a scan lies in the window that was scanned.
pub(crate) open spec fn faults_inside<T>(r: Result<T, Fault>, span: Span) -> bool {
    r matches Err(fault) ==> fault.span.inside(span)
}

/// The window that covers all of a line.
pub(crate) fn whole(text: &Vec<char>) -> (span: Span)
    ensures
        span.fits(text@),
        span.of(text@) == text@,
{
    let span = Span { lo: 0, hi: text.len() };
    assert(span.of(text@) =~= text@);
    span
}

/// The characters of a string, in order.
pub(crate) fn chars_of(s: &str) -> (v: Vec<char>)
    ensures
        v@ == s@,
{
    let mut v: Vec<char> = Vec::new();
    for c in it: s.chars()
        invariant
            it.seq() == s@,
            v@ == s@.take(it.index()),
    {
        v.push(c);
    }
    v
}

/// The texts of a list of windows.
spec fn texts(spans: Seq<Span>, text: Seq<char>) -> Seq<Seq<char>> {
    Seq::new(spans.len(), |k: int| spans[k].of(text))
}

/// Whether the window holds the single character `c`.
pub(crate) fn is_char(text: &[char], span: Span, c: char) -> (r: bool)
    requires
        span.fits(text@),
    ensures
        r == (span.of(text@) == seq![c]),
{
    let r = span.hi - span.lo == 1 && text[span.lo] == c;
    proof {
        let tok = span.of(text@);
        if r {
            assert(tok =~= seq![c]);
        } else if tok.len() == 1 {
            assert(tok[0] == text@[span.lo as int]);
            assert(seq![c][0] == c);
        } else {
            assert(seq![c].len() == 1);
        }
    }
    r
}

/// The first place of `c` in the window, or the window's end.
pub(crate) fn find_char(text: &[char], span: Span, c: char) -> (at: usize)
    requires
        span.fits(text@),
    ensures
        span.lo <= at <= span.hi,
        at - span.lo == find(span.of(text@), c),
{
    let mut at = span.lo;
    while at < span.hi && text[at] != c
        invariant
            span.fits(text@),
            span.lo <= at <= span.hi,
            forall|j: int| span.lo <= j < at ==> text@[j] != c,
        decreases span.hi - at,
    {
        at += 1;
    }
    proof {
        let tok = span.of(text@);
        let k = at - span.lo;
        assert forall|i: int| 0 <= i < tok.take(k).len() implies tok.take(k)[i] != c by {
            assert(tok.take(k)[i] == text@[span.lo + i]);
        }
        lemma_find_unique(tok, c, k);
    }
    at
}

/// The windows of the pieces that `sep` separates in the window.
pub(crate) fn split_spans(text: &[char], span: Span, sep: char) -> (spans: Vec<Span>)
    requires
        span.fits(text@),
    ensures
        spans.len() == split(span.of(text@), sep).len(),
        spans.len() >= 1,
        forall|k: int|
            0 <= k < spans.len() ==> (#[trigger] spans[k]).inside(span) && spans[k].of(text@)
                == split(span.of(text@), sep)[k],
{
    let mut spans: Vec<Span> = Vec::new();
    let mut rest = span;
    loop
        invariant_except_break
            rest.inside(span),
            split(span.of(text@), sep) == texts(spans@, text@) + split(rest.of(text@), sep),
        invariant
            span.fits(text@),
            forall|k: int| 0 <= k < spans.len() ==> (#[trigger] spans[k]).inside(span),
        ensures
            texts(spans@, text@) == split(span.of(text@), sep),
        decreases rest.hi - rest.lo,
    {
        let at = find_char(text, rest, sep);
        let piece = Span { lo: rest.lo, hi: at };
        let ghost before = spans@;
        let ghost tok = rest.of(text@);
        spans.push(piece);
        proof {
            assert(piece.of(text@) == tok.take(at - rest.lo));
            assert(texts(spans@, text@) == texts(before, text@) + seq![piece.of(text@)]);
        }
        if at == rest.hi {
            proof {
                assert(tok.take(at - rest.lo) == tok);
            }
            break;
        }
        proof {
            let after = Span { lo: (at + 1) as usize, hi: rest.hi };
            assert(after.of(text@) == tok.skip(at - rest.lo + 1));
            assert(texts(before, text@) + (seq![piece.of(text@)] + split(after.of(text@), sep))
                == texts(spans@, text@) + split(after.of(text@), sep));
        }
        rest = Span { lo: at + 1, hi: rest.hi };
    }
    proof {
        let pieces = split(span.of(text@), sep);
        assert(texts(spans@, text@).len() == pieces.len());
        assert forall|k: int| 0 <= k < spans.len() implies (#[trigger] spans[k]).of(text@)
            == pieces[k] by {
            assert(texts(spans@, text@)[k] == spans[k].of(text@));
        }
    }
    spans
}

/// Reads the window as an unsigned decimal numeral no greater than `max`.
pub(crate) fn parse_decimal(text: &[char], span: Span, max: u64) -> (r: Option<u64>)
    requires
        span.fits(text@),
    ensures
        parse_unsigned(span.of(text@), max as nat) == match r {
            Some(value) => Some(value as nat),
            None => None,
        },
{
    let ghost tok = span.of(text@);
    let start = if span.lo < span.hi && text[span.lo] == '+' {
        span.lo + 1
    } else {
        span.lo
    };
    let ghost digits = unsigned_digits(tok);
    assert(digits == text@.subrange(start as int, span.hi as int));
    if start == span.hi {
        return None;
    }
    let mut value: u64 = 0;
    let mut at = start;
    while at < span.hi
        invariant
            span.fits(text@),
            start <= at <= span.hi,
            digits == text@.subrange(start as int, span.hi as int),
            digits == unsigned_digits(span.of(text@)),
            all_digits(digits.take(at - start)),
            value == digits_value(digits.take(at - start)),
            value <= max,
        decreases span.hi - at,
    {
        let c = text[at];
        let ghost seen = digits.take(at - start);
        let ghost next = digits.take(at - start + 1);
        proof {
            assert(next.drop_last() == seen);
            assert(next.last() == c);
        }
        if !('0' <= c && c <= '9') {
            proof {
                assert(digits[at - start] == c);
            }
            return None;
        }
        let digit = (c as u32 - '0' as u32) as u64;
        if max < digit || value > (max - digit) / 10 {
            proof {
                assert(digits_value(next) > max);
                lemma_digits_value_prefix(digits, at - start + 1);
            }
            return None;
        }
        value = value * 10 + digit;
        at += 1;
        proof {
            assert forall|i: int| 0 <= i < next.len() implies is_digit(next[i]) by {
                if i < seen.len() {
                    assert(next[i] == seen[i]);
                }
            }
        }
    }
    proof {
        assert(digits.take(at - start) == digits);
    }
    Some(value)
}

/// The one-character string of a decimal digit.
fn digit_str(d: u64) -> (s: &'static str)
    requires
        d < 10,
    ensures
        s@ == seq![digit_char(d as nat)],
{
    proof {
        reveal_strlit("0");
        reveal_strlit("1");
        reveal_strlit("2");
        reveal_strlit("3");
        reveal_strlit("4");
        reveal_strlit("5");
        reveal_strlit("6");
        reveal_strlit("7");
        reveal_strlit("8");
        reveal_strlit("9");
    }
    let s = match d {
        0 => "0",
        1 => "1",
        2 => "2",
        3 => "3",
        4 => "4",
        5 => "5",
        6 => "6",
        7 => "7",
        8 => "8",
        _ => "9",
    };
    assert(s@ =~= seq![digit_char(d as nat)]);
    s
}

/// Appends the shortest decimal numeral of `n`.
pub(crate) fn push_decimal(out: &mut String, n: u64)
    ensures
        final(out)@ == old(out)@ + decimal(n as nat),
    decreases n,
{
    if n >= 10 {
        push_decimal(out, n / 10);
    }
    out.append(digit_str(n % 10));
}

} // verus!
