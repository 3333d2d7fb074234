//! Mathematical vocabulary for the wire format: separators, pieces and decimal numerals,
//! all over sequences of characters.

use vstd::prelude::*;

verus! {

/// Position of the first occurrence of `c` in `s`, or `s.len()` when `c` does not occur.
pub open spec fn find(s: Seq<char>, c: char) -> int
    decreases s.len(),
{
    if s.len() == 0 || s[0] == c {
        0
    } else {
        1 + find(s.drop_first(), c)
    }
}

/// No element of `s` is `c`.
pub open spec fn free_of(s: Seq<char>, c: char) -> bool {
    forall|i: int| 0 <= i < s.len() ==> s[i] != c
}

/// The pieces of `s` between occurrences of `sep`. There is always at least one piece;
/// `n` separators give `n + 1` pieces, some of which may be empty.
pub open spec fn split(s: Seq<char>, sep: char) -> Seq<Seq<char>>
    decreases s.len(),
{
    let i = find(s, sep);
    if 0 <= i < s.len() {
        seq![s.take(i)] + split(s.skip(i + 1), sep)
    } else {
        seq![s]
    }
}

/// The pieces written one after another with `sep` between neighbours.
pub open spec fn join(pieces: Seq<Seq<char>>, sep: char) -> Seq<char>
    decreases pieces.len(),
{
    if pieces.len() == 0 {
        Seq::empty()
    } else if pieces.len() == 1 {
        pieces[0]
    } else {
        join(pieces.drop_last(), sep).push(sep) + pieces.last()
    }
}

/// One of the ten decimal digits `0` to `9`.
pub open spec fn is_digit(c: char) -> bool {
    '0' <= c && c <= '9'
}

/// The number that a decimal digit stands for.
pub open spec fn digit_value(c: char) -> nat {
    if is_digit(c) {
        (c as u32 - '0' as u32) as nat
    } else {
        0
    }
}

/// Every element of `s` is a decimal digit.
pub open spec fn all_digits(s: Seq<char>) -> bool {
    forall|i: int| 0 <= i < s.len() ==> is_digit(s[i])
}

/// The number that a string of decimal digits denotes, most significant digit first.
pub open spec fn digits_value(s: Seq<char>) -> nat
    decreases s.len(),
{
    if s.len() == 0 {
        0
    } else {
        digits_value(s.drop_last()) * 10 + digit_value(s.last())
    }
}

/// `s` without one leading plus sign, if it has one.
pub open spec fn unsigned_digits(s: Seq<char>) -> Seq<char> {
    if s.len() > 0 && s[0] == '+' {
        s.drop_first()
    } else {
        s
    }
}

/// Reads `s` as an unsigned decimal numeral no greater than `max`: an optional plus sign
/// followed by one or more decimal digits. Leading zeros are accepted; a minus sign, an
/// empty string, any other character, or a value above `max` give `None`.
pub open spec fn parse_unsigned(s: Seq<char>, max: nat) -> Option<nat> {
    let digits = unsigned_digits(s);
    if digits.len() > 0 && all_digits(digits) && digits_value(digits) <= max {
        Some(digits_value(digits))
    } else {
        None
    }
}

/// The decimal digit that stands for a number below ten.
pub open spec fn digit_char(d: nat) -> char
    recommends
        d < 10,
{
    ((d + 48) as u8) as char
}

/// The shortest decimal numeral of `n`: no sign, no leading zero except for zero itself.
pub open spec fn decimal(n: nat) -> Seq<char>
    decreases n,
{
    if n < 10 {
        seq![digit_char(n)]
    } else {
        decimal(n / 10).push(digit_char(n % 10))
    }
}

/// A numeral as `decimal` writes it: digits only, at least one, and no zero in front of
/// another digit.
pub open spec fn is_canonical(s: Seq<char>) -> bool {
    &&& s.len() >= 1
    &&& all_digits(s)
    &&& s.len() > 1 ==> s[0] != '0'
}

/// `digit_char` gives a digit, and `digit_value` gives the number back.
pub proof fn lemma_digit_char(d: nat)
    requires
        d < 10,
    ensures
        is_digit(digit_char(d)),
        digit_value(digit_char(d)) == d,
        digit_char(d) != '+',
{
}

/// A single digit denotes its own value.
proof fn lemma_digits_value_single(s: Seq<char>)
    requires
        s.len() == 1,
    ensures
        digits_value(s) == digit_value(s[0]),
{
    assert(s.drop_last().len() == 0);
    assert(digits_value(s.drop_last()) == 0);
}

/// `decimal` writes a canonical numeral of the number.
pub proof fn lemma_decimal(n: nat)
    ensures
        is_canonical(decimal(n)),
        digits_value(decimal(n)) == n,
    decreases n,
{
    lemma_digit_char(n % 10);
    let s = decimal(n);
    if n >= 10 {
        lemma_decimal(n / 10);
        let front = decimal(n / 10);
        assert(s.drop_last() == front);
        assert(s[0] == front[0]);
        if front.len() == 1 {
            lemma_digits_value_single(front);
        }
    } else {
        lemma_digits_value_single(s);
    }
}

/// A numeral that `decimal` wrote reads as the number it was written for.
pub proof fn lemma_parse_decimal(n: nat, max: nat)
    requires
        n <= max,
    ensures
        parse_unsigned(decimal(n), max) == Some(n),
{
    lemma_decimal(n);
}

/// A numeral that does not start with a zero denotes no less than one.
proof fn lemma_digits_value_positive(s: Seq<char>)
    requires
        s.len() >= 1,
        all_digits(s),
        s[0] != '0',
    ensures
        digits_value(s) >= 1,
    decreases s.len(),
{
    if s.len() == 1 {
        lemma_digits_value_single(s);
    } else {
        lemma_digits_value_positive(s.drop_last());
    }
}

/// A canonical numeral is what `decimal` writes for the number that it denotes.
pub proof fn lemma_decimal_of_canonical(s: Seq<char>)
    requires
        is_canonical(s),
    ensures
        decimal(digits_value(s)) == s,
    decreases s.len(),
{
    let front = s.drop_last();
    let d = digit_value(s.last());
    assert(digit_char(d) == s.last());
    if s.len() == 1 {
        lemma_digits_value_single(s);
        assert(decimal(d) =~= s);
    } else {
        assert(front[0] == s[0]);
        lemma_digits_value_positive(front);
        lemma_decimal_of_canonical(front);
        let n = digits_value(s);
        assert(n / 10 == digits_value(front) && n % 10 == d) by (nonlinear_arith)
            requires
                n == digits_value(front) * 10 + d,
                d < 10,
        ;
        assert(front.push(s.last()) == s);
    }
}

/// A numeral denotes at least what any of its prefixes denotes.
pub proof fn lemma_digits_value_prefix(s: Seq<char>, k: int)
    requires
        0 <= k <= s.len(),
    ensures
        digits_value(s.take(k)) <= digits_value(s),
    decreases s.len(),
{
    if k == s.len() {
        assert(s.take(k) == s);
    } else {
        assert(s.drop_last().take(k) == s.take(k));
        lemma_digits_value_prefix(s.drop_last(), k);
    }
}

/// `find` returns the first occurrence, and the length where there is none.
pub proof fn lemma_find(s: Seq<char>, c: char)
    ensures
        0 <= find(s, c) <= s.len(),
        free_of(s.take(find(s, c)), c),
        find(s, c) < s.len() ==> s[find(s, c)] == c,
    decreases s.len(),
{
    if s.len() == 0 || s[0] == c {
    } else {
        let rest = s.drop_first();
        lemma_find(rest, c);
        let k = find(rest, c);
        let head = s.take(k + 1);
        assert forall|i: int| 0 <= i < head.len() implies head[i] != c by {
            if i > 0 {
                assert(head[i] == rest.take(k)[i - 1]);
            }
        }
    }
}

/// Any position that holds `c`, or is the end, and has no `c` before it is what `find`
/// returns.
pub proof fn lemma_find_unique(s: Seq<char>, c: char, k: int)
    requires
        0 <= k <= s.len(),
        free_of(s.take(k), c),
        k < s.len() ==> s[k] == c,
    ensures
        find(s, c) == k,
    decreases s.len(),
{
    if s.len() == 0 {
    } else if s[0] == c {
        if k > 0 {
            assert(s.take(k)[0] == c);
        }
    } else {
        let rest = s.drop_first();
        let head = rest.take(k - 1);
        assert forall|i: int| 0 <= i < head.len() implies head[i] != c by {
            assert(head[i] == s.take(k)[i + 1]);
        }
        lemma_find_unique(rest, c, k - 1);
    }
}

/// A string without the separator is a single piece.
pub proof fn lemma_split_single(s: Seq<char>, sep: char)
    requires
        free_of(s, sep),
    ensures
        split(s, sep) == seq![s],
{
    assert(s.take(s.len() as int) == s);
    lemma_find_unique(s, sep, s.len() as int);
}

/// Splitting after a first piece that is free of the separator.
pub proof fn lemma_split_first(a: Seq<char>, b: Seq<char>, sep: char)
    requires
        free_of(a, sep),
    ensures
        split(a.push(sep) + b, sep) == seq![a] + split(b, sep),
{
    let s = a.push(sep) + b;
    let k = a.len() as int;
    assert(s.take(k) == a);
    assert(s.skip(k + 1) == b);
    lemma_find_unique(s, sep, k);
}

/// Splitting distributes over a separator placed between two strings.
pub proof fn lemma_split_concat(a: Seq<char>, b: Seq<char>, sep: char)
    ensures
        split(a.push(sep) + b, sep) == split(a, sep) + split(b, sep),
    decreases a.len(),
{
    lemma_find(a, sep);
    let i = find(a, sep);
    if i < a.len() {
        let head = a.take(i);
        let tail = a.skip(i + 1);
        assert(a.push(sep) + b == head.push(sep) + (tail.push(sep) + b));
        lemma_split_first(head, tail.push(sep) + b, sep);
        lemma_split_concat(tail, b, sep);
        assert(seq![head] + (split(tail, sep) + split(b, sep)) == (seq![head] + split(tail, sep))
            + split(b, sep));
    } else {
        assert(a.take(i) == a);
        lemma_split_single(a, sep);
        lemma_split_first(a, b, sep);
    }
}

/// There is always a piece, and no piece holds the separator.
pub proof fn lemma_split_pieces(s: Seq<char>, sep: char)
    ensures
        split(s, sep).len() >= 1,
        forall|k: int| 0 <= k < split(s, sep).len() ==> free_of(#[trigger] split(s, sep)[k], sep),
    decreases s.len(),
{
    lemma_find(s, sep);
    let i = find(s, sep);
    if i < s.len() {
        lemma_split_pieces(s.skip(i + 1), sep);
        let rest = split(s.skip(i + 1), sep);
        assert forall|k: int| 0 <= k < split(s, sep).len() implies free_of(
            #[trigger] split(s, sep)[k],
            sep,
        ) by {
            if k > 0 {
                assert(split(s, sep)[k] == rest[k - 1]);
            }
        }
    } else {
        assert(s.take(i) == s);
    }
}

/// Joining with a piece put in front.
pub proof fn lemma_join_prepend(first: Seq<char>, rest: Seq<Seq<char>>, sep: char)
    requires
        rest.len() >= 1,
    ensures
        join(seq![first] + rest, sep) == first.push(sep) + join(rest, sep),
    decreases rest.len(),
{
    let all = seq![first] + rest;
    if rest.len() == 1 {
        assert(all.drop_last() == seq![first]);
        assert(join(all.drop_last(), sep) == first);
    } else {
        assert(all.drop_last() == seq![first] + rest.drop_last());
        lemma_join_prepend(first, rest.drop_last(), sep);
        assert((first.push(sep) + join(rest.drop_last(), sep)).push(sep) + rest.last()
            == first.push(sep) + (join(rest.drop_last(), sep).push(sep) + rest.last()));
    }
}

/// Joining the pieces of a string gives the string back.
pub proof fn lemma_join_split(s: Seq<char>, sep: char)
    ensures
        join(split(s, sep), sep) == s,
    decreases s.len(),
{
    lemma_find(s, sep);
    let i = find(s, sep);
    if i < s.len() {
        let rest = s.skip(i + 1);
        lemma_join_split(rest, sep);
        lemma_split_pieces(rest, sep);
        lemma_join_prepend(s.take(i), split(rest, sep), sep);
        assert(s.take(i).push(sep) + rest == s);
    }
}

/// Splitting a joined string gives the pieces back, when there is at least one piece and
/// none of them holds the separator.
pub proof fn lemma_split_join(pieces: Seq<Seq<char>>, sep: char)
    requires
        pieces.len() >= 1,
        forall|k: int| 0 <= k < pieces.len() ==> free_of(#[trigger] pieces[k], sep),
    ensures
        split(join(pieces, sep), sep) == pieces,
    decreases pieces.len(),
{
    if pieces.len() == 1 {
        lemma_split_single(pieces[0], sep);
        assert(seq![pieces[0]] == pieces);
    } else {
        let init = pieces.drop_last();
        lemma_split_join(init, sep);
        lemma_split_concat(join(init, sep), pieces.last(), sep);
        lemma_split_single(pieces.last(), sep);
        assert(init + seq![pieces.last()] == pieces);
    }
}

} // verus!
