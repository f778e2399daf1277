//! Lines, separated fields and decimal numbers, read out of a text.

use crate::text::{decimal, digit_char, to_chars};
use vstd::prelude::*;

verus! {

/// How many characters of `s` stand before the first `c`; all of them where there is none.
pub open spec fn length_before(s: Seq<char>, c: char) -> nat
    decreases s.len(),
{
    if s.len() == 0 || s[0] == c {
        0
    } else {
        1 + length_before(s.drop_first(), c)
    }
}

/// The parts of `s` between the separators `c`. There is one more part than separators.
pub open spec fn split(s: Seq<char>, c: char) -> Seq<Seq<char>>
    decreases s.len(),
{
    let n = length_before(s, c) as int;
    if n >= s.len() {
        seq![s]
    } else {
        seq![s.take(n)] + split(s.skip(n + 1), c)
    }
}

/// `s` without one carriage return at its end, if it has one there.
pub open spec fn without_carriage_return(s: Seq<char>) -> Seq<char> {
    if s.len() > 0 && s.last() == '\r' {
        s.drop_last()
    } else {
        s
    }
}

/// The lines of a text. A line ends with a line feed, which may follow a carriage return;
/// neither belongs to the line. What stands after the last line feed is a line too, and kept as
/// it is, unless nothing stands there.
pub open spec fn lines(s: Seq<char>) -> Seq<Seq<char>>
    decreases s.len(),
{
    if s.len() == 0 {
        seq![]
    } else {
        let n = length_before(s, '\n') as int;
        if n >= s.len() {
            seq![s]
        } else {
            seq![without_carriage_return(s.take(n))] + lines(s.skip(n + 1))
        }
    }
}

/// Whether `c` is one of the ten decimal digits.
pub open spec fn is_digit(c: char) -> bool {
    '0' <= c <= '9'
}

/// The value of a sequence of decimal digits, the most significant one first.
pub open spec fn digits_value(s: Seq<char>) -> nat
    decreases s.len(),
{
    if s.len() == 0 {
        0
    } else {
        digits_value(s.drop_last()) * 10 + ((s.last() as int) - ('0' as int)) as nat
    }
}

/// The digits of a number as it may be written: they may follow one plus sign.
pub open spec fn number_digits(s: Seq<char>) -> Seq<char> {
    if s.len() > 0 && s[0] == '+' {
        s.drop_first()
    } else {
        s
    }
}

/// The number that `s` denotes: at least one digit, nothing but digits, an optional plus sign
/// before them, and a value that fits.
pub open spec fn number(s: Seq<char>) -> Option<usize> {
    let digits = number_digits(s);
    if digits.len() > 0 && (forall|i: int| 0 <= i < digits.len() ==> is_digit(#[trigger] digits[i]))
        && digits_value(digits) <= usize::MAX {
        Some(digits_value(digits) as usize)
    } else {
        None
    }
}

/// `length_before(s, c)` is `n` where `n` is the place of the first `c`, or the length of `s`
/// where `s` has no `c`.
pub proof fn lemma_length_before(s: Seq<char>, c: char, n: int)
    requires
        0 <= n <= s.len(),
        forall|i: int| 0 <= i < n ==> s[i] != c,
        n < s.len() ==> s[n] == c,
    ensures
        length_before(s, c) == n,
    decreases s.len(),
{
    if s.len() > 0 && s[0] != c {
        assert forall|i: int| 0 <= i < n - 1 implies s.drop_first()[i] != c by {
            assert(s.drop_first()[i] == s[i + 1]);
        }
        if n < s.len() {
            assert(s.drop_first()[n - 1] == s[n]);
        }
        lemma_length_before(s.drop_first(), c, n - 1);
    }
}

/// The part before the first separator comes first.
pub proof fn lemma_split_first(x: Seq<char>, rest: Seq<char>, c: char)
    requires
        !x.contains(c),
    ensures
        split(x + seq![c] + rest, c) == seq![x] + split(rest, c),
{
    let s = x + seq![c] + rest;
    assert forall|i: int| 0 <= i < x.len() implies s[i] != c by {
        assert(s[i] == x[i]);
    }
    lemma_length_before(s, c, x.len() as int);
    assert(s.take(x.len() as int) =~= x);
    assert(s.skip(x.len() + 1int) =~= rest);
}

/// A text without separators is its own only part.
pub proof fn lemma_split_last(x: Seq<char>, c: char)
    requires
        !x.contains(c),
    ensures
        split(x, c) == seq![x],
{
    assert forall|i: int| 0 <= i < x.len() implies x[i] != c by {
        assert(x.contains(x[i]));
    }
    lemma_length_before(x, c, x.len() as int);
}

/// Splits `s` at each separator `c`.
pub fn split_text<'a>(s: &'a str, c: char) -> (parts: Vec<&'a str>)
    ensures
        parts@.map_values(|p: &str| p@) == split(s@, c),
{
    let chars: Vec<char> = to_chars(s);
    let mut parts: Vec<&'a str> = Vec::new();
    let mut start: usize = 0;
    let mut i: usize = 0;
    assert(s@.skip(0) =~= s@);
    assert(parts@.map_values(|p: &str| p@) + split(s@, c) =~= split(s@, c));
    while i < chars.len()
        invariant
            chars@ == s@,
            start <= i <= chars.len(),
            forall|j: int| start <= j < i ==> s@[j] != c,
            parts@.map_values(|p: &str| p@) + split(s@.skip(start as int), c) == split(s@, c),
        decreases chars.len() - i,
    {
        if chars[i] == c {
            let ghost rest = s@.skip(start as int);
            let ghost before = parts@.map_values(|p: &str| p@);
            let part: &'a str = s.substring_char(start, i);
            parts.push(part);
            proof {
                let n = i - start;
                lemma_length_before(rest, c, n);
                assert(rest.take(n) =~= part@);
                assert(rest.skip(n + 1) =~= s@.skip(i + 1));
                assert(parts@.map_values(|p: &str| p@) =~= before.push(part@));
                assert(before.push(part@) + split(s@.skip(i + 1), c) =~= before + split(rest, c));
            }
            start = i + 1;
        }
        i = i + 1;
    }
    let ghost rest = s@.skip(start as int);
    let ghost before = parts@.map_values(|p: &str| p@);
    let part: &'a str = s.substring_char(start, chars.len());
    parts.push(part);
    proof {
        lemma_length_before(rest, c, rest.len() as int);
        assert(part@ =~= rest);
        assert(parts@.map_values(|p: &str| p@) =~= before + seq![rest]);
    }
    parts
}

/// The lines of `s`.
pub fn split_lines<'a>(s: &'a str) -> (parts: Vec<&'a str>)
    ensures
        parts@.map_values(|p: &str| p@) == lines(s@),
{
    let chars: Vec<char> = to_chars(s);
    let mut parts: Vec<&'a str> = Vec::new();
    let mut start: usize = 0;
    let mut i: usize = 0;
    assert(s@.skip(0) =~= s@);
    assert(parts@.map_values(|p: &str| p@) + lines(s@) =~= lines(s@));
    while i < chars.len()
        invariant
            chars@ == s@,
            start <= i <= chars.len(),
            forall|j: int| start <= j < i ==> s@[j] != '\n',
            parts@.map_values(|p: &str| p@) + lines(s@.skip(start as int)) == lines(s@),
        decreases chars.len() - i,
    {
        if chars[i] == '\n' {
            let ghost rest = s@.skip(start as int);
            let ghost before = parts@.map_values(|p: &str| p@);
            let end: usize = if start < i && chars[i - 1] == '\r' {
                i - 1
            } else {
                i
            };
            let part: &'a str = s.substring_char(start, end);
            parts.push(part);
            proof {
                let n = i - start;
                lemma_length_before(rest, '\n', n);
                assert(without_carriage_return(rest.take(n)) =~= part@);
                assert(rest.skip(n + 1) =~= s@.skip(i + 1));
                assert(parts@.map_values(|p: &str| p@) =~= before.push(part@));
                assert(before.push(part@) + lines(s@.skip(i + 1)) =~= before + lines(rest));
            }
            start = i + 1;
        }
        i = i + 1;
    }
    let ghost rest = s@.skip(start as int);
    let ghost before = parts@.map_values(|p: &str| p@);
    if start < chars.len() {
        let part: &'a str = s.substring_char(start, chars.len());
        parts.push(part);
        proof {
            lemma_length_before(rest, '\n', rest.len() as int);
            assert(part@ =~= rest);
            assert(parts@.map_values(|p: &str| p@) =~= before + seq![rest]);
        }
    } else {
        assert(before + lines(rest) =~= before);
    }
    parts
}

/// Digits at the front of a number never make it smaller than they are alone.
proof fn lemma_digits_value_grows(s: Seq<char>, n: int)
    requires
        0 <= n <= s.len(),
    ensures
        digits_value(s.take(n)) <= digits_value(s),
    decreases s.len(),
{
    if n == s.len() {
        assert(s.take(n) =~= s);
    } else {
        lemma_digits_value_grows(s.drop_last(), n);
        assert(s.drop_last().take(n) =~= s.take(n));
    }
}

/// The number that `s` denotes, if it denotes one.
pub fn parse_number(s: &str) -> (n: Option<usize>)
    ensures
        n == number(s@),
{
    let chars: Vec<char> = to_chars(s);
    let first: usize = if chars.len() > 0 && chars[0] == '+' {
        1
    } else {
        0
    };
    let ghost digits = number_digits(s@);
    if first == chars.len() {
        return None;
    }
    let mut value: usize = 0;
    let mut i: usize = first;
    assert(digits.take(0) =~= seq![]);
    while i < chars.len()
        invariant
            chars@ == s@,
            digits == number_digits(s@),
            digits =~= s@.skip(first as int),
            first < chars.len(),
            first <= i <= chars.len(),
            value == digits_value(digits.take(i - first)),
            forall|j: int| 0 <= j < i - first ==> is_digit(#[trigger] digits[j]),
        decreases chars.len() - i,
    {
        let c: char = chars[i];
        let ghost k = i - first;
        assert(digits[k] == c);
        if c < '0' || c > '9' {
            return None;
        }
        let d: usize = ((c as u32) - ('0' as u32)) as usize;
        proof {
            assert(digits.take(k + 1).drop_last() =~= digits.take(k));
            lemma_digits_value_grows(digits, k + 1);
        }
        let shifted: Option<usize> = value.checked_mul(10);
        match shifted {
            None => {
                return None;
            },
            Some(tens) => {
                let sum: Option<usize> = tens.checked_add(d);
                match sum {
                    None => {
                        return None;
                    },
                    Some(total) => {
                        value = total;
                    },
                }
            },
        }
        i = i + 1;
    }
    assert(digits.take(digits.len() as int) =~= digits);
    Some(value)
}

/// The decimal notation of a number consists of digits, at least one, and has that number's
/// value.
pub proof fn lemma_decimal_value(n: nat)
    ensures
        decimal(n).len() > 0,
        forall|i: int| 0 <= i < decimal(n).len() ==> is_digit(#[trigger] decimal(n)[i]),
        digits_value(decimal(n)) == n,
    decreases n,
{
    let s = decimal(n);
    if n < 10 {
        assert(s.drop_last() =~= seq![]);
        assert(digits_value(s.drop_last()) == 0);
        assert(s.last() == digit_char(n as int));
    } else {
        lemma_decimal_value(n / 10);
        assert(s.drop_last() =~= decimal(n / 10));
        assert(s.last() == digit_char((n % 10) as int));
    }
}

/// Reading a number back gives the number that was written.
pub proof fn law_number_of_decimal(n: usize)
    ensures
        number(decimal(n as nat)) == Some(n),
{
    lemma_decimal_value(n as nat);
    assert(is_digit(decimal(n as nat)[0]));
    assert(number_digits(decimal(n as nat)) == decimal(n as nat));
}

} // verus!
