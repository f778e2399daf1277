//! What numbers look like when they are written, how texts fall into parts, and in which order
//! names come.

use crate::order::{is_sorted_order, lemma_precedes_irreflexive, names, precedes, sorted_before};
use crate::parse::{
    digits_value, is_digit, lemma_decimal_value, lemma_length_before, lemma_split_first,
    lemma_split_last, lines, number, number_digits, split, without_carriage_return,
};
use crate::text::{decimal, Text};
use vstd::prelude::*;

verus! {

/// The last digit of a number in decimal notation is the remainder by ten; the digits before it
/// are those of the tenth part, and there are none before the only digit of a small number.
pub proof fn law_decimal_digits(n: nat)
    ensures
        decimal(n).len() > 0,
        decimal(n).last() as int == 48 + n % 10,
        n < 10 ==> decimal(n).len() == 1,
        n >= 10 ==> decimal(n).drop_last() == decimal(n / 10),
{
    if n >= 10 {
        assert(decimal(n).drop_last() =~= decimal(n / 10));
    }
}

/// Different numbers are written differently.
pub proof fn law_decimal_tells_apart(m: nat, n: nat)
    requires
        decimal(m) == decimal(n),
    ensures
        m == n,
{
    lemma_decimal_value(m);
    lemma_decimal_value(n);
}

/// Texts are written as they are, numbers in decimal notation, negative ones behind a minus sign.
pub proof fn law_texts_of_values(s: &str, t: String, a: usize, b: u32, c: i32)
    ensures
        s.text() == s@,
        t.text() == t@,
        a.text() == decimal(a as nat),
        b.text() == decimal(b as nat),
        c >= 0 ==> c.text() == decimal(c as nat),
        c < 0 ==> c.text().len() > 0 && c.text()[0] == '-' && c.text().drop_first() == decimal(
            (0 - c) as nat,
        ),
{
    if c < 0 {
        assert(c.text().drop_first() =~= decimal((0 - c) as nat));
    }
}

/// Parts with a separator between each two.
pub open spec fn joined_by(parts: Seq<Seq<char>>, c: char) -> Seq<char>
    decreases parts.len(),
{
    if parts.len() == 0 {
        seq![]
    } else if parts.len() == 1 {
        parts[0]
    } else {
        parts[0] + seq![c] + joined_by(parts.drop_first(), c)
    }
}

/// Parts without separators that are joined by a separator fall into the same parts again.
pub proof fn law_split_undoes_joining(parts: Seq<Seq<char>>, c: char)
    requires
        parts.len() > 0,
        forall|i: int| 0 <= i < parts.len() ==> !(#[trigger] parts[i]).contains(c),
    ensures
        split(joined_by(parts, c), c) == parts,
    decreases parts.len(),
{
    assert(!parts[0].contains(c));
    if parts.len() == 1 {
        lemma_split_last(parts[0], c);
        assert(seq![parts[0]] =~= parts);
    } else {
        let rest = parts.drop_first();
        assert forall|i: int| 0 <= i < rest.len() implies !(#[trigger] rest[i]).contains(c) by {
            assert(rest[i] == parts[i + 1]);
        }
        law_split_undoes_joining(rest, c);
        lemma_split_first(parts[0], joined_by(rest, c), c);
        assert(seq![parts[0]] + rest =~= parts);
    }
}

/// The parts of a text, joined by the separator, are the text, and no part holds a separator.
pub proof fn law_joining_undoes_split(s: Seq<char>, c: char)
    ensures
        split(s, c).len() > 0,
        joined_by(split(s, c), c) == s,
        forall|i: int| 0 <= i < split(s, c).len() ==> !(#[trigger] split(s, c)[i]).contains(c),
    decreases s.len(),
{
    let parts = split(s, c);
    if s.contains(c) {
        let n = first_place(s, c);
        let first = s.take(n);
        let rest = s.skip(n + 1);
        assert forall|i: int| 0 <= i < first.len() implies first[i] != c by {
            assert(first[i] == s[i]);
        }
        assert(!first.contains(c));
        assert(s =~= first + seq![c] + rest);
        lemma_split_first(first, rest, c);
        law_joining_undoes_split(rest, c);
        assert(parts.drop_first() =~= split(rest, c));
        assert forall|i: int| 0 <= i < parts.len() implies !(#[trigger] parts[i]).contains(c) by {
            if i > 0 {
                assert(parts[i] == split(rest, c)[i - 1]);
            }
        }
    } else {
        lemma_split_last(s, c);
    }
}

proof fn first_place(s: Seq<char>, c: char) -> (n: int)
    requires
        s.contains(c),
    ensures
        0 <= n < s.len(),
        s[n] == c,
        forall|i: int| 0 <= i < n ==> s[i] != c,
    decreases s.len(),
{
    if s[0] == c {
        0
    } else {
        let rest = s.drop_first();
        let k = choose|k: int| 0 <= k < s.len() && s[k] == c;
        assert(rest[k - 1] == c);
        let n = first_place(rest, c);
        assert forall|i: int| 0 <= i < n + 1 implies s[i] != c by {
            if i > 0 {
                assert(s[i] == rest[i - 1]);
            }
        }
        n + 1
    }
}

/// A line ends at its line feed, or at a carriage return and a line feed, and what follows are
/// further lines.
pub proof fn law_line_ends(line: Seq<char>, rest: Seq<char>)
    requires
        !line.contains('\n'),
    ensures
        lines(line + seq!['\r', '\n'] + rest) == seq![line] + lines(rest),
        line.len() == 0 || line.last() != '\r' ==> lines(line + seq!['\n'] + rest) == seq![line]
            + lines(rest),
{
    let s = line + seq!['\r', '\n'] + rest;
    assert forall|i: int| 0 <= i < line.len() + 1 implies s[i] != '\n' by {
        if i < line.len() {
            assert(s[i] == line[i]);
        }
    }
    lemma_length_before(s, '\n', line.len() + 1int);
    assert(s.take(line.len() + 1int) =~= line.push('\r'));
    assert(without_carriage_return(line.push('\r')) =~= line);
    assert(s.skip(line.len() + 2int) =~= rest);
    let t = line + seq!['\n'] + rest;
    assert forall|i: int| 0 <= i < line.len() implies t[i] != '\n' by {
        assert(t[i] == line[i]);
    }
    lemma_length_before(t, '\n', line.len() as int);
    assert(t.take(line.len() as int) =~= line);
    assert(t.skip(line.len() + 1int) =~= rest);
}

/// What stands behind the last line feed is a line as it is, unless nothing stands there.
pub proof fn law_last_line(line: Seq<char>)
    requires
        !line.contains('\n'),
    ensures
        lines(line) == if line.len() == 0 {
            Seq::<Seq<char>>::empty()
        } else {
            seq![line]
        },
{
    assert forall|i: int| 0 <= i < line.len() implies line[i] != '\n' by {
        assert(line.contains(line[i]));
    }
    lemma_length_before(line, '\n', line.len() as int);
}

proof fn lemma_number_of_one(c: char)
    ensures
        number(seq![c]) == if '0' <= c <= '9' {
            Some(((c as int) - 48) as usize)
        } else {
            None
        },
{
    let s = seq![c];
    if '0' <= c <= '9' {
        assert(number_digits(s) == s);
        assert(s.drop_last() =~= seq![]);
        assert(digits_value(s.drop_last()) == 0);
        assert(digits_value(s) == (c as int) - 48);
    } else if c == '+' {
        assert(number_digits(s).len() == 0);
    } else {
        assert(number_digits(s) == s);
        assert(!is_digit(s[0]));
    }
}

/// A digit alone denotes its value. A digit behind a number makes it ten times as large and adds
/// the value of the digit, as long as it fits. A plus sign may stand before the first digit;
/// nothing else may stand anywhere, and something has to.
pub proof fn law_number_by_digits(s: Seq<char>, c: char)
    ensures
        number(seq![]) is None,
        number(seq![c]) == if '0' <= c <= '9' {
            Some(((c as int) - 48) as usize)
        } else {
            None
        },
        number(seq!['+', c]) == number(seq![c]),
        s.len() > 0 && s != seq!['+'] ==> number(s.push(c)) == match number(s) {
            Some(v) if '0' <= c <= '9' && v * 10 + ((c as int) - 48) <= usize::MAX => Some(
                (v * 10 + ((c as int) - 48)) as usize,
            ),
            _ => None,
        },
{
    assert(number_digits(seq![]).len() == 0);
    lemma_number_of_one(c);
    let signed = seq!['+', c];
    assert(number_digits(signed) =~= seq![c]);
    if c == '+' {
        assert(!is_digit(number_digits(signed)[0]));
    } else {
        assert(number_digits(seq![c]) == seq![c]);
    }
    if s.len() > 0 && s != seq!['+'] {
        let d = number_digits(s);
        let e = number_digits(s.push(c));
        if s.len() == 1 && s[0] == '+' {
            assert(s =~= seq!['+']);
        }
        assert(d.len() > 0);
        assert(e =~= d.push(c));
        assert(e.drop_last() =~= d);
        assert(e.last() == c);
        if '0' <= c <= '9' {
            assert(digits_value(e) == digits_value(d) * 10 + ((c as int) - 48));
            if forall|i: int| 0 <= i < d.len() ==> is_digit(#[trigger] d[i]) {
                assert forall|i: int| 0 <= i < e.len() implies is_digit(#[trigger] e[i]) by {
                    if i < d.len() {
                        assert(e[i] == d[i]);
                    }
                }
            } else {
                let i = choose|i: int| 0 <= i < d.len() && !is_digit(#[trigger] d[i]);
                assert(e[i] == d[i]);
            }
        } else {
            assert(!is_digit(e[e.len() - 1]));
        }
    }
}

/// Names are compared by the first character in which they differ; a name comes before a longer
/// one that starts with it, and not before itself.
pub proof fn law_name_order(start: Seq<char>, a: char, x: Seq<char>, b: char, y: Seq<char>)
    requires
        a < b,
    ensures
        precedes(start + seq![a] + x, start + seq![b] + y),
        !precedes(start + seq![b] + y, start + seq![a] + x),
        precedes(start, start + seq![a] + x),
        !precedes(start + seq![a] + x, start),
        !precedes(start, start),
    decreases start.len(),
{
    lemma_precedes_irreflexive(start);
    let p = start + seq![a] + x;
    let q = start + seq![b] + y;
    if start.len() > 0 {
        let rest = start.drop_first();
        law_name_order(rest, a, x, b, y);
        assert(p.drop_first() =~= rest + seq![a] + x);
        assert(q.drop_first() =~= rest + seq![b] + y);
        assert(p[0] == start[0] && q[0] == start[0]);
    } else {
        assert(p[0] == a && q[0] == b);
    }
}

/// The names of a list are the characters of its texts, in order.
pub proof fn law_names_of_texts(list: Seq<String>)
    ensures
        names(list).len() == list.len(),
        forall|i: int| 0 <= i < list.len() ==> #[trigger] names(list)[i] == list[i]@,
{
}

/// A sorted order lists each place once. Of two places the one with the smaller name comes first;
/// where the names are equal, the one that stands first.
pub proof fn law_sorted_order(ids: Seq<Seq<char>>, order: Seq<usize>)
    ensures
        is_sorted_order(ids, order) <==> {
            &&& order.len() == ids.len()
            &&& forall|i: int| 0 <= i < order.len() ==> #[trigger] order[i] < ids.len()
            &&& forall|p: usize| p < ids.len() ==> #[trigger] order.contains(p)
            &&& forall|i: int, j: int|
                0 <= i < j < order.len() ==> {
                    let x = ids[#[trigger] order[i] as int];
                    let y = ids[#[trigger] order[j] as int];
                    precedes(x, y) || (x == y && order[i] < order[j])
                }
        },
{
    if is_sorted_order(ids, order) {
        assert forall|i: int, j: int| 0 <= i < j < order.len() implies {
            let x = ids[#[trigger] order[i] as int];
            let y = ids[#[trigger] order[j] as int];
            precedes(x, y) || (x == y && order[i] < order[j])
        } by {
            assert(sorted_before(ids, order[i] as int, order[j] as int));
        }
    }
}

} // verus!
