//! Characters of numbers and strings: how they are written, and how they are read back.

use vstd::prelude::*;

verus! {

/// A value that can be written into a line of text.
pub trait Text {
    /// The characters that the value is written as.
    spec fn text(&self) -> Seq<char>;

    /// Writes the value at the end of `out`.
    fn append_to(&self, out: &mut String)
        ensures
            final(out)@ == old(out)@ + self.text(),
    ;
}

impl<'a> Text for &'a str {
    open spec fn text(&self) -> Seq<char> {
        (*self)@
    }

    fn append_to(&self, out: &mut String) {
        out.append(self);
    }
}

impl Text for String {
    open spec fn text(&self) -> Seq<char> {
        self@
    }

    fn append_to(&self, out: &mut String) {
        out.append(self.as_str());
    }
}

impl Text for usize {
    open spec fn text(&self) -> Seq<char> {
        decimal(*self as nat)
    }

    fn append_to(&self, out: &mut String) {
        append_decimal(out, *self as u64);
    }
}

impl Text for u32 {
    open spec fn text(&self) -> Seq<char> {
        decimal(*self as nat)
    }

    fn append_to(&self, out: &mut String) {
        append_decimal(out, *self as u64);
    }
}

impl Text for i32 {
    open spec fn text(&self) -> Seq<char> {
        if *self < 0 {
            seq!['-'] + decimal((-*self) as nat)
        } else {
            decimal(*self as nat)
        }
    }

    fn append_to(&self, out: &mut String) {
        let n: i64 = *self as i64;
        if n < 0 {
            proof {
                reveal_strlit("-");
            }
            let ghost before = out@;
            out.append("-");
            assert(out@ =~= before + seq!['-']);
            append_decimal(out, (-n) as u64);
            assert(out@ =~= before + self.text());
        } else {
            append_decimal(out, n as u64);
        }
    }
}

/// The character of the decimal digit `d`.
pub open spec fn digit_char(d: int) -> char {
    (('0' as int) + d) as char
}

/// `n` in decimal notation, without leading zeros.
pub open spec fn decimal(n: nat) -> Seq<char>
    decreases n,
{
    if n < 10 {
        seq![digit_char(n as int)]
    } else {
        decimal(n / 10).push(digit_char((n % 10) as int))
    }
}

/// Writes `n` in decimal notation at the end of `out`.
pub fn append_decimal(out: &mut String, n: u64)
    ensures
        final(out)@ == old(out)@ + decimal(n as nat),
    decreases n,
{
    if n >= 10 {
        append_decimal(out, n / 10);
    }
    let ghost before = out@;
    let digit: &'static str = digit_str(n % 10);
    out.append(digit);
    assert(out@ =~= before.push(digit_char((n % 10) as int)));
    assert(out@ =~= old(out)@ + decimal(n as nat));
}

fn digit_str(d: u64) -> (s: &'static str)
    requires
        d < 10,
    ensures
        s@ =~= seq![digit_char(d as int)],
{
    proof {
        reveal_strlit("0");
        reveal_strlit("1");
        reveal_strlit("2");
        reveal_strlit("3");
        reveal_strlit("4");
        reveal_strlit("5");
        reveal_strlit("6");
        reveal_strlit("7");
        reveal_strlit("8");
        reveal_strlit("9");
    }
    match d {
        0 => "0",
        1 => "1",
        2 => "2",
        3 => "3",
        4 => "4",
        5 => "5",
        6 => "6",
        7 => "7",
        8 => "8",
        _ => "9",
    }
}

/// `first` with `second` behind it.
pub fn joined(first: &str, second: &str) -> (out: String)
    ensures
        out@ == first@ + second@,
{
    let mut out: String = String::from_str(first);
    out.append(second);
    out
}

/// The characters of `s`, one by one.
pub fn to_chars(s: &str) -> (chars: Vec<char>)
    ensures
        chars@ == s@,
{
    let mut chars: Vec<char> = Vec::new();
    for c in it: s.chars()
        invariant
            chars@ == it.seq().take(it.index() as int),
            it.seq() == s@,
    {
        chars.push(c);
    }
    assert(s@.take(s@.len() as int) =~= s@);
    chars
}

} // verus!
