//! The step file of a checkpoint: how far the optimiser of each weight has come.
//!
//! Each line names one weight. Its fields are separated by commas: the name, the number of
//! updates, and the number of updates since the last lookahead merge. Older checkpoints hold a
//! file without the last field. Further fields are ignored.

use crate::parse::{
    is_digit, law_number_of_decimal, lemma_decimal_value, lemma_length_before, lemma_split_first,
    lemma_split_last, lines, number, parse_number, split, split_lines, split_text,
    without_carriage_return,
};
use crate::text::{append_decimal, decimal};
use vstd::prelude::*;

verus! {

/// The content of one line of a step file.
#[derive(Debug)]
pub struct StepRecord {
    pub id: String,
    pub step: usize,
    /// Absent in files of the older form.
    pub lookahead_step: Option<usize>,
}

/// A line of a step file, with the name as its characters.
pub struct StepLine {
    pub id: Seq<char>,
    pub step: usize,
    pub lookahead_step: Option<usize>,
}

impl View for StepRecord {
    type V = StepLine;

    open spec fn view(&self) -> StepLine {
        StepLine { id: self.id@, step: self.step, lookahead_step: self.lookahead_step }
    }
}

/// A line of a step file that cannot be read, counted from zero.
#[derive(Clone, Copy, Debug, PartialEq, Eq, Structural)]
pub struct StepFileError {
    pub line: usize,
}

/// What a line says, where it can be read: enough fields, and numbers in them. The third field
/// is read in the current form of the file only.
pub open spec fn read_line(line: Seq<char>, legacy: bool) -> Option<StepLine> {
    let fields = split(line, ',');
    if fields.len() < 2 || number(fields[1]) is None {
        None
    } else if legacy {
        Some(StepLine { id: fields[0], step: number(fields[1])->0, lookahead_step: None })
    } else if fields.len() < 3 || number(fields[2]) is None {
        None
    } else {
        Some(
            StepLine {
                id: fields[0],
                step: number(fields[1])->0,
                lookahead_step: number(fields[2]),
            },
        )
    }
}

/// Whether each line of a text can be read.
pub open spec fn all_readable(text: Seq<char>, legacy: bool) -> bool {
    forall|i: int| 0 <= i < lines(text).len() ==> read_line(#[trigger] lines(text)[i], legacy) is Some
}

/// What the lines of a text say, where each can be read.
pub open spec fn step_lines(text: Seq<char>, legacy: bool) -> Seq<StepLine> {
    lines(text).map_values(|line: Seq<char>| read_line(line, legacy)->0)
}

/// Whether `line` is the first line of `text` that cannot be read.
pub open spec fn first_unreadable(text: Seq<char>, legacy: bool, line: int) -> bool {
    &&& 0 <= line < lines(text).len()
    &&& read_line(lines(text)[line], legacy) is None
    &&& forall|j: int| 0 <= j < line ==> read_line(#[trigger] lines(text)[j], legacy) is Some
}

/// The line that a weight gets in the current form of the file, with its line feed.
pub open spec fn step_line(id: Seq<char>, step: nat, lookahead_step: nat) -> Seq<char> {
    id + ","@ + decimal(step) + ","@ + decimal(lookahead_step) + "\n"@
}

/// Writes the line of a weight at the end of `out`.
pub fn append_step_line(out: &mut String, id: &str, step: usize, lookahead_step: usize)
    ensures
        final(out)@ == old(out)@ + step_line(id@, step as nat, lookahead_step as nat),
{
    out.append(id);
    out.append(",");
    append_decimal(out, step as u64);
    out.append(",");
    append_decimal(out, lookahead_step as u64);
    out.append("\n");
    assert(out@ =~= old(out)@ + step_line(id@, step as nat, lookahead_step as nat));
}

/// Reads one line.
fn parse_line(line: &str, legacy: bool) -> (record: Option<StepRecord>)
    ensures
        match record {
            Some(r) => read_line(line@, legacy) == Some(r@),
            None => read_line(line@, legacy) is None,
        },
{
    let fields: Vec<&str> = split_text(line, ',');
    let ghost parts = fields@.map_values(|p: &str| p@);
    if fields.len() < 2 {
        return None;
    }
    assert(parts[0] == fields@[0]@ && parts[1] == fields@[1]@);
    let id: String = fields[0].to_owned();
    let step: Option<usize> = parse_number(fields[1]);
    match step {
        None => None,
        Some(step) => {
            if legacy {
                return Some(StepRecord { id, step, lookahead_step: None });
            }
            if fields.len() < 3 {
                return None;
            }
            assert(parts[2] == fields@[2]@);
            let lookahead_step: Option<usize> = parse_number(fields[2]);
            if lookahead_step.is_none() {
                return None;
            }
            Some(StepRecord { id, step, lookahead_step })
        },
    }
}

/// Reads a step file; where a line cannot be read, the first such line is named.
pub fn parse_steps(text: &str, legacy: bool) -> (records: Result<Vec<StepRecord>, StepFileError>)
    ensures
        match records {
            Ok(r) => all_readable(text@, legacy) && r@.map_values(|x: StepRecord| x@) == step_lines(
                text@,
                legacy,
            ),
            Err(e) => first_unreadable(text@, legacy, e.line as int),
        },
{
    let parts: Vec<&str> = split_lines(text);
    let ghost all = parts@.map_values(|p: &str| p@);
    let mut records: Vec<StepRecord> = Vec::new();
    let mut i: usize = 0;
    while i < parts.len()
        invariant
            all == parts@.map_values(|p: &str| p@),
            all == lines(text@),
            i <= parts.len(),
            records.len() == i,
            forall|j: int|
                0 <= j < i ==> read_line(#[trigger] all[j], legacy) == Some(records@[j]@),
        decreases parts.len() - i,
    {
        assert(all[i as int] == parts@[i as int]@);
        let ghost before = records@;
        match parse_line(parts[i], legacy) {
            None => {
                return Err(StepFileError { line: i });
            },
            Some(record) => {
                records.push(record);
                assert(forall|j: int| 0 <= j < i ==> records@[j] == before[j]);
            },
        }
        i = i + 1;
    }
    assert(records@.map_values(|x: StepRecord| x@) =~= step_lines(text@, legacy));
    Ok(records)
}

/// Whether a name can stand in a step file and be read back: it holds neither the separator nor
/// a line feed.
pub open spec fn is_storable_id(id: Seq<char>) -> bool {
    !id.contains(',') && !id.contains('\n')
}

/// No character but digits stands in the decimal notation of a number.
pub proof fn lemma_decimal_is_plain(n: nat, c: char)
    requires
        !is_digit(c),
    ensures
        !decimal(n).contains(c),
{
    lemma_decimal_value(n);
    if decimal(n).contains(c) {
        let i = choose|i: int| 0 <= i < decimal(n).len() && decimal(n)[i] == c;
        assert(is_digit(decimal(n)[i]));
    }
}

/// A line that was written is the first line read back, and says what was written.
pub proof fn lemma_step_line_read(
    id: Seq<char>,
    step: usize,
    lookahead_step: usize,
    rest: Seq<char>,
)
    requires
        is_storable_id(id),
    ensures
        lines(step_line(id, step as nat, lookahead_step as nat) + rest).len() == lines(rest).len()
            + 1,
        lines(step_line(id, step as nat, lookahead_step as nat) + rest).drop_first() == lines(rest),
        read_line(
            lines(step_line(id, step as nat, lookahead_step as nat) + rest)[0],
            false,
        ) == Some(StepLine { id, step, lookahead_step: Some(lookahead_step) }),
{
    reveal_strlit(",");
    reveal_strlit("\n");
    let a = decimal(step as nat);
    let b = decimal(lookahead_step as nat);
    let line = id + seq![','] + a + seq![','] + b;
    let text = step_line(id, step as nat, lookahead_step as nat) + rest;
    assert(","@ =~= seq![',']);
    assert("\n"@ =~= seq!['\n']);
    lemma_decimal_is_plain(step as nat, ',');
    lemma_decimal_is_plain(step as nat, '\n');
    lemma_decimal_is_plain(lookahead_step as nat, ',');
    lemma_decimal_is_plain(lookahead_step as nat, '\n');
    lemma_decimal_value(lookahead_step as nat);
    // The line ends where its line feed stands, and its last character is a digit.
    assert(text =~= line + seq!['\n'] + rest);
    assert forall|i: int| 0 <= i < line.len() implies text[i] != '\n' by {
        assert(text[i] == line[i]);
        if i < id.len() {
            assert(id.contains(line[i]));
        } else if id.len() < i < id.len() + 1 + a.len() {
            assert(line[i] == a[i - id.len() - 1]);
            assert(a.contains(line[i]));
        } else if i > id.len() + 1 + a.len() {
            assert(line[i] == b[i - id.len() - a.len() - 2]);
            assert(b.contains(line[i]));
        }
    }
    lemma_length_before(text, '\n', line.len() as int);
    assert(text.take(line.len() as int) =~= line);
    assert(text.skip(line.len() + 1int) =~= rest);
    assert(line.last() == b[b.len() - 1]);
    assert(is_digit(b[b.len() - 1]));
    assert(without_carriage_return(line) == line);
    assert(lines(text) == seq![line] + lines(rest));
    assert(lines(text).drop_first() =~= lines(rest));
    // Its fields are the name and the two numbers.
    lemma_split_first(id, a + seq![','] + b, ',');
    lemma_split_first(a, b, ',');
    lemma_split_last(b, ',');
    assert(line =~= id + seq![','] + (a + seq![','] + b));
    assert(split(line, ',') =~= seq![id, a, b]);
    law_number_of_decimal(step);
    law_number_of_decimal(lookahead_step);
}

} // verus!
