//! What the lines of a step file say, in the current form and in the older one.

use crate::parse::{
    is_digit, law_number_of_decimal, lemma_decimal_value, lemma_split_first, lemma_split_last,
    lines, number, split,
};
use crate::steps::{
    all_readable, first_unreadable, is_storable_id, lemma_decimal_is_plain, read_line, step_line,
    step_lines, StepLine, StepRecord,
};
use crate::text::decimal;
use crate::text_laws::law_line_ends;
use vstd::prelude::*;

verus! {

/// The first field of a line is the name, the second the step. The current form needs the third
/// field, which is the count since the last merge; the older form has no use for it. Fields that
/// follow do not matter. A line says nothing where a field is missing or is no number.
pub proof fn law_line_fields(id: Seq<char>, a: Seq<char>, b: Seq<char>, more: Seq<char>)
    requires
        !id.contains(','),
        !a.contains(','),
        !b.contains(','),
    ensures
        read_line(id, true) is None,
        read_line(id, false) is None,
        read_line(id + seq![','] + a, false) is None,
        read_line(id + seq![','] + a, true) == match number(a) {
            Some(step) => Some(StepLine { id, step, lookahead_step: None }),
            None => None,
        },
        read_line(id + seq![','] + (a + seq![','] + more), true) == match number(a) {
            Some(step) => Some(StepLine { id, step, lookahead_step: None }),
            None => None,
        },
        read_line(id + seq![','] + (a + seq![','] + b), false) == match (number(a), number(b)) {
            (Some(step), Some(n)) => Some(StepLine { id, step, lookahead_step: Some(n) }),
            _ => None,
        },
        read_line(id + seq![','] + (a + seq![','] + (b + seq![','] + more)), false) == match (
            number(a),
            number(b),
        ) {
            (Some(step), Some(n)) => Some(StepLine { id, step, lookahead_step: Some(n) }),
            _ => None,
        },
{
    lemma_split_last(id, ',');
    lemma_split_last(a, ',');
    lemma_split_last(b, ',');
    lemma_split_first(id, a, ',');
    lemma_split_first(id, a + seq![','] + more, ',');
    lemma_split_first(a, more, ',');
    lemma_split_first(id, a + seq![','] + b, ',');
    lemma_split_first(a, b, ',');
    lemma_split_first(id, a + seq![','] + (b + seq![','] + more), ',');
    lemma_split_first(a, b + seq![','] + more, ',');
    lemma_split_first(b, more, ',');
    assert(split(id + seq![','] + a, ',') =~= seq![id, a]);
    assert(split(id + seq![','] + (a + seq![','] + b), ',') =~= seq![id, a, b]);
    let two = split(id + seq![','] + (a + seq![','] + more), ',');
    assert(two[0] == id && two[1] == a && two.len() >= 2);
    let three = split(id + seq![','] + (a + seq![','] + (b + seq![','] + more)), ',');
    assert(three[0] == id && three[1] == a && three[2] == b && three.len() >= 3);
}

/// A step file can be read where each of its lines can, and says what its lines say, in order.
pub proof fn law_file_says_what_its_lines_say(text: Seq<char>, legacy: bool)
    ensures
        all_readable(text, legacy) <==> forall|i: int|
            0 <= i < lines(text).len() ==> read_line(#[trigger] lines(text)[i], legacy) is Some,
        step_lines(text, legacy).len() == lines(text).len(),
        forall|i: int|
            0 <= i < lines(text).len() ==> #[trigger] step_lines(text, legacy)[i] == read_line(
                lines(text)[i],
                legacy,
            )->0,
{
}

/// A step file that cannot be read has one first line that cannot be read, and no file that can
/// be read has any.
pub proof fn law_first_unreadable_line(text: Seq<char>, legacy: bool, a: int, b: int)
    ensures
        first_unreadable(text, legacy, a) ==> {
            &&& 0 <= a < lines(text).len()
            &&& read_line(lines(text)[a], legacy) is None
            &&& !all_readable(text, legacy)
        },
        first_unreadable(text, legacy, a) && 0 <= b < a ==> read_line(lines(text)[b], legacy) is Some,
        first_unreadable(text, legacy, a) && first_unreadable(text, legacy, b) ==> a == b,
        !all_readable(text, legacy) ==> exists|k: int| first_unreadable(text, legacy, k),
{
    if !all_readable(text, legacy) {
        let k = choose|k: int|
            0 <= k < lines(text).len() && read_line(#[trigger] lines(text)[k], legacy) is None;
        lemma_first_unreadable_up_to(text, legacy, k);
    }
}

proof fn lemma_first_unreadable_up_to(text: Seq<char>, legacy: bool, k: int)
    requires
        0 <= k < lines(text).len(),
        read_line(lines(text)[k], legacy) is None,
    ensures
        exists|j: int| first_unreadable(text, legacy, j),
    decreases k,
{
    if forall|j: int| 0 <= j < k ==> read_line(#[trigger] lines(text)[j], legacy) is Some {
        assert(first_unreadable(text, legacy, k));
    } else {
        let j = choose|j: int|
            0 <= j < k && read_line(#[trigger] lines(text)[j], legacy) is None;
        lemma_first_unreadable_up_to(text, legacy, j);
    }
}

/// The line of a weight is its name and its two counts, with commas between and a line feed.
pub proof fn law_written_line(id: Seq<char>, step: nat, lookahead_step: nat)
    ensures
        step_line(id, step, lookahead_step) == id + seq![','] + decimal(step) + seq![',']
            + decimal(lookahead_step) + seq!['\n'],
        is_storable_id(id) <==> !id.contains(',') && !id.contains('\n'),
{
    reveal_strlit(",");
    reveal_strlit("\n");
    assert(","@ =~= seq![',']);
    assert("\n"@ =~= seq!['\n']);
}

/// A record is looked at as it is.
pub proof fn law_record_view(record: StepRecord)
    ensures
        record@.id == record.id@,
        record@.step == record.step,
        record@.lookahead_step == record.lookahead_step,
{
}

/// A file that starts with the line of a weight in the older form can be read where the rest can,
/// and says first that the weight has come to this step, and nothing of lookahead.
pub proof fn law_legacy_line_reads_back(id: Seq<char>, step: usize, rest: Seq<char>)
    requires
        !id.contains(','),
        !id.contains('\n'),
    ensures
        ({
            let text = id + seq![','] + decimal(step as nat) + seq!['\n'] + rest;
            &&& all_readable(text, true) == all_readable(rest, true)
            &&& step_lines(text, true) == seq![StepLine { id, step, lookahead_step: None }]
                + step_lines(rest, true)
        }),
{
    let a = decimal(step as nat);
    let line = id + seq![','] + a;
    let text = line + seq!['\n'] + rest;
    lemma_decimal_value(step as nat);
    lemma_decimal_is_plain(step as nat, ',');
    lemma_decimal_is_plain(step as nat, '\n');
    assert(!line.contains('\n')) by {
        if line.contains('\n') {
            let i = choose|i: int| 0 <= i < line.len() && line[i] == '\n';
            if i < id.len() {
                assert(id.contains(id[i]));
            } else if i > id.len() {
                assert(a.contains(a[i - id.len() - 1]));
            }
        }
    }
    assert(line.last() == a[a.len() - 1]);
    assert(is_digit(a[a.len() - 1]));
    law_line_ends(line, rest);
    law_line_fields(id, a, a, a);
    law_number_of_decimal(step);
    lemma_first_line(text, line, rest, true);
}

/// A file that starts with the line of a weight in the current form can be read where the rest
/// can, and says first that the weight has come to this step, and how long ago it merged.
pub proof fn law_line_reads_back(
    id: Seq<char>,
    step: usize,
    lookahead_step: usize,
    rest: Seq<char>,
)
    requires
        !id.contains(','),
        !id.contains('\n'),
    ensures
        ({
            let text = id + seq![','] + decimal(step as nat) + seq![','] + decimal(
                lookahead_step as nat,
            ) + seq!['\n'] + rest;
            &&& all_readable(text, false) == all_readable(rest, false)
            &&& step_lines(text, false) == seq![
                StepLine { id, step, lookahead_step: Some(lookahead_step) },
            ] + step_lines(rest, false)
        }),
{
    let a = decimal(step as nat);
    let b = decimal(lookahead_step as nat);
    let line = id + seq![','] + a + seq![','] + b;
    let text = line + seq!['\n'] + rest;
    lemma_decimal_value(lookahead_step as nat);
    lemma_decimal_is_plain(step as nat, ',');
    lemma_decimal_is_plain(step as nat, '\n');
    lemma_decimal_is_plain(lookahead_step as nat, ',');
    lemma_decimal_is_plain(lookahead_step as nat, '\n');
    assert(!line.contains('\n')) by {
        if line.contains('\n') {
            let i = choose|i: int| 0 <= i < line.len() && line[i] == '\n';
            if i < id.len() {
                assert(id.contains(id[i]));
            } else if id.len() < i < id.len() + 1 + a.len() {
                assert(a.contains(a[i - id.len() - 1]));
            } else if i > id.len() + 1 + a.len() {
                assert(b.contains(b[i - id.len() - a.len() - 2]));
            }
        }
    }
    assert(line.last() == b[b.len() - 1]);
    assert(is_digit(b[b.len() - 1]));
    law_line_ends(line, rest);
    law_line_fields(id, a, b, a);
    assert(line =~= id + seq![','] + (a + seq![','] + b));
    law_number_of_decimal(step);
    law_number_of_decimal(lookahead_step);
    lemma_first_line(text, line, rest, false);
}

proof fn lemma_first_line(text: Seq<char>, line: Seq<char>, rest: Seq<char>, legacy: bool)
    requires
        lines(text) == seq![line] + lines(rest),
        read_line(line, legacy) is Some,
    ensures
        all_readable(text, legacy) == all_readable(rest, legacy),
        step_lines(text, legacy) == seq![read_line(line, legacy)->0] + step_lines(rest, legacy),
{
    let all = lines(text);
    let later = lines(rest);
    assert forall|i: int| 0 <= i < later.len() implies all[i + 1] == #[trigger] later[i] by {}
    if all_readable(text, legacy) {
        assert forall|i: int| 0 <= i < later.len() implies read_line(
            #[trigger] later[i],
            legacy,
        ) is Some by {
            assert(read_line(all[i + 1], legacy) is Some);
        }
    }
    if all_readable(rest, legacy) {
        assert forall|i: int| 0 <= i < all.len() implies read_line(
            #[trigger] all[i],
            legacy,
        ) is Some by {
            if i > 0 {
                assert(all[i] == later[i - 1]);
            }
        }
    }
    assert(step_lines(text, legacy) =~= seq![read_line(line, legacy)->0] + step_lines(
        rest,
        legacy,
    ));
}

} // verus!
