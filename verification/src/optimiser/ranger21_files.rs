//! Which files a Ranger21 checkpoint has, what they hold, and what each does to the states.

use crate::optimiser::ranger21::{
    buffer_path, legacy_steps_path, steps_path, steps_text, told, with_lines, Ranger21,
    Ranger21Buffer, Ranger21Plan, Ranger21Records, Ranger21Steps,
};
use crate::optimiser::ranger21_checkpoints::{
    law_agreeing_lines_count, law_lines_keep_the_rest, law_unnamed_state_stays,
};
use crate::optimiser::{FileContentView, OptimiserState, StoredError};
use crate::order::{is_sorted_order, names};
use crate::state_map::ids;
use crate::steps::{all_readable, first_unreadable, step_lines, StepLine};
use crate::steps_laws::{law_legacy_line_reads_back, law_line_reads_back};
use crate::text::decimal;
use vstd::prelude::*;

verus! {

/// The files of a checkpoint stand in its directory.
pub proof fn law_checkpoint_paths(path: Seq<char>)
    ensures
        buffer_path(path, Ranger21Buffer::Momentum) == path + "/momentum.bin"@,
        buffer_path(path, Ranger21Buffer::NegMomentum) == path + "/neg_momentum.bin"@,
        buffer_path(path, Ranger21Buffer::Velocity) == path + "/velocity.bin"@,
        buffer_path(path, Ranger21Buffer::Slow) == path + "/slow.bin"@,
        steps_path(path) == path + "/step_ranger21.txt"@,
        legacy_steps_path(path) == path + "/step.txt"@,
{
}

/// A checkpoint has a file for each of the four buffers, with a record for each state, and then
/// the step file, in its directory.
pub proof fn law_checkpoint_files<F: Copy>(map: Seq<(Seq<char>, Ranger21<F>)>, path: Seq<char>)
    ensures
        ({
            let files = <Ranger21<F> as OptimiserState>::checkpoint(map, path);
            let listed = Seq::new(map.len(), |i: int| map[i].0);
            &&& files.len() == 5
            &&& files[0].path == path + "/momentum.bin"@
            &&& files[0].content == (FileContentView::Buffer {
                buffer: Ranger21Buffer::Momentum,
                ids: listed,
            })
            &&& files[1].path == path + "/neg_momentum.bin"@
            &&& files[1].content == (FileContentView::Buffer {
                buffer: Ranger21Buffer::NegMomentum,
                ids: listed,
            })
            &&& files[2].path == path + "/velocity.bin"@
            &&& files[2].content == (FileContentView::Buffer {
                buffer: Ranger21Buffer::Velocity,
                ids: listed,
            })
            &&& files[3].path == path + "/slow.bin"@
            &&& files[3].content == (FileContentView::Buffer {
                buffer: Ranger21Buffer::Slow,
                ids: listed,
            })
            &&& files[4].path == path + "/step_ranger21.txt"@
            &&& files[4].content == FileContentView::<Ranger21Buffer>::Text(steps_text(map))
        }),
{
    assert(ids(map) =~= Seq::new(map.len(), |i: int| map[i].0));
}

/// The step file has a line for each state, in order: its name, its step, and its count since the
/// last merge, with commas between and a line feed behind.
pub proof fn law_step_file_text<F>(
    map: Seq<(Seq<char>, Ranger21<F>)>,
    id: Seq<char>,
    state: Ranger21<F>,
)
    ensures
        steps_text(Seq::<(Seq<char>, Ranger21<F>)>::empty()).len() == 0,
        steps_text(map.push((id, state))) == steps_text(map) + (id + seq![','] + decimal(
            state.step as nat,
        ) + seq![','] + decimal(state.lookahead_step as nat) + seq!['\n']),
    decreases map.len(),
{
    reveal_strlit(",");
    reveal_strlit("\n");
    assert(","@ =~= seq![',']);
    assert("\n"@ =~= seq!['\n']);
    let longer = map.push((id, state));
    if map.len() == 0 {
        assert(longer.drop_first() =~= map);
        assert(steps_text(longer) =~= steps_text(map) + (id + seq![','] + decimal(
            state.step as nat,
        ) + seq![','] + decimal(state.lookahead_step as nat) + seq!['\n']));
    } else {
        law_step_file_text(map.drop_first(), id, state);
        assert(longer.drop_first() =~= map.drop_first().push((id, state)));
        assert(longer[0] == map[0]);
        assert(steps_text(longer) =~= steps_text(map) + (id + seq![','] + decimal(
            state.step as nat,
        ) + seq![','] + decimal(state.lookahead_step as nat) + seq!['\n']));
    }
}

/// A plan takes the records of each file in the order of their names. Row by row, all four
/// records have the same name, and there is a state with it. The rows go on to the end of the
/// shortest file, or else up to one where the names differ or no state has the name, and that is
/// then what is wrong.
pub proof fn law_plan<F: Copy>(
    known: Seq<Seq<char>>,
    records: Ranger21Records,
    plan: Ranger21Plan,
)
    ensures
        <Ranger21<F> as OptimiserState>::planned(known, records, plan) <==> {
            let m = |row: int| records.momentum@[plan.momentum@[row] as int]@;
            let n = |row: int| records.neg_momentum@[plan.neg_momentum@[row] as int]@;
            let v = |row: int| records.velocity@[plan.velocity@[row] as int]@;
            let s = |row: int| records.slow@[plan.slow@[row] as int]@;
            let end = plan.rows as int;
            &&& is_sorted_order(names(records.momentum@), plan.momentum@)
            &&& is_sorted_order(names(records.neg_momentum@), plan.neg_momentum@)
            &&& is_sorted_order(names(records.velocity@), plan.velocity@)
            &&& is_sorted_order(names(records.slow@), plan.slow@)
            &&& end <= records.momentum@.len()
            &&& end <= records.neg_momentum@.len()
            &&& end <= records.velocity@.len()
            &&& end <= records.slow@.len()
            &&& forall|row: int|
                0 <= row < end ==> #[trigger] m(row) == n(row) && m(row) == v(row) && m(row) == s(
                    row,
                ) && known.contains(m(row))
            &&& match plan.failure {
                None => end == records.momentum@.len() || end == records.neg_momentum@.len() || end
                    == records.velocity@.len() || end == records.slow@.len(),
                Some(failure) => {
                    &&& end < records.momentum@.len()
                    &&& end < records.neg_momentum@.len()
                    &&& end < records.velocity@.len()
                    &&& end < records.slow@.len()
                    &&& if m(end) == n(end) && m(end) == v(end) && m(end) == s(end) {
                        !known.contains(m(end)) && failure == (StoredError::UnknownId {
                            row: plan.rows,
                        })
                    } else {
                        failure == (StoredError::IdsDiffer { row: plan.rows })
                    }
                },
            }
        },
{
    let m = |row: int| records.momentum@[plan.momentum@[row] as int]@;
    let n = |row: int| records.neg_momentum@[plan.neg_momentum@[row] as int]@;
    let v = |row: int| records.velocity@[plan.velocity@[row] as int]@;
    let s = |row: int| records.slow@[plan.slow@[row] as int]@;
    assert forall|row: int|
        plan.row_fits(known, records, row) <==> #[trigger] m(row) == n(row) && m(row) == v(row)
            && m(row) == s(row) && known.contains(m(row)) by {}
    if plan.fits(known, records) {
        assert forall|row: int| 0 <= row < plan.rows implies #[trigger] m(row) == n(row) && m(row)
            == v(row) && m(row) == s(row) && known.contains(m(row)) by {
            assert(plan.row_fits(known, records, row));
        }
    }
    if forall|row: int|
        0 <= row < plan.rows ==> #[trigger] m(row) == n(row) && m(row) == v(row) && m(row) == s(
            row,
        ) && known.contains(m(row)) {
        assert forall|row: int| 0 <= row < plan.rows implies #[trigger] plan.row_fits(
            known,
            records,
            row,
        ) by {
            assert(m(row) == n(row));
        }
    }
}

/// Each buffer has its own file and its own order, and a row takes of each file the record that
/// its order lists there.
pub proof fn law_files_of_buffers(records: Ranger21Records, plan: Ranger21Plan)
    ensures
        records.file(Ranger21Buffer::Momentum) == records.momentum@,
        records.file(Ranger21Buffer::NegMomentum) == records.neg_momentum@,
        records.file(Ranger21Buffer::Velocity) == records.velocity@,
        records.file(Ranger21Buffer::Slow) == records.slow@,
        plan.order(Ranger21Buffer::Momentum) == plan.momentum@,
        plan.order(Ranger21Buffer::NegMomentum) == plan.neg_momentum@,
        plan.order(Ranger21Buffer::Velocity) == plan.velocity@,
        plan.order(Ranger21Buffer::Slow) == plan.slow@,
{
}

/// A plan can be carried out where nothing is wrong with it, and has as many rows as it says.
/// Step files can be read where the one that counts can: the current one, or else the older one.
pub proof fn law_what_can_be_loaded<F: Copy>(plan: Ranger21Plan, steps: Ranger21Steps)
    ensures
        <Ranger21<F> as OptimiserState>::is_complete(plan) <==> plan.failure is None,
        <Ranger21<F> as OptimiserState>::planned_rows(plan) == plan.rows,
        steps.steps is Some ==> (<Ranger21<F> as OptimiserState>::is_readable(steps)
            <==> all_readable((steps.steps->0)@, false)),
        steps.steps is None && steps.legacy_steps is Some ==> (<Ranger21<
            F,
        > as OptimiserState>::is_readable(steps) <==> all_readable((steps.legacy_steps->0)@, true)),
        steps.steps is None && steps.legacy_steps is None ==> <Ranger21<
            F,
        > as OptimiserState>::is_readable(steps),
{
}

/// What is wrong with a checkpoint is what is wrong with its plan; where that is nothing, it is
/// the first line that cannot be read of the step file that counts.
pub proof fn law_what_is_wrong<F: Copy>(
    plan: Ranger21Plan,
    steps: Ranger21Steps,
    error: StoredError,
)
    ensures
        plan.failure is Some ==> (<Ranger21<F> as OptimiserState>::has_flaw(plan, steps, error)
            <==> error == plan.failure->0),
        plan.failure is None && <Ranger21<F> as OptimiserState>::has_flaw(plan, steps, error) ==> {
            &&& error is Steps
            &&& steps.steps is Some || steps.legacy_steps is Some
            &&& steps.steps is Some ==> first_unreadable(
                (steps.steps->0)@,
                false,
                error->Steps_0.line as int,
            )
            &&& steps.steps is None ==> first_unreadable(
                (steps.legacy_steps->0)@,
                true,
                error->Steps_0.line as int,
            )
        },
{
}

/// The buffers of a row make the slow copy of the state that the row names, and of no other, and
/// change nothing else.
pub proof fn law_filled_states<F: Copy>(
    map: Seq<(Seq<char>, Ranger21<F>)>,
    records: Ranger21Records,
    plan: Ranger21Plan,
    loaded: nat,
    i: int,
)
    requires
        0 <= i < map.len(),
    ensures
        ({
            let filled = <Ranger21<F> as OptimiserState>::filled(map, records, plan, loaded);
            &&& filled.len() == map.len()
            &&& filled[i].0 == map[i].0
            &&& filled[i].1.size == map[i].1.size
            &&& filled[i].1.params == map[i].1.params
            &&& filled[i].1.step == map[i].1.step
            &&& filled[i].1.lookahead_step == map[i].1.lookahead_step
            &&& filled[i].1.slow_initialised <==> map[i].1.slow_initialised || exists|row: int|
                0 <= row < loaded && records.momentum@[(#[trigger] plan.momentum@[row]) as int]@
                    == map[i].0
        }),
{
    let filled = <Ranger21<F> as OptimiserState>::filled(map, records, plan, loaded);
    if exists|row: int| 0 <= row < loaded && #[trigger] plan.id(records, row) == map[i].0 {
        let row = choose|row: int|
            0 <= row < loaded && #[trigger] plan.id(records, row) == map[i].0;
        assert(records.momentum@[plan.momentum@[row] as int]@ == map[i].0);
    }
    if exists|row: int|
        0 <= row < loaded && records.momentum@[(#[trigger] plan.momentum@[row]) as int]@
            == map[i].0 {
        let row = choose|row: int|
            0 <= row < loaded && records.momentum@[(#[trigger] plan.momentum@[row]) as int]@
                == map[i].0;
        assert(plan.id(records, row) == map[i].0);
    }
}

/// The current step file counts where there is one, the older one where there is no other, and
/// where there is none, the states stay as they are.
pub proof fn law_which_step_file_counts<F: Copy>(
    map: Seq<(Seq<char>, Ranger21<F>)>,
    steps: Ranger21Steps,
)
    ensures
        <Ranger21<F> as OptimiserState>::with_steps(map, steps) == match (
            steps.steps,
            steps.legacy_steps,
        ) {
            (Some(text), _) => with_lines(map, step_lines(text@, false)),
            (None, Some(text)) => with_lines(map, step_lines(text@, true)),
            (None, None) => map,
        },
{
}

/// One more line of a step file gives the state that it names its step, and the count since the
/// last merge where it has one, and changes nothing else.
pub proof fn law_one_more_line<F>(
    map: Seq<(Seq<char>, Ranger21<F>)>,
    said: Seq<StepLine>,
    line: StepLine,
    i: int,
)
    requires
        0 <= i < map.len(),
    ensures
        with_lines(map, Seq::<StepLine>::empty()) == map,
        with_lines(map, said.push(line)).len() == map.len(),
        ({
            let before = with_lines(map, said)[i];
            let after = with_lines(map, said.push(line))[i];
            &&& after.0 == before.0
            &&& before.0 != line.id ==> after == before
            &&& before.0 == line.id ==> {
                &&& after.1.size == before.1.size
                &&& after.1.params == before.1.params
                &&& after.1.slow_initialised == before.1.slow_initialised
                &&& after.1.step == line.step
                &&& after.1.lookahead_step == match line.lookahead_step {
                    Some(n) => n,
                    None => before.1.lookahead_step,
                }
            }
        }),
{
    law_lines_keep_the_rest(map, said);
    assert(said.push(line).drop_last() =~= said);
}

/// A checkpoint with an older step file of one line, a name and a number, gives the state of that
/// name this number as its step, whatever the number is, and leaves all other states alone.
pub proof fn law_legacy_step_is_loaded<F: Copy>(
    map: Seq<(Seq<char>, Ranger21<F>)>,
    steps: Ranger21Steps,
    id: Seq<char>,
    step: usize,
    i: int,
)
    requires
        !id.contains(','),
        !id.contains('\n'),
        0 <= i < map.len(),
        steps.steps is None,
        steps.legacy_steps is Some,
        (steps.legacy_steps->0)@ == id + seq![','] + decimal(step as nat) + seq!['\n'],
    ensures
        <Ranger21<F> as OptimiserState>::is_readable(steps),
        ({
            let after = <Ranger21<F> as OptimiserState>::with_steps(map, steps)[i];
            &&& after.0 == map[i].0
            &&& map[i].0 != id ==> after == map[i]
            &&& map[i].0 == id ==> after.1 == (Ranger21 { step, ..map[i].1 })
        }),
{
    let text = id + seq![','] + decimal(step as nat) + seq!['\n'];
    let nothing = Seq::<char>::empty();
    law_legacy_line_reads_back(id, step, nothing);
    assert(text + nothing =~= text);
    let line = StepLine { id, step, lookahead_step: None };
    lemma_one_line(map, text, true, line, i);
}

/// A checkpoint with a step file of one line, a name and two numbers, gives the state of that name
/// these numbers, whatever they are, and leaves all other states alone.
pub proof fn law_step_is_loaded<F: Copy>(
    map: Seq<(Seq<char>, Ranger21<F>)>,
    steps: Ranger21Steps,
    id: Seq<char>,
    step: usize,
    lookahead_step: usize,
    i: int,
)
    requires
        !id.contains(','),
        !id.contains('\n'),
        0 <= i < map.len(),
        steps.steps is Some,
        (steps.steps->0)@ == id + seq![','] + decimal(step as nat) + seq![','] + decimal(
            lookahead_step as nat,
        ) + seq!['\n'],
    ensures
        <Ranger21<F> as OptimiserState>::is_readable(steps),
        ({
            let after = <Ranger21<F> as OptimiserState>::with_steps(map, steps)[i];
            &&& after.0 == map[i].0
            &&& map[i].0 != id ==> after == map[i]
            &&& map[i].0 == id ==> after.1 == (Ranger21 { step, lookahead_step, ..map[i].1 })
        }),
{
    let text = id + seq![','] + decimal(step as nat) + seq![','] + decimal(lookahead_step as nat)
        + seq!['\n'];
    let nothing = Seq::<char>::empty();
    law_line_reads_back(id, step, lookahead_step, nothing);
    assert(text + nothing =~= text);
    let line = StepLine { id, step, lookahead_step: Some(lookahead_step) };
    lemma_one_line(map, text, false, line, i);
}

proof fn lemma_one_line<F>(
    map: Seq<(Seq<char>, Ranger21<F>)>,
    text: Seq<char>,
    legacy: bool,
    line: StepLine,
    i: int,
)
    requires
        0 <= i < map.len(),
        step_lines(text, legacy) == seq![line] + step_lines(Seq::<char>::empty(), legacy),
    ensures
        step_lines(text, legacy) == seq![line],
        line.id == map[i].0 ==> with_lines(map, step_lines(text, legacy))[i] == (
            map[i].0,
            told(map[i].1, line),
        ),
        line.id != map[i].0 ==> with_lines(map, step_lines(text, legacy))[i] == map[i],
{
    let said = step_lines(text, legacy);
    assert(said =~= seq![line]);
    assert(said[0] == line);
    if line.id == map[i].0 {
        law_agreeing_lines_count(map, said, i, line);
    } else {
        law_unnamed_state_stays(map, said, i);
    }
}

} // verus!
