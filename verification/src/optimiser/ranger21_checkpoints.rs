//! What a checkpoint gives back to Ranger21.

use crate::optimiser::ranger21::{
    buffer_path, is_loaded, row_id, steps_path, steps_text, told, with_lines, with_slow, Ranger21,
    Ranger21Buffer, Ranger21Plan, Ranger21Records, Ranger21Steps,
};
use crate::optimiser::{CheckpointFileView, FileContentView, OptimiserState};
use crate::order::{in_order, lemma_sorted_names_agree, names};
use crate::parse::lines;
use crate::state_map::{has_id, ids};
use crate::steps::{
    all_readable, is_storable_id, lemma_step_line_read, read_line, step_lines, StepLine,
};
use vstd::prelude::*;

verus! {

/// What the step file of a checkpoint says of a state.
pub open spec fn line_of<F>(entry: (Seq<char>, Ranger21<F>)) -> StepLine {
    StepLine {
        id: entry.0,
        step: entry.1.step,
        lookahead_step: Some(entry.1.lookahead_step),
    }
}

/// A step file that was written can be read, and says of each state what was written.
pub proof fn law_step_file_reads_back<F>(saved: Seq<(Seq<char>, Ranger21<F>)>)
    requires
        forall|i: int| 0 <= i < saved.len() ==> is_storable_id((#[trigger] saved[i]).0),
    ensures
        all_readable(steps_text(saved), false),
        step_lines(steps_text(saved), false) == saved.map_values(
            |e: (Seq<char>, Ranger21<F>)| line_of(e),
        ),
    decreases saved.len(),
{
    let text = steps_text(saved);
    let all = lines(text);
    if saved.len() == 0 {
        assert(all.len() == 0);
    } else {
        let rest = saved.drop_first();
        let first = saved[0];
        assert forall|i: int| 0 <= i < rest.len() implies is_storable_id(
            (#[trigger] rest[i]).0,
        ) by {
            assert(rest[i] == saved[i + 1]);
        }
        law_step_file_reads_back(rest);
        lemma_step_line_read(
            first.0,
            first.1.step,
            first.1.lookahead_step,
            steps_text(rest),
        );
        let later = lines(steps_text(rest));
        assert(all.drop_first() == later);
        assert(step_lines(steps_text(rest), false).len() == rest.len());
        assert forall|i: int| 0 <= i < all.len() implies read_line(#[trigger] all[i], false) == Some(
            line_of(saved[i]),
        ) by {
            if i > 0 {
                assert(all[i] == later[i - 1]);
                assert(read_line(later[i - 1], false) is Some);
                assert(step_lines(steps_text(rest), false)[i - 1] == line_of(rest[i - 1]));
            }
        }
    }
    assert(step_lines(text, false) =~= saved.map_values(
        |e: (Seq<char>, Ranger21<F>)| line_of(e),
    ));
}

/// The lines of a step file change nothing but the two counts of a state.
pub proof fn law_lines_keep_the_rest<F>(map: Seq<(Seq<char>, Ranger21<F>)>, said: Seq<StepLine>)
    ensures
        with_lines(map, said).len() == map.len(),
        forall|i: int|
            0 <= i < map.len() ==> {
                &&& (#[trigger] with_lines(map, said)[i]).0 == map[i].0
                &&& with_lines(map, said)[i].1 == Ranger21 {
                    step: with_lines(map, said)[i].1.step,
                    lookahead_step: with_lines(map, said)[i].1.lookahead_step,
                    ..map[i].1
                }
            },
    decreases said.len(),
{
    if said.len() > 0 {
        law_lines_keep_the_rest(map, said.drop_last());
    }
}

/// Of several lines on one weight, the last one counts.
pub proof fn law_last_line_counts<F>(
    map: Seq<(Seq<char>, Ranger21<F>)>,
    said: Seq<StepLine>,
    i: int,
    k: int,
)
    requires
        0 <= i < map.len(),
        0 <= k < said.len(),
        said[k].id == map[i].0,
        said[k].lookahead_step is Some,
        forall|j: int| k < j < said.len() ==> (#[trigger] said[j]).id != map[i].0,
    ensures
        with_lines(map, said)[i] == (
            map[i].0,
            Ranger21 {
                step: said[k].step,
                lookahead_step: said[k].lookahead_step->0,
                ..map[i].1
            },
        ),
    decreases said.len(),
{
    let before = with_lines(map, said.drop_last());
    law_lines_keep_the_rest(map, said.drop_last());
    assert(before[i].0 == map[i].0);
    if k < said.len() - 1 {
        assert(said.last() == said[said.len() - 1]);
        law_last_line_counts(map, said.drop_last(), i, k);
    }
}

proof fn lemma_last_line_without_lookahead<F>(
    map: Seq<(Seq<char>, Ranger21<F>)>,
    said: Seq<StepLine>,
    i: int,
    k: int,
)
    requires
        0 <= i < map.len(),
        0 <= k < said.len(),
        said[k].id == map[i].0,
        forall|j: int| 0 <= j < said.len() ==> (#[trigger] said[j]).lookahead_step is None,
        forall|j: int| k < j < said.len() ==> (#[trigger] said[j]).id != map[i].0,
    ensures
        with_lines(map, said)[i] == (map[i].0, Ranger21 { step: said[k].step, ..map[i].1 }),
    decreases said.len(),
{
    let rest = said.drop_last();
    let before = with_lines(map, rest);
    assert(said.last() == said[said.len() - 1]);
    lemma_lookahead_stays(map, rest);
    assert(before[i].0 == map[i].0);
    if k < said.len() - 1 {
        lemma_last_line_without_lookahead(map, rest, i, k);
    }
}

proof fn lemma_lookahead_stays<F>(map: Seq<(Seq<char>, Ranger21<F>)>, said: Seq<StepLine>)
    requires
        forall|j: int| 0 <= j < said.len() ==> (#[trigger] said[j]).lookahead_step is None,
    ensures
        with_lines(map, said).len() == map.len(),
        forall|i: int|
            0 <= i < map.len() ==> {
                &&& (#[trigger] with_lines(map, said)[i]).0 == map[i].0
                &&& with_lines(map, said)[i].1 == Ranger21 {
                    step: with_lines(map, said)[i].1.step,
                    ..map[i].1
                }
            },
    decreases said.len(),
{
    if said.len() > 0 {
        assert(said.last() == said[said.len() - 1]);
        lemma_lookahead_stays(map, said.drop_last());
    }
}

/// Of several lines on one weight in a step file of the older form, the step of the last one
/// counts. The updates since the last merge stay as they were.
pub proof fn law_last_legacy_line_counts<F>(
    map: Seq<(Seq<char>, Ranger21<F>)>,
    text: Seq<char>,
    i: int,
    k: int,
)
    requires
        all_readable(text, true),
        0 <= i < map.len(),
        0 <= k < step_lines(text, true).len(),
        step_lines(text, true)[k].id == map[i].0,
        forall|j: int|
            k < j < step_lines(text, true).len() ==> (#[trigger] step_lines(text, true)[j]).id
                != map[i].0,
    ensures
        with_lines(map, step_lines(text, true))[i] == (
            map[i].0,
            Ranger21 { step: step_lines(text, true)[k].step, ..map[i].1 },
        ),
{
    let said = step_lines(text, true);
    assert forall|j: int| 0 <= j < said.len() implies (#[trigger] said[j]).lookahead_step is None by {
        assert(read_line(lines(text)[j], true) is Some);
    }
    lemma_last_line_without_lookahead(map, said, i, k);
}

/// A weight that no line of a step file names keeps its counts.
pub proof fn law_unnamed_state_stays<F>(
    map: Seq<(Seq<char>, Ranger21<F>)>,
    said: Seq<StepLine>,
    i: int,
)
    requires
        0 <= i < map.len(),
        forall|j: int| 0 <= j < said.len() ==> (#[trigger] said[j]).id != map[i].0,
    ensures
        with_lines(map, said)[i] == map[i],
    decreases said.len(),
{
    if said.len() > 0 {
        let before = with_lines(map, said.drop_last());
        law_lines_keep_the_rest(map, said.drop_last());
        assert(before[i].0 == map[i].0);
        assert(said.last() == said[said.len() - 1]);
        law_unnamed_state_stays(map, said.drop_last(), i);
    }
}

/// A weight that lines of a step file name, all of them alike, has the numbers of those lines.
pub proof fn law_agreeing_lines_count<F>(
    map: Seq<(Seq<char>, Ranger21<F>)>,
    said: Seq<StepLine>,
    i: int,
    line: StepLine,
)
    requires
        0 <= i < map.len(),
        said.contains(line),
        line.id == map[i].0,
        forall|j: int|
            0 <= j < said.len() && (#[trigger] said[j]).id == map[i].0 ==> said[j] == line,
    ensures
        with_lines(map, said)[i] == (map[i].0, told(map[i].1, line)),
    decreases said.len(),
{
    let rest = said.drop_last();
    law_lines_keep_the_rest(map, rest);
    assert(with_lines(map, rest)[i].0 == map[i].0);
    assert(said.last() == said[said.len() - 1]);
    if rest.contains(line) {
        law_agreeing_lines_count(map, rest, i, line);
    } else {
        assert forall|j: int| 0 <= j < rest.len() implies (#[trigger] rest[j]).id != map[i].0 by {
            assert(said[j] == rest[j]);
            if said[j].id == map[i].0 {
                assert(rest.contains(rest[j]));
            }
        }
        law_unnamed_state_stays(map, rest, i);
        let k = choose|k: int| 0 <= k < said.len() && said[k] == line;
        if k < said.len() - 1 {
            assert(rest[k] == line);
        }
    }
}

/// Whether the lines on each state that there is are alike.
pub open spec fn lines_agree<F>(map: Seq<(Seq<char>, Ranger21<F>)>, said: Seq<StepLine>) -> bool {
    forall|i: int, j: int|
        0 <= i < said.len() && 0 <= j < said.len() && (#[trigger] said[i]).id == (
        #[trigger] said[j]).id && has_id(map, said[i].id) ==> said[i] == said[j]
}

/// Whether two step files have the same lines, in whatever order.
pub open spec fn same_lines(a: Seq<StepLine>, b: Seq<StepLine>) -> bool {
    forall|line: StepLine|
        #![trigger a.contains(line)]
        #![trigger b.contains(line)]
        a.contains(line) <==> b.contains(line)
}

/// The order of the lines of a step file does not matter where no weight has two that differ.
pub proof fn law_line_order_does_not_matter<F>(
    map: Seq<(Seq<char>, Ranger21<F>)>,
    a: Seq<StepLine>,
    b: Seq<StepLine>,
)
    requires
        lines_agree(map, a),
        same_lines(a, b),
    ensures
        with_lines(map, a) == with_lines(map, b),
{
    law_lines_keep_the_rest(map, a);
    law_lines_keep_the_rest(map, b);
    assert forall|i: int| 0 <= i < map.len() implies with_lines(map, a)[i] == with_lines(
        map,
        b,
    )[i] by {
        if exists|k: int| 0 <= k < a.len() && (#[trigger] a[k]).id == map[i].0 {
            let k = choose|k: int| 0 <= k < a.len() && (#[trigger] a[k]).id == map[i].0;
            assert(has_id(map, map[i].0));
            assert(a.contains(a[k]));
            assert(b.contains(a[k]));
            assert forall|j: int| 0 <= j < b.len() && (#[trigger] b[j]).id == map[i].0 implies b[j]
                == a[k] by {
                assert(b.contains(b[j]));
                assert(a.contains(b[j]));
                let l = choose|l: int| 0 <= l < a.len() && a[l] == b[j];
                assert(a[l].id == a[k].id);
            }
            law_agreeing_lines_count(map, a, i, a[k]);
            law_agreeing_lines_count(map, b, i, a[k]);
        } else {
            assert forall|j: int| 0 <= j < b.len() implies (#[trigger] b[j]).id != map[i].0 by {
                assert(b.contains(b[j]));
                assert(a.contains(b[j]));
                let k = choose|k: int| 0 <= k < a.len() && a[k] == b[j];
                assert(a[k].id == b[j].id);
            }
            law_unnamed_state_stays(map, a, i);
            law_unnamed_state_stays(map, b, i);
        }
    }
    assert(with_lines(map, a) =~= with_lines(map, b));
}

/// Whether two lists hold the same names, each name once, in whatever order.
pub open spec fn same_names(a: Seq<Seq<char>>, b: Seq<Seq<char>>) -> bool {
    &&& a.no_duplicates()
    &&& b.no_duplicates()
    &&& forall|id: Seq<char>|
        #![trigger a.contains(id)]
        #![trigger b.contains(id)]
        a.contains(id) <==> b.contains(id)
}

/// Lists that hold the same names hold each equally often.
proof fn lemma_same_names_as_often(a: Seq<Seq<char>>, b: Seq<Seq<char>>)
    requires
        same_names(a, b),
    ensures
        a.to_multiset() == b.to_multiset(),
        a.len() == b.len(),
{
    broadcast use vstd::multiset::group_multiset_axioms;

    a.to_multiset_ensures();
    b.to_multiset_ensures();
    a.lemma_multiset_has_no_duplicates();
    b.lemma_multiset_has_no_duplicates();
    assert forall|id: Seq<char>| a.to_multiset().count(id) == b.to_multiset().count(id) by {
        assert(a.contains(id) <==> a.to_multiset().count(id) > 0);
        assert(b.contains(id) <==> b.to_multiset().count(id) > 0);
    }
    assert(a.to_multiset() =~= b.to_multiset());
}

/// The name that a buffer's file has in a row.
pub open spec fn name_in_row(
    records: Ranger21Records,
    plan: Ranger21Plan,
    buffer: Ranger21Buffer,
    row: int,
) -> Seq<char> {
    row_id(records.file(buffer), plan.order(buffer), row)
}

/// In a row that fits, each file has a record, and it has the name of the row.
proof fn lemma_row_names(
    known: Seq<Seq<char>>,
    records: Ranger21Records,
    plan: Ranger21Plan,
    buffer: Ranger21Buffer,
    row: int,
)
    requires
        plan.fits(known, records),
        0 <= row < plan.rows,
    ensures
        plan.order(buffer)[row] < records.file(buffer).len(),
        name_in_row(records, plan, buffer, row) == plan.id(records, row),
        known.contains(plan.id(records, row)),
{
    assert(plan.row_fits(known, records, row));
}

/// Two plans for the same records in another order have the same names in each row.
proof fn lemma_rows_agree(
    known: Seq<Seq<char>>,
    a: Ranger21Records,
    a_plan: Ranger21Plan,
    b: Ranger21Records,
    b_plan: Ranger21Plan,
    buffer: Ranger21Buffer,
    row: int,
)
    requires
        a_plan.fits(known, a),
        b_plan.fits(known, b),
        names(a.file(buffer)).to_multiset() == names(b.file(buffer)).to_multiset(),
        a.file(buffer).len() <= usize::MAX,
        0 <= row < a.file(buffer).len(),
    ensures
        name_in_row(a, a_plan, buffer, row) == name_in_row(b, b_plan, buffer, row),
{
    let x = names(a.file(buffer));
    let y = names(b.file(buffer));
    lemma_sorted_names_agree(x, a_plan.order(buffer), y, b_plan.order(buffer));
    assert(a_plan.order(buffer)[row] < x.len());
    assert(b_plan.order(buffer)[row] < y.len());
    assert(in_order(x, a_plan.order(buffer))[row] == in_order(y, b_plan.order(buffer))[row]);
}

/// Whether the buffer files of two checkpoints differ in the order of their records only.
pub open spec fn differ_in_order(a: Ranger21Records, b: Ranger21Records) -> bool {
    forall|buffer: Ranger21Buffer|
        #![trigger a.file(buffer)]
        a.file(buffer).len() <= usize::MAX && names(a.file(buffer)).to_multiset() == names(
            b.file(buffer),
        ).to_multiset()
}

/// Where the buffer files of two checkpoints differ in the order of their records only, the same
/// states get their buffers, and the same thing is wrong, if any.
pub proof fn law_record_order_does_not_matter(
    known: Seq<Seq<char>>,
    a: Ranger21Records,
    a_plan: Ranger21Plan,
    b: Ranger21Records,
    b_plan: Ranger21Plan,
)
    requires
        a_plan.fits(known, a),
        b_plan.fits(known, b),
        differ_in_order(a, b),
    ensures
        a_plan.rows == b_plan.rows,
        a_plan.failure == b_plan.failure,
        forall|row: int|
            0 <= row < a_plan.rows ==> #[trigger] a_plan.id(a, row) == b_plan.id(b, row),
{
    let m = Ranger21Buffer::Momentum;
    let n = Ranger21Buffer::NegMomentum;
    let v = Ranger21Buffer::Velocity;
    let s = Ranger21Buffer::Slow;
    lemma_sorted_names_agree(names(a.file(m)), a_plan.order(m), names(b.file(m)), b_plan.order(m));
    lemma_sorted_names_agree(names(a.file(n)), a_plan.order(n), names(b.file(n)), b_plan.order(n));
    lemma_sorted_names_agree(names(a.file(v)), a_plan.order(v), names(b.file(v)), b_plan.order(v));
    lemma_sorted_names_agree(names(a.file(s)), a_plan.order(s), names(b.file(s)), b_plan.order(s));
    assert forall|row: int|
        0 <= row < a.momentum@.len() && row < a.neg_momentum@.len() && row < a.velocity@.len()
            && row < a.slow@.len() implies #[trigger] a_plan.id(a, row) == b_plan.id(b, row)
        && a_plan.same_id(a, row) == b_plan.same_id(b, row) && a_plan.row_fits(known, a, row)
        == b_plan.row_fits(known, b, row) by {
        lemma_rows_agree(known, a, a_plan, b, b_plan, m, row);
        lemma_rows_agree(known, a, a_plan, b, b_plan, n, row);
        lemma_rows_agree(known, a, a_plan, b, b_plan, v, row);
        lemma_rows_agree(known, a, a_plan, b, b_plan, s, row);
    }
    let row = if a_plan.rows < b_plan.rows { a_plan.rows as int } else { b_plan.rows as int };
    assert(a_plan.id(a, row) == a_plan.id(a, row));
    if a_plan.rows < b_plan.rows {
        assert(b_plan.row_fits(known, b, row));
        assert(a_plan.row_fits(known, a, row));
    } else if b_plan.rows < a_plan.rows {
        assert(a_plan.row_fits(known, a, row));
        assert(b_plan.row_fits(known, b, row));
    }
}

/// Where the four buffer files of a checkpoint hold the same names as the states, in whatever
/// order, the plan leaves none out and has nothing to object to.
pub proof fn law_complete_files_fit(
    known: Seq<Seq<char>>,
    records: Ranger21Records,
    plan: Ranger21Plan,
)
    requires
        known.len() <= usize::MAX,
        plan.fits(known, records),
        forall|buffer: Ranger21Buffer| #[trigger]
            same_names(names(records.file(buffer)), known),
    ensures
        plan.failure is None,
        plan.rows == known.len(),
        forall|id: Seq<char>|
            known.contains(id) ==> #[trigger] is_loaded(records, plan, plan.rows as nat, id),
{
    let a = names(records.momentum@);
    let n = names(records.neg_momentum@);
    let v = names(records.velocity@);
    let s = names(records.slow@);
    assert(same_names(names(records.file(Ranger21Buffer::Momentum)), known));
    assert(same_names(names(records.file(Ranger21Buffer::NegMomentum)), known));
    assert(same_names(names(records.file(Ranger21Buffer::Velocity)), known));
    assert(same_names(names(records.file(Ranger21Buffer::Slow)), known));
    lemma_same_names_as_often(a, known);
    lemma_same_names_as_often(n, known);
    lemma_same_names_as_often(v, known);
    lemma_same_names_as_often(s, known);
    if plan.rows < known.len() {
        let row = plan.rows as int;
        lemma_sorted_names_agree(a, plan.momentum@, n, plan.neg_momentum@);
        lemma_sorted_names_agree(a, plan.momentum@, v, plan.velocity@);
        lemma_sorted_names_agree(a, plan.momentum@, s, plan.slow@);
        let name = in_order(a, plan.momentum@)[row];
        assert(in_order(n, plan.neg_momentum@)[row] == name);
        assert(in_order(v, plan.velocity@)[row] == name);
        assert(in_order(s, plan.slow@)[row] == name);
        assert(plan.momentum@[row] < a.len() && plan.neg_momentum@[row] < n.len());
        assert(plan.velocity@[row] < v.len() && plan.slow@[row] < s.len());
        assert(a[plan.momentum@[row] as int] == plan.id(records, row));
        assert(plan.same_id(records, row));
        assert(a.contains(plan.id(records, row)));
        assert(false);
    }
    assert forall|id: Seq<char>| known.contains(id) implies #[trigger] is_loaded(
        records,
        plan,
        plan.rows as nat,
        id,
    ) by {
        assert(a.contains(id));
        let p = choose|p: int| 0 <= p < a.len() && a[p] == id;
        assert(plan.momentum@.contains(p as usize));
        let row = choose|row: int|
            0 <= row < plan.momentum@.len() && plan.momentum@[row] == p as usize;
        assert(plan.id(records, row) == id);
    }
}

/// What the device holds, by the name of a state and the kind of buffer, once the first `loaded`
/// rows of a plan went there: each row puts its record of each file into the state of the row.
/// `values` are the contents of the records, as they stand in the file of a buffer.
pub open spec fn device_after<V>(
    device: spec_fn(Seq<char>, Ranger21Buffer) -> V,
    values: spec_fn(Ranger21Buffer) -> Seq<V>,
    records: Ranger21Records,
    plan: Ranger21Plan,
    loaded: nat,
) -> spec_fn(Seq<char>, Ranger21Buffer) -> V
    decreases loaded,
{
    if loaded == 0 {
        device
    } else {
        let before = device_after(device, values, records, plan, (loaded - 1) as nat);
        |id: Seq<char>, buffer: Ranger21Buffer|
            if id == plan.id(records, loaded - 1) {
                values(buffer)[plan.order(buffer)[loaded - 1] as int]
            } else {
                before(id, buffer)
            }
    }
}

/// Whether each record of the files holds what `contents` says of its name and buffer.
pub open spec fn hold_contents<V>(
    records: Ranger21Records,
    values: spec_fn(Ranger21Buffer) -> Seq<V>,
    contents: spec_fn(Seq<char>, Ranger21Buffer) -> V,
) -> bool {
    forall|buffer: Ranger21Buffer, i: int|
        0 <= i < records.file(buffer).len() ==> #[trigger] values(buffer)[i] == contents(
            records.file(buffer)[i]@,
            buffer,
        )
}

/// The rows of a plan put into each buffer of a state what the file of that buffer holds under
/// the name of that state, and leave the other states alone.
pub proof fn law_rows_carry_buffers<V>(
    known: Seq<Seq<char>>,
    records: Ranger21Records,
    plan: Ranger21Plan,
    values: spec_fn(Ranger21Buffer) -> Seq<V>,
    contents: spec_fn(Seq<char>, Ranger21Buffer) -> V,
    device: spec_fn(Seq<char>, Ranger21Buffer) -> V,
    loaded: nat,
    id: Seq<char>,
    buffer: Ranger21Buffer,
)
    requires
        plan.fits(known, records),
        hold_contents(records, values, contents),
        loaded <= plan.rows,
    ensures
        device_after(device, values, records, plan, loaded)(id, buffer) == if is_loaded(
            records,
            plan,
            loaded,
            id,
        ) {
            contents(id, buffer)
        } else {
            device(id, buffer)
        },
    decreases loaded,
{
    if loaded > 0 {
        let row = loaded - 1;
        let fewer = (loaded - 1) as nat;
        law_rows_carry_buffers(
            known,
            records,
            plan,
            values,
            contents,
            device,
            fewer,
            id,
            buffer,
        );
        lemma_row_names(known, records, plan, buffer, row);
        if id == plan.id(records, row) {
            assert(is_loaded(records, plan, loaded, id));
            let k = plan.order(buffer)[row] as int;
            assert(values(buffer)[k] == contents(records.file(buffer)[k]@, buffer));
        } else if is_loaded(records, plan, loaded, id) {
            let r = choose|r: int| 0 <= r < loaded && #[trigger] plan.id(records, r) == id;
            assert(r < fewer);
            assert(is_loaded(records, plan, fewer, id));
        } else if is_loaded(records, plan, fewer, id) {
            let r = choose|r: int| 0 <= r < fewer && #[trigger] plan.id(records, r) == id;
            assert(plan.id(records, r) == id);
        }
    }
}

/// Whether two checkpoints have the same step file; or the same step lines, in whatever order,
/// those on each state alike, in a file of the same form; or both no step file.
pub open spec fn same_steps<F>(
    map: Seq<(Seq<char>, Ranger21<F>)>,
    a: Ranger21Steps,
    b: Ranger21Steps,
) -> bool {
    match (a.chosen(), b.chosen()) {
        (Some(x), Some(y)) => x == y || (x.1 == y.1 && lines_agree(map, step_lines(x.0, x.1))
            && same_lines(step_lines(x.0, x.1), step_lines(y.0, y.1))),
        (None, None) => true,
        _ => false,
    }
}

/// Two checkpoints that differ in the order of their records only load alike, also where they
/// hold some of the states only: the states come out the same, and so does the device.
pub proof fn law_checkpoints_load_alike<F: Copy, V>(
    map: Seq<(Seq<char>, Ranger21<F>)>,
    a: Ranger21Records,
    a_plan: Ranger21Plan,
    a_steps: Ranger21Steps,
    a_values: spec_fn(Ranger21Buffer) -> Seq<V>,
    b: Ranger21Records,
    b_plan: Ranger21Plan,
    b_steps: Ranger21Steps,
    b_values: spec_fn(Ranger21Buffer) -> Seq<V>,
    contents: spec_fn(Seq<char>, Ranger21Buffer) -> V,
    device: spec_fn(Seq<char>, Ranger21Buffer) -> V,
)
    requires
        <Ranger21<F> as OptimiserState>::planned(ids(map), a, a_plan),
        <Ranger21<F> as OptimiserState>::planned(ids(map), b, b_plan),
        differ_in_order(a, b),
        hold_contents(a, a_values, contents),
        hold_contents(b, b_values, contents),
        same_steps(map, a_steps, b_steps),
    ensures
        a_plan.rows == b_plan.rows,
        a_plan.failure == b_plan.failure,
        <Ranger21<F> as OptimiserState>::with_steps(
            <Ranger21<F> as OptimiserState>::filled(map, a, a_plan, a_plan.rows as nat),
            a_steps,
        ) == <Ranger21<F> as OptimiserState>::with_steps(
            <Ranger21<F> as OptimiserState>::filled(map, b, b_plan, b_plan.rows as nat),
            b_steps,
        ),
        forall|id: Seq<char>, buffer: Ranger21Buffer|
            #![trigger device_after(device, a_values, a, a_plan, a_plan.rows as nat)(id, buffer)]
            device_after(device, a_values, a, a_plan, a_plan.rows as nat)(id, buffer)
                == device_after(device, b_values, b, b_plan, b_plan.rows as nat)(id, buffer),
{
    law_record_order_does_not_matter(ids(map), a, a_plan, b, b_plan);
    let rows = a_plan.rows as nat;
    assert forall|id: Seq<char>|
        #![trigger is_loaded(a, a_plan, rows, id)]
        #![trigger is_loaded(b, b_plan, rows, id)]
        is_loaded(a, a_plan, rows, id) == is_loaded(b, b_plan, rows, id) by {
        if is_loaded(a, a_plan, rows, id) {
            let r = choose|r: int| 0 <= r < rows && #[trigger] a_plan.id(a, r) == id;
            assert(b_plan.id(b, r) == id);
        }
        if is_loaded(b, b_plan, rows, id) {
            let r = choose|r: int| 0 <= r < rows && #[trigger] b_plan.id(b, r) == id;
            assert(a_plan.id(a, r) == id);
        }
    }
    let filled = with_slow(map, a, a_plan, rows);
    assert(filled =~= with_slow(map, b, b_plan, rows));
    match (a_steps.chosen(), b_steps.chosen()) {
        (Some(x), Some(y)) => {
            assert forall|id: Seq<char>| #[trigger] has_id(filled, id) implies has_id(map, id) by {
                let i = choose|i: int| 0 <= i < filled.len() && (#[trigger] filled[i]).0 == id;
                assert(map[i].0 == id);
            }
            if x != y {
                law_line_order_does_not_matter(
                    filled,
                    step_lines(x.0, x.1),
                    step_lines(y.0, y.1),
                );
            }
        },
        _ => {},
    }
    assert forall|id: Seq<char>, buffer: Ranger21Buffer|
        #![trigger device_after(device, a_values, a, a_plan, a_plan.rows as nat)(id, buffer)]
        device_after(device, a_values, a, a_plan, a_plan.rows as nat)(id, buffer) == device_after(
            device,
            b_values,
            b,
            b_plan,
            b_plan.rows as nat,
        )(id, buffer) by {
        law_rows_carry_buffers(
            ids(map),
            a,
            a_plan,
            a_values,
            contents,
            device,
            rows,
            id,
            buffer,
        );
        law_rows_carry_buffers(
            ids(map),
            b,
            b_plan,
            b_values,
            contents,
            device,
            rows,
            id,
            buffer,
        );
    }
}

/// Whether `file` holds a buffer of a checkpoint in the directory `path`, with a record for each
/// of these names, in whatever order.
pub open spec fn is_buffer_file(
    file: CheckpointFileView<Ranger21Buffer>,
    path: Seq<char>,
    buffer: Ranger21Buffer,
    found: Seq<Seq<char>>,
) -> bool {
    &&& file.path == buffer_path(path, buffer)
    &&& match file.content {
        FileContentView::Buffer { buffer: kind, ids } => kind == buffer && same_names(found, ids),
        FileContentView::Text(_) => false,
    }
}

/// Whether `file` is the step file of a checkpoint in the directory `path`, with this text.
pub open spec fn is_step_file(
    file: CheckpointFileView<Ranger21Buffer>,
    path: Seq<char>,
    text: Seq<char>,
) -> bool {
    &&& file.path == steps_path(path)
    &&& file.content == FileContentView::<Ranger21Buffer>::Text(text)
}

/// Whether the records and the step file were read from files that were written to the directory
/// `path`.
pub open spec fn are_read_from(
    records: Ranger21Records,
    steps: Ranger21Steps,
    path: Seq<char>,
    files: Seq<CheckpointFileView<Ranger21Buffer>>,
) -> bool {
    &&& forall|buffer: Ranger21Buffer|
        exists|k: int|
            0 <= k < files.len() && is_buffer_file(
                #[trigger] files[k],
                path,
                buffer,
                #[trigger] names(records.file(buffer)),
            )
    &&& steps.steps is Some
    &&& exists|k: int|
        0 <= k < files.len() && is_step_file(#[trigger] files[k], path, (steps.steps->0)@)
}

/// Loading a checkpoint gives back what was written. Let the files be those that were written for
/// the states `saved`, with their records in whatever order, and let each record hold the buffer
/// of the state that it names. Then the checkpoint can be loaded into states with the same
/// names, in whatever order; once the device has taken all rows, each state has the counts that
/// it was saved with and a slow copy, and each of its buffers holds what was saved. The
/// parameters are not part of a checkpoint.
pub proof fn law_checkpoint_round_trip<F: Copy, V>(
    saved: Seq<(Seq<char>, Ranger21<F>)>,
    contents: spec_fn(Seq<char>, Ranger21Buffer) -> V,
    path: Seq<char>,
    map: Seq<(Seq<char>, Ranger21<F>)>,
    device: spec_fn(Seq<char>, Ranger21Buffer) -> V,
    records: Ranger21Records,
    values: spec_fn(Ranger21Buffer) -> Seq<V>,
    steps: Ranger21Steps,
    plan: Ranger21Plan,
)
    requires
        map.len() <= usize::MAX,
        same_names(ids(map), ids(saved)),
        forall|i: int| 0 <= i < saved.len() ==> is_storable_id((#[trigger] saved[i]).0),
        are_read_from(
            records,
            steps,
            path,
            <Ranger21<F> as OptimiserState>::checkpoint(saved, path),
        ),
        hold_contents(records, values, contents),
        <Ranger21<F> as OptimiserState>::planned(ids(map), records, plan),
    ensures
        <Ranger21<F> as OptimiserState>::is_complete(plan),
        <Ranger21<F> as OptimiserState>::is_readable(steps),
        ({
            let after = <Ranger21<F> as OptimiserState>::with_steps(
                <Ranger21<F> as OptimiserState>::filled(map, records, plan, plan.rows as nat),
                steps,
            );
            &&& after.len() == map.len()
            &&& forall|i: int, j: int|
                #![trigger after[i], saved[j]]
                0 <= i < map.len() && 0 <= j < saved.len() && map[i].0 == saved[j].0 ==> after[i]
                    == (
                    saved[j].0,
                    Ranger21 {
                        size: map[i].1.size,
                        params: map[i].1.params,
                        step: saved[j].1.step,
                        lookahead_step: saved[j].1.lookahead_step,
                        slow_initialised: true,
                    },
                )
        }),
        forall|id: Seq<char>, buffer: Ranger21Buffer|
            #![trigger device_after(device, values, records, plan, plan.rows as nat)(id, buffer)]
            ids(map).contains(id) ==> device_after(
                device,
                values,
                records,
                plan,
                plan.rows as nat,
            )(id, buffer) == contents(id, buffer),
{
    let files = <Ranger21<F> as OptimiserState>::checkpoint(saved, path);
    let text = (steps.steps->0)@;
    assert(text == steps_text(saved)) by {
        let k = choose|k: int| 0 <= k < files.len() && is_step_file(#[trigger] files[k], path, text);
        assert(files[k].content is Text);
    }
    assert forall|buffer: Ranger21Buffer| #[trigger]
        same_names(names(records.file(buffer)), ids(map)) by {
        let found = names(records.file(buffer));
        let k = choose|k: int|
            0 <= k < files.len() && is_buffer_file(#[trigger] files[k], path, buffer, found);
        assert(files[k].content is Buffer);
        assert(same_names(found, ids(saved)));
    }
    law_complete_files_fit(ids(map), records, plan);
    law_step_file_reads_back(saved);
    let rows = plan.rows as nat;
    let filled = with_slow(map, records, plan, rows);
    let said = step_lines(text, false);
    let after = with_lines(filled, said);
    law_lines_keep_the_rest(filled, said);
    assert forall|i: int, j: int|
        #![trigger after[i], saved[j]]
        0 <= i < map.len() && 0 <= j < saved.len() && map[i].0 == saved[j].0 implies after[i] == (
        saved[j].0,
        Ranger21 {
            size: map[i].1.size,
            params: map[i].1.params,
            step: saved[j].1.step,
            lookahead_step: saved[j].1.lookahead_step,
            slow_initialised: true,
        },
    ) by {
        assert(ids(map)[i] == map[i].0);
        assert(ids(map).contains(map[i].0));
        assert(is_loaded(records, plan, rows, map[i].0));
        assert forall|l: int| 0 <= l < said.len() && (#[trigger] said[l]).id
            == filled[i].0 implies said[l] == said[j] by {
            assert(ids(saved)[l] == ids(saved)[j]);
        }
        assert(said.contains(said[j]));
        law_agreeing_lines_count(filled, said, i, said[j]);
    }
    assert forall|id: Seq<char>, buffer: Ranger21Buffer|
        #![trigger device_after(device, values, records, plan, plan.rows as nat)(id, buffer)]
        ids(map).contains(id) implies device_after(
        device,
        values,
        records,
        plan,
        plan.rows as nat,
    )(id, buffer) == contents(id, buffer) by {
        assert(is_loaded(records, plan, rows, id));
        law_rows_carry_buffers(
            ids(map),
            records,
            plan,
            values,
            contents,
            device,
            rows,
            id,
            buffer,
        );
    }
}

} // verus!
