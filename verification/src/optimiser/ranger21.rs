//! Ranger21: Adam with two momentum buffers that take turns, and a lookahead that pulls the
//! weights back towards a slow copy of them.

use crate::optimiser::{
    referred, CheckpointFile, CheckpointFileView, FileContent, FileContentView, MatrixShape,
    OptimiserState, StoredError,
};
use crate::order::{is_sorted_order, names, place_of, sorted_order};
use crate::parse::lines;
use crate::state_map::{ids, StateMap};
use crate::steps::{
    all_readable, append_step_line, first_unreadable, parse_steps, read_line, step_line,
    step_lines, StepFileError, StepLine, StepRecord,
};
use crate::text::joined;
use vstd::prelude::*;

verus! {

/// A fraction.
#[derive(Clone, Copy, Debug, PartialEq, Eq, Structural)]
pub struct Ratio {
    pub numerator: u32,
    pub denominator: u32,
}

/// What Ranger21 is tuned by, with numbers of the type `F`.
#[derive(Debug)]
pub struct Ranger21Params<F> {
    pub decay: F,
    pub beta1: F,
    pub beta2: F,
    pub eps: F,
    pub alpha: F,
    /// How many updates there are from one lookahead merge to the next.
    pub lookahead_mergetime: usize,
    pub clip: Option<(F, F)>,
}

impl<F: Copy> Copy for Ranger21Params<F> {

}

impl<F: Copy> Clone for Ranger21Params<F> {
    fn clone(&self) -> (params: Self)
        ensures
            params == *self,
    {
        *self
    }
}

impl Default for Ranger21Params<Ratio> {
    fn default() -> (params: Self)
        ensures
            params == (Ranger21Params {
                decay: Ratio { numerator: 0, denominator: 1 },
                beta1: Ratio { numerator: 9, denominator: 10 },
                beta2: Ratio { numerator: 999, denominator: 1_000 },
                eps: Ratio { numerator: 1, denominator: 10_000_000 },
                alpha: Ratio { numerator: 1, denominator: 2 },
                lookahead_mergetime: 5,
                clip: None,
            }),
    {
        Ranger21Params {
            decay: Ratio { numerator: 0, denominator: 1 },
            beta1: Ratio { numerator: 9, denominator: 10 },
            beta2: Ratio { numerator: 999, denominator: 1_000 },
            eps: Ratio { numerator: 1, denominator: 10_000_000 },
            alpha: Ratio { numerator: 1, denominator: 2 },
            lookahead_mergetime: 5,
            clip: None,
        }
    }
}

/// The buffers that a state has on the device.
#[derive(Clone, Copy, Debug, PartialEq, Eq, Structural)]
pub enum Ranger21Buffer {
    /// The momentum of the odd updates.
    Momentum,
    /// The momentum of the even updates.
    NegMomentum,
    Velocity,
    /// The slow copy of the weights.
    Slow,
}

/// The shapes that have to agree before an update.
#[derive(Clone, Copy, Debug, PartialEq, Eq, Structural)]
pub struct Ranger21Shapes {
    pub weights: MatrixShape,
    pub momentum: MatrixShape,
    pub neg_momentum: MatrixShape,
    pub velocity: MatrixShape,
}

impl Ranger21Shapes {
    /// No matrix is batched, and each has as many elements as the weights.
    pub open spec fn agree(self) -> bool {
        &&& self.weights.batch_size is None
        &&& self.momentum.batch_size is None
        &&& self.neg_momentum.batch_size is None
        &&& self.velocity.batch_size is None
        &&& self.momentum.size == self.weights.size
        &&& self.neg_momentum.size == self.weights.size
        &&& self.velocity.size == self.weights.size
    }

    /// Whether the shapes agree.
    pub fn check(&self) -> (ok: bool)
        ensures
            ok == self.agree(),
    {
        self.weights.batch_size.is_none() && self.momentum.batch_size.is_none()
            && self.neg_momentum.batch_size.is_none() && self.velocity.batch_size.is_none()
            && self.momentum.size == self.weights.size && self.neg_momentum.size
            == self.weights.size && self.velocity.size == self.weights.size
    }
}

/// What an update asks the device for.
#[derive(Clone, Copy, Debug, PartialEq, Eq, Structural)]
pub enum Ranger21Action {
    /// Copy the weights, before their first update, into the slow copy.
    SeedSlow,
    /// Do the Adam step with this number on the weights, with this momentum and the velocity.
    Adam { step: usize, momentum: Ranger21Buffer },
    /// Move the weights towards the slow copy.
    Blend,
    /// Copy the weights into the slow copy.
    StoreSlow,
    /// Nothing is left to do.
    Finished,
}

/// The state for one weight, apart from its buffers.
#[derive(Debug)]
pub struct Ranger21<F> {
    /// How many elements each buffer was made with.
    pub size: usize,
    pub params: Ranger21Params<F>,
    /// How many updates were started.
    pub step: usize,
    /// How many updates were done since the last lookahead merge.
    pub lookahead_step: usize,
    /// Whether the slow copy holds anything.
    pub slow_initialised: bool,
}

/// The momentum buffer that the update with this number uses.
pub open spec fn momentum_of(step: int) -> Ranger21Buffer {
    if step % 2 == 1 {
        Ranger21Buffer::Momentum
    } else {
        Ranger21Buffer::NegMomentum
    }
}

impl<F> Ranger21<F> {
    /// A state without any update.
    pub open spec fn fresh(size: usize, params: Ranger21Params<F>) -> Self {
        Ranger21 { size, params, step: 0, lookahead_step: 0, slow_initialised: false }
    }

    /// Counts one more update and asks for its Adam step.
    pub open spec fn stepped(self) -> (Self, Ranger21Action) {
        let step = (self.step + 1) as usize;
        (
            Ranger21 { step, ..self },
            Ranger21Action::Adam { step, momentum: momentum_of(step as int) },
        )
    }

    /// How an update starts: with the slow copy where there is none yet.
    pub open spec fn started(self) -> (Self, Ranger21Action) {
        if self.slow_initialised {
            self.stepped()
        } else {
            (self, Ranger21Action::SeedSlow)
        }
    }

    /// How an update goes on once a piece of work is done.
    pub open spec fn resumed(self, completed: Ranger21Action) -> (Self, Ranger21Action) {
        match completed {
            Ranger21Action::SeedSlow => Ranger21 { slow_initialised: true, ..self }.stepped(),
            Ranger21Action::Adam { .. } => {
                if self.lookahead_step + 1 >= self.params.lookahead_mergetime {
                    (Ranger21 { lookahead_step: 0, ..self }, Ranger21Action::Blend)
                } else {
                    (
                        Ranger21 { lookahead_step: (self.lookahead_step + 1) as usize, ..self },
                        Ranger21Action::Finished,
                    )
                }
            },
            Ranger21Action::Blend => (self, Ranger21Action::StoreSlow),
            Ranger21Action::StoreSlow => (self, Ranger21Action::Finished),
            Ranger21Action::Finished => (self, Ranger21Action::Finished),
        }
    }

    fn take_step(&mut self) -> (action: Ranger21Action)
        requires
            old(self).step < usize::MAX,
        ensures
            (*final(self), action) == old(self).stepped(),
    {
        self.step = self.step + 1;
        let momentum: Ranger21Buffer = if self.step % 2 == 1 {
            Ranger21Buffer::Momentum
        } else {
            Ranger21Buffer::NegMomentum
        };
        Ranger21Action::Adam { step: self.step, momentum }
    }
}

/// The names of the records in the buffer files of a checkpoint, as they stand there.
#[derive(Debug)]
pub struct Ranger21Records {
    pub momentum: Vec<String>,
    pub neg_momentum: Vec<String>,
    pub velocity: Vec<String>,
    pub slow: Vec<String>,
}

impl Ranger21Records {
    /// The names in the file of a buffer.
    pub open spec fn file(self, buffer: Ranger21Buffer) -> Seq<String> {
        match buffer {
            Ranger21Buffer::Momentum => self.momentum@,
            Ranger21Buffer::NegMomentum => self.neg_momentum@,
            Ranger21Buffer::Velocity => self.velocity@,
            Ranger21Buffer::Slow => self.slow@,
        }
    }
}

/// The step files of a checkpoint, as far as there are any.
#[derive(Debug)]
pub struct Ranger21Steps {
    pub steps: Option<String>,
    /// The step file of the older form. It counts only where there is no other.
    pub legacy_steps: Option<String>,
}

impl Ranger21Steps {
    /// The step file that counts, and whether it is of the older form.
    pub open spec fn chosen(self) -> Option<(Seq<char>, bool)> {
        match (self.steps, self.legacy_steps) {
            (Some(text), _) => Some((text@, false)),
            (None, Some(text)) => Some((text@, true)),
            (None, None) => None,
        }
    }
}

/// Which record of each file goes to which state: the records of a row belong together. The
/// state of a row is the one that the records name.
#[derive(Debug)]
pub struct Ranger21Plan {
    pub momentum: Vec<usize>,
    pub neg_momentum: Vec<usize>,
    pub velocity: Vec<usize>,
    pub slow: Vec<usize>,
    /// How many rows can be loaded.
    pub rows: usize,
    /// Why the row after them cannot, where there is one.
    pub failure: Option<StoredError>,
}

/// The name in a row of a file whose records are taken in the given order.
pub open spec fn row_id(file: Seq<String>, order: Seq<usize>, row: int) -> Seq<char> {
    file[order[row] as int]@
}

impl Ranger21Plan {
    /// The records of a buffer's file, in the order of the rows.
    pub open spec fn order(self, buffer: Ranger21Buffer) -> Seq<usize> {
        match buffer {
            Ranger21Buffer::Momentum => self.momentum@,
            Ranger21Buffer::NegMomentum => self.neg_momentum@,
            Ranger21Buffer::Velocity => self.velocity@,
            Ranger21Buffer::Slow => self.slow@,
        }
    }

    /// The record of a buffer's file that belongs to a row.
    pub fn record(&self, buffer: Ranger21Buffer, row: usize) -> (record: usize)
        requires
            row < self.order(buffer).len(),
        ensures
            record == self.order(buffer)[row as int],
    {
        match buffer {
            Ranger21Buffer::Momentum => self.momentum[row],
            Ranger21Buffer::NegMomentum => self.neg_momentum[row],
            Ranger21Buffer::Velocity => self.velocity[row],
            Ranger21Buffer::Slow => self.slow[row],
        }
    }

    /// The name that the momentum file has in a row.
    pub open spec fn id(self, records: Ranger21Records, row: int) -> Seq<char> {
        row_id(records.momentum@, self.momentum@, row)
    }

    /// The other files name the same weight as the momentum file.
    pub open spec fn same_id(self, records: Ranger21Records, row: int) -> bool {
        &&& row_id(records.neg_momentum@, self.neg_momentum@, row) == self.id(records, row)
        &&& row_id(records.velocity@, self.velocity@, row) == self.id(records, row)
        &&& row_id(records.slow@, self.slow@, row) == self.id(records, row)
    }

    /// The files name the same weight, and a state belongs to it.
    pub open spec fn row_fits(
        self,
        known: Seq<Seq<char>>,
        records: Ranger21Records,
        row: int,
    ) -> bool {
        self.same_id(records, row) && known.contains(self.id(records, row))
    }

    /// The weights of the files, sorted by name, go to the states row by row, up to the end of
    /// the shortest file, to a row where the files differ, or to one that no state belongs to.
    pub open spec fn fits(self, known: Seq<Seq<char>>, records: Ranger21Records) -> bool {
        &&& is_sorted_order(names(records.momentum@), self.momentum@)
        &&& is_sorted_order(names(records.neg_momentum@), self.neg_momentum@)
        &&& is_sorted_order(names(records.velocity@), self.velocity@)
        &&& is_sorted_order(names(records.slow@), self.slow@)
        &&& self.rows <= self.momentum@.len()
        &&& self.rows <= self.neg_momentum@.len()
        &&& self.rows <= self.velocity@.len()
        &&& self.rows <= self.slow@.len()
        &&& forall|row: int|
            0 <= row < self.rows ==> #[trigger] self.row_fits(known, records, row)
        &&& if self.rows == self.momentum@.len() || self.rows == self.neg_momentum@.len()
            || self.rows == self.velocity@.len() || self.rows == self.slow@.len() {
            self.failure is None
        } else if !self.same_id(records, self.rows as int) {
            self.failure == Some(StoredError::IdsDiffer { row: self.rows })
        } else {
            &&& !known.contains(self.id(records, self.rows as int))
            &&& self.failure == Some(StoredError::UnknownId { row: self.rows })
        }
    }
}

/// Whether one of the first `loaded` rows is for the state `id`.
pub open spec fn is_loaded(
    records: Ranger21Records,
    plan: Ranger21Plan,
    loaded: nat,
    id: Seq<char>,
) -> bool {
    exists|row: int| 0 <= row < loaded && #[trigger] plan.id(records, row) == id
}

/// The states once the first `loaded` rows are on the device: the states of these rows have a
/// slow copy.
pub open spec fn with_slow<F>(
    map: Seq<(Seq<char>, Ranger21<F>)>,
    records: Ranger21Records,
    plan: Ranger21Plan,
    loaded: nat,
) -> Seq<(Seq<char>, Ranger21<F>)> {
    map.map_values(
        |e: (Seq<char>, Ranger21<F>)|
            if is_loaded(records, plan, loaded, e.0) {
                (e.0, Ranger21 { slow_initialised: true, ..e.1 })
            } else {
                e
            },
    )
}

/// A state after a line of a step file that names it: it has the numbers of the line.
pub open spec fn told<F>(state: Ranger21<F>, line: StepLine) -> Ranger21<F> {
    Ranger21 {
        step: line.step,
        lookahead_step: match line.lookahead_step {
            Some(n) => n,
            None => state.lookahead_step,
        },
        ..state
    }
}

/// The states after a line of a step file.
pub open spec fn with_line<F>(
    map: Seq<(Seq<char>, Ranger21<F>)>,
    line: StepLine,
) -> Seq<(Seq<char>, Ranger21<F>)> {
    map.map_values(
        |e: (Seq<char>, Ranger21<F>)|
            if e.0 == line.id {
                (e.0, told(e.1, line))
            } else {
                e
            },
    )
}

/// The states after the lines of a step file, one after the other.
pub open spec fn with_lines<F>(
    map: Seq<(Seq<char>, Ranger21<F>)>,
    said: Seq<StepLine>,
) -> Seq<(Seq<char>, Ranger21<F>)>
    decreases said.len(),
{
    if said.len() == 0 {
        map
    } else {
        with_line(with_lines(map, said.drop_last()), said.last())
    }
}

/// The text of the step file of some states.
pub open spec fn steps_text<F>(map: Seq<(Seq<char>, Ranger21<F>)>) -> Seq<char>
    decreases map.len(),
{
    if map.len() == 0 {
        seq![]
    } else {
        step_line(map[0].0, map[0].1.step as nat, map[0].1.lookahead_step as nat) + steps_text(
            map.drop_first(),
        )
    }
}

/// Where a checkpoint has the contents of a buffer.
pub open spec fn buffer_path(path: Seq<char>, buffer: Ranger21Buffer) -> Seq<char> {
    match buffer {
        Ranger21Buffer::Momentum => path + "/momentum.bin"@,
        Ranger21Buffer::NegMomentum => path + "/neg_momentum.bin"@,
        Ranger21Buffer::Velocity => path + "/velocity.bin"@,
        Ranger21Buffer::Slow => path + "/slow.bin"@,
    }
}

/// Where a checkpoint has its step file.
pub open spec fn steps_path(path: Seq<char>) -> Seq<char> {
    path + "/step_ranger21.txt"@
}

/// Where a checkpoint has its step file of the older form.
pub open spec fn legacy_steps_path(path: Seq<char>) -> Seq<char> {
    path + "/step.txt"@
}

/// Where a checkpoint has the contents of a buffer.
pub fn buffer_file(path: &str, buffer: Ranger21Buffer) -> (file: String)
    ensures
        file@ == buffer_path(path@, buffer),
{
    match buffer {
        Ranger21Buffer::Momentum => joined(path, "/momentum.bin"),
        Ranger21Buffer::NegMomentum => joined(path, "/neg_momentum.bin"),
        Ranger21Buffer::Velocity => joined(path, "/velocity.bin"),
        Ranger21Buffer::Slow => joined(path, "/slow.bin"),
    }
}

/// Where a checkpoint has its step file.
pub fn steps_file(path: &str) -> (file: String)
    ensures
        file@ == steps_path(path@),
{
    joined(path, "/step_ranger21.txt")
}

/// Where a checkpoint has its step file of the older form.
pub fn legacy_steps_file(path: &str) -> (file: String)
    ensures
        file@ == legacy_steps_path(path@),
{
    joined(path, "/step.txt")
}

/// Takes over the numbers of a step file.
pub fn load_steps<F>(map: &mut StateMap<Ranger21<F>>, text: &str, legacy: bool)
    requires
        old(map).wf(),
        all_readable(text@, legacy),
    ensures
        final(map).wf(),
        ids(final(map)@) == ids(old(map)@),
        final(map)@ == with_lines(old(map)@, step_lines(text@, legacy)),
{
    match parse_steps(text, legacy) {
        Err(e) => {
            assert(read_line(lines(text@)[e.line as int], legacy) is None);
        },
        Ok(records) => {
            let ghost all = records@.map_values(|x: StepRecord| x@);
            let mut i: usize = 0;
            assert(all.take(0) =~= seq![]);
            while i < records.len()
                invariant
                    i <= records.len(),
                    all == records@.map_values(|x: StepRecord| x@),
                    map.wf(),
                    ids(map@) == ids(old(map)@),
                    map@ == with_lines(old(map)@, all.take(i as int)),
                decreases records.len() - i,
            {
                let record: &StepRecord = &records[i];
                let ghost before = map@;
                assert(all[i as int] == record@);
                assert(all.take(i + 1).drop_last() =~= all.take(i as int));
                match map.find(record.id.as_str()) {
                    None => {
                        assert(with_line(before, record@) =~= before);
                    },
                    Some(place) => {
                        let state: &mut Ranger21<F> = map.at_mut(place);
                        state.step = record.step;
                        match record.lookahead_step {
                            None => {},
                            Some(lookahead_step) => {
                                state.lookahead_step = lookahead_step;
                            },
                        }
                        assert(map@ =~= with_line(before, record@));
                        assert(ids(map@) =~= ids(before));
                    },
                }
                i = i + 1;
            }
            assert(all.take(all.len() as int) =~= all);
        },
    }
}

/// Takes over the numbers of a step file of the older form, where there is one.
pub fn load_legacy_step_file<F>(map: &mut StateMap<Ranger21<F>>, file: &Option<String>)
    requires
        old(map).wf(),
        file matches Some(text) ==> all_readable(text@, true),
    ensures
        final(map).wf(),
        ids(final(map)@) == ids(old(map)@),
        final(map)@ == match file {
            Some(text) => with_lines(old(map)@, step_lines(text@, true)),
            None => old(map)@,
        },
{
    match file {
        Some(text) => load_steps(map, text.as_str(), true),
        None => {},
    }
}

/// The file with one of the buffers of each state.
fn buffer_of_all<F>(map: &StateMap<&Ranger21<F>>, path: &str, buffer: Ranger21Buffer) -> (file:
    CheckpointFile<Ranger21Buffer>)
    ensures
        file@.path == buffer_path(path@, buffer),
        file@.content == (FileContentView::Buffer { buffer, ids: ids(map@) }),
{
    CheckpointFile {
        path: buffer_file(path, buffer),
        content: FileContent::Buffer { buffer, ids: map.ids() },
    }
}

impl<F: Copy> OptimiserState for Ranger21<F> {
    type Params = Ranger21Params<F>;

    type Buffer = Ranger21Buffer;

    type Shapes = Ranger21Shapes;

    type Action = Ranger21Action;

    type Records = Ranger21Records;

    type Plan = Ranger21Plan;

    type Steps = Ranger21Steps;

    open spec fn created(self, size: usize, params: Ranger21Params<F>) -> bool {
        self == Ranger21::fresh(size, params)
    }

    open spec fn buffers() -> Seq<Ranger21Buffer> {
        seq![
            Ranger21Buffer::Momentum,
            Ranger21Buffer::NegMomentum,
            Ranger21Buffer::Velocity,
            Ranger21Buffer::Slow,
        ]
    }

    open spec fn can_update(self, shapes: Ranger21Shapes) -> bool {
        &&& shapes.agree()
        &&& shapes.weights.size == self.size
        &&& self.step < usize::MAX
    }

    open spec fn starts_update(self, after: Self, action: Ranger21Action) -> bool {
        (after, action) == self.started()
    }

    open spec fn can_resume(self, completed: Ranger21Action) -> bool {
        &&& completed is SeedSlow ==> self.step < usize::MAX
        &&& completed is Adam ==> self.lookahead_step < usize::MAX
    }

    open spec fn resumes_update(
        self,
        completed: Ranger21Action,
        after: Self,
        action: Ranger21Action,
    ) -> bool {
        (after, action) == self.resumed(completed)
    }

    open spec fn cleared(self) -> Self {
        Ranger21 { step: 0, lookahead_step: 0, slow_initialised: false, ..self }
    }

    open spec fn takes_params(self, params: Ranger21Params<F>, after: Self) -> bool {
        after == (Ranger21 { params, ..self })
    }

    open spec fn checkpoint(
        map: Seq<(Seq<char>, Self)>,
        path: Seq<char>,
    ) -> Seq<CheckpointFileView<Ranger21Buffer>> {
        Self::buffers().map_values(
            |b: Ranger21Buffer|
                CheckpointFileView {
                    path: buffer_path(path, b),
                    content: FileContentView::Buffer { buffer: b, ids: ids(map) },
                },
        ).push(
            CheckpointFileView {
                path: steps_path(path),
                content: FileContentView::Text(steps_text(map)),
            },
        )
    }

    open spec fn planned(
        known: Seq<Seq<char>>,
        records: Ranger21Records,
        plan: Ranger21Plan,
    ) -> bool {
        plan.fits(known, records)
    }

    open spec fn planned_rows(plan: Ranger21Plan) -> nat {
        plan.rows as nat
    }

    open spec fn is_complete(plan: Ranger21Plan) -> bool {
        plan.failure is None
    }

    open spec fn is_readable(steps: Ranger21Steps) -> bool {
        steps.chosen() matches Some(file) ==> all_readable(file.0, file.1)
    }

    open spec fn has_flaw(
        plan: Ranger21Plan,
        steps: Ranger21Steps,
        error: StoredError,
    ) -> bool {
        match plan.failure {
            Some(failure) => error == failure,
            None => {
                &&& error matches StoredError::Steps(e)
                &&& steps.chosen() matches Some(file)
                &&& first_unreadable(file.0, file.1, e.line as int)
            },
        }
    }

    open spec fn filled(
        map: Seq<(Seq<char>, Self)>,
        records: Ranger21Records,
        plan: Ranger21Plan,
        loaded: nat,
    ) -> Seq<(Seq<char>, Self)> {
        with_slow(map, records, plan, loaded)
    }

    open spec fn with_steps(map: Seq<(Seq<char>, Self)>, steps: Ranger21Steps) -> Seq<
        (Seq<char>, Self),
    > {
        match steps.chosen() {
            Some(file) => with_lines(map, step_lines(file.0, file.1)),
            None => map,
        }
    }

    fn new<E>(size: usize, params: Ranger21Params<F>, allocated: Result<(), E>) -> (state: Result<
        Self,
        E,
    >) {
        match allocated {
            Err(e) => Err(e),
            Ok(_) => Ok(
                Ranger21 { size, params, step: 0, lookahead_step: 0, slow_initialised: false },
            ),
        }
    }

    fn update(&mut self, shapes: &Ranger21Shapes) -> (action: Ranger21Action) {
        if self.slow_initialised {
            self.take_step()
        } else {
            Ranger21Action::SeedSlow
        }
    }

    fn resume<E>(&mut self, completed: Ranger21Action, outcome: Result<(), E>) -> (next: Result<
        Ranger21Action,
        E,
    >) {
        match outcome {
            Err(e) => Err(e),
            Ok(_) => match completed {
                Ranger21Action::SeedSlow => {
                    self.slow_initialised = true;
                    Ok(self.take_step())
                },
                Ranger21Action::Adam { .. } => {
                    self.lookahead_step = self.lookahead_step + 1;
                    if self.lookahead_step >= self.params.lookahead_mergetime {
                        self.lookahead_step = 0;
                        Ok(Ranger21Action::Blend)
                    } else {
                        Ok(Ranger21Action::Finished)
                    }
                },
                Ranger21Action::Blend => Ok(Ranger21Action::StoreSlow),
                Ranger21Action::StoreSlow => Ok(Ranger21Action::Finished),
                Ranger21Action::Finished => Ok(Ranger21Action::Finished),
            },
        }
    }

    fn reset(&mut self) -> (buffers: Vec<Ranger21Buffer>) {
        self.step = 0;
        self.lookahead_step = 0;
        self.slow_initialised = false;
        let buffers: Vec<Ranger21Buffer> = vec![
            Ranger21Buffer::Momentum,
            Ranger21Buffer::NegMomentum,
            Ranger21Buffer::Velocity,
            Ranger21Buffer::Slow,
        ];
        assert(buffers@ =~= Self::buffers());
        buffers
    }

    fn set_params(&mut self, params: Ranger21Params<F>) {
        self.params = params;
    }

    fn write_to_checkpoint(map: &StateMap<&Self>, path: &str) -> (files: Vec<
        CheckpointFile<Ranger21Buffer>,
    >) {
        let mut text: String = String::new();
        let ghost all = referred(map@);
        let mut i: usize = 0;
        assert(all.skip(0) =~= all);
        assert(text@ + steps_text(all) =~= steps_text(all));
        while i < map.len()
            invariant
                all == referred(map@),
                i <= map@.len(),
                text@ + steps_text(all.skip(i as int)) == steps_text(all),
            decreases map@.len() - i,
        {
            let ghost before = text@;
            let state: &Self = *map.at(i);
            append_step_line(&mut text, map.id(i), state.step, state.lookahead_step);
            proof {
                let rest = all.skip(i as int);
                assert(rest[0] == all[i as int]);
                assert(rest.drop_first() =~= all.skip(i + 1));
                assert(text@ + steps_text(all.skip(i + 1)) =~= before + steps_text(rest));
            }
            i = i + 1;
        }
        assert(all.skip(i as int) =~= seq![]);
        assert(text@ =~= steps_text(all));
        let files: Vec<CheckpointFile<Ranger21Buffer>> = vec![
            buffer_of_all(map, path, Ranger21Buffer::Momentum),
            buffer_of_all(map, path, Ranger21Buffer::NegMomentum),
            buffer_of_all(map, path, Ranger21Buffer::Velocity),
            buffer_of_all(map, path, Ranger21Buffer::Slow),
            CheckpointFile { path: steps_file(path), content: FileContent::Text(text) },
        ];
        assert(ids(map@) =~= ids(all));
        assert(files@.map_values(|f: CheckpointFile<Ranger21Buffer>| f@) =~= Self::checkpoint(
            all,
            path@,
        ));
        files
    }

    fn plan_load(known: &Vec<String>, records: &Ranger21Records) -> (plan: Ranger21Plan) {
        let mut plan: Ranger21Plan = Ranger21Plan {
            momentum: sorted_order(&records.momentum),
            neg_momentum: sorted_order(&records.neg_momentum),
            velocity: sorted_order(&records.velocity),
            slow: sorted_order(&records.slow),
            rows: 0,
            failure: None,
        };
        let ghost known_names = names(known@);
        let mut rows: usize = 0;
        let mut failure: Option<StoredError> = None;
        while failure.is_none() && rows < plan.momentum.len() && rows < plan.neg_momentum.len()
            && rows < plan.velocity.len() && rows < plan.slow.len()
            invariant
                known_names == names(known@),
                is_sorted_order(names(records.momentum@), plan.momentum@),
                is_sorted_order(names(records.neg_momentum@), plan.neg_momentum@),
                is_sorted_order(names(records.velocity@), plan.velocity@),
                is_sorted_order(names(records.slow@), plan.slow@),
                rows <= plan.momentum@.len(),
                rows <= plan.neg_momentum@.len(),
                rows <= plan.velocity@.len(),
                rows <= plan.slow@.len(),
                forall|row: int| 0 <= row < rows ==> #[trigger] plan.row_fits(known_names, *records, row),
                failure is Some ==> {
                    &&& rows < plan.momentum@.len() && rows < plan.neg_momentum@.len()
                    &&& rows < plan.velocity@.len() && rows < plan.slow@.len()
                    &&& if plan.same_id(*records, rows as int) {
                        &&& !known_names.contains(plan.id(*records, rows as int))
                        &&& failure == Some(StoredError::UnknownId { row: rows })
                    } else {
                        failure == Some(StoredError::IdsDiffer { row: rows })
                    }
                },
            decreases plan.momentum.len() - rows + (if failure is None { 1int } else { 0int }),
        {
            let id: &String = &records.momentum[plan.momentum[rows]];
            let same: bool = *id == records.neg_momentum[plan.neg_momentum[rows]] && *id
                == records.velocity[plan.velocity[rows]] && *id == records.slow[plan.slow[rows]];
            assert(same == plan.same_id(*records, rows as int));
            if !same {
                failure = Some(StoredError::IdsDiffer { row: rows });
            } else {
                match place_of(known, id) {
                    None => {
                        failure = Some(StoredError::UnknownId { row: rows });
                    },
                    Some(_) => {
                        assert(plan.row_fits(known_names, *records, rows as int));
                        rows = rows + 1;
                    },
                }
            }
        }
        let ghost searched = plan;
        plan.rows = rows;
        plan.failure = failure;
        assert forall|row: int| 0 <= row < plan.rows implies #[trigger] plan.row_fits(
            known_names,
            *records,
            row,
        ) by {
            assert(searched.row_fits(known_names, *records, row));
        }
        plan
    }

    fn check_stored(plan: &Ranger21Plan, steps: &Ranger21Steps) -> (result: Result<
        (),
        StoredError,
    >) {
        match plan.failure {
            Some(failure) => {
                return Err(failure);
            },
            None => {},
        }
        let parsed: Result<Vec<StepRecord>, StepFileError> = match &steps.steps {
            Some(text) => parse_steps(text.as_str(), false),
            None => match &steps.legacy_steps {
                Some(text) => parse_steps(text.as_str(), true),
                None => {
                    return Ok(());
                },
            },
        };
        match parsed {
            Ok(_) => Ok(()),
            Err(e) => {
                proof {
                    let file = steps.chosen()->0;
                    assert(read_line(lines(file.0)[e.line as int], file.1) is None);
                }
                Err(StoredError::Steps(e))
            },
        }
    }

    fn load_from_checkpoint<E>(
        map: &mut StateMap<Self>,
        records: &Ranger21Records,
        plan: &Ranger21Plan,
        steps: &Ranger21Steps,
        loaded: usize,
        outcome: Result<(), E>,
    ) -> (result: Result<(), E>) {
        let mut row: usize = 0;
        assert(with_slow(map@, *records, *plan, 0) =~= map@);
        while row < loaded
            invariant
                row <= loaded <= plan.rows,
                plan.fits(ids(old(map)@), *records),
                map.wf(),
                ids(map@) == ids(old(map)@),
                map@ == with_slow(old(map)@, *records, *plan, row as nat),
            decreases loaded - row,
        {
            let ghost before = map@;
            assert(plan.row_fits(ids(old(map)@), *records, row as int));
            let id: &String = &records.momentum[plan.momentum[row]];
            assert(id@ == plan.id(*records, row as int));
            match map.find(id.as_str()) {
                None => {
                    assert(false) by {
                        let known = ids(before);
                        let i = choose|i: int| 0 <= i < known.len() && known[i] == id@;
                        assert(before[i].0 == id@);
                    }
                },
                Some(place) => {
                    let state: &mut Ranger21<F> = map.at_mut(place);
                    state.slow_initialised = true;
                    assert(ids(map@) =~= ids(before));
                    assert(map@ =~= with_slow(old(map)@, *records, *plan, (row + 1) as nat));
                },
            }
            row = row + 1;
        }
        if outcome.is_ok() {
            match &steps.steps {
                Some(text) => load_steps(map, text.as_str(), false),
                None => load_legacy_step_file(map, &steps.legacy_steps),
            }
        }
        outcome
    }
}

} // verus!
