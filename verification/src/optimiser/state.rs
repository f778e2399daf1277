//! The state that an optimiser keeps for one weight, and what it asks of the device.

use crate::order::names;
use crate::state_map::{ids, StateMap};
use crate::steps::StepFileError;
use vstd::prelude::*;

verus! {

/// How many elements a matrix has, and for how many inputs at once, if it is made for several.
#[derive(Clone, Copy, Debug, PartialEq, Eq, Structural)]
pub struct MatrixShape {
    pub size: usize,
    pub batch_size: Option<usize>,
}

/// What a file of a checkpoint holds: a text, or one of the buffers of each state. Such a file
/// has one record for each of `ids`, in this order: the name, and what is in that buffer of the
/// state with the name.
#[derive(Debug)]
pub enum FileContent<B> {
    Buffer { buffer: B, ids: Vec<String> },
    Text(String),
}

/// A file of a checkpoint.
#[derive(Debug)]
pub struct CheckpointFile<B> {
    pub path: String,
    pub content: FileContent<B>,
}

/// What a file of a checkpoint holds, with texts and names as their characters.
pub enum FileContentView<B> {
    Buffer { buffer: B, ids: Seq<Seq<char>> },
    Text(Seq<char>),
}

/// A file of a checkpoint, with its path as characters.
pub struct CheckpointFileView<B> {
    pub path: Seq<char>,
    pub content: FileContentView<B>,
}

impl<B> View for CheckpointFile<B> {
    type V = CheckpointFileView<B>;

    open spec fn view(&self) -> CheckpointFileView<B> {
        CheckpointFileView {
            path: self.path@,
            content: match self.content {
                FileContent::Buffer { buffer, ids } => FileContentView::Buffer {
                    buffer,
                    ids: names(ids@),
                },
                FileContent::Text(t) => FileContentView::Text(t@),
            },
        }
    }
}

/// What can be wrong with a checkpoint that was read.
#[derive(Clone, Copy, Debug, PartialEq, Eq, Structural)]
pub enum StoredError {
    /// The files do not name the same weight in this row.
    IdsDiffer { row: usize },
    /// The weight that the files name in this row has no state.
    UnknownId { row: usize },
    /// The step file cannot be read.
    Steps(StepFileError),
}

/// The states that `m` refers to.
pub open spec fn referred<S>(m: Seq<(Seq<char>, &S)>) -> Seq<(Seq<char>, S)> {
    m.map_values(|e: (Seq<char>, &S)| (e.0, *e.1))
}

/// The state that an optimiser keeps for one weight.
///
/// The state's buffers are on the device: `update` and `resume` say what is to be done with
/// them, `reset` which are to be filled with zeros.
pub trait OptimiserState: Sized {
    /// What the optimiser is tuned by.
    type Params: Clone;

    /// The kinds of buffer that a state has on the device.
    type Buffer;

    /// The shapes of the matrices that an update works on.
    type Shapes;

    /// A piece of work on the device, or that none is left.
    type Action;

    /// The names of the records in the buffer files of a checkpoint.
    type Records;

    /// How the records are handed out to the states.
    type Plan;

    /// The files of a checkpoint that say how far the states have come.
    type Steps;

    /// Whether `self` is a new state.
    spec fn created(self, size: usize, params: Self::Params) -> bool;

    /// The buffers of a state. Each has as many elements as the weight.
    spec fn buffers() -> Seq<Self::Buffer>;

    /// Whether an update can start.
    spec fn can_update(self, shapes: Self::Shapes) -> bool;

    /// Whether an update of `self` starts with `action` and leaves the state `after`.
    spec fn starts_update(self, after: Self, action: Self::Action) -> bool;

    /// Whether an update can go on once `completed` is done.
    spec fn can_resume(self, completed: Self::Action) -> bool;

    /// Whether an update goes on with `action` once `completed` is done, and leaves the state
    /// `after`.
    spec fn resumes_update(
        self,
        completed: Self::Action,
        after: Self,
        action: Self::Action,
    ) -> bool;

    /// `self` as it is after a reset.
    spec fn cleared(self) -> Self;

    /// Whether `after` is `self` with other parameters.
    spec fn takes_params(self, params: Self::Params, after: Self) -> bool;

    /// The files of a checkpoint, in the order in which they are written.
    spec fn checkpoint(
        map: Seq<(Seq<char>, Self)>,
        path: Seq<char>,
    ) -> Seq<CheckpointFileView<Self::Buffer>>;

    /// Whether `plan` is how the records go to states with these names.
    spec fn planned(known: Seq<Seq<char>>, records: Self::Records, plan: Self::Plan) -> bool;

    /// How many states get their buffers by the plan.
    spec fn planned_rows(plan: Self::Plan) -> nat;

    /// Whether the records are such that the plan could be made to its end.
    spec fn is_complete(plan: Self::Plan) -> bool;

    /// Whether the step files can be read.
    spec fn is_readable(steps: Self::Steps) -> bool;

    /// Whether `error` is what is wrong with a checkpoint.
    spec fn has_flaw(plan: Self::Plan, steps: Self::Steps, error: StoredError) -> bool;

    /// The states once the buffers of the first `loaded` rows of the plan are on the device.
    spec fn filled(
        map: Seq<(Seq<char>, Self)>,
        records: Self::Records,
        plan: Self::Plan,
        loaded: nat,
    ) -> Seq<(Seq<char>, Self)>;

    /// The states once they have come as far as the step files say.
    spec fn with_steps(map: Seq<(Seq<char>, Self)>, steps: Self::Steps) -> Seq<(Seq<char>, Self)>;

    /// A new state for a weight with `size` elements, or the device's error. `allocated` says
    /// whether the device has made its buffers, in order and up to the first failure, each with
    /// `size` zeros.
    fn new<E>(size: usize, params: Self::Params, allocated: Result<(), E>) -> (state: Result<
        Self,
        E,
    >)
        ensures
            match allocated {
                Ok(_) => state is Ok && state->Ok_0.created(size, params),
                Err(e) => state == Err::<Self, E>(e),
            },
    ;

    /// Starts an update.
    fn update(&mut self, shapes: &Self::Shapes) -> (action: Self::Action)
        requires
            old(self).can_update(*shapes),
        ensures
            old(self).starts_update(*final(self), action),
    ;

    /// Goes on with an update after `completed`, or ends it with the device's error.
    fn resume<E>(
        &mut self,
        completed: Self::Action,
        outcome: Result<(), E>,
    ) -> (next: Result<Self::Action, E>)
        requires
            outcome is Ok ==> old(self).can_resume(completed),
        ensures
            match outcome {
                Ok(_) => next is Ok && old(self).resumes_update(completed, *final(self), next->Ok_0),
                Err(e) => next == Err::<Self::Action, E>(e) && *final(self) == *old(self),
            },
    ;

    /// Forgets all updates. The buffers that come back are to be filled with zeros, in order and
    /// up to the first failure.
    fn reset(&mut self) -> (buffers: Vec<Self::Buffer>)
        ensures
            *final(self) == old(self).cleared(),
            buffers@ == Self::buffers(),
    ;

    /// Replaces the parameters.
    fn set_params(&mut self, params: Self::Params)
        ensures
            old(self).takes_params(params, *final(self)),
    ;

    /// The files of a checkpoint in the directory `path`. They are to be written in order and up
    /// to the first failure.
    fn write_to_checkpoint(map: &StateMap<&Self>, path: &str) -> (files: Vec<
        CheckpointFile<Self::Buffer>,
    >)
        ensures
            files@.map_values(|f: CheckpointFile<Self::Buffer>| f@) == Self::checkpoint(
                referred(map@),
                path@,
            ),
    ;

    /// How the records go to states with the names `known`.
    fn plan_load(known: &Vec<String>, records: &Self::Records) -> (plan: Self::Plan)
        ensures
            Self::planned(names(known@), *records, plan),
    ;

    /// Whether a checkpoint can be loaded, and what is wrong with it where it cannot.
    fn check_stored(plan: &Self::Plan, steps: &Self::Steps) -> (result: Result<(), StoredError>)
        ensures
            match result {
                Ok(_) => Self::is_complete(*plan) && Self::is_readable(*steps),
                Err(e) => !(Self::is_complete(*plan) && Self::is_readable(*steps))
                    && Self::has_flaw(*plan, *steps, e),
            },
    ;

    /// Loads what a checkpoint says of the states, once the buffers of the first `loaded` rows
    /// of the plan are on the device and the device has failed or done all rows. The step files
    /// count only where it has not failed.
    fn load_from_checkpoint<E>(
        map: &mut StateMap<Self>,
        records: &Self::Records,
        plan: &Self::Plan,
        steps: &Self::Steps,
        loaded: usize,
        outcome: Result<(), E>,
    ) -> (result: Result<(), E>)
        requires
            old(map).wf(),
            Self::planned(ids(old(map)@), *records, *plan),
            loaded <= Self::planned_rows(*plan),
            outcome is Ok ==> {
                &&& loaded == Self::planned_rows(*plan)
                &&& Self::is_complete(*plan)
                &&& Self::is_readable(*steps)
            },
        ensures
            final(map).wf(),
            ids(final(map)@) == ids(old(map)@),
            result == outcome,
            final(map)@ == match outcome {
                Ok(_) => Self::with_steps(
                    Self::filled(old(map)@, *records, *plan, loaded as nat),
                    *steps,
                ),
                Err(_) => Self::filled(old(map)@, *records, *plan, loaded as nat),
            },
    ;
}

} // verus!
