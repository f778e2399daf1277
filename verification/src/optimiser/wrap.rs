//! An optimiser under parameters of another type.

use crate::optimiser::{
    referred, CheckpointFile, CheckpointFileView, OptimiserState, StoredError,
};
use crate::state_map::{ids, StateMap};
use std::marker::PhantomData;
use vstd::prelude::*;

verus! {

/// The state of the optimiser `O`, which takes its parameters from values of the type `P`.
pub struct WrapOptimiser<O, P> {
    pub optimiser: O,
    pub phantom_data: PhantomData<P>,
}

/// The states inside.
pub open spec fn inner_states<O, P>(map: Seq<(Seq<char>, WrapOptimiser<O, P>)>) -> Seq<
    (Seq<char>, O),
> {
    map.map_values(|e: (Seq<char>, WrapOptimiser<O, P>)| (e.0, e.1.optimiser))
}

/// The states `map`, each wrapped.
pub open spec fn wrapped_states<O, P>(map: Seq<(Seq<char>, O)>) -> Seq<
    (Seq<char>, WrapOptimiser<O, P>),
> {
    map.map_values(
        |e: (Seq<char>, O)| (e.0, WrapOptimiser { optimiser: e.1, phantom_data: PhantomData }),
    )
}

fn unwrap_states<O, P>(map: StateMap<WrapOptimiser<O, P>>) -> (inner: StateMap<O>)
    ensures
        inner@ == inner_states(map@),
{
    let entries: Vec<(String, WrapOptimiser<O, P>)> = map.into_entries();
    let mut inner: Vec<(String, O)> = Vec::new();
    for entry in it: entries
        invariant
            inner.len() == it.index(),
            it.seq() == entries@,
            forall|j: int|
                0 <= j < inner.len() ==> #[trigger] inner@[j] == (
                    entries@[j].0,
                    entries@[j].1.optimiser,
                ),
    {
        let (id, state) = entry;
        inner.push((id, state.optimiser));
    }
    let result: StateMap<O> = StateMap::from_entries(inner);
    assert(result@ =~= inner_states(map@));
    result
}

fn wrap_states<O, P>(map: StateMap<O>) -> (wrapped: StateMap<WrapOptimiser<O, P>>)
    ensures
        wrapped@ == wrapped_states::<O, P>(map@),
{
    let entries: Vec<(String, O)> = map.into_entries();
    let mut wrapped: Vec<(String, WrapOptimiser<O, P>)> = Vec::new();
    for entry in it: entries
        invariant
            wrapped.len() == it.index(),
            it.seq() == entries@,
            forall|j: int|
                0 <= j < wrapped.len() ==> #[trigger] wrapped@[j] == (
                    entries@[j].0,
                    WrapOptimiser::<O, P> { optimiser: entries@[j].1, phantom_data: PhantomData },
                ),
    {
        let (id, state) = entry;
        wrapped.push((id, WrapOptimiser { optimiser: state, phantom_data: PhantomData }));
    }
    let result: StateMap<WrapOptimiser<O, P>> = StateMap::from_entries(wrapped);
    assert(result@ =~= wrapped_states::<O, P>(map@));
    result
}

impl<O, P> OptimiserState for WrapOptimiser<O, P> where
    O: OptimiserState,
    P: Clone + Into<O::Params>,
 {
    type Params = P;

    type Buffer = O::Buffer;

    type Shapes = O::Shapes;

    type Action = O::Action;

    type Records = O::Records;

    type Plan = O::Plan;

    type Steps = O::Steps;

    open spec fn created(self, size: usize, params: P) -> bool {
        exists|inner: O::Params| #[trigger]
            call_ensures(<P as Into<O::Params>>::into, (params,), inner) && self.optimiser.created(
                size,
                inner,
            )
    }

    open spec fn buffers() -> Seq<O::Buffer> {
        O::buffers()
    }

    open spec fn can_update(self, shapes: O::Shapes) -> bool {
        self.optimiser.can_update(shapes)
    }

    open spec fn starts_update(self, after: Self, action: O::Action) -> bool {
        self.optimiser.starts_update(after.optimiser, action)
    }

    open spec fn can_resume(self, completed: O::Action) -> bool {
        self.optimiser.can_resume(completed)
    }

    open spec fn resumes_update(
        self,
        completed: O::Action,
        after: Self,
        action: O::Action,
    ) -> bool {
        self.optimiser.resumes_update(completed, after.optimiser, action)
    }

    open spec fn cleared(self) -> Self {
        WrapOptimiser { optimiser: self.optimiser.cleared(), ..self }
    }

    open spec fn takes_params(self, params: P, after: Self) -> bool {
        exists|inner: O::Params| #[trigger]
            call_ensures(<P as Into<O::Params>>::into, (params,), inner)
                && self.optimiser.takes_params(inner, after.optimiser)
    }

    open spec fn checkpoint(map: Seq<(Seq<char>, Self)>, path: Seq<char>) -> Seq<
        CheckpointFileView<O::Buffer>,
    > {
        O::checkpoint(inner_states(map), path)
    }

    open spec fn planned(known: Seq<Seq<char>>, records: O::Records, plan: O::Plan) -> bool {
        O::planned(known, records, plan)
    }

    open spec fn planned_rows(plan: O::Plan) -> nat {
        O::planned_rows(plan)
    }

    open spec fn is_complete(plan: O::Plan) -> bool {
        O::is_complete(plan)
    }

    open spec fn is_readable(steps: O::Steps) -> bool {
        O::is_readable(steps)
    }

    open spec fn has_flaw(plan: O::Plan, steps: O::Steps, error: StoredError) -> bool {
        O::has_flaw(plan, steps, error)
    }

    open spec fn filled(
        map: Seq<(Seq<char>, Self)>,
        records: O::Records,
        plan: O::Plan,
        loaded: nat,
    ) -> Seq<(Seq<char>, Self)> {
        wrapped_states(O::filled(inner_states(map), records, plan, loaded))
    }

    open spec fn with_steps(map: Seq<(Seq<char>, Self)>, steps: O::Steps) -> Seq<
        (Seq<char>, Self),
    > {
        wrapped_states(O::with_steps(inner_states(map), steps))
    }

    fn new<E>(size: usize, params: P, allocated: Result<(), E>) -> (state: Result<Self, E>) {
        let inner: O::Params = params.into();
        match O::new(size, inner, allocated) {
            Err(e) => Err(e),
            Ok(optimiser) => Ok(WrapOptimiser { optimiser, phantom_data: PhantomData }),
        }
    }

    fn update(&mut self, shapes: &O::Shapes) -> (action: O::Action) {
        self.optimiser.update(shapes)
    }

    fn resume<E>(&mut self, completed: O::Action, outcome: Result<(), E>) -> (next: Result<
        O::Action,
        E,
    >) {
        self.optimiser.resume(completed, outcome)
    }

    fn reset(&mut self) -> (buffers: Vec<O::Buffer>) {
        self.optimiser.reset()
    }

    fn set_params(&mut self, params: P) {
        let inner: O::Params = params.into();
        self.optimiser.set_params(inner);
    }

    fn write_to_checkpoint(map: &StateMap<&Self>, path: &str) -> (files: Vec<
        CheckpointFile<O::Buffer>,
    >) {
        let mut entries: Vec<(String, &O)> = Vec::new();
        let mut i: usize = 0;
        while i < map.len()
            invariant
                i <= map@.len(),
                entries.len() == i,
                forall|j: int|
                    0 <= j < i ==> (#[trigger] entries@[j]).0@ == map@[j].0 && entries@[j].1
                        == &map@[j].1.optimiser,
            decreases map@.len() - i,
        {
            let state: &Self = *map.at(i);
            entries.push((map.id(i).to_owned(), &state.optimiser));
            i = i + 1;
        }
        let inner: StateMap<&O> = StateMap::from_entries(entries);
        assert(referred(inner@) =~= inner_states(referred(map@)));
        O::write_to_checkpoint(&inner, path)
    }

    fn plan_load(known: &Vec<String>, records: &O::Records) -> (plan: O::Plan) {
        O::plan_load(known, records)
    }

    fn check_stored(plan: &O::Plan, steps: &O::Steps) -> (result: Result<(), StoredError>) {
        O::check_stored(plan, steps)
    }

    fn load_from_checkpoint<E>(
        map: &mut StateMap<Self>,
        records: &O::Records,
        plan: &O::Plan,
        steps: &O::Steps,
        loaded: usize,
        outcome: Result<(), E>,
    ) -> (result: Result<(), E>) {
        let mut taken: StateMap<Self> = StateMap::new();
        std::mem::swap(map, &mut taken);
        let mut inner: StateMap<O> = unwrap_states(taken);
        assert(ids(inner@) =~= ids(old(map)@));
        let result: Result<(), E> = O::load_from_checkpoint(
            &mut inner,
            records,
            plan,
            steps,
            loaded,
            outcome,
        );
        let ghost loaded_states = inner@;
        *map = wrap_states(inner);
        assert(ids(map@) =~= ids(loaded_states));
        proof {
            let filled = O::filled(inner_states(old(map)@), *records, *plan, loaded as nat);
            assert(inner_states(wrapped_states::<O, P>(filled)) =~= filled);
        }
        result
    }
}

} // verus!
