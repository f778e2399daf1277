//! A wrapped state does what the state inside does, call by call.

use crate::optimiser::ranger21::{
    Ranger21, Ranger21Buffer, Ranger21Params, Ranger21Plan, Ranger21Records, Ranger21Steps,
};
use crate::optimiser::ranger21_checkpoints::{
    are_read_from, device_after, hold_contents, law_checkpoint_round_trip, same_names,
};
use crate::optimiser::wrap::{inner_states, wrapped_states};
use crate::optimiser::{OptimiserState, StoredError, WrapOptimiser};
use crate::state_map::ids;
use vstd::prelude::*;

verus! {

/// The states inside of wrapped states have the same names, in the same order, and wrapping them
/// gives the wrapped states again.
pub proof fn law_states_inside<O, P>(map: Seq<(Seq<char>, WrapOptimiser<O, P>)>)
    ensures
        inner_states(map).len() == map.len(),
        forall|i: int|
            0 <= i < map.len() ==> (#[trigger] inner_states(map)[i]).0 == map[i].0 && inner_states(
                map,
            )[i].1 == map[i].1.optimiser,
        wrapped_states::<O, P>(inner_states(map)).len() == map.len(),
        forall|i: int|
            0 <= i < map.len() ==> (#[trigger] wrapped_states::<O, P>(inner_states(map))[i]).0
                == map[i].0 && wrapped_states::<O, P>(inner_states(map))[i].1.optimiser
                == map[i].1.optimiser,
{
}

/// A wrapped state is new where the state inside is, under parameters that the given ones were
/// turned into.
pub proof fn law_new_wrapped_state<O, P>(state: WrapOptimiser<O, P>, size: usize, params: P) where
    O: OptimiserState,
    P: Clone + Into<O::Params>,

    ensures
        state.created(size, params) <==> exists|inner: O::Params| #[trigger]
            call_ensures(<P as Into<O::Params>>::into, (params,), inner)
                && state.optimiser.created(size, inner),
{
}

/// New parameters of a wrapped state are those of the state inside, turned into its kind.
pub proof fn law_wrapped_parameters<O, P>(
    state: WrapOptimiser<O, P>,
    params: P,
    after: WrapOptimiser<O, P>,
) where O: OptimiserState, P: Clone + Into<O::Params>
    ensures
        state.takes_params(params, after) <==> exists|inner: O::Params| #[trigger]
            call_ensures(<P as Into<O::Params>>::into, (params,), inner)
                && state.optimiser.takes_params(inner, after.optimiser),
{
}

/// An update of a wrapped state can start and go on where one of the state inside can, and does
/// so with the same action; the state inside becomes what it becomes alone.
pub proof fn law_wrapped_calls<O, P>(
    state: WrapOptimiser<O, P>,
    shapes: O::Shapes,
    completed: O::Action,
    after: WrapOptimiser<O, P>,
    action: O::Action,
) where O: OptimiserState, P: Clone + Into<O::Params>
    ensures
        state.can_update(shapes) <==> state.optimiser.can_update(shapes),
        state.starts_update(after, action) <==> state.optimiser.starts_update(
            after.optimiser,
            action,
        ),
        state.can_resume(completed) <==> state.optimiser.can_resume(completed),
        state.resumes_update(completed, after, action) <==> state.optimiser.resumes_update(
            completed,
            after.optimiser,
            action,
        ),
{
}

/// A reset of a wrapped state resets the state inside, and asks for zeros in its buffers.
pub proof fn law_wrapped_reset<O, P>(state: WrapOptimiser<O, P>) where
    O: OptimiserState,
    P: Clone + Into<O::Params>,

    ensures
        state.cleared().optimiser == state.optimiser.cleared(),
        <WrapOptimiser<O, P> as OptimiserState>::buffers() == O::buffers(),
{
}

/// A checkpoint of wrapped states is the checkpoint of the states inside, in the same directory.
pub proof fn law_wrapped_checkpoint<O, P>(
    map: Seq<(Seq<char>, WrapOptimiser<O, P>)>,
    path: Seq<char>,
) where O: OptimiserState, P: Clone + Into<O::Params>
    ensures
        <WrapOptimiser<O, P> as OptimiserState>::checkpoint(map, path) == O::checkpoint(
            Seq::new(map.len(), |i: int| (map[i].0, map[i].1.optimiser)),
            path,
        ),
{
    assert(inner_states(map) =~= Seq::new(map.len(), |i: int| (map[i].0, map[i].1.optimiser)));
}

/// The plan for wrapped states is that for the states inside, and so is all that can be wrong.
pub proof fn law_wrapped_plan<O, P>(
    known: Seq<Seq<char>>,
    records: O::Records,
    plan: O::Plan,
    steps: O::Steps,
    error: StoredError,
) where O: OptimiserState, P: Clone + Into<O::Params>
    ensures
        <WrapOptimiser<O, P> as OptimiserState>::planned(known, records, plan) <==> O::planned(
            known,
            records,
            plan,
        ),
        <WrapOptimiser<O, P> as OptimiserState>::planned_rows(plan) == O::planned_rows(plan),
        <WrapOptimiser<O, P> as OptimiserState>::is_complete(plan) <==> O::is_complete(plan),
        <WrapOptimiser<O, P> as OptimiserState>::is_readable(steps) <==> O::is_readable(steps),
        <WrapOptimiser<O, P> as OptimiserState>::has_flaw(plan, steps, error) <==> O::has_flaw(
            plan,
            steps,
            error,
        ),
{
}

/// Loading gives the states inside of wrapped states what it gives them alone, under the same
/// names.
pub proof fn law_wrapped_load<O, P>(
    map: Seq<(Seq<char>, WrapOptimiser<O, P>)>,
    records: O::Records,
    plan: O::Plan,
    steps: O::Steps,
    loaded: nat,
) where O: OptimiserState, P: Clone + Into<O::Params>
    ensures
        ({
            let inside = Seq::new(map.len(), |i: int| (map[i].0, map[i].1.optimiser));
            let filled = <WrapOptimiser<O, P> as OptimiserState>::filled(
                map,
                records,
                plan,
                loaded,
            );
            let stepped = <WrapOptimiser<O, P> as OptimiserState>::with_steps(map, steps);
            &&& Seq::new(filled.len(), |i: int| (filled[i].0, filled[i].1.optimiser)) == O::filled(
                inside,
                records,
                plan,
                loaded,
            )
            &&& Seq::new(stepped.len(), |i: int| (stepped[i].0, stepped[i].1.optimiser))
                == O::with_steps(inside, steps)
        }),
{
    let inside = Seq::new(map.len(), |i: int| (map[i].0, map[i].1.optimiser));
    assert(inner_states(map) =~= inside);
    let filled = <WrapOptimiser<O, P> as OptimiserState>::filled(map, records, plan, loaded);
    let stepped = <WrapOptimiser<O, P> as OptimiserState>::with_steps(map, steps);
    assert(Seq::new(filled.len(), |i: int| (filled[i].0, filled[i].1.optimiser)) =~= O::filled(
        inside,
        records,
        plan,
        loaded,
    ));
    assert(Seq::new(stepped.len(), |i: int| (stepped[i].0, stepped[i].1.optimiser))
        =~= O::with_steps(inside, steps));
}

/// Loading a checkpoint of wrapped states from the directory that it was written to gives each
/// state inside back what was saved under its name: its counts, a slow copy, and its buffers.
pub proof fn law_wrapped_round_trip<F: Copy, P, V>(
    saved: Seq<(Seq<char>, WrapOptimiser<Ranger21<F>, P>)>,
    contents: spec_fn(Seq<char>, Ranger21Buffer) -> V,
    path: Seq<char>,
    map: Seq<(Seq<char>, WrapOptimiser<Ranger21<F>, P>)>,
    device: spec_fn(Seq<char>, Ranger21Buffer) -> V,
    records: Ranger21Records,
    values: spec_fn(Ranger21Buffer) -> Seq<V>,
    steps: Ranger21Steps,
    plan: Ranger21Plan,
) where P: Clone + Into<Ranger21Params<F>>
    requires
        map.len() <= usize::MAX,
        same_names(ids(map), ids(saved)),
        forall|i: int|
            0 <= i < saved.len() ==> !(#[trigger] saved[i]).0.contains(',') && !saved[i].0.contains(
                '\n',
            ),
        are_read_from(
            records,
            steps,
            path,
            <WrapOptimiser<Ranger21<F>, P> as OptimiserState>::checkpoint(saved, path),
        ),
        hold_contents(records, values, contents),
        <WrapOptimiser<Ranger21<F>, P> as OptimiserState>::planned(ids(map), records, plan),
    ensures
        <WrapOptimiser<Ranger21<F>, P> as OptimiserState>::is_complete(plan),
        <WrapOptimiser<Ranger21<F>, P> as OptimiserState>::is_readable(steps),
        ({
            let after = <WrapOptimiser<Ranger21<F>, P> as OptimiserState>::with_steps(
                <WrapOptimiser<Ranger21<F>, P> as OptimiserState>::filled(
                    map,
                    records,
                    plan,
                    plan.rows as nat,
                ),
                steps,
            );
            &&& after.len() == map.len()
            &&& forall|i: int, j: int|
                #![trigger after[i], saved[j]]
                0 <= i < map.len() && 0 <= j < saved.len() && map[i].0 == saved[j].0 ==> {
                    &&& after[i].0 == saved[j].0
                    &&& after[i].1.optimiser.size == map[i].1.optimiser.size
                    &&& after[i].1.optimiser.params == map[i].1.optimiser.params
                    &&& after[i].1.optimiser.step == saved[j].1.optimiser.step
                    &&& after[i].1.optimiser.lookahead_step == saved[j].1.optimiser.lookahead_step
                    &&& after[i].1.optimiser.slow_initialised
                }
        }),
        forall|id: Seq<char>, buffer: Ranger21Buffer|
            #![trigger device_after(device, values, records, plan, plan.rows as nat)(id, buffer)]
            ids(map).contains(id) ==> device_after(
                device,
                values,
                records,
                plan,
                plan.rows as nat,
            )(id, buffer) == contents(id, buffer),
{
    let inner = inner_states(map);
    let inner_saved = inner_states(saved);
    assert(ids(inner) =~= ids(map));
    assert(ids(inner_saved) =~= ids(saved));
    law_checkpoint_round_trip(
        inner_saved,
        contents,
        path,
        inner,
        device,
        records,
        values,
        steps,
        plan,
    );
    let filled = <Ranger21<F> as OptimiserState>::filled(inner, records, plan, plan.rows as nat);
    assert(inner_states(wrapped_states::<Ranger21<F>, P>(filled)) =~= filled);
    let after = <WrapOptimiser<Ranger21<F>, P> as OptimiserState>::with_steps(
        <WrapOptimiser<Ranger21<F>, P> as OptimiserState>::filled(
            map,
            records,
            plan,
            plan.rows as nat,
        ),
        steps,
    );
    let inner_after = <Ranger21<F> as OptimiserState>::with_steps(filled, steps);
    assert(after.len() == inner_after.len());
    assert forall|i: int, j: int|
        #![trigger after[i], saved[j]]
        0 <= i < map.len() && 0 <= j < saved.len() && map[i].0 == saved[j].0 implies {
        &&& after[i].0 == saved[j].0
        &&& after[i].1.optimiser.size == map[i].1.optimiser.size
        &&& after[i].1.optimiser.params == map[i].1.optimiser.params
        &&& after[i].1.optimiser.step == saved[j].1.optimiser.step
        &&& after[i].1.optimiser.lookahead_step == saved[j].1.optimiser.lookahead_step
        &&& after[i].1.optimiser.slow_initialised
    } by {
        assert(inner_after[i].0 == after[i].0 && inner_after[i].1 == after[i].1.optimiser);
        assert(inner_saved[j].0 == saved[j].0 && inner[i].0 == map[i].0);
    }
}

} // verus!
