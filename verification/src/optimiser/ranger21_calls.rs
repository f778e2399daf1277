//! What each call on a Ranger21 state does, in the numbers of the state.

use crate::optimiser::ranger21::{
    Ranger21, Ranger21Action, Ranger21Buffer, Ranger21Params, Ranger21Shapes,
};
use crate::optimiser::ranger21_laws::law_params_are_set;
use crate::optimiser::{created_with, occurrences, set_times, MatrixShape, OptimiserState};
use vstd::prelude::*;

verus! {

/// A new state has counted nothing and has no slow copy.
pub proof fn law_new_state<F: Copy>(
    state: Ranger21<F>,
    size: usize,
    params: Ranger21Params<F>,
)
    ensures
        state.created(size, params) <==> {
            &&& state.size == size
            &&& state.params == params
            &&& state.step == 0
            &&& state.lookahead_step == 0
            &&& !state.slow_initialised
        },
        created_with(params, size, state) ==> state.created(size, params),
{
}

/// A state can be updated with unbatched matrices of its own size, as long as the step can be
/// counted.
pub proof fn law_shapes_of_update<F: Copy>(state: Ranger21<F>, shapes: Ranger21Shapes)
    ensures
        state.can_update(shapes) <==> {
            let plain = MatrixShape { size: state.size, batch_size: None };
            &&& shapes.weights == plain
            &&& shapes.momentum == plain
            &&& shapes.neg_momentum == plain
            &&& shapes.velocity == plain
            &&& state.step < usize::MAX
        },
        shapes.agree() <==> {
            &&& shapes.weights.batch_size is None
            &&& shapes.momentum == shapes.weights
            &&& shapes.neg_momentum == shapes.weights
            &&& shapes.velocity == shapes.weights
        },
{
}

/// An update starts with the slow copy where there is none, and changes nothing yet. Else it
/// counts the step and asks for the Adam step with that count, with the first momentum buffer
/// where the count is odd and the second where it is even.
pub proof fn law_start_of_update<F: Copy>(
    state: Ranger21<F>,
    after: Ranger21<F>,
    action: Ranger21Action,
)
    requires
        state.step < usize::MAX,
    ensures
        !state.slow_initialised ==> (state.starts_update(after, action) <==> after == state
            && action is SeedSlow),
        state.slow_initialised ==> (state.starts_update(after, action) <==> {
            &&& after.size == state.size
            &&& after.params == state.params
            &&& after.step == state.step + 1
            &&& after.lookahead_step == state.lookahead_step
            &&& after.slow_initialised
            &&& action == (Ranger21Action::Adam {
                step: after.step,
                momentum: if after.step % 2 == 1 {
                    Ranger21Buffer::Momentum
                } else {
                    Ranger21Buffer::NegMomentum
                },
            })
        }),
{
}

/// Once the slow copy is seeded, it is there, and the Adam step follows as it does where it was
/// there from the start.
pub proof fn law_after_seeding<F: Copy>(
    state: Ranger21<F>,
    after: Ranger21<F>,
    action: Ranger21Action,
)
    requires
        state.step < usize::MAX,
    ensures
        state.can_resume(Ranger21Action::SeedSlow),
        state.resumes_update(Ranger21Action::SeedSlow, after, action) <==> {
            &&& after.size == state.size
            &&& after.params == state.params
            &&& after.step == state.step + 1
            &&& after.lookahead_step == state.lookahead_step
            &&& after.slow_initialised
            &&& action == (Ranger21Action::Adam {
                step: after.step,
                momentum: if after.step % 2 == 1 {
                    Ranger21Buffer::Momentum
                } else {
                    Ranger21Buffer::NegMomentum
                },
            })
        },
{
}

/// After an Adam step, one more update counts since the last merge. Where these are then as many
/// as the parameters ask for, or more, a merge begins and none are counted any more; else the
/// update is over. Neither the count of steps nor anything else has a say.
pub proof fn law_after_adam<F: Copy>(
    state: Ranger21<F>,
    step: usize,
    momentum: Ranger21Buffer,
    after: Ranger21<F>,
    action: Ranger21Action,
)
    requires
        state.lookahead_step < usize::MAX,
    ensures
        state.can_resume(Ranger21Action::Adam { step, momentum }),
        state.resumes_update(Ranger21Action::Adam { step, momentum }, after, action) <==> {
            &&& after.size == state.size
            &&& after.params == state.params
            &&& after.step == state.step
            &&& after.slow_initialised == state.slow_initialised
            &&& if state.lookahead_step + 1 >= state.params.lookahead_mergetime {
                after.lookahead_step == 0 && action is Blend
            } else {
                after.lookahead_step == state.lookahead_step + 1 && action is Finished
            }
        },
{
}

/// A merge moves the weights first and stores them then; after that nothing is left. The state
/// stays as it is.
pub proof fn law_after_merging<F: Copy>(
    state: Ranger21<F>,
    after: Ranger21<F>,
    action: Ranger21Action,
)
    ensures
        state.can_resume(Ranger21Action::Blend),
        state.can_resume(Ranger21Action::StoreSlow),
        state.can_resume(Ranger21Action::Finished),
        state.resumes_update(Ranger21Action::Blend, after, action) <==> after == state
            && action is StoreSlow,
        state.resumes_update(Ranger21Action::StoreSlow, after, action) <==> after == state
            && action is Finished,
        state.resumes_update(Ranger21Action::Finished, after, action) <==> after == state
            && action is Finished,
{
}

/// An update cannot go on where a count would not fit.
pub proof fn law_counts_have_to_fit<F: Copy>(
    state: Ranger21<F>,
    step: usize,
    momentum: Ranger21Buffer,
)
    ensures
        state.can_resume(Ranger21Action::SeedSlow) <==> state.step < usize::MAX,
        state.can_resume(Ranger21Action::Adam { step, momentum }) <==> state.lookahead_step
            < usize::MAX,
{
}

/// A reset forgets the counts and the slow copy, keeps the size and the parameters, and asks for
/// zeros in the four buffers.
pub proof fn law_reset<F: Copy>(state: Ranger21<F>)
    ensures
        state.cleared().size == state.size,
        state.cleared().params == state.params,
        state.cleared().step == 0,
        state.cleared().lookahead_step == 0,
        !state.cleared().slow_initialised,
        <Ranger21<F> as OptimiserState>::buffers().len() == 4,
        <Ranger21<F> as OptimiserState>::buffers()[0] is Momentum,
        <Ranger21<F> as OptimiserState>::buffers()[1] is NegMomentum,
        <Ranger21<F> as OptimiserState>::buffers()[2] is Velocity,
        <Ranger21<F> as OptimiserState>::buffers()[3] is Slow,
{
}

/// New parameters replace the old ones, and nothing else changes.
pub proof fn law_new_parameters<F: Copy>(
    state: Ranger21<F>,
    params: Ranger21Params<F>,
    after: Ranger21<F>,
)
    ensures
        state.takes_params(params, after) <==> {
            &&& after.params == params
            &&& after.size == state.size
            &&& after.step == state.step
            &&& after.lookahead_step == state.lookahead_step
            &&& after.slow_initialised == state.slow_initialised
        },
{
}

/// A name stands in a list as often as the list holds it.
pub proof fn law_occurrences(all: Seq<Seq<char>>, id: Seq<char>)
    ensures
        occurrences(all, id) == all.to_multiset().count(id),
        occurrences(all, id) > 0 <==> all.contains(id),
    decreases all.len(),
{
    broadcast use vstd::multiset::group_multiset_axioms;

    all.to_multiset_ensures();
    if all.len() > 0 {
        let rest = all.drop_last();
        law_occurrences(rest, id);
        rest.to_multiset_ensures();
        assert(rest.push(all.last()) =~= all);
        assert(all.to_multiset() =~= rest.to_multiset().insert(all.last()));
    }
}

/// Parameters that are set for a list of weights reach the weights of the list, and no other
/// weight changes.
pub proof fn law_parameters_reach_the_list<F: Copy>(
    all: Seq<Seq<char>>,
    id: Seq<char>,
    before: Ranger21<F>,
    params: Ranger21Params<F>,
    after: Ranger21<F>,
)
    requires
        set_times(before, params, after, occurrences(all, id)),
    ensures
        after.params == if all.contains(id) {
            params
        } else {
            before.params
        },
        after.size == before.size,
        after.step == before.step,
        after.lookahead_step == before.lookahead_step,
        after.slow_initialised == before.slow_initialised,
{
    law_occurrences(all, id);
    law_params_are_set(before, params, after, occurrences(all, id));
}

} // verus!
