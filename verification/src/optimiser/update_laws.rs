//! Updates of states as chains of calls: each call's state and action lead to the next.

use crate::optimiser::ranger21::{Ranger21, Ranger21Action, Ranger21Buffer, Ranger21Params};
use crate::optimiser::ranger21_laws::lemma_mod_step;
use crate::optimiser::{OptimiserState, WrapOptimiser};
use vstd::prelude::*;

verus! {

/// Whether the call after number `i` goes on from where call number `i` came to.
pub open spec fn goes_on<S: OptimiserState>(
    states: Seq<S>,
    actions: Seq<S::Action>,
    i: int,
) -> bool {
    states[i].resumes_update(actions[i], states[i + 1], actions[i + 1])
}

/// Whether `states` and `actions` are what the calls of an update of `before` come to, one after
/// the other, where the device does each piece of work.
pub open spec fn is_update<S: OptimiserState>(
    before: S,
    states: Seq<S>,
    actions: Seq<S::Action>,
) -> bool {
    &&& states.len() == actions.len()
    &&& states.len() > 0
    &&& before.starts_update(states[0], actions[0])
    &&& forall|i: int| 0 <= i < states.len() - 1 ==> #[trigger] goes_on(states, actions, i)
}

/// Whether an update of Ranger21 work takes `before` to `after`: the calls go on until nothing is
/// left to do.
pub open spec fn is_full_update<S: OptimiserState<Action = Ranger21Action>>(
    before: S,
    states: Seq<S>,
    actions: Seq<Ranger21Action>,
    after: S,
) -> bool {
    &&& is_update(before, states, actions)
    &&& forall|i: int| 0 <= i < actions.len() ==> (#[trigger] actions[i] is Finished <==> i
        == actions.len() - 1)
    &&& states.last() == after
}

/// An update counts one step more. It seeds the slow copy where there is none, does the Adam step
/// with that count, with the first momentum buffer where it is odd and the second where it is
/// even, and then merges if and only if the updates since the last merge have become as many as
/// the parameters say, whatever the count of steps is.
pub proof fn law_full_update<F: Copy>(
    before: Ranger21<F>,
    states: Seq<Ranger21<F>>,
    actions: Seq<Ranger21Action>,
    after: Ranger21<F>,
)
    requires
        is_full_update(before, states, actions, after),
        before.step < usize::MAX,
        before.lookahead_step < usize::MAX,
    ensures
        after.size == before.size,
        after.params == before.params,
        after.step == before.step + 1,
        after.lookahead_step == (if before.lookahead_step + 1 >= before.params.lookahead_mergetime {
            0
        } else {
            before.lookahead_step + 1
        }),
        after.slow_initialised,
        ({
            let adam = Ranger21Action::Adam {
                step: (before.step + 1) as usize,
                momentum: if before.step % 2 == 0 {
                    Ranger21Buffer::Momentum
                } else {
                    Ranger21Buffer::NegMomentum
                },
            };
            let seed = if before.slow_initialised {
                Seq::<Ranger21Action>::empty()
            } else {
                seq![Ranger21Action::SeedSlow]
            };
            let merge = if before.lookahead_step + 1 >= before.params.lookahead_mergetime {
                seq![Ranger21Action::Blend, Ranger21Action::StoreSlow]
            } else {
                Seq::<Ranger21Action>::empty()
            };
            actions == seed + seq![adam] + merge + seq![Ranger21Action::Finished]
        }),
{
    let merges = before.lookahead_step + 1 >= before.params.lookahead_mergetime;
    let at = if before.slow_initialised { 0int } else { 1int };
    assert(actions[0] !is Finished);
    if !before.slow_initialised {
        assert(actions[0] is SeedSlow);
        assert(goes_on(states, actions, 0));
    }
    assert(actions[at] is Adam);
    assert(goes_on(states, actions, at));
    if merges {
        assert(actions[at + 1] is Blend);
        assert(goes_on(states, actions, at + 1));
        assert(actions[at + 2] is StoreSlow);
        assert(goes_on(states, actions, at + 2));
        assert(actions[at + 3] is Finished);
        assert(actions.len() == at + 4);
    } else {
        assert(actions[at + 1] is Finished);
        assert(actions.len() == at + 2);
    }
    let adam = actions[at];
    let seed = if before.slow_initialised {
        Seq::<Ranger21Action>::empty()
    } else {
        seq![Ranger21Action::SeedSlow]
    };
    let merge = if merges {
        seq![Ranger21Action::Blend, Ranger21Action::StoreSlow]
    } else {
        Seq::<Ranger21Action>::empty()
    };
    assert(actions =~= seed + seq![adam] + merge + seq![Ranger21Action::Finished]);
}

/// Two updates of states that differ in the count of steps only merge both or not at all.
pub proof fn law_merging_does_not_depend_on_the_step<F: Copy>(
    a: Ranger21<F>,
    a_states: Seq<Ranger21<F>>,
    a_actions: Seq<Ranger21Action>,
    a_after: Ranger21<F>,
    b: Ranger21<F>,
    b_states: Seq<Ranger21<F>>,
    b_actions: Seq<Ranger21Action>,
    b_after: Ranger21<F>,
)
    requires
        is_full_update(a, a_states, a_actions, a_after),
        is_full_update(b, b_states, b_actions, b_after),
        a.step < usize::MAX,
        b.step < usize::MAX,
        a.lookahead_step < usize::MAX,
        a.lookahead_step == b.lookahead_step,
        a.params == b.params,
    ensures
        a_actions.contains(Ranger21Action::Blend) == b_actions.contains(Ranger21Action::Blend),
        a_after.lookahead_step == b_after.lookahead_step,
{
    law_full_update(a, a_states, a_actions, a_after);
    law_full_update(b, b_states, b_actions, b_after);
    let merges = a.lookahead_step + 1 >= a.params.lookahead_mergetime;
    if merges {
        assert(a_actions[a_actions.len() - 3] is Blend);
        assert(b_actions[b_actions.len() - 3] is Blend);
    } else {
        assert forall|i: int| 0 <= i < a_actions.len() implies a_actions[i] !is Blend by {}
        assert forall|i: int| 0 <= i < b_actions.len() implies b_actions[i] !is Blend by {}
    }
}

/// The calls of an update of a wrapped state are exactly those of an update of the state inside.
pub proof fn law_wrapped_update<O, P>(
    before: WrapOptimiser<O, P>,
    states: Seq<WrapOptimiser<O, P>>,
    actions: Seq<O::Action>,
) where O: OptimiserState, P: Clone + Into<O::Params>
    ensures
        is_update(before, states, actions) <==> is_update(
            before.optimiser,
            Seq::new(states.len(), |i: int| states[i].optimiser),
            actions,
        ),
{
    let inner = Seq::new(states.len(), |i: int| states[i].optimiser);
    if is_update(before, states, actions) {
        assert forall|i: int| 0 <= i < inner.len() - 1 implies #[trigger] goes_on(
            inner,
            actions,
            i,
        ) by {
            assert(goes_on(states, actions, i));
        }
    }
    if is_update(before.optimiser, inner, actions) {
        assert forall|i: int| 0 <= i < states.len() - 1 implies #[trigger] goes_on(
            states,
            actions,
            i,
        ) by {
            assert(goes_on(inner, actions, i));
        }
    }
}

/// Whether each state of `trail` comes from the one before it by an update.
pub open spec fn is_training<S: OptimiserState<Action = Ranger21Action>>(trail: Seq<S>) -> bool {
    &&& trail.len() > 0
    &&& forall|i: int| 0 <= i < trail.len() - 1 ==> #[trigger] is_trained(trail, i)
}

/// Whether the state behind number `i` comes from that number by an update.
pub open spec fn is_trained<S: OptimiserState<Action = Ranger21Action>>(
    trail: Seq<S>,
    i: int,
) -> bool {
    can_become(trail[i], trail[i + 1])
}

/// Whether an update takes `before` to `after`.
pub open spec fn can_become<S: OptimiserState<Action = Ranger21Action>>(
    before: S,
    after: S,
) -> bool {
    exists|states: Seq<S>, actions: Seq<Ranger21Action>|
        is_full_update(before, states, actions, after)
}

/// After `n` updates of a new state the count of steps is `n`, the updates since the last merge
/// are what is left of `n` by full rounds, the slow copy is there, and nothing else has changed.
pub proof fn law_training_from_new<F: Copy>(
    size: usize,
    params: Ranger21Params<F>,
    trail: Seq<Ranger21<F>>,
    n: nat,
)
    requires
        is_training(trail),
        trail[0].created(size, params),
        n < trail.len(),
        n <= usize::MAX,
    ensures
        trail[n as int].size == size,
        trail[n as int].params == params,
        trail[n as int].step == n,
        trail[n as int].slow_initialised == (n > 0),
        trail[n as int].lookahead_step == (if params.lookahead_mergetime == 0 {
            0
        } else {
            n as int % params.lookahead_mergetime as int
        }),
    decreases n,
{
    let m = params.lookahead_mergetime as int;
    if n == 0 {
        if m > 0 {
            vstd::arithmetic::div_mod::lemma_small_mod(0, m as nat);
        }
    } else {
        let k = (n - 1) as nat;
        law_training_from_new(size, params, trail, k);
        assert(is_trained(trail, k as int));
        let before = trail[k as int];
        let after = trail[k + 1int];
        let (states, actions) = choose|states: Seq<Ranger21<F>>, actions: Seq<Ranger21Action>|
            is_full_update(before, states, actions, after);
        if m > 0 {
            lemma_mod_step(k as int, m);
        }
        law_full_update(before, states, actions, after);
    }
}

/// What holds of updates of a new state holds of updates of a new wrapped one: the state inside
/// is that of the same updates without the wrapping, under parameters that the given ones were
/// turned into.
pub proof fn law_training_from_new_wrapped<F: Copy, P>(
    size: usize,
    params: P,
    trail: Seq<WrapOptimiser<Ranger21<F>, P>>,
    n: nat,
) where P: Clone + Into<Ranger21Params<F>>
    requires
        is_training(trail),
        trail[0].created(size, params),
        n < trail.len(),
        n <= usize::MAX,
    ensures
        exists|inner: Ranger21Params<F>| {
            let state = trail[n as int].optimiser;
            &&& #[trigger] call_ensures(<P as Into<Ranger21Params<F>>>::into, (params,), inner)
            &&& state.size == size
            &&& state.params == inner
            &&& state.step == n
            &&& state.slow_initialised == (n > 0)
            &&& state.lookahead_step == (if inner.lookahead_mergetime == 0 {
                0
            } else {
                n as int % inner.lookahead_mergetime as int
            })
        },
{
    let unwrapped = Seq::new(trail.len(), |i: int| trail[i].optimiser);
    let inner = choose|inner: Ranger21Params<F>| #[trigger]
        call_ensures(<P as Into<Ranger21Params<F>>>::into, (params,), inner)
            && trail[0].optimiser.created(size, inner);
    assert(trail[0].created(size, params));
    assert forall|i: int| 0 <= i < unwrapped.len() - 1 implies #[trigger] is_trained(
        unwrapped,
        i,
    ) by {
        assert(is_trained(trail, i));
        let before = trail[i];
        let after = trail[i + 1];
        let (states, actions) = choose|
            states: Seq<WrapOptimiser<Ranger21<F>, P>>,
            actions: Seq<Ranger21Action>,
        |
            is_full_update(before, states, actions, after);
        law_wrapped_update(before, states, actions);
        let inside = Seq::new(states.len(), |j: int| states[j].optimiser);
        assert(is_full_update(before.optimiser, inside, actions, after.optimiser));
        assert(can_become(before.optimiser, after.optimiser));
    }
    law_training_from_new(size, inner, unwrapped, n);
}

} // verus!
