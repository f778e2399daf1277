//! What Ranger21 does over whole updates, and over many of them.

use crate::optimiser::ranger21::{
    momentum_of, Ranger21, Ranger21Action, Ranger21Buffer, Ranger21Params,
};
use crate::optimiser::{set_times, set_with, OptimiserState};
use vstd::prelude::*;

verus! {

/// How much work can still follow an action.
pub open spec fn rank(action: Ranger21Action) -> nat {
    match action {
        Ranger21Action::SeedSlow => 4,
        Ranger21Action::Adam { .. } => 3,
        Ranger21Action::Blend => 2,
        Ranger21Action::StoreSlow => 1,
        Ranger21Action::Finished => 0,
    }
}

/// The state at the end of an update that has come to `action`, and the work from there on, where
/// the device does not fail.
pub open spec fn run<F>(state: Ranger21<F>, action: Ranger21Action) -> (
    Ranger21<F>,
    Seq<Ranger21Action>,
)
    decreases rank(action),
{
    if action is Finished {
        (state, seq![])
    } else {
        let (next, following) = state.resumed(action);
        let (end, rest) = run(next, following);
        (end, seq![action] + rest)
    }
}

impl<F> Ranger21<F> {
    /// Whether the next update ends with a lookahead merge.
    pub open spec fn merges(self) -> bool {
        self.lookahead_step + 1 >= self.params.lookahead_mergetime
    }

    /// The state after an update.
    pub open spec fn updated(self) -> Self {
        Ranger21 {
            step: (self.step + 1) as usize,
            lookahead_step: if self.merges() {
                0
            } else {
                (self.lookahead_step + 1) as usize
            },
            slow_initialised: true,
            ..self
        }
    }

    /// The work of an update, in order.
    pub open spec fn update_actions(self) -> Seq<Ranger21Action> {
        let seed = if self.slow_initialised {
            seq![]
        } else {
            seq![Ranger21Action::SeedSlow]
        };
        let adam = Ranger21Action::Adam {
            step: (self.step + 1) as usize,
            momentum: momentum_of(self.step + 1),
        };
        let merge = if self.merges() {
            seq![Ranger21Action::Blend, Ranger21Action::StoreSlow]
        } else {
            seq![]
        };
        seed + seq![adam] + merge
    }

    /// The state after `n` updates.
    pub open spec fn updated_times(self, n: nat) -> Self
        decreases n,
    {
        if n == 0 {
            self
        } else {
            self.updated_times((n - 1) as nat).updated()
        }
    }
}

/// An update whose work the device does goes through exactly this work, and ends in this state.
pub proof fn law_update_runs<F>(state: Ranger21<F>)
    requires
        state.step < usize::MAX,
        state.lookahead_step < usize::MAX,
    ensures
        run(state.started().0, state.started().1) == (state.updated(), state.update_actions()),
{
    reveal_with_fuel(run, 5);
    let result = run(state.started().0, state.started().1);
    assert(result.1 =~= state.update_actions());
}

/// After `n` updates of a new state, the step is `n`, the updates since the last merge are what
/// is left of `n` when full rounds are taken off, and the slow copy is there from the first
/// update on.
pub proof fn law_updates_of_new_state<F>(size: usize, params: Ranger21Params<F>, n: nat)
    requires
        n <= usize::MAX,
    ensures
        Ranger21::fresh(size, params).updated_times(n) == (Ranger21 {
            size,
            params,
            step: n as usize,
            lookahead_step: if params.lookahead_mergetime == 0 {
                0
            } else {
                (n % params.lookahead_mergetime as nat) as usize
            },
            slow_initialised: n > 0,
        }),
    decreases n,
{
    let m = params.lookahead_mergetime as int;
    if n == 0 {
        if m > 0 {
            assert(0int % m == 0) by (nonlinear_arith)
                requires
                    m > 0,
            ;
        }
    } else {
        law_updates_of_new_state(size, params, (n - 1) as nat);
        if m > 0 {
            lemma_mod_step((n - 1) as int, m);
        }
    }
}

/// The next number leaves the next remainder, or none where a round is full.
pub proof fn lemma_mod_step(k: int, m: int)
    requires
        k >= 0,
        m > 0,
    ensures
        0 <= k % m < m,
        (k + 1) % m == (if k % m + 1 == m {
            0
        } else {
            k % m + 1
        }),
{
    vstd::arithmetic::div_mod::lemma_mod_bound(k, m);
    vstd::arithmetic::div_mod::lemma_fundamental_div_mod(k, m);
    let q = k / m;
    let r = k % m;
    if r + 1 == m {
        assert(k + 1 == m * (q + 1) + 0) by (nonlinear_arith)
            requires
                k == m * q + r,
                r + 1 == m,
        ;
        assert(k + 1 == (q + 1) * m + 0) by (nonlinear_arith)
            requires
                k + 1 == m * (q + 1) + 0,
        ;
        vstd::arithmetic::div_mod::lemma_fundamental_div_mod_converse(k + 1, m, q + 1, 0);
    } else {
        assert(k + 1 == q * m + (r + 1)) by (nonlinear_arith)
            requires
                k == m * q + r,
        ;
        vstd::arithmetic::div_mod::lemma_fundamental_div_mod_converse(k + 1, m, q, r + 1);
    }
}

/// Of a new state, update number `n` (counted from one) does the Adam step `n` with the momentum
/// buffer whose turn it is, seeds the slow copy if and only if it is the first, and merges if and
/// only if a round of updates is full.
pub proof fn law_work_of_update<F>(size: usize, params: Ranger21Params<F>, n: nat)
    requires
        0 < n <= usize::MAX,
    ensures
        ({
            let work = Ranger21::fresh(size, params).updated_times(
                (n - 1) as nat,
            ).update_actions();
            &&& work.contains(
                Ranger21Action::Adam {
                    step: n as usize,
                    momentum: if n % 2 == 1 {
                        Ranger21Buffer::Momentum
                    } else {
                        Ranger21Buffer::NegMomentum
                    },
                },
            )
            &&& work[0] is SeedSlow <==> n == 1
            &&& work.contains(Ranger21Action::Blend) <==> params.lookahead_mergetime == 0 || n
                % params.lookahead_mergetime as nat == 0
        }),
{
    let m = params.lookahead_mergetime as int;
    let before = Ranger21::fresh(size, params).updated_times((n - 1) as nat);
    law_updates_of_new_state(size, params, (n - 1) as nat);
    if m > 0 {
        lemma_mod_step((n - 1) as int, m);
    }
    let work = before.update_actions();
    let at = if before.slow_initialised { 0int } else { 1int };
    assert(work[at] == (Ranger21Action::Adam { step: n as usize, momentum: momentum_of(n as int) }));
    if before.merges() {
        assert(work[at + 1] == Ranger21Action::Blend);
    } else {
        assert(work.len() == at + 1);
    }
}

/// Two updates in a row use different momentum buffers.
pub proof fn law_momentum_takes_turns(step: int)
    ensures
        momentum_of(step) != momentum_of(step + 1),
        momentum_of(step) == momentum_of(step + 2),
{
}

/// A state that is reset is as good as new.
pub proof fn law_reset_state_is_new<F: Copy>(state: Ranger21<F>)
    ensures
        state.cleared() == Ranger21::fresh(state.size, state.params),
        state.cleared().created(state.size, state.params),
{
}

/// The weights and their slow copy, as values of any kind.
pub struct Copies<W> {
    pub weights: W,
    pub slow: W,
}

/// What a device makes of the weights and of the slow copy, for one piece of work: `adam` is what
/// an Adam step makes of the weights, `blend` what the weights become when they are moved towards
/// the slow copy.
pub open spec fn performed<W>(
    action: Ranger21Action,
    copies: Copies<W>,
    adam: spec_fn(W, usize, Ranger21Buffer) -> W,
    blend: spec_fn(W, W) -> W,
) -> Copies<W> {
    match action {
        Ranger21Action::SeedSlow => Copies { slow: copies.weights, ..copies },
        Ranger21Action::Adam { step, momentum } => Copies {
            weights: adam(copies.weights, step, momentum),
            ..copies
        },
        Ranger21Action::Blend => Copies { weights: blend(copies.weights, copies.slow), ..copies },
        Ranger21Action::StoreSlow => Copies { slow: copies.weights, ..copies },
        Ranger21Action::Finished => copies,
    }
}

/// What a device makes of the weights and of the slow copy, for work in order.
pub open spec fn performed_all<W>(
    actions: Seq<Ranger21Action>,
    copies: Copies<W>,
    adam: spec_fn(W, usize, Ranger21Buffer) -> W,
    blend: spec_fn(W, W) -> W,
) -> Copies<W>
    decreases actions.len(),
{
    if actions.len() == 0 {
        copies
    } else {
        performed_all(
            actions.drop_first(),
            performed(actions[0], copies, adam, blend),
            adam,
            blend,
        )
    }
}

/// The slow copy starts from the weights before their first update. An update does its Adam step
/// on the weights; where it merges, it then moves them towards the slow copy, and the slow copy
/// becomes what they are then; else the slow copy stays.
pub proof fn law_slow_copy<F, W>(
    state: Ranger21<F>,
    copies: Copies<W>,
    adam: spec_fn(W, usize, Ranger21Buffer) -> W,
    blend: spec_fn(W, W) -> W,
)
    ensures
        ({
            let slow = if state.slow_initialised {
                copies.slow
            } else {
                copies.weights
            };
            let stepped = adam(
                copies.weights,
                (state.step + 1) as usize,
                momentum_of(state.step + 1),
            );
            let merged = blend(stepped, slow);
            performed_all(state.update_actions(), copies, adam, blend) == if state.merges() {
                Copies { weights: merged, slow: merged }
            } else {
                Copies { weights: stepped, slow }
            }
        }),
{
    reveal_with_fuel(performed_all, 5);
    let work = state.update_actions();
    let adam_action = Ranger21Action::Adam {
        step: (state.step + 1) as usize,
        momentum: momentum_of(state.step + 1),
    };
    let seed = if state.slow_initialised { seq![] } else { seq![Ranger21Action::SeedSlow] };
    let merge = if state.merges() {
        seq![Ranger21Action::Blend, Ranger21Action::StoreSlow]
    } else {
        seq![]
    };
    if !state.slow_initialised {
        assert(work.drop_first() =~= seq![adam_action] + merge);
    } else {
        assert(work =~= seq![adam_action] + merge);
    }
    assert((seq![adam_action] + merge).drop_first() =~= merge);
    if state.merges() {
        assert(merge.drop_first() =~= seq![Ranger21Action::StoreSlow]);
        assert(seq![Ranger21Action::StoreSlow].drop_first() =~= seq![]);
    }
}

/// The weights and the slow copy after `n` updates.
pub open spec fn trained<F, W>(
    state: Ranger21<F>,
    copies: Copies<W>,
    adam: spec_fn(W, usize, Ranger21Buffer) -> W,
    blend: spec_fn(W, W) -> W,
    n: nat,
) -> Copies<W>
    decreases n,
{
    if n == 0 {
        copies
    } else {
        performed_all(
            state.updated_times((n - 1) as nat).update_actions(),
            trained(state, copies, adam, blend, (n - 1) as nat),
            adam,
            blend,
        )
    }
}

/// Where Adam steps change nothing, and moving weights towards their equal changes nothing, any
/// number of updates of a new state leaves the weights as they were, whatever the slow copy held
/// before.
pub proof fn law_idle_updates_keep_weights<F, W>(
    size: usize,
    params: Ranger21Params<F>,
    copies: Copies<W>,
    adam: spec_fn(W, usize, Ranger21Buffer) -> W,
    blend: spec_fn(W, W) -> W,
    n: nat,
)
    requires
        n <= usize::MAX,
        forall|w: W, step: usize, momentum: Ranger21Buffer| #[trigger]
            adam(w, step, momentum) == w,
        forall|w: W| #[trigger] blend(w, w) == w,
    ensures
        trained(Ranger21::fresh(size, params), copies, adam, blend, n).weights == copies.weights,
        n > 0 ==> trained(Ranger21::fresh(size, params), copies, adam, blend, n).slow
            == copies.weights,
    decreases n,
{
    if n > 0 {
        law_idle_updates_keep_weights(size, params, copies, adam, blend, (n - 1) as nat);
        law_updates_of_new_state(size, params, (n - 1) as nat);
        law_slow_copy(
            Ranger21::fresh(size, params).updated_times((n - 1) as nat),
            trained(Ranger21::fresh(size, params), copies, adam, blend, (n - 1) as nat),
            adam,
            blend,
        );
    }
}

/// Parameters that are set at least once are those that count; nothing else changes.
pub proof fn law_params_are_set<F: Copy>(
    before: Ranger21<F>,
    params: Ranger21Params<F>,
    after: Ranger21<F>,
    n: nat,
)
    requires
        set_times(before, params, after, n),
    ensures
        after == if n == 0 {
            before
        } else {
            Ranger21 { params, ..before }
        },
    decreases n,
{
    if n > 0 {
        let mid = choose|mid: Ranger21<F>|
            set_times(before, params, mid, (n - 1) as nat) && #[trigger] set_with(
                mid,
                params,
                after,
            );
        law_params_are_set(before, params, mid, (n - 1) as nat);
    }
}

} // verus!
