//! What an optimiser does over a whole update, and over a whole reset.

use crate::optimiser::{
    checkpoint_load, weights_path, LoadActionView, OptimiserState, UpdateAction, UpdateCounts,
};
use vstd::prelude::*;

verus! {

impl UpdateCounts {
    /// The counts are those of lists in memory.
    pub open spec fn fit(self) -> bool {
        &&& self.pre <= usize::MAX
        &&& self.weights <= usize::MAX
        &&& self.post <= usize::MAX
    }

    /// How much work can still follow an action, the action itself included.
    pub open spec fn measure(self, action: UpdateAction) -> int {
        match action {
            UpdateAction::PreUpdate { index } => self.pre - index + 1 + 5 * self.weights
                + self.post,
            UpdateAction::ListWeights => 1int + 5 * self.weights + self.post,
            UpdateAction::FetchWeights { weight } => 5 * (self.weights - weight) + self.post,
            UpdateAction::FetchGradients { weight } => 5 * (self.weights - weight) - 1 + self.post,
            UpdateAction::ReduceGradients { weight } => 5 * (self.weights - weight) - 2 + self.post,
            UpdateAction::UpdateState { weight } => 5 * (self.weights - weight) - 3 + self.post,
            UpdateAction::ScatterWeights { weight } => 5 * (self.weights - weight) - 4 + self.post,
            UpdateAction::PostUpdate { index } => self.post - index,
            UpdateAction::Finished => 0,
        }
    }

    /// The work of an update from `action` on, where nothing fails and `gradients` says which
    /// weights have gradients.
    pub open spec fn run(self, gradients: Seq<bool>, action: UpdateAction) -> Seq<UpdateAction>
        decreases self.measure(action),
        when self.fit() && self.has(action)
    {
        match action {
            UpdateAction::Finished => seq![],
            UpdateAction::FetchGradients { weight } => seq![action] + self.run(
                gradients,
                self.after(action, gradients[weight as int]),
            ),
            _ => seq![action] + self.run(gradients, self.after(action, true)),
        }
    }
}

/// The work on one weight.
pub open spec fn weight_work(weight: usize, has_gradients: bool) -> Seq<UpdateAction> {
    let fetch = seq![
        UpdateAction::FetchWeights { weight },
        UpdateAction::FetchGradients { weight },
    ];
    if has_gradients {
        fetch + seq![
            UpdateAction::ReduceGradients { weight },
            UpdateAction::UpdateState { weight },
            UpdateAction::ScatterWeights { weight },
        ]
    } else {
        fetch
    }
}

/// The work on the weights from `weight` on, one after the other.
pub open spec fn weights_work(gradients: Seq<bool>, weight: nat) -> Seq<UpdateAction>
    decreases gradients.len() - weight,
{
    if weight >= gradients.len() {
        seq![]
    } else {
        weight_work(weight as usize, gradients[weight as int]) + weights_work(
            gradients,
            weight + 1,
        )
    }
}

proof fn lemma_run_post(counts: UpdateCounts, gradients: Seq<bool>, index: nat)
    requires
        counts.fit(),
        index <= counts.post,
    ensures
        counts.run(gradients, counts.at_post(index as int)) == Seq::new(
            (counts.post - index) as nat,
            |i: int| UpdateAction::PostUpdate { index: (index + i) as usize },
        ),
    decreases counts.post - index,
{
    let all = Seq::new(
        (counts.post - index) as nat,
        |i: int| UpdateAction::PostUpdate { index: (index + i) as usize },
    );
    if index < counts.post {
        lemma_run_post(counts, gradients, index + 1);
        let action = UpdateAction::PostUpdate { index: index as usize };
        assert(counts.after(action, true) == counts.at_post(index + 1int));
        assert(counts.run(gradients, action) =~= all);
    } else {
        assert(counts.run(gradients, UpdateAction::Finished) =~= all);
    }
}

proof fn lemma_run_weights(counts: UpdateCounts, gradients: Seq<bool>, weight: nat)
    requires
        counts.fit(),
        gradients.len() == counts.weights,
        weight <= counts.weights,
    ensures
        counts.run(gradients, counts.at_weight(weight as int)) == weights_work(gradients, weight)
            + counts.run(gradients, counts.at_post(0)),
    decreases counts.weights - weight,
{
    let end = counts.run(gradients, counts.at_post(0));
    if weight < counts.weights {
        lemma_run_weights(counts, gradients, weight + 1);
        let w = weight as usize;
        let fetch = UpdateAction::FetchWeights { weight: w };
        let look = UpdateAction::FetchGradients { weight: w };
        let reduce = UpdateAction::ReduceGradients { weight: w };
        let update = UpdateAction::UpdateState { weight: w };
        let scatter = UpdateAction::ScatterWeights { weight: w };
        let rest = counts.run(gradients, counts.at_weight(weight + 1int));
        assert(counts.run(gradients, scatter) == seq![scatter] + rest);
        assert(counts.run(gradients, update) == seq![update] + counts.run(gradients, scatter));
        assert(counts.run(gradients, reduce) == seq![reduce] + counts.run(gradients, update));
        assert(counts.run(gradients, fetch) == seq![fetch] + counts.run(gradients, look));
        assert(counts.run(gradients, fetch) =~= weight_work(w, gradients[weight as int]) + rest);
        assert(weights_work(gradients, weight) + end =~= weight_work(w, gradients[weight as int])
            + rest);
    } else {
        assert(weights_work(gradients, weight) + end =~= end);
    }
}

proof fn lemma_run_pre(counts: UpdateCounts, gradients: Seq<bool>, index: nat)
    requires
        counts.fit(),
        index <= counts.pre,
    ensures
        counts.run(gradients, counts.at_pre(index as int)) == Seq::new(
            (counts.pre - index) as nat,
            |i: int| UpdateAction::PreUpdate { index: (index + i) as usize },
        ).push(UpdateAction::ListWeights) + counts.run(gradients, counts.at_weight(0)),
    decreases counts.pre - index,
{
    let end = counts.run(gradients, counts.at_weight(0));
    let all = Seq::new(
        (counts.pre - index) as nat,
        |i: int| UpdateAction::PreUpdate { index: (index + i) as usize },
    ).push(UpdateAction::ListWeights);
    if index < counts.pre {
        lemma_run_pre(counts, gradients, index + 1);
        let action = UpdateAction::PreUpdate { index: index as usize };
        assert(counts.after(action, true) == counts.at_pre(index + 1int));
        assert(counts.run(gradients, action) =~= all + end);
    } else {
        assert(counts.run(gradients, UpdateAction::ListWeights) =~= all + end);
    }
}

/// An update in which nothing fails applies the changes before the updates in the order in which
/// they were added, then lists the weights, works on each in turn and updates those that have
/// gradients, and then applies the changes after the updates in the order in which they were
/// added.
pub proof fn law_update_runs(counts: UpdateCounts, gradients: Seq<bool>)
    requires
        counts.fit(),
        gradients.len() == counts.weights,
    ensures
        counts.run(gradients, counts.at_pre(0)) == Seq::new(
            counts.pre,
            |i: int| UpdateAction::PreUpdate { index: i as usize },
        ).push(UpdateAction::ListWeights) + weights_work(gradients, 0) + Seq::new(
            counts.post,
            |i: int| UpdateAction::PostUpdate { index: i as usize },
        ),
{
    lemma_run_pre(counts, gradients, 0);
    lemma_run_weights(counts, gradients, 0);
    lemma_run_post(counts, gradients, 0);
    assert(counts.run(gradients, counts.at_pre(0)) =~= Seq::new(
        counts.pre,
        |i: int| UpdateAction::PreUpdate { index: i as usize },
    ).push(UpdateAction::ListWeights) + weights_work(gradients, 0) + Seq::new(
        counts.post,
        |i: int| UpdateAction::PostUpdate { index: i as usize },
    ));
}

/// A checkpoint is loaded from where it was written: the weights come first, from the file that
/// they are written to; then each weight goes to the other devices, once; the states come last.
pub proof fn law_checkpoint_load_order(weights: nat, path: Seq<char>, old_format: bool)
    ensures
        ({
            let actions = checkpoint_load(weights, path, old_format);
            &&& actions.len() == weights + 2
            &&& actions[0] == (LoadActionView::LoadWeights {
                path: weights_path(path),
                old_format,
            })
            &&& forall|i: int|
                0 <= i < weights ==> #[trigger] actions[i + 1] == (LoadActionView::ScatterWeights {
                    weight: i as usize,
                })
            &&& actions.last() == (LoadActionView::LoadState { path, old_format })
        }),
{
}

/// The states with the first `n` of them reset.
pub open spec fn first_cleared<S: OptimiserState>(map: Seq<(Seq<char>, S)>, n: int) -> Seq<
    (Seq<char>, S),
> {
    Seq::new(
        map.len(),
        |i: int|
            if i < n {
                (map[i].0, map[i].1.cleared())
            } else {
                map[i]
            },
    )
}

/// Resetting the states one after the other, from the first on, resets each of them and nothing
/// else: each call adds its own state to those that are reset, and at the end none is left.
pub proof fn law_reset_reaches_all<S: OptimiserState>(map: Seq<(Seq<char>, S)>, position: int)
    requires
        0 <= position < map.len(),
    ensures
        first_cleared(map, 0) == map,
        first_cleared(map, position).update(
            position,
            (
                first_cleared(map, position)[position].0,
                first_cleared(map, position)[position].1.cleared(),
            ),
        ) == first_cleared(map, position + 1),
        first_cleared(map, map.len() as int) == map.map_values(
            |e: (Seq<char>, S)| (e.0, e.1.cleared()),
        ),
{
    assert(first_cleared(map, 0) =~= map);
    assert(first_cleared(map, position).update(
        position,
        (
            first_cleared(map, position)[position].0,
            first_cleared(map, position)[position].1.cleared(),
        ),
    ) =~= first_cleared(map, position + 1));
    assert(first_cleared(map, map.len() as int) =~= map.map_values(
        |e: (Seq<char>, S)| (e.0, e.1.cleared()),
    ));
}

} // verus!
