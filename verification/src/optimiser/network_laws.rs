//! What each call on the optimiser of a network does, in terms of its changes, weights and states.

use crate::optimiser::laws::{weight_work, weights_work};
use crate::optimiser::ranger21::{Ranger21, Ranger21Params};
use crate::optimiser::{
    are_optimisable, checkpoint_load, referred, set_times, set_with, weight_names, weights_load,
    weights_path, CheckpointFile, FileContent, FileContentView, LoadAction, LoadActionView,
    Optimiser, OptimiserState, UpdateAction, WeightInfo,
};
use crate::order::names;
use crate::state_map::{distinct_ids, has_id, ids};
use vstd::prelude::*;

verus! {

/// States are looked for by their names, and no two have the same.
pub proof fn law_states_by_name<S>(map: Seq<(Seq<char>, S)>, id: Seq<char>)
    ensures
        ids(map).len() == map.len(),
        forall|i: int| 0 <= i < map.len() ==> #[trigger] ids(map)[i] == map[i].0,
        has_id(map, id) <==> exists|i: int| 0 <= i < map.len() && (#[trigger] map[i]).0 == id,
        distinct_ids(map) <==> forall|i: int, j: int|
            0 <= i < map.len() && 0 <= j < map.len() && (#[trigger] map[i]).0 == (
            #[trigger] map[j]).0 ==> i == j,
{
}

/// States that are referred to are the states.
pub proof fn law_referred_states<S>(map: Seq<(Seq<char>, &S)>)
    ensures
        referred(map).len() == map.len(),
        forall|i: int|
            0 <= i < map.len() ==> (#[trigger] referred(map)[i]).0 == map[i].0 && referred(map)[i].1
                == *map[i].1,
{
}

/// An optimiser can be made for weights that are not batched and have different names.
pub proof fn law_optimisable_weights(weights: Seq<WeightInfo>)
    ensures
        weight_names(weights).len() == weights.len(),
        forall|i: int|
            0 <= i < weights.len() ==> #[trigger] weight_names(weights)[i] == weights[i].id@,
        are_optimisable(weights) <==> {
            &&& forall|i: int|
                0 <= i < weights.len() ==> (#[trigger] weights[i]).shape.batch_size is None
            &&& forall|i: int, j: int|
                0 <= i < weights.len() && 0 <= j < weights.len() && (#[trigger] weights[i]).id@ == (
                #[trigger] weights[j]).id@ ==> i == j
        },
{
    let all = weight_names(weights);
    if are_optimisable(weights) {
        assert forall|i: int, j: int|
            0 <= i < weights.len() && 0 <= j < weights.len() && (#[trigger] weights[i]).id@ == (
            #[trigger] weights[j]).id@ implies i == j by {
            assert(all[i] == all[j]);
        }
    }
    if forall|i: int, j: int|
        0 <= i < weights.len() && 0 <= j < weights.len() && (#[trigger] weights[i]).id@ == (
        #[trigger] weights[j]).id@ ==> i == j {
        assert forall|i: int, j: int| 0 <= i < all.len() && 0 <= j < all.len() && i
            != j implies all[i] != all[j] by {
            assert(weights[i].id@ == all[i] && weights[j].id@ == all[j]);
        }
    }
}

/// A new optimiser has a new state for each weight, in order, under its name and with its size
/// and the given parameters, and no changes around the updates.
pub proof fn law_new_optimiser<G, F: Copy, U>(
    optimiser: Optimiser<G, Ranger21<F>, U>,
    graph: G,
    weights: Seq<WeightInfo>,
    params: Ranger21Params<F>,
    i: int,
)
    requires
        optimiser.is_new(graph, weights, params),
        0 <= i < weights.len(),
    ensures
        optimiser.graph == graph,
        optimiser.pre_update@.len() == 0,
        optimiser.post_update@.len() == 0,
        optimiser.state@.len() == weights.len(),
        optimiser.state@[i].0 == weights[i].id@,
        optimiser.state@[i].1.size == weights[i].shape.size,
        optimiser.state@[i].1.params == params,
        optimiser.state@[i].1.step == 0,
        optimiser.state@[i].1.lookahead_step == 0,
        !optimiser.state@[i].1.slow_initialised,
{
    assert(ids(optimiser.state@).len() == weights.len());
    assert(ids(optimiser.state@)[i] == weight_names(weights)[i]);
}

/// An optimiser of no weights has no states, and is well formed where no two states have the same
/// name.
pub proof fn law_well_formed_optimiser<G, S: OptimiserState, U>(
    optimiser: Optimiser<G, S, U>,
    graph: G,
    params: S::Params,
    weight_ids: Seq<Seq<char>>,
)
    ensures
        optimiser.wf() <==> forall|i: int, j: int|
            0 <= i < optimiser.state@.len() && 0 <= j < optimiser.state@.len() && (
            #[trigger] optimiser.state@[i]).0 == (#[trigger] optimiser.state@[j]).0 ==> i == j,
        optimiser.is_new(graph, seq![], params) ==> optimiser.state@.len() == 0,
        optimiser.knows_all(weight_ids) <==> forall|k: int|
            0 <= k < weight_ids.len() ==> exists|i: int|
                0 <= i < optimiser.state@.len() && (#[trigger] optimiser.state@[i]).0
                    == #[trigger] weight_ids[k],
{
    if optimiser.is_new(graph, seq![], params) {
        assert(ids(optimiser.state@).len() == weight_names(seq![]).len());
    }
    if optimiser.knows_all(weight_ids) {
        assert forall|k: int| 0 <= k < weight_ids.len() implies exists|i: int|
            0 <= i < optimiser.state@.len() && (#[trigger] optimiser.state@[i]).0
                == #[trigger] weight_ids[k] by {
            assert(has_id(optimiser.state@, weight_ids[k]));
        }
    }
}

/// What follows which action. The changes before the updates come one after the other, then the
/// weights are listed. Each weight in turn is fetched, then its gradients; where there are some,
/// they are summed, the state updates the weight, and the weight goes to all devices. The changes
/// after the updates come last, one after the other.
pub proof fn law_what_follows<G, S: OptimiserState, U>(
    optimiser: Optimiser<G, S, U>,
    weights: nat,
    k: usize,
    done: bool,
)
    requires
        k < usize::MAX,
        weights <= usize::MAX,
    ensures
        ({
            let counts = optimiser.counts(weights);
            let pre = optimiser.pre_update@.len();
            let post = optimiser.post_update@.len();
            let last = if post > 0 {
                UpdateAction::PostUpdate { index: 0 }
            } else {
                UpdateAction::Finished
            };
            let next = (k + 1) as usize;
            let next_weight = if next < weights {
                UpdateAction::FetchWeights { weight: next }
            } else {
                last
            };
            &&& counts.at_pre(0) == if pre > 0 {
                UpdateAction::PreUpdate { index: 0 }
            } else {
                UpdateAction::ListWeights
            }
            &&& counts.after(UpdateAction::PreUpdate { index: k }, done) == if next < pre {
                UpdateAction::PreUpdate { index: next }
            } else {
                UpdateAction::ListWeights
            }
            &&& counts.after(UpdateAction::ListWeights, done) == if weights > 0 {
                UpdateAction::FetchWeights { weight: 0 }
            } else {
                last
            }
            &&& counts.after(UpdateAction::FetchWeights { weight: k }, done) == (
            UpdateAction::FetchGradients { weight: k })
            &&& counts.after(UpdateAction::FetchGradients { weight: k }, true) == (
            UpdateAction::ReduceGradients { weight: k })
            &&& counts.after(UpdateAction::FetchGradients { weight: k }, false) == next_weight
            &&& counts.after(UpdateAction::ReduceGradients { weight: k }, done) == (
            UpdateAction::UpdateState { weight: k })
            &&& counts.after(UpdateAction::UpdateState { weight: k }, done) == (
            UpdateAction::ScatterWeights { weight: k })
            &&& counts.after(UpdateAction::ScatterWeights { weight: k }, done) == next_weight
            &&& counts.after(UpdateAction::PostUpdate { index: k }, done) == if next < post {
                UpdateAction::PostUpdate { index: next }
            } else {
                UpdateAction::Finished
            }
            &&& counts.after(UpdateAction::Finished, done) is Finished
        }),
{
}

/// An action is one of an update where it is about a change or a weight that there is.
pub proof fn law_actions_of_update<G, S: OptimiserState, U>(
    optimiser: Optimiser<G, S, U>,
    weights: nat,
    k: usize,
)
    ensures
        ({
            let counts = optimiser.counts(weights);
            &&& counts.has(UpdateAction::PreUpdate { index: k }) <==> k
                < optimiser.pre_update@.len()
            &&& counts.has(UpdateAction::ListWeights)
            &&& counts.has(UpdateAction::FetchWeights { weight: k }) <==> k < weights
            &&& counts.has(UpdateAction::FetchGradients { weight: k }) <==> k < weights
            &&& counts.has(UpdateAction::ReduceGradients { weight: k }) <==> k < weights
            &&& counts.has(UpdateAction::UpdateState { weight: k }) <==> k < weights
            &&& counts.has(UpdateAction::ScatterWeights { weight: k }) <==> k < weights
            &&& counts.has(UpdateAction::PostUpdate { index: k }) <==> k
                < optimiser.post_update@.len()
            &&& counts.has(UpdateAction::Finished)
        }),
{
}

/// The work on weights is that on the first, then that on the others. A weight is fetched, then
/// its gradients; where it has some, they are summed, the state updates it, and it is copied.
pub proof fn law_work_on_weights(gradients: Seq<bool>, weight: nat, w: usize)
    ensures
        weight_work(w, false) == seq![
            UpdateAction::FetchWeights { weight: w },
            UpdateAction::FetchGradients { weight: w },
        ],
        weight_work(w, true) == seq![
            UpdateAction::FetchWeights { weight: w },
            UpdateAction::FetchGradients { weight: w },
            UpdateAction::ReduceGradients { weight: w },
            UpdateAction::UpdateState { weight: w },
            UpdateAction::ScatterWeights { weight: w },
        ],
        weight >= gradients.len() ==> weights_work(gradients, weight).len() == 0,
        weight < gradients.len() ==> weights_work(gradients, weight) == weight_work(
            weight as usize,
            gradients[weight as int],
        ) + weights_work(gradients, weight + 1),
{
    assert(weight_work(w, true) =~= seq![
        UpdateAction::FetchWeights { weight: w },
        UpdateAction::FetchGradients { weight: w },
        UpdateAction::ReduceGradients { weight: w },
        UpdateAction::UpdateState { weight: w },
        UpdateAction::ScatterWeights { weight: w },
    ]);
}

/// Weights are loaded from the given file, in the given form, and then each is copied to all
/// devices, in order. A checkpoint's weights stand in its directory; the states follow them, from
/// the same directory and in the same form.
pub proof fn law_loading(weights: nat, path: Seq<char>, old_format: bool, i: int)
    requires
        weights <= usize::MAX,
    ensures
        weights_path(path) == path + "/weights.bin"@,
        weights_load(weights, path, old_format).len() == weights + 1,
        weights_load(weights, path, old_format)[0] == (LoadActionView::LoadWeights {
            path,
            old_format,
        }),
        0 <= i < weights ==> weights_load(weights, path, old_format)[i + 1] == (
        LoadActionView::ScatterWeights { weight: i as usize }),
        checkpoint_load(weights, path, old_format).len() == weights + 2,
        checkpoint_load(weights, path, old_format)[0] == (LoadActionView::LoadWeights {
            path: path + "/weights.bin"@,
            old_format,
        }),
        0 <= i < weights ==> checkpoint_load(weights, path, old_format)[i + 1] == (
        LoadActionView::ScatterWeights { weight: i as usize }),
        checkpoint_load(weights, path, old_format)[weights + 1int] == (LoadActionView::LoadState {
            path,
            old_format,
        }),
{
}

/// Actions and files are looked at as they are, with texts as characters.
pub proof fn law_views<B>(action: LoadAction, file: CheckpointFile<B>)
    ensures
        match action {
            LoadAction::LoadWeights { path, old_format } => action@
                == (LoadActionView::LoadWeights { path: path@, old_format }),
            LoadAction::ScatterWeights { weight } => action@ == (LoadActionView::ScatterWeights {
                weight,
            }),
            LoadAction::LoadState { path, old_format } => action@ == (LoadActionView::LoadState {
                path: path@,
                old_format,
            }),
        },
        file@.path == file.path@,
        match file.content {
            FileContent::Buffer { buffer, ids } => file@.content == (FileContentView::Buffer {
                buffer,
                ids: Seq::new(ids@.len(), |i: int| ids@[i]@),
            }),
            FileContent::Text(text) => file@.content == FileContentView::<B>::Text(text@),
        },
{
    match file.content {
        FileContent::Buffer { buffer, ids } => {
            assert(names(ids@) =~= Seq::new(ids@.len(), |i: int| ids@[i]@));
        },
        FileContent::Text(_) => {},
    }
}

/// To set parameters no times changes nothing; to set them once more is to set a copy of them on
/// what came of the times before.
pub proof fn law_setting_parameters<S: OptimiserState>(
    before: S,
    params: S::Params,
    after: S,
    n: nat,
)
    ensures
        set_with(before, params, after) <==> exists|copy: S::Params| #[trigger]
            cloned(params, copy) && before.takes_params(copy, after),
        set_times(before, params, after, 0) <==> after == before,
        set_times(before, params, after, n + 1) <==> exists|mid: S|
            set_times(before, params, mid, n) && #[trigger] set_with(mid, params, after),
{
    if set_times(before, params, after, n + 1) {
        let mid = choose|mid: S|
            set_times(before, params, mid, ((n + 1) - 1) as nat) && #[trigger] set_with(
                mid,
                params,
                after,
            );
        assert(((n + 1) - 1) as nat == n);
        assert(set_with(mid, params, after));
    }
    if exists|mid: S| set_times(before, params, mid, n) && #[trigger] set_with(mid, params, after) {
        let mid = choose|mid: S|
            set_times(before, params, mid, n) && #[trigger] set_with(mid, params, after);
        assert(set_times(before, params, mid, ((n + 1) - 1) as nat));
        assert(set_with(mid, params, after));
    }
}

} // verus!
