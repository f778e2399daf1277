//! The optimiser of a network: one state for each weight, and what is to be done when.
//!
//! The matrices live on a device and the weights in a graph, both out of reach here. So where
//! work on them is needed, a function says which, the caller does it, and the outcome comes
//! back as an argument of the next call.

pub mod laws;
pub mod network_laws;
pub mod nnue_clip;
pub mod nnue_clip_laws;
pub mod ranger21;
pub mod ranger21_calls;
pub mod ranger21_checkpoints;
pub mod ranger21_files;
pub mod ranger21_laws;
pub mod state;
pub mod update_laws;
pub mod wrap;
pub mod wrap_laws;

pub use self::state::{
    referred, CheckpointFile, CheckpointFileView, FileContent, FileContentView, MatrixShape,
    OptimiserState, StoredError,
};
pub use self::wrap::WrapOptimiser;
use crate::order::names;
use crate::state_map::{has_id, ids, StateMap};
use crate::text::joined;
use vstd::prelude::*;

verus! {

/// A further change of the weights, before or after the updates of the states.
pub trait AdditionalUpdate {
    /// A piece of work on the weights.
    type Work;

    /// The work that the change consists of.
    spec fn work(&self) -> Seq<Self::Work>;

    /// The work to be done now, in order and up to the first failure.
    fn apply_update(&mut self) -> (work: Vec<Self::Work>)
        ensures
            work@ == old(self).work(),
    ;
}

/// A weight as the graph has it.
#[derive(Debug)]
pub struct WeightInfo {
    pub id: String,
    pub shape: MatrixShape,
}

/// The names of weights.
pub open spec fn weight_names(weights: Seq<WeightInfo>) -> Seq<Seq<char>> {
    weights.map_values(|w: WeightInfo| w.id@)
}

/// Whether an optimiser can be made for these weights: none is batched, and each has a name of
/// its own.
pub open spec fn are_optimisable(weights: Seq<WeightInfo>) -> bool {
    &&& forall|i: int| 0 <= i < weights.len() ==> (#[trigger] weights[i]).shape.batch_size is None
    &&& weight_names(weights).no_duplicates()
}

/// Whether an optimiser can be made for these weights.
pub fn check_weights(weights: &Vec<WeightInfo>) -> (ok: bool)
    ensures
        ok == are_optimisable(weights@),
{
    let ghost all = weight_names(weights@);
    let mut i: usize = 0;
    while i < weights.len()
        invariant
            all == weight_names(weights@),
            i <= weights.len(),
            forall|k: int| 0 <= k < i ==> (#[trigger] weights@[k]).shape.batch_size is None,
            forall|j: int, k: int| 0 <= j < k < i ==> #[trigger] all[j] != #[trigger] all[k],
        decreases weights.len() - i,
    {
        if weights[i].shape.batch_size.is_some() {
            return false;
        }
        let mut j: usize = 0;
        while j < i
            invariant
                all == weight_names(weights@),
                j <= i < weights.len(),
                forall|k: int| 0 <= k < j ==> #[trigger] all[k] != all[i as int],
            decreases i - j,
        {
            assert(all[j as int] == weights@[j as int].id@);
            assert(all[i as int] == weights@[i as int].id@);
            if weights[j].id == weights[i].id {
                return false;
            }
            j = j + 1;
        }
        i = i + 1;
    }
    true
}

/// Whether `state` is a new state with a copy of these parameters.
pub open spec fn created_with<S: OptimiserState>(
    params: S::Params,
    size: usize,
    state: S,
) -> bool {
    exists|p: S::Params| #[trigger] cloned(params, p) && state.created(size, p)
}

/// Whether `after` is `before` with a copy of these parameters.
pub open spec fn set_with<S: OptimiserState>(before: S, params: S::Params, after: S) -> bool {
    exists|p: S::Params| #[trigger] cloned(params, p) && before.takes_params(p, after)
}

/// Whether `after` is `before` with copies of these parameters set `n` times over.
pub open spec fn set_times<S: OptimiserState>(
    before: S,
    params: S::Params,
    after: S,
    n: nat,
) -> bool
    decreases n,
{
    if n == 0 {
        after == before
    } else {
        exists|mid: S|
            set_times(before, params, mid, (n - 1) as nat) && #[trigger] set_with(
                mid,
                params,
                after,
            )
    }
}

/// How often `id` stands among `all`.
pub open spec fn occurrences(all: Seq<Seq<char>>, id: Seq<char>) -> nat
    decreases all.len(),
{
    if all.len() == 0 {
        0
    } else {
        occurrences(all.drop_last(), id) + (if all.last() == id {
            1nat
        } else {
            0nat
        })
    }
}

/// What an update of the network asks for.
#[derive(Clone, Copy, Debug, PartialEq, Eq, Structural)]
pub enum UpdateAction {
    /// Apply one of the changes before the updates.
    PreUpdate { index: usize },
    /// List the names of the graph's weights. The actions on weights count by this list.
    ListWeights,
    /// Get the values of a weight.
    FetchWeights { weight: usize },
    /// Get the gradients of a weight. Where there are none, the weight is left as it is.
    FetchGradients { weight: usize },
    /// Sum the gradients of a weight over all devices, on the first.
    ReduceGradients { weight: usize },
    /// Update the weight on the first device by its state, which `state_of` finds.
    UpdateState { weight: usize },
    /// Copy the values of a weight from the first device to the others.
    ScatterWeights { weight: usize },
    /// Apply one of the changes after the updates.
    PostUpdate { index: usize },
    /// Nothing is left to do.
    Finished,
}

/// How many changes there are before and after the updates, and how many weights.
pub struct UpdateCounts {
    pub pre: nat,
    pub weights: nat,
    pub post: nat,
}

impl UpdateCounts {
    /// The change after the updates at this place, or the end.
    pub open spec fn at_post(self, index: int) -> UpdateAction {
        if index < self.post {
            UpdateAction::PostUpdate { index: index as usize }
        } else {
            UpdateAction::Finished
        }
    }

    /// The first work on this weight, or what comes after all weights.
    pub open spec fn at_weight(self, weight: int) -> UpdateAction {
        if weight < self.weights {
            UpdateAction::FetchWeights { weight: weight as usize }
        } else {
            self.at_post(0)
        }
    }

    /// The change before the updates at this place, or what comes after them.
    pub open spec fn at_pre(self, index: int) -> UpdateAction {
        if index < self.pre {
            UpdateAction::PreUpdate { index: index as usize }
        } else {
            UpdateAction::ListWeights
        }
    }

    /// Whether an action is about something that there is.
    pub open spec fn has(self, action: UpdateAction) -> bool {
        match action {
            UpdateAction::PreUpdate { index } => index < self.pre,
            UpdateAction::ListWeights => true,
            UpdateAction::FetchWeights { weight } => weight < self.weights,
            UpdateAction::FetchGradients { weight } => weight < self.weights,
            UpdateAction::ReduceGradients { weight } => weight < self.weights,
            UpdateAction::UpdateState { weight } => weight < self.weights,
            UpdateAction::ScatterWeights { weight } => weight < self.weights,
            UpdateAction::PostUpdate { index } => index < self.post,
            UpdateAction::Finished => true,
        }
    }

    /// What comes after an action that was done, or, of gradients, that there are none.
    pub open spec fn after(self, action: UpdateAction, done: bool) -> UpdateAction {
        match action {
            UpdateAction::PreUpdate { index } => self.at_pre(index + 1),
            UpdateAction::ListWeights => self.at_weight(0),
            UpdateAction::FetchWeights { weight } => UpdateAction::FetchGradients { weight },
            UpdateAction::FetchGradients { weight } => if done {
                UpdateAction::ReduceGradients { weight }
            } else {
                self.at_weight(weight + 1)
            },
            UpdateAction::ReduceGradients { weight } => UpdateAction::UpdateState { weight },
            UpdateAction::UpdateState { weight } => UpdateAction::ScatterWeights { weight },
            UpdateAction::ScatterWeights { weight } => self.at_weight(weight + 1),
            UpdateAction::PostUpdate { index } => self.at_post(index + 1),
            UpdateAction::Finished => UpdateAction::Finished,
        }
    }
}

/// What loading asks for, in order and up to the first failure.
#[derive(Debug)]
pub enum LoadAction {
    /// Load the weights on the first device from a file.
    LoadWeights { path: String, old_format: bool },
    /// Copy the values of a weight from the first device to the others.
    ScatterWeights { weight: usize },
    /// Load the states from a checkpoint.
    LoadState { path: String, old_format: bool },
}

/// What loading asks for, with paths as characters.
pub enum LoadActionView {
    LoadWeights { path: Seq<char>, old_format: bool },
    ScatterWeights { weight: usize },
    LoadState { path: Seq<char>, old_format: bool },
}

impl View for LoadAction {
    type V = LoadActionView;

    open spec fn view(&self) -> LoadActionView {
        match self {
            LoadAction::LoadWeights { path, old_format } => LoadActionView::LoadWeights {
                path: path@,
                old_format: *old_format,
            },
            LoadAction::ScatterWeights { weight } => LoadActionView::ScatterWeights {
                weight: *weight,
            },
            LoadAction::LoadState { path, old_format } => LoadActionView::LoadState {
                path: path@,
                old_format: *old_format,
            },
        }
    }
}

/// The weights are loaded from a file, then each goes from the first device to the others.
pub open spec fn weights_load(weights: nat, path: Seq<char>, old_format: bool) -> Seq<
    LoadActionView,
> {
    seq![LoadActionView::LoadWeights { path, old_format }] + Seq::new(
        weights,
        |i: int| LoadActionView::ScatterWeights { weight: i as usize },
    )
}

/// The weights of a checkpoint are loaded, then the states.
pub open spec fn checkpoint_load(weights: nat, path: Seq<char>, old_format: bool) -> Seq<
    LoadActionView,
> {
    weights_load(weights, weights_path(path), old_format).push(
        LoadActionView::LoadState { path, old_format },
    )
}

/// Where a checkpoint has the weights.
pub open spec fn weights_path(path: Seq<char>) -> Seq<char> {
    path + "/weights.bin"@
}

fn weights_file(path: &str) -> (file: String)
    ensures
        file@ == weights_path(path@),
{
    joined(path, "/weights.bin")
}

/// A checkpoint of a network: the weights come first, then the files of the states, in order and
/// up to the first failure.
#[derive(Debug)]
pub struct NetworkCheckpoint<B> {
    pub weights_path: String,
    pub files: Vec<CheckpointFile<B>>,
}

/// The states of a network's weights, and the changes around their updates.
///
/// The graph is carried along and never read.
pub struct Optimiser<G, S, U> {
    pub graph: G,
    pub state: StateMap<S>,
    pub pre_update: Vec<U>,
    pub post_update: Vec<U>,
}

impl<G, S: OptimiserState, U> Optimiser<G, S, U> {
    /// No weight has two states.
    pub open spec fn wf(&self) -> bool {
        self.state.wf()
    }

    /// Whether there is a new state for each of these weights, in order and under its name, and
    /// no change around the updates.
    pub open spec fn is_new(
        &self,
        graph: G,
        weights: Seq<WeightInfo>,
        params: S::Params,
    ) -> bool {
        &&& self.wf()
        &&& self.graph == graph
        &&& ids(self.state@) == weight_names(weights)
        &&& forall|i: int|
            0 <= i < weights.len() ==> created_with(
                params,
                weights[i].shape.size,
                (#[trigger] self.state@[i]).1,
            )
        &&& self.pre_update@.len() == 0
        &&& self.post_update@.len() == 0
    }

    /// How much an update of this many weights goes over.
    pub open spec fn counts(&self, weights: nat) -> UpdateCounts {
        UpdateCounts { pre: self.pre_update@.len(), weights, post: self.post_update@.len() }
    }

    /// A new state for each weight, or the device's error. `allocated` says whether the device
    /// has made the buffers of all states, in order and up to the first failure.
    pub fn new<E>(
        graph: G,
        weights: &Vec<WeightInfo>,
        params: S::Params,
        allocated: Result<(), E>,
    ) -> (optimiser: Result<Self, E>)
        requires
            allocated is Ok ==> are_optimisable(weights@),
        ensures
            match allocated {
                Ok(_) => optimiser is Ok && optimiser->Ok_0.is_new(graph, weights@, params),
                Err(e) => optimiser == Err::<Self, E>(e),
            },
    {
        match allocated {
            Err(e) => {
                return Err(e);
            },
            Ok(_) => {},
        }
        let mut state: StateMap<S> = StateMap::new();
        let ghost all = weight_names(weights@);
        let mut i: usize = 0;
        while i < weights.len()
            invariant
                all == weight_names(weights@),
                are_optimisable(weights@),
                allocated is Ok,
                i <= weights.len(),
                state.wf(),
                state@.len() == i,
                forall|j: int| 0 <= j < i ==> (#[trigger] state@[j]).0 == all[j],
                forall|j: int|
                    0 <= j < i ==> created_with(
                        params,
                        weights@[j].shape.size,
                        (#[trigger] state@[j]).1,
                    ),
            decreases weights.len() - i,
        {
            let weight: &WeightInfo = &weights[i];
            let copy: S::Params = params.clone();
            let made: Result<(), E> = Ok(());
            let single: S = match S::new(weight.shape.size, copy, made) {
                Err(e) => {
                    return Err(e);
                },
                Ok(single) => single,
            };
            let ghost before = state@;
            assert(!has_id(before, weight.id@)) by {
                if has_id(before, weight.id@) {
                    let j = choose|j: int| 0 <= j < before.len() && (#[trigger] before[j]).0
                        == weight.id@;
                    assert(all[j] == all[i as int]);
                }
            }
            assert(cloned(params, copy));
            state.insert(weight.id.clone(), single);
            assert(created_with(params, weight.shape.size, single));
            i = i + 1;
        }
        assert(ids(state@) =~= all);
        Ok(Optimiser { graph, state, pre_update: Vec::new(), post_update: Vec::new() })
    }

    /// Adds a change before the updates of the states, after those that there are.
    pub fn add_pre_update(&mut self, additional: U)
        ensures
            final(self).pre_update@ == old(self).pre_update@.push(additional),
            final(self).post_update == old(self).post_update,
            final(self).graph == old(self).graph,
            final(self).state == old(self).state,
    {
        self.pre_update.push(additional);
    }

    /// Adds a change after the updates of the states, after those that there are.
    pub fn add_post_update(&mut self, additional: U)
        ensures
            final(self).post_update@ == old(self).post_update@.push(additional),
            final(self).pre_update == old(self).pre_update,
            final(self).graph == old(self).graph,
            final(self).state == old(self).state,
    {
        self.post_update.push(additional);
    }

    /// Whether each of the given weights has a state.
    pub open spec fn knows_all(&self, weight_ids: Seq<Seq<char>>) -> bool {
        forall|i: int| 0 <= i < weight_ids.len() ==> has_id(self.state@, #[trigger] weight_ids[i])
    }

    /// Whether each of the given weights has a state.
    pub fn check_ids(&self, weight_ids: &Vec<String>) -> (ok: bool)
        ensures
            ok == self.knows_all(names(weight_ids@)),
    {
        let ghost all = names(weight_ids@);
        let mut i: usize = 0;
        while i < weight_ids.len()
            invariant
                all == names(weight_ids@),
                i <= weight_ids.len(),
                forall|j: int| 0 <= j < i ==> has_id(self.state@, #[trigger] all[j]),
            decreases weight_ids.len() - i,
        {
            assert(all[i as int] == weight_ids@[i as int]@);
            match self.state.find(weight_ids[i].as_str()) {
                None => {
                    return false;
                },
                Some(_) => {},
            }
            i = i + 1;
        }
        true
    }

    /// Where the state of a listed weight stands.
    pub fn state_of(&self, weight_ids: &Vec<String>, weight: usize) -> (place: usize)
        requires
            weight < weight_ids@.len(),
            has_id(self.state@, names(weight_ids@)[weight as int]),
        ensures
            place < self.state@.len(),
            self.state@[place as int].0 == names(weight_ids@)[weight as int],
    {
        assert(names(weight_ids@)[weight as int] == weight_ids@[weight as int]@);
        match self.state.find(weight_ids[weight].as_str()) {
            Some(place) => place,
            None => 0,
        }
    }

    /// Starts an update.
    pub fn update(&self) -> (action: UpdateAction)
        ensures
            forall|weights: nat| action == #[trigger] self.counts(weights).at_pre(0),
    {
        self.pre_action(0)
    }

    fn pre_action(&self, index: usize) -> (action: UpdateAction)
        ensures
            forall|weights: nat| action == #[trigger] self.counts(weights).at_pre(index as int),
    {
        if index < self.pre_update.len() {
            UpdateAction::PreUpdate { index }
        } else {
            UpdateAction::ListWeights
        }
    }

    fn weight_action(&self, weights: usize, weight: usize) -> (action: UpdateAction)
        ensures
            action == self.counts(weights as nat).at_weight(weight as int),
    {
        if weight < weights {
            UpdateAction::FetchWeights { weight }
        } else {
            self.post_action(0)
        }
    }

    fn post_action(&self, index: usize) -> (action: UpdateAction)
        ensures
            forall|weights: nat| action == #[trigger] self.counts(weights).at_post(index as int),
    {
        if index < self.post_update.len() {
            UpdateAction::PostUpdate { index }
        } else {
            UpdateAction::Finished
        }
    }

    /// Goes on with an update after `completed`, or ends it with the error that came. That a
    /// weight has no gradients is no error. The names are those that were listed; before that
    /// they do not count. A weight whose values were got has a state.
    pub fn resume_update<E>(
        &self,
        weight_ids: &Vec<String>,
        completed: UpdateAction,
        outcome: Result<(), E>,
    ) -> (next: Result<UpdateAction, E>)
        requires
            self.counts(weight_ids@.len()).has(completed),
            completed matches UpdateAction::FetchWeights { weight } ==> outcome is Ok ==> has_id(
                self.state@,
                names(weight_ids@)[weight as int],
            ),
        ensures
            next == match outcome {
                Ok(_) => Ok::<UpdateAction, E>(
                    self.counts(weight_ids@.len()).after(completed, true),
                ),
                Err(e) => if completed is FetchGradients {
                    Ok::<UpdateAction, E>(self.counts(weight_ids@.len()).after(completed, false))
                } else {
                    Err::<UpdateAction, E>(e)
                },
            },
    {
        let weights: usize = weight_ids.len();
        assert(self.pre_update.len() <= usize::MAX && self.post_update.len() <= usize::MAX);
        match outcome {
            Err(e) => match completed {
                UpdateAction::FetchGradients { weight } => Ok(
                    self.weight_action(weights, weight + 1),
                ),
                _ => Err(e),
            },
            Ok(_) => Ok(
                match completed {
                    UpdateAction::PreUpdate { index } => self.pre_action(index + 1),
                    UpdateAction::ListWeights => self.weight_action(weights, 0),
                    UpdateAction::FetchWeights { weight } => UpdateAction::FetchGradients {
                        weight,
                    },
                    UpdateAction::FetchGradients { weight } => UpdateAction::ReduceGradients {
                        weight,
                    },
                    UpdateAction::ReduceGradients { weight } => UpdateAction::UpdateState {
                        weight,
                    },
                    UpdateAction::UpdateState { weight } => UpdateAction::ScatterWeights {
                        weight,
                    },
                    UpdateAction::ScatterWeights { weight } => self.weight_action(
                        weights,
                        weight + 1,
                    ),
                    UpdateAction::PostUpdate { index } => self.post_action(index + 1),
                    UpdateAction::Finished => UpdateAction::Finished,
                },
            ),
        }
    }

    /// Resets the states, one per call: the state at `position`, once the buffers of the state
    /// before it are filled with zeros. The buffers that come back are next, in order and up to
    /// the first failure; where none come back, all states are reset.
    pub fn reset_state<E>(&mut self, position: usize, outcome: Result<(), E>) -> (next: Result<
        Option<Vec<S::Buffer>>,
        E,
    >)
        requires
            old(self).wf(),
        ensures
            final(self).wf(),
            final(self).graph == old(self).graph,
            final(self).pre_update == old(self).pre_update,
            final(self).post_update == old(self).post_update,
            match outcome {
                Err(e) => next == Err::<Option<Vec<S::Buffer>>, E>(e) && final(self).state@ == old(
                    self,
                ).state@,
                Ok(_) => if position < old(self).state@.len() {
                    &&& next is Ok && next->Ok_0 is Some && (next->Ok_0->0)@ == S::buffers()
                    &&& final(self).state@ == old(self).state@.update(
                        position as int,
                        (
                            old(self).state@[position as int].0,
                            old(self).state@[position as int].1.cleared(),
                        ),
                    )
                } else {
                    next == Ok::<Option<Vec<S::Buffer>>, E>(None) && final(self).state@ == old(
                        self,
                    ).state@
                },
            },
    {
        match outcome {
            Err(e) => Err(e),
            Ok(_) => {
                if position < self.state.len() {
                    let single: &mut S = self.state.at_mut(position);
                    Ok(Some(single.reset()))
                } else {
                    Ok(None)
                }
            },
        }
    }

    /// Replaces the parameters of one weight's state.
    pub fn set_params_for_weight(&mut self, id: &str, params: S::Params)
        requires
            old(self).wf(),
            has_id(old(self).state@, id@),
        ensures
            final(self).wf(),
            final(self).graph == old(self).graph,
            final(self).pre_update == old(self).pre_update,
            final(self).post_update == old(self).post_update,
            ids(final(self).state@) == ids(old(self).state@),
            forall|i: int|
                0 <= i < old(self).state@.len() ==> if (#[trigger] old(self).state@[i]).0 == id@ {
                    old(self).state@[i].1.takes_params(params, final(self).state@[i].1)
                } else {
                    final(self).state@[i] == old(self).state@[i]
                },
    {
        match self.state.find(id) {
            None => {},
            Some(place) => {
                let single: &mut S = self.state.at_mut(place);
                single.set_params(params);
            },
        }
        assert(ids(self.state@) =~= ids(old(self).state@));
    }

    /// Replaces the parameters of the states of the given weights, one after the other.
    pub fn set_params(&mut self, weight_ids: &Vec<String>, params: S::Params)
        requires
            old(self).wf(),
            old(self).knows_all(names(weight_ids@)),
        ensures
            final(self).wf(),
            final(self).graph == old(self).graph,
            final(self).pre_update == old(self).pre_update,
            final(self).post_update == old(self).post_update,
            ids(final(self).state@) == ids(old(self).state@),
            forall|i: int|
                0 <= i < old(self).state@.len() ==> set_times(
                    (#[trigger] old(self).state@[i]).1,
                    params,
                    final(self).state@[i].1,
                    occurrences(names(weight_ids@), old(self).state@[i].0),
                ),
    {
        let ghost all = names(weight_ids@);
        let mut k: usize = 0;
        assert(all.take(0) =~= seq![]);
        while k < weight_ids.len()
            invariant
                k <= weight_ids.len(),
                all == names(weight_ids@),
                self.wf(),
                old(self).knows_all(all),
                self.graph == old(self).graph,
                self.pre_update == old(self).pre_update,
                self.post_update == old(self).post_update,
                ids(self.state@) == ids(old(self).state@),
                forall|i: int|
                    0 <= i < old(self).state@.len() ==> set_times(
                        (#[trigger] old(self).state@[i]).1,
                        params,
                        self.state@[i].1,
                        occurrences(all.take(k as int), old(self).state@[i].0),
                    ),
            decreases weight_ids.len() - k,
        {
            let ghost before = self.state@;
            let ghost first = old(self).state@;
            let ghost id = all[k as int];
            assert(ids(before).len() == before.len() && ids(first).len() == first.len());
            assert(has_id(first, id));
            let ghost at = choose|i: int| 0 <= i < first.len() && (#[trigger] first[i]).0 == id;
            assert(ids(before)[at] == ids(first)[at]);
            assert(before[at].0 == id);
            let copy: S::Params = params.clone();
            self.set_params_for_weight(weight_ids[k].as_str(), copy);
            assert(all.take(k + 1).drop_last() =~= all.take(k as int));
            assert forall|i: int| 0 <= i < first.len() implies set_times(
                (#[trigger] first[i]).1,
                params,
                self.state@[i].1,
                occurrences(all.take(k + 1), first[i].0),
            ) by {
                assert(ids(before)[i] == ids(first)[i]);
                assert(before[i].0 == first[i].0);
                let n = occurrences(all.take(k as int), first[i].0);
                assert(set_times(first[i].1, params, before[i].1, n));
                assert(all.take(k + 1).last() == id);
                if first[i].0 == id {
                    assert(cloned(params, copy));
                    assert(set_with(before[i].1, params, self.state@[i].1));
                    assert(((n + 1) - 1) as nat == n);
                    assert(set_times(first[i].1, params, self.state@[i].1, n + 1));
                }
            }
            k = k + 1;
        }
        assert(all.take(k as int) =~= all);
    }

    /// What is to be written for a checkpoint in the directory `path`.
    pub fn write_to_checkpoint(&self, path: &str) -> (checkpoint: NetworkCheckpoint<S::Buffer>)
        ensures
            checkpoint.weights_path@ == weights_path(path@),
            checkpoint.files@.map_values(|f: CheckpointFile<S::Buffer>| f@) == S::checkpoint(
                self.state@,
                path@,
            ),
    {
        let map: StateMap<&S> = self.state.by_ref();
        assert(referred(map@) =~= self.state@);
        NetworkCheckpoint {
            weights_path: weights_file(path),
            files: S::write_to_checkpoint(&map, path),
        }
    }

    /// What is to be done to load a checkpoint from the directory `path`, for this many weights.
    pub fn load_from_checkpoint(&self, weights: usize, path: &str) -> (actions: Vec<LoadAction>)
        ensures
            actions@.map_values(|a: LoadAction| a@) == checkpoint_load(weights as nat, path@, false),
    {
        self.load_from_checkpoint_(weights, path, false)
    }

    /// What is to be done to load the weights from a file, for this many weights.
    pub fn load_weights_from_file(&self, weights: usize, path: &str) -> (actions: Vec<LoadAction>)
        ensures
            actions@.map_values(|a: LoadAction| a@) == weights_load(weights as nat, path@, false),
    {
        self.load_weights_from_file_(weights, path, false)
    }

    /// As `load_from_checkpoint`, where the files of the checkpoint are of the older form.
    pub fn load_from_old_format_checkpoint(&self, weights: usize, path: &str) -> (actions: Vec<
        LoadAction,
    >)
        ensures
            actions@.map_values(|a: LoadAction| a@) == checkpoint_load(weights as nat, path@, true),
    {
        self.load_from_checkpoint_(weights, path, true)
    }

    /// As `load_weights_from_file`, where the file is of the older form.
    pub fn load_old_format_weights_from_file(&self, weights: usize, path: &str) -> (actions: Vec<
        LoadAction,
    >)
        ensures
            actions@.map_values(|a: LoadAction| a@) == weights_load(weights as nat, path@, true),
    {
        self.load_weights_from_file_(weights, path, true)
    }

    fn load_weights_from_file_(&self, weights: usize, path: &str, old_format: bool) -> (actions:
        Vec<LoadAction>)
        ensures
            actions@.map_values(|a: LoadAction| a@) == weights_load(
                weights as nat,
                path@,
                old_format,
            ),
    {
        let mut actions: Vec<LoadAction> = Vec::new();
        actions.push(LoadAction::LoadWeights { path: path.to_owned(), old_format });
        let mut weight: usize = 0;
        assert(actions@.map_values(|a: LoadAction| a@) =~= weights_load(0, path@, old_format));
        while weight < weights
            invariant
                weight <= weights,
                actions@.map_values(|a: LoadAction| a@) == weights_load(
                    weight as nat,
                    path@,
                    old_format,
                ),
            decreases weights - weight,
        {
            let ghost before = actions@.map_values(|a: LoadAction| a@);
            actions.push(LoadAction::ScatterWeights { weight });
            proof {
                let scatter = LoadActionView::ScatterWeights { weight };
                assert(actions@.map_values(|a: LoadAction| a@) =~= before.push(scatter));
                assert(weights_load((weight + 1) as nat, path@, old_format) =~= before.push(
                    scatter,
                ));
            }
            weight = weight + 1;
        }
        actions
    }

    fn load_from_checkpoint_(&self, weights: usize, path: &str, old_format: bool) -> (actions: Vec<
        LoadAction,
    >)
        ensures
            actions@.map_values(|a: LoadAction| a@) == checkpoint_load(
                weights as nat,
                path@,
                old_format,
            ),
    {
        let file: String = weights_file(path);
        let mut actions: Vec<LoadAction> = self.load_weights_from_file_(
            weights,
            file.as_str(),
            old_format,
        );
        let ghost before = actions@.map_values(|a: LoadAction| a@);
        actions.push(LoadAction::LoadState { path: path.to_owned(), old_format });
        assert(actions@.map_values(|a: LoadAction| a@) =~= before.push(
            LoadActionView::LoadState { path: path@, old_format },
        ));
        actions
    }
}

} // verus!
