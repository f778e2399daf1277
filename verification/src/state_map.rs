//! States that are found by name.

use crate::order::names;
use vstd::prelude::*;

verus! {

/// The names in `m`, in order.
pub open spec fn ids<S>(m: Seq<(Seq<char>, S)>) -> Seq<Seq<char>> {
    m.map_values(|e: (Seq<char>, S)| e.0)
}

/// Whether a state has the name `id`.
pub open spec fn has_id<S>(m: Seq<(Seq<char>, S)>, id: Seq<char>) -> bool {
    exists|i: int| 0 <= i < m.len() && (#[trigger] m[i]).0 == id
}

/// Whether no name stands twice.
pub open spec fn distinct_ids<S>(m: Seq<(Seq<char>, S)>) -> bool {
    forall|i: int, j: int| 0 <= i < j < m.len() ==> (#[trigger] m[i]).0 != (#[trigger] m[j]).0
}

/// States, each under a name of its own, in the order in which they came.
pub struct StateMap<S> {
    entries: Vec<(String, S)>,
}

impl<S> View for StateMap<S> {
    type V = Seq<(Seq<char>, S)>;

    closed spec fn view(&self) -> Seq<(Seq<char>, S)> {
        self.entries@.map_values(|e: (String, S)| (e.0@, e.1))
    }
}

impl<S> StateMap<S> {
    /// No name stands twice.
    pub open spec fn wf(&self) -> bool {
        distinct_ids(self@)
    }

    /// No states.
    pub fn new() -> (map: Self)
        ensures
            map.wf(),
            map@ == Seq::<(Seq<char>, S)>::empty(),
    {
        let map: StateMap<S> = StateMap { entries: Vec::new() };
        assert(map@ =~= Seq::<(Seq<char>, S)>::empty());
        map
    }

    /// How many states there are.
    pub fn len(&self) -> (n: usize)
        ensures
            n == self@.len(),
    {
        self.entries.len()
    }

    /// The name at a place.
    pub fn id(&self, i: usize) -> (id: &str)
        requires
            i < self@.len(),
        ensures
            id@ == self@[i as int].0,
    {
        self.entries[i].0.as_str()
    }

    /// The state at a place.
    pub fn at(&self, i: usize) -> (state: &S)
        requires
            i < self@.len(),
        ensures
            *state == self@[i as int].1,
    {
        &self.entries[i].1
    }

    /// The state at a place, to be changed.
    pub fn at_mut(&mut self, i: usize) -> (state: &mut S)
        requires
            i < old(self)@.len(),
        ensures
            *state == old(self)@[i as int].1,
            final(self)@ == old(self)@.update(i as int, (old(self)@[i as int].0, *final(state))),
    {
        let entry: &mut (String, S) = &mut self.entries[i];
        &mut entry.1
    }

    /// The place of the state named `id`.
    pub fn find(&self, id: &str) -> (place: Option<usize>)
        ensures
            match place {
                Some(i) => i < self@.len() && self@[i as int].0 == id@,
                None => !has_id(self@, id@),
            },
    {
        let name: String = id.to_owned();
        let mut i: usize = 0;
        while i < self.entries.len()
            invariant
                i <= self.entries.len(),
                name@ == id@,
                self@.len() == self.entries.len(),
                forall|j: int| 0 <= j < i ==> (#[trigger] self@[j]).0 != id@,
            decreases self.entries.len() - i,
        {
            assert(self@[i as int].0 == self.entries@[i as int].0@);
            if self.entries[i].0 == name {
                return Some(i);
            }
            i = i + 1;
        }
        None
    }

    /// Puts a state under the name `id`; the state that stood under it before comes back.
    pub fn insert(&mut self, id: String, state: S) -> (replaced: Option<S>)
        requires
            old(self).wf(),
        ensures
            final(self).wf(),
            !has_id(old(self)@, id@) ==> replaced is None && final(self)@ == old(self)@.push(
                (id@, state),
            ),
            forall|i: int|
                0 <= i < old(self)@.len() && (#[trigger] old(self)@[i]).0 == id@ ==> replaced
                    == Some(old(self)@[i].1) && final(self)@ == old(self)@.update(i, (id@, state)),
    {
        match self.find(id.as_str()) {
            None => {
                let ghost before = self@;
                self.entries.push((id, state));
                assert(self@ =~= before.push((id@, state)));
                None
            },
            Some(i) => {
                let mut state: S = state;
                let place: &mut S = self.at_mut(i);
                std::mem::swap(place, &mut state);
                Some(state)
            },
        }
    }

    /// The names of the states, in order.
    pub fn ids(&self) -> (list: Vec<String>)
        ensures
            names(list@) == ids(self@),
    {
        let mut list: Vec<String> = Vec::new();
        let mut i: usize = 0;
        while i < self.entries.len()
            invariant
                i <= self.entries.len(),
                list.len() == i,
                forall|j: int| 0 <= j < i ==> (#[trigger] list@[j])@ == self.entries@[j].0@,
            decreases self.entries.len() - i,
        {
            list.push(self.entries[i].0.clone());
            i = i + 1;
        }
        assert(names(list@) =~= ids(self@));
        list
    }

    /// The same states under the same names, by reference.
    pub fn by_ref(&self) -> (map: StateMap<&S>)
        ensures
            map@ == self@.map_values(|e: (Seq<char>, S)| (e.0, &e.1)),
    {
        let mut entries: Vec<(String, &S)> = Vec::new();
        let mut i: usize = 0;
        while i < self.entries.len()
            invariant
                i <= self.entries.len(),
                entries.len() == i,
                forall|j: int|
                    0 <= j < i ==> (#[trigger] entries@[j]).0@ == self.entries@[j].0@
                        && entries@[j].1 == &self.entries@[j].1,
            decreases self.entries.len() - i,
        {
            let entry: &(String, S) = &self.entries[i];
            entries.push((entry.0.clone(), &entry.1));
            i = i + 1;
        }
        let map: StateMap<&S> = StateMap { entries };
        assert(map@ =~= self@.map_values(|e: (Seq<char>, S)| (e.0, &e.1)));
        map
    }

    /// The names and the states, in order.
    pub(crate) fn into_entries(self) -> (entries: Vec<(String, S)>)
        ensures
            entries@.map_values(|e: (String, S)| (e.0@, e.1)) == self@,
    {
        self.entries
    }

    /// States under the given names, in the given order.
    pub(crate) fn from_entries(entries: Vec<(String, S)>) -> (map: Self)
        ensures
            map@ == entries@.map_values(|e: (String, S)| (e.0@, e.1)),
    {
        StateMap { entries }
    }
}

} // verus!
