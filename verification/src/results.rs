//! The results store: a mapping from actor id to that actor's finished
//! history, filled once per actor when its run loop completes.

use crate::state_machine::State;
use vstd::prelude::*;

verus! {

/// A mapping from actor id to recorded history, kept as insertion-ordered
/// entries with unique ids.
#[derive(Debug, PartialEq, Eq)]
pub struct ResultsStore {
    entries: Vec<(usize, Vec<State>)>,
}

impl ResultsStore {
    /// The entries as a sequence of id/history pairs, in insertion order.
    pub closed spec fn entries_seq(&self) -> Seq<(usize, Seq<State>)> {
        self.entries@.map_values(|e: (usize, Vec<State>)| (e.0, e.1@))
    }

    /// Ids are unique: each actor's history sits under exactly one key.
    pub open spec fn wf(&self) -> bool {
        forall|i: int, j: int|
            0 <= i < j < self.entries_seq().len() ==> (#[trigger] self.entries_seq()[i]).0 != (
            #[trigger] self.entries_seq()[j]).0
    }

    /// Whether some entry carries the id.
    pub open spec fn contains_id(&self, id: usize) -> bool {
        exists|i: int|
            0 <= i < self.entries_seq().len() && (#[trigger] self.entries_seq()[i]).0 == id
    }

    /// The position of the entry carrying `id`.
    pub open spec fn index_of(&self, id: usize) -> int {
        choose|i: int|
            0 <= i < self.entries_seq().len() && (#[trigger] self.entries_seq()[i]).0 == id
    }

    /// The history recorded under `id`.
    pub open spec fn history_of(&self, id: usize) -> Seq<State> {
        self.entries_seq()[self.index_of(id)].1
    }

    /// An empty store.
    pub fn new() -> (store: ResultsStore)
        ensures
            store.wf(),
            store.entries_seq().len() == 0,
    {
        ResultsStore { entries: Vec::new() }
    }

    /// How many actors have published a history.
    pub fn len(&self) -> (n: usize)
        ensures
            n == self.entries_seq().len(),
    {
        self.entries.len()
    }

    /// The id of the entry at `index`, in insertion order.
    pub fn id_at(&self, index: usize) -> (id: usize)
        requires
            index < self.entries_seq().len(),
        ensures
            id == self.entries_seq()[index as int].0,
    {
        self.entries[index].0
    }

    /// The history of the entry at `index`, in insertion order.
    pub fn history_at(&self, index: usize) -> (history: &Vec<State>)
        requires
            index < self.entries_seq().len(),
        ensures
            history@ == self.entries_seq()[index as int].1,
    {
        &self.entries[index].1
    }

    /// Inserts `history` under `id`, replacing in place any history already
    /// recorded under the same id and appending a new entry otherwise.
    pub fn insert(&mut self, id: usize, history: Vec<State>)
        requires
            old(self).wf(),
        ensures
            final(self).wf(),
            old(self).contains_id(id) ==> final(self).entries_seq() == old(
                self,
            ).entries_seq().update(old(self).index_of(id), (id, history@)),
            !old(self).contains_id(id) ==> final(self).entries_seq() == old(
                self,
            ).entries_seq().push((id, history@)),
            final(self).contains_id(id),
            final(self).history_of(id) == history@,
    {
        let count = self.entries.len();
        let mut scan: usize = 0;
        while scan < count
            invariant
                old(self).wf(),
                *self == *old(self),
                count == self.entries.len(),
                scan <= count,
                forall|i: int| 0 <= i < scan ==> (#[trigger] self.entries_seq()[i]).0 != id,
            decreases count - scan,
        {
            if self.entries[scan].0 == id {
                assert(self.entries_seq()[scan as int].0 == id);
                assert(old(self).index_of(id) == scan) by {
                    assert(old(self).contains_id(id));
                };
                self.entries[scan] = (id, history);
                proof {
                    assert(final(self).entries_seq() =~= old(self).entries_seq().update(
                        scan as int,
                        (id, history@),
                    ));
                    assert(final(self).entries_seq()[scan as int].0 == id);
                    assert(final(self).index_of(id) == scan);
                }
                return ;
            }
            scan = scan + 1;
        }
        self.entries.push((id, history));
        proof {
            assert(final(self).entries_seq() =~= old(self).entries_seq().push((id, history@)));
            assert(!old(self).contains_id(id));
            assert(final(self).entries_seq()[count as int].0 == id);
            assert(final(self).index_of(id) == count);
        }
    }

    /// Looks up the history recorded under `id`.
    pub fn get(&self, id: usize) -> (history: Option<&Vec<State>>)
        requires
            self.wf(),
        ensures
            match history {
                Some(h) => self.contains_id(id) && h@ == self.history_of(id),
                None => !self.contains_id(id),
            },
    {
        let count = self.entries.len();
        let mut scan: usize = 0;
        while scan < count
            invariant
                self.wf(),
                count == self.entries.len(),
                scan <= count,
                forall|i: int| 0 <= i < scan ==> (#[trigger] self.entries_seq()[i]).0 != id,
            decreases count - scan,
        {
            if self.entries[scan].0 == id {
                assert(self.entries_seq()[scan as int].0 == id);
                assert(self.index_of(id) == scan) by {
                    assert(self.contains_id(id));
                };
                return Some(&self.entries[scan].1);
            }
            scan = scan + 1;
        }
        None
    }
}

} // verus!
