//! The actor driver bound to a seat: wraps the state machine of one actor
//! together with its identity and the append-only history of visited
//! phases.

use crate::results::ResultsStore;
use crate::state_machine::ActorState;
use crate::state_machine::State;
use crate::state_machine::StateMachine;
use crate::table::Table;
use crate::table::TableInteraction;
use crate::thinking::Thinking;
use vstd::pervasive::arbitrary;
use vstd::prelude::*;

verus! {

/// One actor: its seat-derived id, its live state machine, and the ordered
/// record of every phase it has visited.
#[derive(Debug)]
pub struct Philosopher {
    id: usize,
    sm: Option<ActorState>,
    history: Vec<State>,
}

impl Philosopher {
    /// A driver holds a live machine at all times.
    pub closed spec fn wf(&self) -> bool {
        self.sm is Some
    }

    /// The live state machine.
    pub closed spec fn machine(&self) -> ActorState {
        match self.sm {
            Some(m) => m,
            None => arbitrary(),
        }
    }

    /// The actor's identity.
    pub closed spec fn id_spec(&self) -> usize {
        self.id
    }

    /// The phases visited so far, in step order.
    pub closed spec fn history_seq(&self) -> Seq<State> {
        self.history@
    }

    /// A fresh actor at the given seat: id taken from the seat's position,
    /// machine at the start phase, history holding that phase's tag.
    pub fn new(action: TableInteraction) -> (philosopher: Philosopher)
        ensures
            philosopher.wf(),
            philosopher.id_spec() == action.position,
            philosopher.machine() == ActorState::Thinking(Thinking { table_interaction: action }),
            philosopher.history_seq() == seq![State::Thinking],
    {
        let mut philosopher = Philosopher {
            id: action.position,
            sm: Some(ActorState::at_seat(action)),
            history: Vec::new(),
        };
        let tag = philosopher.state();
        philosopher.history.push(tag);
        philosopher
    }

    /// Advances the machine one transition against `table` and appends the
    /// resulting phase's tag to the history.
    pub fn act(&mut self, table: &mut Table)
        requires
            old(self).wf(),
            old(table)@.len() >= 1,
            old(self).machine().wf(old(table)@.len() as int),
        ensures
            final(self).wf(),
            final(self).id_spec() == old(self).id_spec(),
            final(self).machine() == old(self).machine().step(old(table)@).0,
            final(table)@ == old(self).machine().step(old(table)@).1,
            final(table)@.len() == old(table)@.len(),
            final(self).machine().wf(old(table)@.len() as int),
            final(self).history_seq() == old(self).history_seq().push(
                final(self).machine().tag(),
            ),
    {
        let machine = self.sm.take().unwrap();
        let next = machine.transition(table);
        let tag = next.state();
        self.sm = Some(next);
        self.history.push(tag);
    }

    /// The tag of the current phase.
    pub fn state(&self) -> (s: State)
        requires
            self.wf(),
        ensures
            s == self.machine().tag(),
    {
        match self.sm.as_ref().unwrap() {
            ActorState::Thinking(_) => State::Thinking,
            ActorState::LeftThinking(_) => State::LeftThinking,
            ActorState::RightThinking(_) => State::RightThinking,
            ActorState::Eating(_) => State::Eating,
        }
    }

    /// The recorded history, ordered as produced.
    pub fn history(&self) -> (history: &Vec<State>)
        ensures
            history@ == self.history_seq(),
    {
        &self.history
    }

    /// Publishes a copy of the finished history into `store` under the
    /// actor's id.
    pub fn write(&self, store: &mut ResultsStore)
        requires
            old(store).wf(),
        ensures
            final(store).wf(),
            old(store).contains_id(self.id_spec()) ==> final(store).entries_seq() == old(
                store,
            ).entries_seq().update(
                old(store).index_of(self.id_spec()),
                (self.id_spec(), self.history_seq()),
            ),
            !old(store).contains_id(self.id_spec()) ==> final(store).entries_seq() == old(
                store,
            ).entries_seq().push((self.id_spec(), self.history_seq())),
            final(store).contains_id(self.id_spec()),
            final(store).history_of(self.id_spec()) == self.history_seq(),
    {
        let mut copy: Vec<State> = Vec::new();
        let count = self.history.len();
        let mut next: usize = 0;
        while next < count
            invariant
                count == self.history.len(),
                next <= count,
                copy@ == self.history@.take(next as int),
            decreases count - next,
        {
            copy.push(self.history[next]);
            proof {
                assert(copy@ =~= self.history@.take(next + 1));
            }
            next = next + 1;
        }
        proof {
            assert(copy@ =~= self.history@);
        }
        store.insert(self.id, copy);
    }

    /// The actor's identity.
    pub fn id(&self) -> (id: usize)
        ensures
            id == self.id_spec(),
    {
        self.id
    }
}

} // verus!
