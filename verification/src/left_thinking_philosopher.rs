//! The philosopher phase that holds its left fork and acts directly
//! against a borrowed table.

use crate::eating_philosopher::EatingPhilosopher;
use crate::philosophers::AnyPhilosopher;
use crate::philosophers::Philosopher;
use crate::state_machine::State;
use crate::table::right_index;
use crate::table::Fork;
use crate::table::Table;
use crate::table::TableInteraction;
use crate::thinking_philosopher::ThinkingPhilosopher;
use vstd::prelude::*;

verus! {

/// A philosopher that has acquired its left fork and is attempting the
/// right.
#[derive(Debug, PartialEq, Eq, Structural)]
pub struct LeftThinkingPhilosopher {
    pub left_fork: Fork,
    pub seating_position: TableInteraction,
}

impl LeftThinkingPhilosopher {
    pub fn new(left_fork: Fork, seating_position: TableInteraction) -> (philosopher:
        LeftThinkingPhilosopher)
        ensures
            philosopher == (LeftThinkingPhilosopher { left_fork, seating_position }),
    {
        LeftThinkingPhilosopher { left_fork, seating_position }
    }

    /// Commits a fork acquired from the right slot: both forks in hand.
    pub fn take_right(self, fork: Fork) -> (next: EatingPhilosopher)
        ensures
            next == (EatingPhilosopher {
                left_fork: self.left_fork,
                right_fork: fork,
                seating_position: self.seating_position,
            }),
    {
        EatingPhilosopher::new(self.left_fork, fork, self.seating_position)
    }

    /// Retreats to thinking, handing the left fork back to the caller for
    /// return to the table.
    pub fn drop_left(self) -> (next: (ThinkingPhilosopher, Fork))
        ensures
            next.0 == (ThinkingPhilosopher { seating_position: self.seating_position }),
            next.1 == self.left_fork,
    {
        (ThinkingPhilosopher::new(self.seating_position), self.left_fork)
    }
}

impl Philosopher for LeftThinkingPhilosopher {
    open spec fn tag(&self) -> State {
        State::LeftThinking
    }

    open spec fn wf(&self, size: int) -> bool {
        self.seating_position.position < size
    }

    open spec fn step(&self, slots: Seq<Option<Fork>>) -> (AnyPhilosopher, Seq<Option<Fork>>) {
        let p = self.seating_position.position as int;
        let r = right_index(p, slots.len() as int);
        if slots[r] is Some {
            (
                AnyPhilosopher::Eating(EatingPhilosopher {
                    left_fork: self.left_fork,
                    right_fork: Fork {  },
                    seating_position: self.seating_position,
                }),
                slots.update(r, None),
            )
        } else {
            (
                AnyPhilosopher::Thinking(ThinkingPhilosopher {
                    seating_position: self.seating_position,
                }),
                slots.update(p, Some(self.left_fork)),
            )
        }
    }

    fn state(&self) -> State {
        State::LeftThinking
    }

    /// Tries the right fork: success starts eating, absence returns the
    /// held left fork to its slot and retreats to thinking.
    fn act(self, table: &mut Table) -> AnyPhilosopher {
        let seat = self.seating_position;
        match seat.get_right_fork(table) {
            None => {
                let (philosopher, fork) = self.drop_left();
                seat.return_left_fork(fork, table);
                AnyPhilosopher::Thinking(philosopher)
            },
            Some(fork) => AnyPhilosopher::Eating(self.take_right(fork)),
        }
    }
}

} // verus!
