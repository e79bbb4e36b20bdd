//! The philosopher phase that holds its right fork and acts directly
//! against a borrowed table.

use crate::eating_philosopher::EatingPhilosopher;
use crate::philosophers::AnyPhilosopher;
use crate::philosophers::Philosopher;
use crate::state_machine::State;
use crate::table::right_index;
use crate::table::Fork;
use crate::table::Table;
use crate::table::TableInteraction;
use crate::thinking_philosopher::ThinkingPhilosopher;
use vstd::prelude::*;

verus! {

/// A philosopher that has acquired its right fork and is attempting the
/// left.
#[derive(Debug, PartialEq, Eq, Structural)]
pub struct RightThinkingPhilosopher {
    pub right_fork: Fork,
    pub seating_position: TableInteraction,
}

impl RightThinkingPhilosopher {
    pub fn new(right_fork: Fork, seating_position: TableInteraction) -> (philosopher:
        RightThinkingPhilosopher)
        ensures
            philosopher == (RightThinkingPhilosopher { right_fork, seating_position }),
    {
        RightThinkingPhilosopher { right_fork, seating_position }
    }

    /// Commits a fork acquired from the left slot: both forks in hand.
    pub fn take_left(self, fork: Fork) -> (next: EatingPhilosopher)
        ensures
            next == (EatingPhilosopher {
                left_fork: fork,
                right_fork: self.right_fork,
                seating_position: self.seating_position,
            }),
    {
        EatingPhilosopher::new(fork, self.right_fork, self.seating_position)
    }

    /// Retreats to thinking, handing the right fork back to the caller for
    /// return to the table.
    pub fn drop_right(self) -> (next: (ThinkingPhilosopher, Fork))
        ensures
            next.0 == (ThinkingPhilosopher { seating_position: self.seating_position }),
            next.1 == self.right_fork,
    {
        (ThinkingPhilosopher::new(self.seating_position), self.right_fork)
    }
}

impl Philosopher for RightThinkingPhilosopher {
    open spec fn tag(&self) -> State {
        State::RightThinking
    }

    open spec fn wf(&self, size: int) -> bool {
        self.seating_position.position < size
    }

    open spec fn step(&self, slots: Seq<Option<Fork>>) -> (AnyPhilosopher, Seq<Option<Fork>>) {
        let p = self.seating_position.position as int;
        let r = right_index(p, slots.len() as int);
        if slots[p] is Some {
            (
                AnyPhilosopher::Eating(EatingPhilosopher {
                    left_fork: Fork {  },
                    right_fork: self.right_fork,
                    seating_position: self.seating_position,
                }),
                slots.update(p, None),
            )
        } else {
            (
                AnyPhilosopher::Thinking(ThinkingPhilosopher {
                    seating_position: self.seating_position,
                }),
                slots.update(r, Some(self.right_fork)),
            )
        }
    }

    fn state(&self) -> State {
        State::RightThinking
    }

    /// Tries the left fork: success starts eating, absence returns the
    /// held right fork to its slot and retreats to thinking.
    fn act(self, table: &mut Table) -> AnyPhilosopher {
        let seat = self.seating_position;
        match seat.get_left_fork(table) {
            None => {
                let (philosopher, fork) = self.drop_right();
                seat.return_right_fork(fork, table);
                AnyPhilosopher::Thinking(philosopher)
            },
            Some(fork) => AnyPhilosopher::Eating(self.take_left(fork)),
        }
    }
}

} // verus!
