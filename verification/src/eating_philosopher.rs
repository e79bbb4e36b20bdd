//! The critical-section philosopher phase, acting directly against a
//! borrowed table.

use crate::left_thinking_philosopher::LeftThinkingPhilosopher;
use crate::philosophers::AnyPhilosopher;
use crate::philosophers::Philosopher;
use crate::right_thinking_philosopher::RightThinkingPhilosopher;
use crate::state_machine::State;
use crate::table::Fork;
use crate::table::Table;
use crate::table::TableInteraction;
use vstd::prelude::*;

verus! {

/// A philosopher that holds both adjacent forks: the critical section.
#[derive(Debug, PartialEq, Eq, Structural)]
pub struct EatingPhilosopher {
    pub left_fork: Fork,
    pub right_fork: Fork,
    pub seating_position: TableInteraction,
}

impl EatingPhilosopher {
    pub fn new(left_fork: Fork, right_fork: Fork, seating_position: TableInteraction) -> (
        philosopher: EatingPhilosopher)
        ensures
            philosopher == (EatingPhilosopher { left_fork, right_fork, seating_position }),
    {
        EatingPhilosopher { left_fork, right_fork, seating_position }
    }

    /// Keeps the right fork and hands the left one back to the caller for
    /// return to the table.
    pub fn drop_left(self) -> (next: (RightThinkingPhilosopher, Fork))
        ensures
            next.0 == (RightThinkingPhilosopher {
                right_fork: self.right_fork,
                seating_position: self.seating_position,
            }),
            next.1 == self.left_fork,
    {
        (RightThinkingPhilosopher::new(self.right_fork, self.seating_position), self.left_fork)
    }

    /// Keeps the left fork and hands the right one back to the caller for
    /// return to the table.
    pub fn drop_right(self) -> (next: (LeftThinkingPhilosopher, Fork))
        ensures
            next.0 == (LeftThinkingPhilosopher {
                left_fork: self.left_fork,
                seating_position: self.seating_position,
            }),
            next.1 == self.right_fork,
    {
        (LeftThinkingPhilosopher::new(self.left_fork, self.seating_position), self.right_fork)
    }
}

impl Philosopher for EatingPhilosopher {
    open spec fn tag(&self) -> State {
        State::Eating
    }

    open spec fn wf(&self, size: int) -> bool {
        self.seating_position.position < size
    }

    open spec fn step(&self, slots: Seq<Option<Fork>>) -> (AnyPhilosopher, Seq<Option<Fork>>) {
        let p = self.seating_position.position as int;
        (
            AnyPhilosopher::RightThinking(RightThinkingPhilosopher {
                right_fork: self.right_fork,
                seating_position: self.seating_position,
            }),
            slots.update(p, Some(self.left_fork)),
        )
    }

    fn state(&self) -> State {
        State::Eating
    }

    /// Leaves the critical section by the fixed policy: returns the left
    /// fork to its slot and keeps the right one.
    fn act(self, table: &mut Table) -> AnyPhilosopher {
        let seat = self.seating_position;
        let (philosopher, fork) = self.drop_left();
        seat.return_left_fork(fork, table);
        AnyPhilosopher::RightThinking(philosopher)
    }
}

} // verus!
