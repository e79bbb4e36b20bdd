//! The philosopher phase that holds no fork and acts directly against a
//! borrowed table.

use crate::left_thinking_philosopher::LeftThinkingPhilosopher;
use crate::philosophers::AnyPhilosopher;
use crate::philosophers::Philosopher;
use crate::right_thinking_philosopher::RightThinkingPhilosopher;
use crate::state_machine::State;
use crate::table::Fork;
use crate::table::Table;
use crate::table::TableInteraction;
use vstd::prelude::*;

verus! {

/// A philosopher that holds no fork.
#[derive(Debug, PartialEq, Eq, Structural)]
pub struct ThinkingPhilosopher {
    pub seating_position: TableInteraction,
}

impl ThinkingPhilosopher {
    pub fn new(seating_position: TableInteraction) -> (philosopher: ThinkingPhilosopher)
        ensures
            philosopher == (ThinkingPhilosopher { seating_position }),
    {
        ThinkingPhilosopher { seating_position }
    }

    /// Commits a fork acquired from the left slot.
    pub fn take_left(&self, fork: Fork) -> (next: LeftThinkingPhilosopher)
        ensures
            next == (LeftThinkingPhilosopher {
                left_fork: fork,
                seating_position: self.seating_position,
            }),
    {
        LeftThinkingPhilosopher::new(fork, self.seating_position)
    }

    /// Commits a fork acquired from the right slot.
    pub fn take_right(&self, fork: Fork) -> (next: RightThinkingPhilosopher)
        ensures
            next == (RightThinkingPhilosopher {
                right_fork: fork,
                seating_position: self.seating_position,
            }),
    {
        RightThinkingPhilosopher::new(fork, self.seating_position)
    }
}

impl Philosopher for ThinkingPhilosopher {
    open spec fn tag(&self) -> State {
        State::Thinking
    }

    open spec fn wf(&self, size: int) -> bool {
        self.seating_position.position < size
    }

    open spec fn step(&self, slots: Seq<Option<Fork>>) -> (AnyPhilosopher, Seq<Option<Fork>>) {
        let p = self.seating_position.position as int;
        if slots[p] is Some {
            (
                AnyPhilosopher::LeftThinking(LeftThinkingPhilosopher {
                    left_fork: Fork {  },
                    seating_position: self.seating_position,
                }),
                slots.update(p, None),
            )
        } else {
            (
                AnyPhilosopher::Thinking(ThinkingPhilosopher {
                    seating_position: self.seating_position,
                }),
                slots,
            )
        }
    }

    fn state(&self) -> State {
        State::Thinking
    }

    /// Tries the left fork: success commits to `LeftThinking`, absence
    /// leaves the philosopher thinking.
    fn act(self, table: &mut Table) -> AnyPhilosopher {
        match self.seating_position.get_left_fork(table) {
            None => AnyPhilosopher::Thinking(ThinkingPhilosopher::new(self.seating_position)),
            Some(fork) => AnyPhilosopher::LeftThinking(self.take_left(fork)),
        }
    }
}

} // verus!
