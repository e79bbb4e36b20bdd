//! The philosopher interface: a trait over the four phase structs that act
//! directly against a borrowed table, the closed union of those phases,
//! and the actor wrapper that owns one of them.

use crate::eating::Eating;
use crate::eating_philosopher::EatingPhilosopher;
use crate::left_thinking::LeftThinking;
use crate::left_thinking_philosopher::LeftThinkingPhilosopher;
use crate::right_thinking::RightThinking;
use crate::right_thinking_philosopher::RightThinkingPhilosopher;
use crate::state_machine::ActorState;
use crate::state_machine::StateMachine;
use crate::table::Fork;
use crate::table::Table;
use crate::table::TableInteraction;
use crate::thinking::Thinking;
use crate::thinking_philosopher::ThinkingPhilosopher;
use vstd::prelude::*;

pub use crate::state_machine::State;

verus! {

/// A philosopher phase that can act once against a table, consuming itself
/// and yielding the next phase. Consuming by value makes acting twice on
/// one instance a compile-time error rather than a runtime guard.
pub trait Philosopher: Sized {
    /// The tag that classifies this phase.
    spec fn tag(&self) -> State;

    /// Whether the phase fits a table of `size` seats.
    spec fn wf(&self, size: int) -> bool;

    /// The next phase and table contents after acting, as a mathematical
    /// function of the current ones.
    spec fn step(&self, slots: Seq<Option<Fork>>) -> (AnyPhilosopher, Seq<Option<Fork>>);

    fn state(&self) -> (s: State)
        ensures
            s == self.tag(),
    ;

    fn act(self, table: &mut Table) -> (next: AnyPhilosopher)
        requires
            old(table)@.len() >= 1,
            self.wf(old(table)@.len() as int),
        ensures
            next == self.step(old(table)@).0,
            final(table)@ == self.step(old(table)@).1,
            final(table)@.len() == old(table)@.len(),
            next.seat().position < old(table)@.len(),
    ;
}

/// The closed union of the four philosopher phases.
#[derive(Debug, PartialEq, Eq, Structural)]
pub enum AnyPhilosopher {
    Thinking(ThinkingPhilosopher),
    LeftThinking(LeftThinkingPhilosopher),
    RightThinking(RightThinkingPhilosopher),
    Eating(EatingPhilosopher),
}

impl AnyPhilosopher {
    /// The seat this philosopher is bound to, whatever its phase.
    pub open spec fn seat(&self) -> TableInteraction {
        match self {
            AnyPhilosopher::Thinking(p) => p.seating_position,
            AnyPhilosopher::LeftThinking(p) => p.seating_position,
            AnyPhilosopher::RightThinking(p) => p.seating_position,
            AnyPhilosopher::Eating(p) => p.seating_position,
        }
    }

    /// The seat this philosopher is bound to.
    pub fn seating_position(&self) -> (seat: TableInteraction)
        ensures
            seat == self.seat(),
    {
        match self {
            AnyPhilosopher::Thinking(p) => p.seating_position,
            AnyPhilosopher::LeftThinking(p) => p.seating_position,
            AnyPhilosopher::RightThinking(p) => p.seating_position,
            AnyPhilosopher::Eating(p) => p.seating_position,
        }
    }
}

impl Philosopher for AnyPhilosopher {
    open spec fn tag(&self) -> State {
        match self {
            AnyPhilosopher::Thinking(p) => State::Thinking,
            AnyPhilosopher::LeftThinking(p) => State::LeftThinking,
            AnyPhilosopher::RightThinking(p) => State::RightThinking,
            AnyPhilosopher::Eating(p) => State::Eating,
        }
    }

    open spec fn wf(&self, size: int) -> bool {
        self.seat().position < size
    }

    open spec fn step(&self, slots: Seq<Option<Fork>>) -> (AnyPhilosopher, Seq<Option<Fork>>) {
        match self {
            AnyPhilosopher::Thinking(p) => p.step(slots),
            AnyPhilosopher::LeftThinking(p) => p.step(slots),
            AnyPhilosopher::RightThinking(p) => p.step(slots),
            AnyPhilosopher::Eating(p) => p.step(slots),
        }
    }

    fn state(&self) -> State {
        match self {
            AnyPhilosopher::Thinking(p) => p.state(),
            AnyPhilosopher::LeftThinking(p) => p.state(),
            AnyPhilosopher::RightThinking(p) => p.state(),
            AnyPhilosopher::Eating(p) => p.state(),
        }
    }

    fn act(self, table: &mut Table) -> AnyPhilosopher {
        match self {
            AnyPhilosopher::Thinking(p) => p.act(table),
            AnyPhilosopher::LeftThinking(p) => p.act(table),
            AnyPhilosopher::RightThinking(p) => p.act(table),
            AnyPhilosopher::Eating(p) => p.act(table),
        }
    }
}

/// The `ActorState` machine holding the same forks at the same seat as a
/// given philosopher phase.
pub open spec fn as_actor_state(philosopher: AnyPhilosopher) -> ActorState {
    match philosopher {
        AnyPhilosopher::Thinking(p) => ActorState::Thinking(Thinking {
            table_interaction: p.seating_position,
        }),
        AnyPhilosopher::LeftThinking(p) => ActorState::LeftThinking(LeftThinking {
            left_fork: p.left_fork,
            table_interaction: p.seating_position,
        }),
        AnyPhilosopher::RightThinking(p) => ActorState::RightThinking(RightThinking {
            right_fork: p.right_fork,
            table_interaction: p.seating_position,
        }),
        AnyPhilosopher::Eating(p) => ActorState::Eating(Eating {
            left_fork: p.left_fork,
            right_fork: p.right_fork,
            table_interaction: p.seating_position,
        }),
    }
}

/// The two faces of the state machine agree: a philosopher phase and the
/// `ActorState` it corresponds to carry the same tag and step to
/// corresponding successors over identical tables, so the token laws
/// proved of `ActorState` configurations hold of philosopher phases too.
pub proof fn lemma_philosopher_agrees_with_state_machine(
    philosopher: AnyPhilosopher,
    slots: Seq<Option<Fork>>,
)
    ensures
        philosopher.tag() == as_actor_state(philosopher).tag(),
        as_actor_state(philosopher.step(slots).0) == as_actor_state(philosopher).step(slots).0,
        philosopher.step(slots).1 == as_actor_state(philosopher).step(slots).1,
{
}

/// An actor owning one philosopher phase, advanced in place step by step.
#[derive(Debug)]
pub struct Actor {
    pub philosopher: AnyPhilosopher,
}

impl Actor {
    /// Acts once against `table`, replacing the held phase with its
    /// successor.
    pub fn execute(&mut self, table: &mut Table)
        requires
            old(table)@.len() >= 1,
            old(self).philosopher.wf(old(table)@.len() as int),
        ensures
            final(self).philosopher == old(self).philosopher.step(old(table)@).0,
            final(table)@ == old(self).philosopher.step(old(table)@).1,
            final(table)@.len() == old(table)@.len(),
            final(self).philosopher.wf(old(table)@.len() as int),
    {
        let seat = self.philosopher.seating_position();
        let mut current = AnyPhilosopher::Thinking(ThinkingPhilosopher::new(seat));
        core::mem::swap(&mut self.philosopher, &mut current);
        self.philosopher = current.act(table);
    }
}

} // verus!
