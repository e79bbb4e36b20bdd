//! The actor state machine: the closed set of phases, the trait that a
//! drivable machine satisfies, and the machine itself as a tagged union
//! with one total `transition` operation.

use crate::eating::Eating;
use crate::left_thinking::LeftThinking;
use crate::right_thinking::RightThinking;
use crate::table::right_index;
use crate::table::Fork;
use crate::table::Table;
use crate::table::TableInteraction;
use crate::thinking::Thinking;
use vstd::prelude::*;

verus! {

/// The classification of an actor's phase: the tag recorded in histories.
#[derive(Debug, PartialEq, Eq, Structural, Clone, Copy)]
pub enum State {
    Thinking,
    LeftThinking,
    RightThinking,
    Eating,
}

/// A machine that a driver can advance step by step against a table.
///
/// `transition` consumes the machine by value, so a consumed instance can
/// never be transitioned a second time: the compiler rules the double
/// consume out instead of a runtime guard.
pub trait StateMachine: Sized {
    /// The tag that classifies the machine's current phase.
    spec fn tag(&self) -> State;

    /// Whether the machine is well formed for a table of `size` seats.
    spec fn wf(&self, size: int) -> bool;

    /// The machine and table contents after one transition, as a
    /// mathematical function of the current ones.
    spec fn step(&self, slots: Seq<Option<Fork>>) -> (Self, Seq<Option<Fork>>);

    fn state(&self) -> (s: State)
        ensures
            s == self.tag(),
    ;

    fn transition(self, table: &mut Table) -> (next: Self)
        requires
            old(table)@.len() >= 1,
            self.wf(old(table)@.len() as int),
        ensures
            next == self.step(old(table)@).0,
            final(table)@ == self.step(old(table)@).1,
            final(table)@.len() == old(table)@.len(),
            next.wf(old(table)@.len() as int),
    ;
}

/// One actor's whole state machine: exactly the four defined phases, each
/// carrying the forks its name says it holds.
#[derive(Debug, PartialEq, Eq, Structural)]
pub enum ActorState {
    Thinking(Thinking),
    LeftThinking(LeftThinking),
    RightThinking(RightThinking),
    Eating(Eating),
}

impl ActorState {
    /// The seat this actor is bound to, whatever its phase.
    pub open spec fn seat(&self) -> TableInteraction {
        match self {
            ActorState::Thinking(s) => s.table_interaction,
            ActorState::LeftThinking(s) => s.table_interaction,
            ActorState::RightThinking(s) => s.table_interaction,
            ActorState::Eating(s) => s.table_interaction,
        }
    }

    /// The actor's position in the ring.
    pub open spec fn position(&self) -> int {
        self.seat().position as int
    }

    /// A fresh machine at the start phase, `Thinking`, bound to `seat`.
    pub fn at_seat(seat: TableInteraction) -> (machine: ActorState)
        ensures
            machine == ActorState::Thinking(Thinking { table_interaction: seat }),
    {
        ActorState::Thinking(Thinking::new(seat))
    }
}

impl StateMachine for ActorState {
    open spec fn tag(&self) -> State {
        match self {
            ActorState::Thinking(_) => State::Thinking,
            ActorState::LeftThinking(_) => State::LeftThinking,
            ActorState::RightThinking(_) => State::RightThinking,
            ActorState::Eating(_) => State::Eating,
        }
    }

    open spec fn wf(&self, size: int) -> bool {
        self.position() < size
    }

    open spec fn step(&self, slots: Seq<Option<Fork>>) -> (ActorState, Seq<Option<Fork>>) {
        let p = self.position();
        let r = right_index(p, slots.len() as int);
        match self {
            ActorState::Thinking(s) => if slots[p] is Some {
                (
                    ActorState::LeftThinking(LeftThinking {
                        left_fork: Fork {  },
                        table_interaction: s.table_interaction,
                    }),
                    slots.update(p, None),
                )
            } else {
                (ActorState::Thinking(Thinking { table_interaction: s.table_interaction }), slots)
            },
            ActorState::LeftThinking(s) => if slots[r] is Some {
                (
                    ActorState::Eating(Eating {
                        left_fork: s.left_fork,
                        right_fork: Fork {  },
                        table_interaction: s.table_interaction,
                    }),
                    slots.update(r, None),
                )
            } else {
                (
                    ActorState::Thinking(Thinking { table_interaction: s.table_interaction }),
                    slots.update(p, Some(s.left_fork)),
                )
            },
            ActorState::RightThinking(s) => if slots[p] is Some {
                (
                    ActorState::Eating(Eating {
                        left_fork: Fork {  },
                        right_fork: s.right_fork,
                        table_interaction: s.table_interaction,
                    }),
                    slots.update(p, None),
                )
            } else {
                (
                    ActorState::Thinking(Thinking { table_interaction: s.table_interaction }),
                    slots.update(r, Some(s.right_fork)),
                )
            },
            ActorState::Eating(s) => (
                ActorState::RightThinking(RightThinking {
                    right_fork: s.right_fork,
                    table_interaction: s.table_interaction,
                }),
                slots.update(p, Some(s.left_fork)),
            ),
        }
    }

    fn state(&self) -> State {
        match self {
            ActorState::Thinking(_) => State::Thinking,
            ActorState::LeftThinking(_) => State::LeftThinking,
            ActorState::RightThinking(_) => State::RightThinking,
            ActorState::Eating(_) => State::Eating,
        }
    }

    /// One step of the drop-left, never-blocking policy: `Thinking` tries
    /// its left fork, the one-fork phases try their missing fork and retreat
    /// when it is absent, and `Eating` unconditionally returns its left fork
    /// while keeping the right.
    fn transition(self, table: &mut Table) -> (next: ActorState) {
        match self {
            ActorState::Thinking(s) => match s.table_interaction.get_left_fork(table) {
                None => ActorState::Thinking(s),
                Some(fork) => ActorState::LeftThinking(s.take_left(fork)),
            },
            ActorState::LeftThinking(s) => match s.table_interaction.get_right_fork(table) {
                None => ActorState::Thinking(s.drop_left(table)),
                Some(fork) => ActorState::Eating(s.take_right(fork)),
            },
            ActorState::RightThinking(s) => match s.table_interaction.get_left_fork(table) {
                None => ActorState::Thinking(s.drop_right(table)),
                Some(fork) => ActorState::Eating(s.take_left(fork)),
            },
            ActorState::Eating(s) => ActorState::RightThinking(s.drop_left(table)),
        }
    }
}

} // verus!
