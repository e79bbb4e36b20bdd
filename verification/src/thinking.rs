//! The phase in which an actor holds no fork.

use crate::left_thinking::LeftThinking;
use crate::right_thinking::RightThinking;
use crate::table::Fork;
use crate::table::TableInteraction;
use vstd::prelude::*;

verus! {

/// An actor that holds no fork. Its only move is to try the fork on its
/// left (or, through `take_right`, to commit a fork it was handed to the
/// right side instead).
#[derive(Debug, PartialEq, Eq, Structural)]
pub struct Thinking {
    pub table_interaction: TableInteraction,
}

impl Thinking {
    pub fn new(table_interaction: TableInteraction) -> (state: Thinking)
        ensures
            state == (Thinking { table_interaction }),
    {
        Thinking { table_interaction }
    }

    /// Commits a fork acquired from the left slot: the actor becomes
    /// `LeftThinking`, holding that fork at the same seat.
    pub fn take_left(self, fork: Fork) -> (next: LeftThinking)
        ensures
            next == (LeftThinking { left_fork: fork, table_interaction: self.table_interaction }),
    {
        LeftThinking::new(fork, self.table_interaction)
    }

    /// Commits a fork acquired from the right slot: the actor becomes
    /// `RightThinking`, holding that fork at the same seat.
    pub fn take_right(self, fork: Fork) -> (next: RightThinking)
        ensures
            next == (RightThinking { right_fork: fork, table_interaction: self.table_interaction }),
    {
        RightThinking::new(fork, self.table_interaction)
    }
}

} // verus!
