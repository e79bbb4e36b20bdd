//! The phase in which an actor holds its left fork and wants the right one.

use crate::eating::Eating;
use crate::table::Fork;
use crate::table::Table;
use crate::table::TableInteraction;
use crate::thinking::Thinking;
use vstd::prelude::*;

verus! {

/// An actor that has acquired its left fork and is attempting the right.
#[derive(Debug, PartialEq, Eq, Structural)]
pub struct LeftThinking {
    pub left_fork: Fork,
    pub table_interaction: TableInteraction,
}

impl LeftThinking {
    pub fn new(left_fork: Fork, table_interaction: TableInteraction) -> (state: LeftThinking)
        ensures
            state == (LeftThinking { left_fork, table_interaction }),
    {
        LeftThinking { left_fork, table_interaction }
    }

    /// Commits a fork acquired from the right slot: with both forks in hand
    /// the actor starts `Eating`.
    pub fn take_right(self, fork: Fork) -> (next: Eating)
        ensures
            next == (Eating {
                left_fork: self.left_fork,
                right_fork: fork,
                table_interaction: self.table_interaction,
            }),
    {
        Eating::new(self.left_fork, fork, self.table_interaction)
    }

    /// Retreats: returns the held left fork to its slot and goes back to
    /// `Thinking`.
    pub fn drop_left(self, table: &mut Table) -> (next: Thinking)
        requires
            self.table_interaction.position < old(table)@.len(),
        ensures
            next == (Thinking { table_interaction: self.table_interaction }),
            final(table)@ == old(table)@.update(
                self.table_interaction.position as int,
                Some(self.left_fork),
            ),
    {
        self.table_interaction.return_left_fork(self.left_fork, table);
        Thinking::new(self.table_interaction)
    }
}

} // verus!
