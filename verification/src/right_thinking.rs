//! The phase in which an actor holds its right fork and wants the left one.

use crate::eating::Eating;
use crate::table::right_index;
use crate::table::Fork;
use crate::table::Table;
use crate::table::TableInteraction;
use crate::thinking::Thinking;
use vstd::prelude::*;

verus! {

/// An actor that has acquired its right fork and is attempting the left.
#[derive(Debug, PartialEq, Eq, Structural)]
pub struct RightThinking {
    pub right_fork: Fork,
    pub table_interaction: TableInteraction,
}

impl RightThinking {
    pub fn new(right_fork: Fork, table_interaction: TableInteraction) -> (state: RightThinking)
        ensures
            state == (RightThinking { right_fork, table_interaction }),
    {
        RightThinking { right_fork, table_interaction }
    }

    /// Commits a fork acquired from the left slot: with both forks in hand
    /// the actor starts `Eating`.
    pub fn take_left(self, fork: Fork) -> (next: Eating)
        ensures
            next == (Eating {
                left_fork: fork,
                right_fork: self.right_fork,
                table_interaction: self.table_interaction,
            }),
    {
        Eating::new(fork, self.right_fork, self.table_interaction)
    }

    /// Retreats: returns the held right fork to its slot and goes back to
    /// `Thinking`.
    pub fn drop_right(self, table: &mut Table) -> (next: Thinking)
        requires
            self.table_interaction.position < old(table)@.len(),
        ensures
            next == (Thinking { table_interaction: self.table_interaction }),
            final(table)@ == old(table)@.update(
                right_index(self.table_interaction.position as int, old(table)@.len() as int),
                Some(self.right_fork),
            ),
    {
        self.table_interaction.return_right_fork(self.right_fork, table);
        Thinking::new(self.table_interaction)
    }
}

} // verus!
