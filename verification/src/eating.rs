//! The critical-section phase, in which an actor holds both of its forks.

use crate::left_thinking::LeftThinking;
use crate::right_thinking::RightThinking;
use crate::table::right_index;
use crate::table::Fork;
use crate::table::Table;
use crate::table::TableInteraction;
use vstd::prelude::*;

verus! {

/// An actor that holds both adjacent forks: the critical section.
#[derive(Debug, PartialEq, Eq, Structural)]
pub struct Eating {
    pub left_fork: Fork,
    pub right_fork: Fork,
    pub table_interaction: TableInteraction,
}

impl Eating {
    pub fn new(left_fork: Fork, right_fork: Fork, table_interaction: TableInteraction) -> (state:
        Eating)
        ensures
            state == (Eating { left_fork, right_fork, table_interaction }),
    {
        Eating { left_fork, right_fork, table_interaction }
    }

    /// Leaves the critical section by the fixed policy: returns the left
    /// fork to its slot and keeps the right one, becoming `RightThinking`.
    pub fn drop_left(self, table: &mut Table) -> (next: RightThinking)
        requires
            self.table_interaction.position < old(table)@.len(),
        ensures
            next == (RightThinking {
                right_fork: self.right_fork,
                table_interaction: self.table_interaction,
            }),
            final(table)@ == old(table)@.update(
                self.table_interaction.position as int,
                Some(self.left_fork),
            ),
    {
        self.table_interaction.return_left_fork(self.left_fork, table);
        RightThinking::new(self.right_fork, self.table_interaction)
    }

    /// Returns the right fork to its slot and keeps the left one, becoming
    /// `LeftThinking`. Offered for symmetry; the transition policy never
    /// chooses it.
    pub fn drop_right(self, table: &mut Table) -> (next: LeftThinking)
        requires
            self.table_interaction.position < old(table)@.len(),
        ensures
            next == (LeftThinking {
                left_fork: self.left_fork,
                table_interaction: self.table_interaction,
            }),
            final(table)@ == old(table)@.update(
                right_index(self.table_interaction.position as int, old(table)@.len() as int),
                Some(self.right_fork),
            ),
    {
        self.table_interaction.return_right_fork(self.right_fork, table);
        LeftThinking::new(self.left_fork, self.table_interaction)
    }
}

} // verus!
