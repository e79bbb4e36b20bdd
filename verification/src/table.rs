//! The fork table: a fixed ring of slots, each holding one fork while it is
//! available, and the seat handles through which actors reach the two slots
//! adjacent to their position.

use vstd::prelude::*;

verus! {

/// An exclusive-use resource token. One fork exists per seat of a table;
/// holding it confers exclusive use of that seat's resource.
#[derive(Debug, PartialEq, Eq, Structural, Clone, Copy)]
pub struct Fork {}

/// A ring of fork slots, one per seat. A slot is `Some` while its fork is
/// available and `None` while some actor holds it.
#[derive(Debug, PartialEq, Eq)]
pub struct Table {
    pub forks: Vec<Option<Fork>>,
}

impl View for Table {
    type V = Seq<Option<Fork>>;

    open spec fn view(&self) -> Seq<Option<Fork>> {
        self.forks@
    }
}

impl Table {
    /// Builds a table of `size` seats with every fork available.
    pub fn new(size: usize) -> (table: Table)
        requires
            size >= 1,
        ensures
            table@.len() == size,
            forall|i: int| 0 <= i < size ==> table@[i] is Some,
    {
        let mut forks: Vec<Option<Fork>> = Vec::with_capacity(size);
        let mut filled: usize = 0;
        while filled < size
            invariant
                filled <= size,
                forks@.len() == filled,
                forall|i: int| 0 <= i < filled ==> forks@[i] is Some,
            decreases size - filled,
        {
            forks.push(Some(Fork {}));
            filled = filled + 1;
        }
        Table { forks }
    }

    /// One seat handle per slot, in slot order.
    pub fn get_interactions(&self) -> (seats: Vec<TableInteraction>)
        ensures
            seats@.len() == self@.len(),
            forall|i: int| 0 <= i < seats@.len() ==> seats@[i].position == i,
    {
        let size = self.forks.len();
        let mut seats: Vec<TableInteraction> = Vec::with_capacity(size);
        let mut next: usize = 0;
        while next < size
            invariant
                next <= size,
                seats@.len() == next,
                forall|i: int| 0 <= i < next ==> seats@[i].position == i,
            decreases size - next,
        {
            seats.push(TableInteraction { position: next });
            next = next + 1;
        }
        seats
    }

    /// Takes the fork at `position` out of its slot. An empty slot and an
    /// out-of-range position are both normal outcomes, answered with `None`
    /// and an unchanged table.
    pub fn get_fork(&mut self, position: usize) -> (fork: Option<Fork>)
        ensures
            if position < old(self)@.len() && old(self)@[position as int] is Some {
                fork == old(self)@[position as int] && final(self)@ == old(self)@.update(
                    position as int,
                    None,
                )
            } else {
                fork is None && final(self)@ == old(self)@
            },
    {
        if position < self.forks.len() {
            let taken = self.forks[position];
            self.forks[position] = None;
            proof {
                if old(self)@[position as int] is None {
                    assert(final(self)@ =~= old(self)@);
                }
            }
            taken
        } else {
            None
        }
    }

    /// Puts `fork` back into the slot at `position`. Returning a fork to an
    /// out-of-range slot is a programming error, not a contention outcome,
    /// so it is ruled out up front.
    pub fn return_fork(&mut self, fork: Fork, position: usize)
        requires
            position < old(self)@.len(),
        ensures
            final(self)@ == old(self)@.update(position as int, Some(fork)),
    {
        self.forks[position] = Some(fork);
    }
}

/// The index of the fork to the right of seat `position` at a table of
/// `size` seats: the next slot around the ring.
pub open spec fn right_index(position: int, size: int) -> int
    recommends
        size >= 1,
{
    (position + 1) % size
}

/// An actor's fixed seat: an immutable binding to a position in the ring.
/// It derives the actor's left fork index (the position itself) and right
/// fork index (the next position around the ring).
#[derive(Debug, PartialEq, Eq, Structural, Clone, Copy)]
pub struct TableInteraction {
    pub position: usize,
}

impl TableInteraction {
    /// Takes the fork on this seat's left, if it is available.
    pub fn get_left_fork(&self, table: &mut Table) -> (fork: Option<Fork>)
        ensures
            if self.position < old(table)@.len() && old(table)@[self.position as int] is Some {
                fork == old(table)@[self.position as int] && final(table)@ == old(table)@.update(
                    self.position as int,
                    None,
                )
            } else {
                fork is None && final(table)@ == old(table)@
            },
    {
        table.get_fork(self.position)
    }

    /// Puts a fork back into the slot on this seat's left.
    pub fn return_left_fork(&self, fork: Fork, table: &mut Table)
        requires
            self.position < old(table)@.len(),
        ensures
            final(table)@ == old(table)@.update(self.position as int, Some(fork)),
    {
        table.return_fork(fork, self.position);
    }

    /// Takes the fork on this seat's right, if it is available. The right
    /// index wraps around the ring, so it is always in range.
    pub fn get_right_fork(&self, table: &mut Table) -> (fork: Option<Fork>)
        requires
            self.position < old(table)@.len(),
        ensures
            ({
                let r = right_index(self.position as int, old(table)@.len() as int);
                if old(table)@[r] is Some {
                    fork == old(table)@[r] && final(table)@ == old(table)@.update(r, None)
                } else {
                    fork is None && final(table)@ == old(table)@
                }
            }),
    {
        let size = self.forks_len(table);
        let next_position = (self.position + 1) % size;
        table.get_fork(next_position)
    }

    /// Puts a fork back into the slot on this seat's right.
    pub fn return_right_fork(&self, fork: Fork, table: &mut Table)
        requires
            self.position < old(table)@.len(),
        ensures
            final(table)@ == old(table)@.update(
                right_index(self.position as int, old(table)@.len() as int),
                Some(fork),
            ),
    {
        let size = self.forks_len(table);
        let next_position = (self.position + 1) % size;
        table.return_fork(fork, next_position);
    }

    fn forks_len(&self, table: &Table) -> (n: usize)
        ensures
            n == table@.len(),
    {
        table.forks.len()
    }
}

} // verus!
