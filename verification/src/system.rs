//! System-wide laws of a run: several actors interleaving transitions
//! against one table. The per-slot token invariant is stated over a ghost
//! configuration (the sequence of actor machines plus the table contents)
//! and shown to be preserved by every interleaved step; token conservation,
//! mutual exclusion and the single-seat corollary follow from it.

use crate::eating::Eating;
use crate::right_thinking::RightThinking;
use crate::state_machine::ActorState;
use crate::state_machine::State;
use crate::state_machine::StateMachine;
use crate::table::right_index;
use crate::table::Fork;
use vstd::prelude::*;

verus! {

/// How many forks from slot `i` the machine `s` holds, at a table of
/// `size` seats. Only a single-seat eater holds two, its left and right
/// indices coinciding.
pub open spec fn holds_at(s: ActorState, i: int, size: int) -> int {
    let p = s.position();
    let r = right_index(p, size);
    match s {
        ActorState::Thinking(_) => 0,
        ActorState::LeftThinking(_) => if p == i {
            1
        } else {
            0
        },
        ActorState::RightThinking(_) => if r == i {
            1
        } else {
            0
        },
        ActorState::Eating(_) => (if p == i {
            1int
        } else {
            0int
        }) + (if r == i {
            1int
        } else {
            0int
        }),
    }
}

/// How many forks the machine `s` holds in total: what its name says.
pub open spec fn holds_count(s: ActorState) -> int {
    match s {
        ActorState::Thinking(_) => 0,
        ActorState::LeftThinking(_) => 1,
        ActorState::RightThinking(_) => 1,
        ActorState::Eating(_) => 2,
    }
}

/// Forks from slot `i` held across all the actors.
pub open spec fn held_at(actors: Seq<ActorState>, i: int, size: int) -> int
    decreases actors.len(),
{
    if actors.len() == 0 {
        0
    } else {
        held_at(actors.drop_last(), i, size) + holds_at(actors.last(), i, size)
    }
}

/// 1 while slot `i` has its fork, 0 while some actor holds it.
pub open spec fn slot_count(slots: Seq<Option<Fork>>, i: int) -> int {
    if slots[i] is Some {
        1
    } else {
        0
    }
}

/// Forks sitting in the table across all slots.
pub open spec fn available_forks(slots: Seq<Option<Fork>>) -> int
    decreases slots.len(),
{
    if slots.len() == 0 {
        0
    } else {
        available_forks(slots.drop_last()) + slot_count(slots, slots.len() - 1)
    }
}

/// Forks held across all the actors.
pub open spec fn held_forks(actors: Seq<ActorState>) -> int
    decreases actors.len(),
{
    if actors.len() == 0 {
        0
    } else {
        held_forks(actors.drop_last()) + holds_count(actors.last())
    }
}

/// The per-slot token invariant of a configuration: every actor fits the
/// table, and each slot's fork is in exactly one place, the slot itself or
/// exactly one holding actor.
pub open spec fn tokens_invariant(actors: Seq<ActorState>, slots: Seq<Option<Fork>>) -> bool {
    &&& forall|j: int| 0 <= j < actors.len() ==> (#[trigger] actors[j]).wf(slots.len() as int)
    &&& forall|i: int|
        0 <= i < slots.len() ==> slot_count(slots, i) + #[trigger] held_at(
            actors,
            i,
            slots.len() as int,
        ) == 1
}

proof fn lemma_held_at_nonneg(actors: Seq<ActorState>, i: int, size: int)
    ensures
        held_at(actors, i, size) >= 0,
    decreases actors.len(),
{
    if actors.len() > 0 {
        lemma_held_at_nonneg(actors.drop_last(), i, size);
    }
}

proof fn lemma_held_at_single(actors: Seq<ActorState>, i: int, size: int, j: int)
    requires
        0 <= j < actors.len(),
    ensures
        held_at(actors, i, size) >= holds_at(actors[j], i, size),
    decreases actors.len(),
{
    lemma_held_at_nonneg(actors.drop_last(), i, size);
    if j < actors.len() - 1 {
        lemma_held_at_single(actors.drop_last(), i, size, j);
    }
}

proof fn lemma_held_at_pair(actors: Seq<ActorState>, i: int, size: int, j: int, k: int)
    requires
        0 <= j < k < actors.len(),
    ensures
        held_at(actors, i, size) >= holds_at(actors[j], i, size) + holds_at(actors[k], i, size),
    decreases actors.len(),
{
    if k == actors.len() - 1 {
        lemma_held_at_single(actors.drop_last(), i, size, j);
    } else {
        lemma_held_at_pair(actors.drop_last(), i, size, j, k);
    }
}

proof fn lemma_held_at_update(actors: Seq<ActorState>, i: int, size: int, j: int, s2: ActorState)
    requires
        0 <= j < actors.len(),
    ensures
        held_at(actors.update(j, s2), i, size) == held_at(actors, i, size) - holds_at(
            actors[j],
            i,
            size,
        ) + holds_at(s2, i, size),
    decreases actors.len(),
{
    let updated = actors.update(j, s2);
    assert(updated.drop_last() =~= if j == actors.len() - 1 {
        actors.drop_last()
    } else {
        actors.drop_last().update(j, s2)
    });
    if j < actors.len() - 1 {
        lemma_held_at_update(actors.drop_last(), i, size, j, s2);
    }
}

/// Every slot's fork is in exactly one place after any one actor takes a
/// step, provided it was so before: the interleaved system preserves the
/// token invariant, whatever the scheduling order.
pub proof fn lemma_step_preserves_invariant(
    actors: Seq<ActorState>,
    slots: Seq<Option<Fork>>,
    j: int,
)
    requires
        tokens_invariant(actors, slots),
        slots.len() >= 1,
        0 <= j < actors.len(),
    ensures
        tokens_invariant(
            actors.update(j, actors[j].step(slots).0),
            actors[j].step(slots).1,
        ),
{
    let size = slots.len() as int;
    let s = actors[j];
    let s2 = s.step(slots).0;
    let slots2 = s.step(slots).1;
    let actors2 = actors.update(j, s2);
    assert(slots2.len() == size);
    assert forall|i: int| 0 <= i < slots2.len() implies slot_count(slots2, i) + #[trigger] held_at(
        actors2,
        i,
        size,
    ) == 1 by {
        lemma_held_at_update(actors, i, size, j, s2);
        assert(slot_count(slots, i) + held_at(actors, i, size) == 1);
        let p = s.position();
        let r = right_index(p, size);
        assert(0 <= p < size);
        assert(0 <= r < size) by {
            assert(0 <= (p + 1) % size < size);
        };
        lemma_held_at_single(actors, i, size, j);
        lemma_held_at_nonneg(actors, i, size);
    }
}

/// A fresh run satisfies the token invariant: every actor still thinking,
/// every fork in its slot.
pub proof fn lemma_initial_invariant(actors: Seq<ActorState>, slots: Seq<Option<Fork>>)
    requires
        forall|j: int| 0 <= j < actors.len() ==> (#[trigger] actors[j]) is Thinking,
        forall|j: int| 0 <= j < actors.len() ==> (#[trigger] actors[j]).position() < slots.len(),
        forall|i: int| 0 <= i < slots.len() ==> slots[i] is Some,
    ensures
        tokens_invariant(actors, slots),
{
    assert forall|i: int| 0 <= i < slots.len() implies slot_count(slots, i) + #[trigger] held_at(
        actors,
        i,
        slots.len() as int,
    ) == 1 by {
        lemma_held_at_all_thinking(actors, i, slots.len() as int);
    }
}

proof fn lemma_held_at_all_thinking(actors: Seq<ActorState>, i: int, size: int)
    requires
        forall|j: int| 0 <= j < actors.len() ==> (#[trigger] actors[j]) is Thinking,
    ensures
        held_at(actors, i, size) == 0,
    decreases actors.len(),
{
    if actors.len() > 0 {
        assert(actors.last() is Thinking);
        lemma_held_at_all_thinking(actors.drop_last(), i, size);
    }
}

/// Forks held by one actor across all slots below `k`.
spec fn holds_below(s: ActorState, k: int, size: int) -> int
    decreases k,
{
    if k <= 0 {
        0
    } else {
        holds_below(s, k - 1, size) + holds_at(s, k - 1, size)
    }
}

proof fn lemma_holds_below_count(s: ActorState, size: int)
    requires
        size >= 1,
        s.wf(size),
    ensures
        holds_below(s, size, size) == holds_count(s),
{
    let p = s.position();
    let r = right_index(p, size);
    assert(0 <= r < size) by {
        assert(0 <= (p + 1) % size < size);
    };
    lemma_holds_below_split(s, size, size);
}

proof fn lemma_holds_below_split(s: ActorState, k: int, size: int)
    requires
        size >= 1,
    ensures
        holds_below(s, k, size) == ({
            let p = s.position();
            let r = right_index(p, size);
            match s {
                ActorState::Thinking(_) => 0int,
                ActorState::LeftThinking(_) => if 0 <= p < k {
                    1int
                } else {
                    0int
                },
                ActorState::RightThinking(_) => if 0 <= r < k {
                    1int
                } else {
                    0int
                },
                ActorState::Eating(_) => (if 0 <= p < k {
                    1int
                } else {
                    0int
                }) + (if 0 <= r < k {
                    1int
                } else {
                    0int
                }),
            }
        }),
    decreases k,
{
    if k > 0 {
        lemma_holds_below_split(s, k - 1, size);
    }
}

/// Forks from slots below `k` held across all the actors.
spec fn held_below(actors: Seq<ActorState>, k: int, size: int) -> int
    decreases k,
{
    if k <= 0 {
        0
    } else {
        held_below(actors, k - 1, size) + held_at(actors, k - 1, size)
    }
}

proof fn lemma_held_below_push(actors: Seq<ActorState>, s: ActorState, k: int, size: int)
    ensures
        held_below(actors.push(s), k, size) == held_below(actors, k, size) + holds_below(
            s,
            k,
            size,
        ),
    decreases k,
{
    if k > 0 {
        lemma_held_below_push(actors, s, k - 1, size);
        assert(actors.push(s).drop_last() =~= actors);
        assert(held_at(actors.push(s), k - 1, size) == held_at(actors, k - 1, size) + holds_at(
            s,
            k - 1,
            size,
        ));
    }
}

proof fn lemma_held_below_total(actors: Seq<ActorState>, size: int)
    requires
        size >= 1,
        forall|j: int| 0 <= j < actors.len() ==> (#[trigger] actors[j]).wf(size),
    ensures
        held_below(actors, size, size) == held_forks(actors),
    decreases actors.len(),
{
    if actors.len() == 0 {
        lemma_held_below_empty(actors, size, size);
    } else {
        let prefix = actors.drop_last();
        let s = actors.last();
        lemma_held_below_total(prefix, size);
        assert(prefix.push(s) =~= actors);
        lemma_held_below_push(prefix, s, size, size);
        lemma_holds_below_count(s, size);
    }
}

proof fn lemma_held_below_empty(actors: Seq<ActorState>, k: int, size: int)
    requires
        actors.len() == 0,
    ensures
        held_below(actors, k, size) == 0,
    decreases k,
{
    if k > 0 {
        lemma_held_below_empty(actors, k - 1, size);
    }
}

proof fn lemma_available_below(slots: Seq<Option<Fork>>, actors: Seq<ActorState>, k: int)
    requires
        tokens_invariant(actors, slots),
        0 <= k <= slots.len(),
    ensures
        available_forks(slots.take(k)) + held_below(actors, k, slots.len() as int) == k,
    decreases k,
{
    if k > 0 {
        lemma_available_below(slots, actors, k - 1);
        let taken = slots.take(k);
        assert(taken.drop_last() =~= slots.take(k - 1));
        assert(slot_count(taken, k - 1) == slot_count(slots, k - 1));
        assert(slot_count(slots, k - 1) + held_at(actors, k - 1, slots.len() as int) == 1);
    }
}

/// Token conservation: at any configuration satisfying the invariant, the
/// forks sitting in slots and the forks held by in-flight actors add up to
/// exactly the table size, the number of forks that exist.
pub proof fn lemma_token_conservation(actors: Seq<ActorState>, slots: Seq<Option<Fork>>)
    requires
        tokens_invariant(actors, slots),
        slots.len() >= 1,
    ensures
        available_forks(slots) + held_forks(actors) == slots.len(),
{
    let n = slots.len() as int;
    lemma_available_below(slots, actors, n);
    assert(slots.take(n) =~= slots);
    lemma_held_below_total(actors, n);
}

/// The configuration after the scheduled actors take their transitions in
/// turn: `schedule` names, in order, which actor steps next. An index that
/// names no actor schedules nothing.
pub open spec fn run_system(
    actors: Seq<ActorState>,
    slots: Seq<Option<Fork>>,
    schedule: Seq<int>,
) -> (Seq<ActorState>, Seq<Option<Fork>>)
    decreases schedule.len(),
{
    if schedule.len() == 0 {
        (actors, slots)
    } else {
        let j = schedule[0];
        if 0 <= j < actors.len() {
            let stepped = actors[j].step(slots);
            run_system(actors.update(j, stepped.0), stepped.1, schedule.skip(1))
        } else {
            run_system(actors, slots, schedule.skip(1))
        }
    }
}

/// Token conservation at every reachable point of a run: from any
/// configuration satisfying the invariant, after any number of interleaved
/// transitions in any scheduling order, the invariant still holds, and the
/// forks in slots and in actors' hands still add up to the table size.
pub proof fn lemma_run_system_conserves_tokens(
    actors: Seq<ActorState>,
    slots: Seq<Option<Fork>>,
    schedule: Seq<int>,
)
    requires
        tokens_invariant(actors, slots),
        slots.len() >= 1,
    ensures
        tokens_invariant(run_system(actors, slots, schedule).0, run_system(actors, slots, schedule).1),
        available_forks(run_system(actors, slots, schedule).1) + held_forks(
            run_system(actors, slots, schedule).0,
        ) == slots.len(),
        run_system(actors, slots, schedule).1.len() == slots.len(),
    decreases schedule.len(),
{
    if schedule.len() == 0 {
        lemma_token_conservation(actors, slots);
    } else {
        let j = schedule[0];
        if 0 <= j < actors.len() {
            let stepped = actors[j].step(slots);
            lemma_step_preserves_invariant(actors, slots, j);
            assert(stepped.1.len() == slots.len());
            lemma_run_system_conserves_tokens(actors.update(j, stepped.0), stepped.1, schedule.skip(1));
        } else {
            lemma_run_system_conserves_tokens(actors, slots, schedule.skip(1));
        }
    }
}

/// Mutual exclusion: under the token invariant no two actors hold a fork
/// from the same slot at the same time.
pub proof fn lemma_mutual_exclusion(
    actors: Seq<ActorState>,
    slots: Seq<Option<Fork>>,
    j: int,
    k: int,
    i: int,
)
    requires
        tokens_invariant(actors, slots),
        0 <= j < actors.len(),
        0 <= k < actors.len(),
        j != k,
        0 <= i < slots.len(),
    ensures
        !(holds_at(actors[j], i, slots.len() as int) >= 1 && holds_at(
            actors[k],
            i,
            slots.len() as int,
        ) >= 1),
{
    let size = slots.len() as int;
    if holds_at(actors[j], i, size) >= 1 && holds_at(actors[k], i, size) >= 1 {
        if j < k {
            lemma_held_at_pair(actors, i, size, j, k);
        } else {
            lemma_held_at_pair(actors, i, size, k, j);
        }
        assert(slot_count(slots, i) + held_at(actors, i, size) == 1);
    }
}

/// The single-seat corollary: at a one-seat table, where an actor's left
/// and right indices coincide, no reachable actor is ever `Eating`.
pub proof fn lemma_single_seat_never_eating(
    actors: Seq<ActorState>,
    slots: Seq<Option<Fork>>,
    j: int,
)
    requires
        tokens_invariant(actors, slots),
        slots.len() == 1,
        0 <= j < actors.len(),
    ensures
        !(actors[j] is Eating),
{
    if actors[j] is Eating {
        assert(holds_at(actors[j], 0, 1) == 2);
        lemma_held_at_single(actors, 0, 1, j);
        assert(slot_count(slots, 0) + held_at(actors, 0, 1) == 1);
    }
}

/// The deterministic drop-left policy: out of `Eating` the next phase is
/// always `RightThinking` at the same seat, keeping the very fork that was
/// held as "right", while the left fork goes back to its slot — whatever
/// the table contents.
pub proof fn lemma_eating_always_drops_left(e: Eating, slots: Seq<Option<Fork>>)
    ensures
        ActorState::Eating(e).step(slots) == (
            ActorState::RightThinking(RightThinking {
                right_fork: e.right_fork,
                table_interaction: e.table_interaction,
            }),
            slots.update(e.table_interaction.position as int, Some(e.left_fork)),
        ),
{
}

/// Transition totality: from every phase and every table content a step is
/// defined, yields one of the four phases of the closed union, stays at the
/// same seat, and keeps the table's size.
pub proof fn lemma_transition_total(s: ActorState, slots: Seq<Option<Fork>>)
    requires
        slots.len() >= 1,
        s.wf(slots.len() as int),
    ensures
        s.step(slots).0 is Thinking || s.step(slots).0 is LeftThinking || s.step(slots).0
            is RightThinking || s.step(slots).0 is Eating,
        s.step(slots).0.position() == s.position(),
        s.step(slots).0.wf(slots.len() as int),
        s.step(slots).1.len() == slots.len(),
        s.step(slots).0.tag() == (match s {
            ActorState::Thinking(_) => if slots[s.position()] is Some {
                State::LeftThinking
            } else {
                State::Thinking
            },
            ActorState::LeftThinking(_) => if slots[right_index(
                s.position(),
                slots.len() as int,
            )] is Some {
                State::Eating
            } else {
                State::Thinking
            },
            ActorState::RightThinking(_) => if slots[s.position()] is Some {
                State::Eating
            } else {
                State::Thinking
            },
            ActorState::Eating(_) => State::RightThinking,
        }),
{
}

} // verus!
