//! Driving one actor for a fixed number of steps: the compute part of a
//! simulation job. The outcome of a whole run is pinned as a fold of the
//! machine's `step` function, and at a single-seat table such a run is
//! proved never to record an eating phase.

use crate::philosopher::Philosopher;
use crate::state_machine::ActorState;
use crate::state_machine::State;
use crate::state_machine::StateMachine;
use crate::system::lemma_single_seat_never_eating;
use crate::system::lemma_step_preserves_invariant;
use crate::system::tokens_invariant;
use crate::table::Fork;
use crate::table::Table;
use vstd::prelude::*;

verus! {

/// The machine and table contents after `count` transitions.
pub open spec fn run_steps(machine: ActorState, slots: Seq<Option<Fork>>, count: nat) -> (
    ActorState,
    Seq<Option<Fork>>,
)
    decreases count,
{
    if count == 0 {
        (machine, slots)
    } else {
        let stepped = machine.step(slots);
        run_steps(stepped.0, stepped.1, (count - 1) as nat)
    }
}

/// The tags recorded while taking `count` transitions, in step order.
pub open spec fn run_tags(machine: ActorState, slots: Seq<Option<Fork>>, count: nat) -> Seq<State>
    decreases count,
{
    if count == 0 {
        Seq::empty()
    } else {
        let stepped = machine.step(slots);
        seq![stepped.0.tag()] + run_tags(stepped.0, stepped.1, (count - 1) as nat)
    }
}

proof fn lemma_run_steps_snoc(machine: ActorState, slots: Seq<Option<Fork>>, count: nat)
    ensures
        run_steps(machine, slots, count + 1) == run_steps(machine, slots, count).0.step(
            run_steps(machine, slots, count).1,
        ),
        run_tags(machine, slots, count + 1) == run_tags(machine, slots, count).push(
            run_steps(machine, slots, count + 1).0.tag(),
        ),
    decreases count,
{
    let stepped = machine.step(slots);
    assert(run_steps(machine, slots, count + 1) == run_steps(stepped.0, stepped.1, count));
    assert(run_tags(machine, slots, count + 1) == seq![stepped.0.tag()] + run_tags(
        stepped.0,
        stepped.1,
        count,
    ));
    if count == 0 {
        assert(run_steps(stepped.0, stepped.1, 0) == (stepped.0, stepped.1));
        assert(run_tags(stepped.0, stepped.1, 0) == Seq::<State>::empty());
        assert(run_tags(machine, slots, 1) =~= Seq::empty().push(stepped.0.tag()));
    } else {
        lemma_run_steps_snoc(stepped.0, stepped.1, (count - 1) as nat);
        assert(run_steps(machine, slots, count) == run_steps(
            stepped.0,
            stepped.1,
            (count - 1) as nat,
        ));
        assert(run_tags(machine, slots, count) == seq![stepped.0.tag()] + run_tags(
            stepped.0,
            stepped.1,
            (count - 1) as nat,
        ));
        assert(run_tags(machine, slots, count + 1) =~= run_tags(machine, slots, count).push(
            run_steps(machine, slots, count + 1).0.tag(),
        ));
    }
}

/// Advances `philosopher` by `iterations` transitions against `table`:
/// one actor's whole run loop. The final machine, table and history are
/// exactly the fold of the machine's `step` function.
pub fn run_actor(philosopher: &mut Philosopher, table: &mut Table, iterations: usize)
    requires
        old(philosopher).wf(),
        old(table)@.len() >= 1,
        old(philosopher).machine().wf(old(table)@.len() as int),
    ensures
        final(philosopher).wf(),
        final(philosopher).id_spec() == old(philosopher).id_spec(),
        final(philosopher).machine() == run_steps(
            old(philosopher).machine(),
            old(table)@,
            iterations as nat,
        ).0,
        final(table)@ == run_steps(old(philosopher).machine(), old(table)@, iterations as nat).1,
        final(philosopher).history_seq() == old(philosopher).history_seq() + run_tags(
            old(philosopher).machine(),
            old(table)@,
            iterations as nat,
        ),
        final(table)@.len() == old(table)@.len(),
        final(philosopher).machine().wf(old(table)@.len() as int),
{
    let ghost machine0 = old(philosopher).machine();
    let ghost slots0 = old(table)@;
    let ghost history0 = old(philosopher).history_seq();
    let ghost size = old(table)@.len() as int;
    let mut taken: usize = 0;
    while taken < iterations
        invariant
            taken <= iterations,
            philosopher.wf(),
            philosopher.id_spec() == old(philosopher).id_spec(),
            table@.len() == size,
            size >= 1,
            philosopher.machine().wf(size),
            philosopher.machine() == run_steps(machine0, slots0, taken as nat).0,
            table@ == run_steps(machine0, slots0, taken as nat).1,
            philosopher.history_seq() == history0 + run_tags(machine0, slots0, taken as nat),
        decreases iterations - taken,
    {
        proof {
            lemma_run_steps_snoc(machine0, slots0, taken as nat);
        }
        philosopher.act(table);
        taken = taken + 1;
    }
    proof {
        assert(history0 + run_tags(machine0, slots0, 0) =~= history0);
    }
}

/// The single-seat law over whole runs: at a one-seat table a run of any
/// length, starting from any configuration with its one token in exactly
/// one place, never records the `Eating` tag.
pub proof fn lemma_single_seat_run_no_eating(
    machine: ActorState,
    slots: Seq<Option<Fork>>,
    count: nat,
)
    requires
        tokens_invariant(seq![machine], slots),
        slots.len() == 1,
    ensures
        forall|i: int|
            0 <= i < run_tags(machine, slots, count).len() ==> #[trigger] run_tags(
                machine,
                slots,
                count,
            )[i] != State::Eating,
    decreases count,
{
    if count > 0 {
        let stepped = machine.step(slots);
        lemma_step_preserves_invariant(seq![machine], slots, 0);
        assert(seq![machine].update(0, stepped.0) =~= seq![stepped.0]);
        lemma_single_seat_never_eating(seq![stepped.0], stepped.1, 0);
        lemma_single_seat_run_no_eating(stepped.0, stepped.1, (count - 1) as nat);
        assert forall|i: int|
            0 <= i < run_tags(machine, slots, count).len() implies #[trigger] run_tags(
            machine,
            slots,
            count,
        )[i] != State::Eating by {
            if i > 0 {
                assert(run_tags(machine, slots, count)[i] == run_tags(
                    stepped.0,
                    stepped.1,
                    (count - 1) as nat,
                )[i - 1]);
            } else {
                assert(run_tags(machine, slots, count)[0] == stepped.0.tag());
            }
        }
    }
}

} // verus!
