use dining_philosophers::driver::AlwaysThinking;
use dining_philosophers::philosopher::Philosopher;
use dining_philosophers::results::ResultsStore;
use dining_philosophers::simulation::run_actor;
use dining_philosophers::state_machine::State;
use dining_philosophers::table::Table;

#[test]
fn starts_as_thinking() {
    let table = Table::new(2);
    let mut interactions = table.get_interactions();

    let unit = Philosopher::new(interactions.pop().unwrap());

    assert_eq!(State::Thinking, unit.state());
}

#[test]
fn philosopher_keeps_a_record_of_state_transitions() {
    let mut table = Table::new(2);
    let mut interactions = table.get_interactions();
    let mut unit = Philosopher::new(interactions.pop().unwrap());

    let iterations = 10;
    for _ in 1..iterations {
        unit.act(&mut table);
    }

    assert_eq!(unit.history().len(), iterations);
}

#[test]
fn philosopher_has_id() {
    let table = Table::new(2);
    let mut interactions = table.get_interactions();

    let unit = Philosopher::new(interactions.pop().unwrap());

    assert_eq!(unit.id(), 1);
}

#[test]
fn philosopher_write_history() {
    let mut table = Table::new(2);
    let mut interactions = table.get_interactions();
    let mut unit = Philosopher::new(interactions.pop().unwrap());
    let mut store = ResultsStore::new();
    let iterations = 10;
    for _ in 1..iterations {
        unit.act(&mut table);
    }

    unit.write(&mut store);

    assert_eq!(store.get(1).unwrap().len(), iterations);
}

#[test]
fn has_state() {
    let unit = dining_philosophers::driver::Philosopher::new(1, AlwaysThinking {});

    assert_eq!(State::Thinking, unit.state());
}

#[test]
fn generic_driver_keeps_a_record_of_state_transitions() {
    let mut table = Table::new(1);
    let mut unit = dining_philosophers::driver::Philosopher::new(1, AlwaysThinking {});

    let iterations = 10;
    for _ in 1..iterations {
        unit.act(&mut table);
    }

    assert_eq!(unit.history().len(), iterations);
    assert!(unit.history().iter().all(|s| *s == State::Thinking));
}

#[test]
fn generic_driver_has_id() {
    let unit = dining_philosophers::driver::Philosopher::new(1, AlwaysThinking {});

    assert_eq!(unit.id(), 1);
}

#[test]
fn generic_driver_write_history() {
    let mut table = Table::new(1);
    let mut store = ResultsStore::new();
    let mut unit = dining_philosophers::driver::Philosopher::new(1, AlwaysThinking {});
    let iterations = 10;
    for _ in 1..iterations {
        unit.act(&mut table);
    }

    unit.write(&mut store);

    assert_eq!(store.get(1).unwrap().len(), iterations);
}

#[test]
fn single_seat_run_never_records_eating() {
    let mut table = Table::new(1);
    let mut interactions = table.get_interactions();
    let mut unit = Philosopher::new(interactions.pop().unwrap());

    run_actor(&mut unit, &mut table, 100);

    assert_eq!(unit.history().len(), 101);
    assert!(unit.history().iter().all(|s| *s != State::Eating));
}

#[test]
fn single_seat_left_thinker_always_retreats() {
    let mut table = Table::new(1);
    let mut interactions = table.get_interactions();
    let mut unit = Philosopher::new(interactions.pop().unwrap());

    run_actor(&mut unit, &mut table, 4);

    assert_eq!(
        unit.history().as_slice(),
        &[
            State::Thinking,
            State::LeftThinking,
            State::Thinking,
            State::LeftThinking,
            State::Thinking,
        ]
    );
}

#[test]
fn two_seat_run_conserves_tokens_at_every_step() {
    let mut table = Table::new(2);
    let mut interactions = table.get_interactions();
    let second = interactions.pop().unwrap();
    let first = interactions.pop().unwrap();
    let mut actors = vec![Philosopher::new(first), Philosopher::new(second)];

    for step in 0..20 {
        let turn = step % 2;
        actors[turn].act(&mut table);

        let in_slots = table
            .forks
            .iter()
            .filter(|slot| slot.is_some())
            .count();
        let held: usize = actors
            .iter()
            .map(|actor| match actor.state() {
                State::Thinking => 0,
                State::LeftThinking | State::RightThinking => 1,
                State::Eating => 2,
            })
            .sum();
        assert_eq!(in_slots + held, 2);
    }
}

#[test]
fn no_two_actors_eat_at_adjacent_seats_of_a_two_seat_table() {
    let mut table = Table::new(2);
    let mut interactions = table.get_interactions();
    let second = interactions.pop().unwrap();
    let first = interactions.pop().unwrap();
    let mut actors = vec![Philosopher::new(first), Philosopher::new(second)];

    for step in 0..30 {
        let turn = step % 2;
        actors[turn].act(&mut table);

        let eaters = actors
            .iter()
            .filter(|actor| actor.state() == State::Eating)
            .count();
        assert!(eaters <= 1);
    }
}
