use dining_philosophers::eating_philosopher::EatingPhilosopher;
use dining_philosophers::left_thinking_philosopher::LeftThinkingPhilosopher;
use dining_philosophers::philosophers::Actor;
use dining_philosophers::philosophers::AnyPhilosopher;
use dining_philosophers::philosophers::Philosopher;
use dining_philosophers::right_thinking_philosopher::RightThinkingPhilosopher;
use dining_philosophers::state_machine::State;
use dining_philosophers::table::Fork;
use dining_philosophers::table::Table;
use dining_philosophers::table::TableInteraction;
use dining_philosophers::thinking_philosopher::ThinkingPhilosopher;

#[test]
fn thinking_philosopher_take_left_becomes_left_thinking() {
    let seating_position = TableInteraction { position: 0 };
    let unit = ThinkingPhilosopher::new(seating_position);

    assert_eq!(
        unit.take_left(Fork {}),
        LeftThinkingPhilosopher::new(Fork {}, seating_position)
    );
}

#[test]
fn thinking_philosopher_take_right_becomes_right_thinking() {
    let seating_position = TableInteraction { position: 0 };
    let unit = ThinkingPhilosopher::new(seating_position);

    assert_eq!(
        unit.take_right(Fork {}),
        RightThinkingPhilosopher::new(Fork {}, seating_position)
    );
}

#[test]
fn thinking_philosopher_state_is_thinking() {
    let seating_position = TableInteraction { position: 0 };
    let unit = ThinkingPhilosopher::new(seating_position);

    assert_eq!(unit.state(), State::Thinking);
}

#[test]
fn thinking_philosopher_changes_to_left_when_left_fork_available() {
    let mut table = Table::new(1);
    let seating_position = table.get_interactions().pop().unwrap();
    let unit = ThinkingPhilosopher::new(seating_position);

    let unit = unit.act(&mut table);

    assert_eq!(unit.state(), State::LeftThinking);
}

#[test]
fn thinking_philosopher_changes_to_thinking_when_left_fork_is_not_available() {
    let mut table = Table::new(1);
    let seating_position = table.get_interactions().pop().unwrap();
    seating_position.get_left_fork(&mut table);
    let unit = ThinkingPhilosopher::new(seating_position);

    let unit = unit.act(&mut table);

    assert_eq!(unit.state(), State::Thinking);
}

#[test]
fn left_thinking_philosopher_take_right_becomes_eating() {
    let seating_position = TableInteraction { position: 0 };
    let unit = LeftThinkingPhilosopher { left_fork: Fork {}, seating_position };

    assert_eq!(
        unit.take_right(Fork {}),
        EatingPhilosopher::new(Fork {}, Fork {}, seating_position)
    );
}

#[test]
fn left_thinking_philosopher_drop_left_becomes_thinking() {
    let seating_position = TableInteraction { position: 0 };
    let unit = LeftThinkingPhilosopher { left_fork: Fork {}, seating_position };

    let (unit, _fork) = unit.drop_left();

    assert_eq!(unit, ThinkingPhilosopher::new(seating_position));
}

#[test]
fn left_thinking_philosopher_state_is_left_thinking() {
    let seating_position = TableInteraction { position: 0 };
    let unit = LeftThinkingPhilosopher::new(Fork {}, seating_position);

    assert_eq!(unit.state(), State::LeftThinking);
}

#[test]
fn left_thinking_philosopher_changes_to_eating_when_right_fork_available() {
    let mut table = Table::new(2);
    let seating_position = table.get_interactions().pop().unwrap();
    let fork = seating_position.get_left_fork(&mut table).unwrap();
    let unit = LeftThinkingPhilosopher::new(fork, seating_position);

    let unit = unit.act(&mut table);

    assert_eq!(unit.state(), State::Eating);
}

#[test]
fn left_thinking_philosopher_changes_to_thinking_when_right_fork_is_not_available() {
    let mut table = Table::new(1);
    let seating_position = table.get_interactions().pop().unwrap();
    let mut fork = seating_position.get_left_fork(&mut table);
    let unit = LeftThinkingPhilosopher::new(fork.take().unwrap(), seating_position);

    let unit = unit.act(&mut table);

    assert_eq!(unit.state(), State::Thinking);
}

#[test]
fn left_thinking_philosopher_returns_left_fork_when_right_fork_is_not_available() {
    let mut table = Table::new(1);
    let seating_position = table.get_interactions().pop().unwrap();
    let mut fork = seating_position.get_left_fork(&mut table);
    let unit = LeftThinkingPhilosopher::new(fork.take().unwrap(), seating_position);

    let _unit = unit.act(&mut table);

    let seating_position = table.get_interactions().pop().unwrap();
    assert_eq!(seating_position.get_left_fork(&mut table), Some(Fork {}));
}

#[test]
fn right_thinking_philosopher_right_thinking_take_left_becomes_eating() {
    let seating_position = TableInteraction { position: 0 };
    let unit = RightThinkingPhilosopher { right_fork: Fork {}, seating_position };

    assert_eq!(
        unit.take_left(Fork {}),
        EatingPhilosopher::new(Fork {}, Fork {}, seating_position)
    );
}

#[test]
fn right_thinking_philosopher_right_thinking_drop_right_becomes_thinking() {
    let seating_position = TableInteraction { position: 0 };
    let unit = RightThinkingPhilosopher { right_fork: Fork {}, seating_position };

    let (unit, _fork) = unit.drop_right();

    assert_eq!(unit, ThinkingPhilosopher::new(seating_position));
}

#[test]
fn right_thinking_philosopher_state_is_right_thinking() {
    let seating_position = TableInteraction { position: 0 };
    let unit = RightThinkingPhilosopher::new(Fork {}, seating_position);

    assert_eq!(unit.state(), State::RightThinking);
}

#[test]
fn right_thinking_philosopher_changes_to_eating_when_left_fork_available() {
    let mut table = Table::new(2);
    let seating_position = table.get_interactions().pop().unwrap();
    let fork = seating_position.get_right_fork(&mut table).unwrap();
    let unit = RightThinkingPhilosopher::new(fork, seating_position);

    let unit = unit.act(&mut table);

    assert_eq!(unit.state(), State::Eating);
}

#[test]
fn right_thinking_philosopher_changes_to_thinking_when_left_fork_is_not_available() {
    let mut table = Table::new(1);
    let seating_position = table.get_interactions().pop().unwrap();
    let mut fork = seating_position.get_right_fork(&mut table);
    let unit = RightThinkingPhilosopher::new(fork.take().unwrap(), seating_position);

    let unit = unit.act(&mut table);

    assert_eq!(unit.state(), State::Thinking);
}

#[test]
fn right_thinking_philosopher_returns_right_fork_when_left_fork_is_not_available() {
    let mut table = Table::new(1);
    let seating_position = table.get_interactions().pop().unwrap();
    let mut fork = seating_position.get_right_fork(&mut table);
    let unit = RightThinkingPhilosopher::new(fork.take().unwrap(), seating_position);

    let _unit = unit.act(&mut table);

    let seating_position = table.get_interactions().pop().unwrap();
    assert_eq!(seating_position.get_right_fork(&mut table), Some(Fork {}));
}

#[test]
fn eating_philosopher_eating_drop_right_becomes_left_thinking() {
    let seating_position = TableInteraction { position: 0 };
    let unit = EatingPhilosopher {
        left_fork: Fork {},
        right_fork: Fork {},
        seating_position,
    };

    let (unit, _fork) = unit.drop_right();

    assert_eq!(unit, LeftThinkingPhilosopher::new(Fork {}, seating_position));
}

#[test]
fn eating_philosopher_eating_drop_left_becomes_right_thinking() {
    let seating_position = TableInteraction { position: 0 };
    let unit = EatingPhilosopher {
        left_fork: Fork {},
        right_fork: Fork {},
        seating_position,
    };

    let (unit, _fork) = unit.drop_left();

    assert_eq!(unit, RightThinkingPhilosopher::new(Fork {}, seating_position));
}

#[test]
fn eating_philosopher_state_is_eating() {
    let seating_position = TableInteraction { position: 0 };
    let unit = EatingPhilosopher::new(Fork {}, Fork {}, seating_position);

    assert_eq!(unit.state(), State::Eating);
}

#[test]
fn eating_philosopher_changes_to_right_thinking() {
    let mut table = Table::new(2);
    let seating_position = table.get_interactions().pop().unwrap();
    let left_fork = seating_position.get_left_fork(&mut table).unwrap();
    let right_fork = seating_position.get_right_fork(&mut table).unwrap();
    let unit = EatingPhilosopher::new(left_fork, right_fork, seating_position);

    let unit = unit.act(&mut table);

    assert_eq!(unit.state(), State::RightThinking);
}

#[test]
fn eating_philosopher_acts_to_return_left_fork() {
    let mut table = Table::new(2);
    let seating_position = table.get_interactions().pop().unwrap();
    let left_fork = seating_position.get_left_fork(&mut table).unwrap();
    let right_fork = seating_position.get_right_fork(&mut table).unwrap();
    let unit = EatingPhilosopher::new(left_fork, right_fork, seating_position);

    let _unit = unit.act(&mut table);

    let seating_position = table.get_interactions().pop().unwrap();
    assert_eq!(seating_position.get_left_fork(&mut table), Some(Fork {}));
}

#[test]
fn actor_advances_its_philosopher_in_place() {
    let mut table = Table::new(1);
    let seating_position = table.get_interactions().pop().unwrap();
    let mut actor = Actor {
        philosopher: AnyPhilosopher::Thinking(ThinkingPhilosopher::new(seating_position)),
    };

    actor.execute(&mut table);
    assert_eq!(actor.philosopher.state(), State::LeftThinking);

    actor.execute(&mut table);
    assert_eq!(actor.philosopher.state(), State::Thinking);
}
