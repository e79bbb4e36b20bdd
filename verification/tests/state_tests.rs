use dining_philosophers::eating::Eating;
use dining_philosophers::left_thinking::LeftThinking;
use dining_philosophers::right_thinking::RightThinking;
use dining_philosophers::state_machine::ActorState;
use dining_philosophers::state_machine::State;
use dining_philosophers::state_machine::StateMachine;
use dining_philosophers::table::Fork;
use dining_philosophers::table::Table;
use dining_philosophers::table::TableInteraction;
use dining_philosophers::thinking::Thinking;

#[test]
fn thinking_take_left_becomes_left_thinking() {
    let table_interaction = TableInteraction { position: 0 };
    let unit = Thinking::new(table_interaction);

    assert_eq!(
        unit.take_left(Fork {}),
        LeftThinking::new(Fork {}, TableInteraction { position: 0 })
    );
}

#[test]
fn thinking_take_right_becomes_right_thinking() {
    let table_interaction = TableInteraction { position: 0 };
    let unit = Thinking::new(table_interaction);

    assert_eq!(
        unit.take_right(Fork {}),
        RightThinking::new(Fork {}, TableInteraction { position: 0 })
    );
}

#[test]
fn thinking_state_is_thinking() {
    let table_interaction = TableInteraction { position: 0 };
    let unit = ActorState::Thinking(Thinking::new(table_interaction));

    assert_eq!(unit.state(), State::Thinking);
}

#[test]
fn thinking_changes_to_left_when_left_fork_available() {
    let mut table = Table::new(1);
    let table_interaction = table.get_interactions().pop().unwrap();
    let unit = ActorState::Thinking(Thinking::new(table_interaction));

    let unit = unit.transition(&mut table);

    assert_eq!(unit.state(), State::LeftThinking);
}

#[test]
fn thinking_changes_to_thinking_when_left_fork_is_not_available() {
    let mut table = Table::new(1);
    let table_interaction = table.get_interactions().pop().unwrap();
    table_interaction.get_left_fork(&mut table);
    let unit = ActorState::Thinking(Thinking::new(table_interaction));

    let unit = unit.transition(&mut table);

    assert_eq!(unit.state(), State::Thinking);
}

#[test]
fn left_thinking_take_right_becomes_eating() {
    let table_interaction = TableInteraction { position: 0 };
    let unit = LeftThinking { left_fork: Fork {}, table_interaction };

    assert_eq!(
        unit.take_right(Fork {}),
        Eating::new(Fork {}, Fork {}, TableInteraction { position: 0 })
    );
}

#[test]
fn left_thinking_drop_left_becomes_thinking() {
    let mut table = Table::new(1);
    let table_interaction = TableInteraction { position: 0 };
    let unit = LeftThinking { left_fork: Fork {}, table_interaction };

    let unit = unit.drop_left(&mut table);

    assert_eq!(unit, Thinking::new(TableInteraction { position: 0 }));
}

#[test]
fn left_thinking_state_is_left_thinking() {
    let table_interaction = TableInteraction { position: 0 };
    let unit = ActorState::LeftThinking(LeftThinking::new(Fork {}, table_interaction));

    assert_eq!(unit.state(), State::LeftThinking);
}

#[test]
fn left_thinking_changes_to_eating_when_right_fork_available() {
    let mut table = Table::new(2);
    let table_interaction = table.get_interactions().pop().unwrap();
    let fork = table_interaction.get_left_fork(&mut table).unwrap();
    let unit = ActorState::LeftThinking(LeftThinking::new(fork, table_interaction));

    let unit = unit.transition(&mut table);

    assert_eq!(unit.state(), State::Eating);
}

#[test]
fn left_thinking_changes_to_thinking_when_right_fork_is_not_available() {
    let mut table = Table::new(1);
    let table_interaction = table.get_interactions().pop().unwrap();
    let mut fork = table_interaction.get_left_fork(&mut table);
    let unit = ActorState::LeftThinking(LeftThinking::new(fork.take().unwrap(), table_interaction));

    let unit = unit.transition(&mut table);

    assert_eq!(unit.state(), State::Thinking);
}

#[test]
fn left_thinking_returns_left_fork_when_right_fork_is_not_available() {
    let mut table = Table::new(1);
    let table_interaction = table.get_interactions().pop().unwrap();
    let mut fork = table_interaction.get_left_fork(&mut table);
    let unit = ActorState::LeftThinking(LeftThinking::new(fork.take().unwrap(), table_interaction));

    let unit = unit.transition(&mut table);
    let unit = unit.transition(&mut table);

    assert_eq!(unit.state(), State::LeftThinking);
}

#[test]
fn right_thinking_right_thinking_take_left_becomes_eating() {
    let seating_position = TableInteraction { position: 0 };
    let unit = RightThinking { right_fork: Fork {}, table_interaction: seating_position };

    assert_eq!(
        unit.take_left(Fork {}),
        Eating::new(Fork {}, Fork {}, TableInteraction { position: 0 })
    );
}

#[test]
fn right_thinking_right_thinking_drop_right_becomes_thinking() {
    let mut table = Table::new(1);
    let seating_position = TableInteraction { position: 0 };
    let unit = RightThinking { right_fork: Fork {}, table_interaction: seating_position };

    let unit = unit.drop_right(&mut table);

    assert_eq!(unit, Thinking::new(TableInteraction { position: 0 }));
}

#[test]
fn right_thinking_state_is_right_thinking() {
    let seating_position = TableInteraction { position: 0 };
    let unit = ActorState::RightThinking(RightThinking::new(Fork {}, seating_position));

    assert_eq!(unit.state(), State::RightThinking);
}

#[test]
fn right_thinking_changes_to_eating_when_left_fork_available() {
    let mut table = Table::new(2);
    let seating_position = table.get_interactions().pop().unwrap();
    let fork = seating_position.get_right_fork(&mut table).unwrap();
    let unit = ActorState::RightThinking(RightThinking::new(fork, seating_position));

    let unit = unit.transition(&mut table);

    assert_eq!(unit.state(), State::Eating);
}

#[test]
fn right_thinking_changes_to_thinking_when_left_fork_is_not_available() {
    let mut table = Table::new(1);
    let seating_position = table.get_interactions().pop().unwrap();
    let mut fork = seating_position.get_right_fork(&mut table);
    let unit = ActorState::RightThinking(RightThinking::new(
        fork.take().unwrap(),
        seating_position,
    ));

    let unit = unit.transition(&mut table);

    assert_eq!(unit.state(), State::Thinking);
}

#[test]
fn right_thinking_returns_right_fork_when_left_fork_is_not_available() {
    let mut table = Table::new(1);
    let seating_position = table.get_interactions().pop().unwrap();
    let mut fork = seating_position.get_right_fork(&mut table);
    let unit = ActorState::RightThinking(RightThinking::new(
        fork.take().unwrap(),
        seating_position,
    ));

    let _unit = unit.transition(&mut table);

    assert_eq!(seating_position.get_right_fork(&mut table), Some(Fork {}));
}

#[test]
fn eating_eating_drop_right_becomes_left_thinking() {
    let mut table = Table::new(1);
    let table_interaction = TableInteraction { position: 0 };
    let unit = Eating {
        left_fork: Fork {},
        right_fork: Fork {},
        table_interaction,
    };

    let unit = unit.drop_right(&mut table);

    assert_eq!(unit, LeftThinking::new(Fork {}, TableInteraction { position: 0 }));
}

#[test]
fn eating_eating_drop_left_becomes_right_thinking() {
    let mut table = Table::new(1);
    let table_interaction = TableInteraction { position: 0 };
    let unit = Eating {
        left_fork: Fork {},
        right_fork: Fork {},
        table_interaction,
    };

    let unit = unit.drop_left(&mut table);

    assert_eq!(unit, RightThinking::new(Fork {}, TableInteraction { position: 0 }));
}

#[test]
fn eating_state_is_eating() {
    let table_interaction = TableInteraction { position: 0 };
    let unit = ActorState::Eating(Eating::new(Fork {}, Fork {}, table_interaction));

    assert_eq!(unit.state(), State::Eating);
}

#[test]
fn eating_changes_to_right_thinking() {
    let mut table = Table::new(2);
    let table_interaction = table.get_interactions().pop().unwrap();
    let left_fork = table_interaction.get_left_fork(&mut table).unwrap();
    let right_fork = table_interaction.get_right_fork(&mut table).unwrap();
    let unit = ActorState::Eating(Eating::new(left_fork, right_fork, table_interaction));

    let unit = unit.transition(&mut table);

    assert_eq!(unit.state(), State::RightThinking);
}

#[test]
fn eating_acts_to_return_left_fork() {
    let mut table = Table::new(2);
    let mut interactions = table.get_interactions();
    let table_interaction = interactions.pop().unwrap();
    let left_fork = table_interaction.get_left_fork(&mut table).unwrap();
    let right_fork = table_interaction.get_right_fork(&mut table).unwrap();
    let unit = ActorState::Eating(Eating::new(left_fork, right_fork, table_interaction));

    let unit = unit.transition(&mut table);
    let unit = unit.transition(&mut table);

    assert_eq!(unit.state(), State::Eating);
}

#[test]
fn eating_keeps_dropping_left_with_a_full_table() {
    let mut table = Table::new(3);
    let table_interaction = TableInteraction { position: 1 };
    let unit = ActorState::Eating(Eating::new(Fork {}, Fork {}, table_interaction));

    let unit = unit.transition(&mut table);

    assert_eq!(unit.state(), State::RightThinking);
}
