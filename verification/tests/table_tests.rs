use dining_philosophers::table::Fork;
use dining_philosophers::table::Table;
use dining_philosophers::table::TableInteraction;

#[test]
fn construct_table() {
    let unit = Table::new(1);

    assert_eq!(unit, Table { forks: vec![Some(Fork {})] });
}

#[test]
fn get_fork_by_position() {
    let mut unit = Table::new(2);

    let fork = unit.get_fork(0);

    assert_ne!(fork, None);
}

#[test]
fn cannot_get_fork_of_index_larger_than_table_size() {
    let mut unit = Table::new(2);

    assert_eq!(unit.get_fork(3), None);
}

#[test]
fn cannot_get_fork_of_index_equal_to_table_size() {
    let mut unit = Table::new(2);

    assert_eq!(unit.get_fork(2), None);
}

#[test]
fn cannot_get_fork_when_in_use() {
    let mut unit = Table::new(1);
    let _fork = unit.get_fork(0);

    let same_fork = unit.get_fork(0);

    assert_eq!(same_fork, None);
}

#[test]
fn return_fork_to_table() {
    let mut unit = Table::new(1);
    let position = 0;
    let fork = unit.get_fork(position);

    unit.return_fork(fork.unwrap(), position);
    let fork = unit.get_fork(position);

    assert_ne!(fork, None);
}

#[test]
#[should_panic]
fn return_fork_panics_when_position_larger_than_table_size() {
    let mut unit = Table::new(1);
    let fork = unit.get_fork(0);

    unit.return_fork(fork.unwrap(), 2);
}

#[test]
fn table_interaction_get_fork() {
    let mut table = Table::new(1);
    let mut table_interactions = table.get_interactions();
    let unit = table_interactions.pop().unwrap();

    let fork = unit.get_left_fork(&mut table);

    assert_ne!(fork, None);
}

#[test]
fn table_interaction_get_adjacent_fork() {
    let mut table = Table::new(2);
    let mut table_interactions = table.get_interactions();
    let unit = table_interactions.pop().unwrap();

    unit.get_left_fork(&mut table);
    let fork = unit.get_right_fork(&mut table);

    assert_ne!(fork, None);
}

#[test]
fn table_interaction_cannot_get_same_fork() {
    let mut table = Table::new(1);
    let mut table_interactions = table.get_interactions();
    let unit = table_interactions.pop().unwrap();

    unit.get_left_fork(&mut table);
    let fork = unit.get_right_fork(&mut table);

    assert_eq!(fork, None);
}

#[test]
fn table_interaction_returns_fork() {
    let mut table = Table::new(1);
    let mut table_interactions = table.get_interactions();
    let unit = table_interactions.pop().unwrap();
    let fork = unit.get_left_fork(&mut table).unwrap();

    unit.return_left_fork(fork, &mut table);

    assert_ne!(unit.get_left_fork(&mut table), None);
}

#[test]
fn table_interaction_returns_adjacent_fork() {
    let mut table = Table::new(1);
    let mut table_interactions = table.get_interactions();
    let unit = table_interactions.pop().unwrap();
    let fork = unit.get_left_fork(&mut table).unwrap();

    unit.return_right_fork(fork, &mut table);

    assert_ne!(unit.get_left_fork(&mut table), None);
}

#[test]
fn interactions_cover_every_seat_in_order() {
    let table = Table::new(3);
    let interactions = table.get_interactions();

    assert_eq!(interactions.len(), 3);
    for (index, interaction) in interactions.iter().enumerate() {
        assert_eq!(interaction.position, index);
    }
}

#[test]
fn seat_handles_compare_by_position() {
    assert_eq!(TableInteraction { position: 2 }, TableInteraction { position: 2 });
    assert_ne!(TableInteraction { position: 2 }, TableInteraction { position: 3 });
}
