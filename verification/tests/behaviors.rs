use chunky::behaviors::{
    check_for_deadly, check_for_entrance, check_for_exit, check_for_explosive,
    check_for_finished_levels, check_for_key, check_for_liquid, check_for_paint,
    check_for_teleporter, check_for_transform_on_push, check_for_triggers,
    despawn_volatile_objects, spawns_volatile, PressedTriggers,
};
use chunky::components::{Direction, Position};
use chunky::game_object::{spawn_object_of_type, Event, GameObject, PositionChange};
use chunky::game_state::GameState;
use chunky::levels::InitialPositionAndMetadata;
use chunky::object_type::ObjectType;

fn at(x: i16, y: i16) -> InitialPositionAndMetadata {
    InitialPositionAndMetadata::from(&Position::new(x, y))
}

/// An object of the given kind that has been standing on its cell for a while.
fn resting(object_type: ObjectType, x: i16, y: i16) -> GameObject {
    GameObject {
        position_change: PositionChange::Unchanged,
        ..spawn_object_of_type(object_type, at(x, y))
    }
}

/// An object of the given kind that has just been moved onto its cell.
fn moved(object_type: ObjectType, x: i16, y: i16) -> GameObject {
    GameObject {
        position_change: PositionChange::Moved,
        ..spawn_object_of_type(object_type, at(x, y))
    }
}

fn spawn(object_type: ObjectType, x: i16, y: i16) -> Event {
    Event::Spawn { object_type, position: at(x, y) }
}

fn despawn(entity: usize) -> Event {
    Event::Despawn { entity }
}

#[test]
fn deadly_object_kills_the_player_on_its_cell() {
    let objects = vec![
        resting(ObjectType::BouncingBall, 3, 3),
        resting(ObjectType::Player, 3, 3),
        resting(ObjectType::Creature1, 4, 3),
    ];
    assert_eq!(
        check_for_deadly(&objects),
        vec![despawn(1), despawn(0), spawn(ObjectType::Grave, 3, 3)]
    );
}

#[test]
fn deadly_object_elsewhere_does_nothing() {
    let objects = vec![resting(ObjectType::BouncingBall, 3, 4), resting(ObjectType::Player, 3, 3)];
    assert_eq!(check_for_deadly(&objects), vec![]);
    assert_eq!(check_for_deadly(&Vec::new()), vec![]);
}

#[test]
fn each_deadly_object_on_the_cell_leaves_a_grave() {
    let objects = vec![
        resting(ObjectType::Player, 3, 3),
        resting(ObjectType::BouncingBall, 3, 3),
        resting(ObjectType::Creature1, 3, 3),
    ];
    assert_eq!(
        check_for_deadly(&objects),
        vec![
            despawn(0),
            despawn(1),
            spawn(ObjectType::Grave, 3, 3),
            despawn(0),
            despawn(2),
            spawn(ObjectType::Grave, 3, 3),
        ]
    );
}

#[test]
fn mine_blows_up_with_what_moves_onto_it() {
    let objects = vec![
        resting(ObjectType::Mine, 5, 5),
        moved(ObjectType::YellowBlock, 5, 5),
        resting(ObjectType::Mine, 6, 5),
    ];
    assert_eq!(
        check_for_explosive(&objects),
        vec![despawn(0), despawn(1), spawn(ObjectType::Explosion, 5, 5)]
    );
}

#[test]
fn mine_ignores_what_rests_on_it_and_other_mines() {
    let objects = vec![
        resting(ObjectType::Mine, 5, 5),
        resting(ObjectType::YellowBlock, 5, 5),
        moved(ObjectType::Mine, 5, 5),
        moved(ObjectType::YellowBlock, 5, 6),
    ];
    assert_eq!(check_for_explosive(&objects), vec![]);
}

#[test]
fn new_object_on_a_mine_blows_up() {
    let objects =
        vec![spawn_object_of_type(ObjectType::Player, at(5, 5)), resting(ObjectType::Mine, 5, 5)];
    assert_eq!(
        check_for_explosive(&objects),
        vec![despawn(1), despawn(0), spawn(ObjectType::Explosion, 5, 5)]
    );
}

#[test]
fn block_sinks_in_water() {
    let mut objects = vec![resting(ObjectType::Water, 2, 2), moved(ObjectType::BlueBlock, 2, 2)];
    let before = objects.clone();
    assert_eq!(
        check_for_liquid(&mut objects),
        vec![despawn(1), spawn(ObjectType::Splash, 2, 2)]
    );
    assert_eq!(objects, before);
}

#[test]
fn raft_floats_and_is_anchored() {
    let mut objects = vec![resting(ObjectType::Water, 2, 2), moved(ObjectType::Raft, 2, 2)];
    let before = objects.clone();
    assert_eq!(check_for_liquid(&mut objects), vec![]);
    assert_eq!(objects[0], before[0]);
    assert_eq!(objects[1], GameObject { pushable: false, ..before[1] });
}

#[test]
fn raft_carries_what_moves_onto_it() {
    let anchored = GameObject { pushable: false, ..resting(ObjectType::Raft, 2, 2) };
    let mut objects =
        vec![resting(ObjectType::Water, 2, 2), anchored, moved(ObjectType::Player, 2, 2)];
    let before = objects.clone();
    assert_eq!(check_for_liquid(&mut objects), vec![]);
    assert_eq!(objects, before);
}

#[test]
fn second_raft_on_a_raft_stays_pushable() {
    let anchored = GameObject { pushable: false, ..resting(ObjectType::Raft, 2, 2) };
    let mut objects =
        vec![resting(ObjectType::Water, 2, 2), anchored, moved(ObjectType::Raft, 2, 2)];
    let before = objects.clone();
    assert_eq!(check_for_liquid(&mut objects), vec![]);
    assert_eq!(objects, before);
}

#[test]
fn water_leaves_alone_what_rests_or_is_elsewhere() {
    let mut objects = vec![
        resting(ObjectType::Water, 2, 2),
        resting(ObjectType::BlueBlock, 2, 2),
        moved(ObjectType::BlueBlock, 2, 3),
        moved(ObjectType::Raft, 3, 2),
        moved(ObjectType::Water, 2, 2),
    ];
    let before = objects.clone();
    assert_eq!(check_for_liquid(&mut objects), vec![]);
    assert_eq!(objects, before);
}

#[test]
fn blue_paint_paints_a_red_block_blue() {
    let objects = vec![moved(ObjectType::BluePaint, 4, 4), resting(ObjectType::RedBlock, 4, 4)];
    assert_eq!(
        check_for_paint(&objects),
        vec![despawn(0), despawn(1), spawn(ObjectType::BlueBlock, 4, 4)]
    );
}

#[test]
fn paint_that_rests_paints_nothing() {
    let objects = vec![resting(ObjectType::BluePaint, 4, 4), moved(ObjectType::RedBlock, 4, 4)];
    assert_eq!(check_for_paint(&objects), vec![]);
}

#[test]
fn blue_and_red_paint_mix_to_purple() {
    let objects = vec![resting(ObjectType::RedPaint, 4, 4), moved(ObjectType::BluePaint, 4, 4)];
    assert_eq!(
        check_for_paint(&objects),
        vec![despawn(1), despawn(0), spawn(ObjectType::PurplePaint, 4, 4)]
    );
}

#[test]
fn paint_mixed_with_its_like_stays_what_it_is() {
    let objects = vec![moved(ObjectType::RedPaint, 4, 4), resting(ObjectType::RedPaint, 4, 4)];
    assert_eq!(
        check_for_paint(&objects),
        vec![despawn(0), despawn(1), spawn(ObjectType::RedPaint, 4, 4)]
    );
}

#[test]
fn paint_of_a_kind_that_does_not_mix_is_left_alone() {
    let odd = GameObject { paint: Some(ObjectType::YellowBlock), ..moved(ObjectType::Key, 4, 4) };
    let objects = vec![odd, resting(ObjectType::RedPaint, 4, 4)];
    assert_eq!(check_for_paint(&objects), vec![]);
}

#[test]
fn paint_paints_first_and_mixes_then() {
    let objects = vec![
        resting(ObjectType::RedPaint, 4, 4),
        resting(ObjectType::YellowBlock, 4, 4),
        moved(ObjectType::BluePaint, 4, 4),
    ];
    assert_eq!(
        check_for_paint(&objects),
        vec![
            despawn(2),
            despawn(1),
            spawn(ObjectType::BlueBlock, 4, 4),
            despawn(2),
            despawn(0),
            spawn(ObjectType::PurplePaint, 4, 4),
        ]
    );
}

#[test]
fn pushed_purple_block_turns_red() {
    let pushed = GameObject { direction: Direction::Left, ..moved(ObjectType::PurpleBlock, 7, 2) };
    let objects = vec![resting(ObjectType::PurpleBlock, 1, 1), pushed];
    let turned = Event::Spawn {
        object_type: ObjectType::RedBlock,
        position: InitialPositionAndMetadata { direction: Some(Direction::Left), ..at(7, 2) },
    };
    assert_eq!(check_for_transform_on_push(&objects, false), vec![despawn(1), turned]);
    assert_eq!(check_for_transform_on_push(&objects, true), vec![]);
}

#[test]
fn new_or_anchored_purple_block_stays_purple() {
    let anchored = GameObject { pushable: false, ..moved(ObjectType::PurpleBlock, 7, 2) };
    let objects = vec![spawn_object_of_type(ObjectType::PurpleBlock, at(1, 1)), anchored];
    assert_eq!(check_for_transform_on_push(&objects, false), vec![]);
}

#[test]
fn volatile_objects_expire() {
    let objects = vec![
        resting(ObjectType::Explosion, 1, 1),
        resting(ObjectType::Player, 1, 1),
        resting(ObjectType::Splash, 2, 1),
        resting(ObjectType::Flash, 3, 1),
    ];
    assert_eq!(despawn_volatile_objects(&objects), vec![despawn(0), despawn(2), despawn(3)]);
    assert!(spawns_volatile(&spawn(ObjectType::Explosion, 1, 1)));
    assert!(spawns_volatile(&spawn(ObjectType::Flash, 1, 1)));
    assert!(spawns_volatile(&spawn(ObjectType::Splash, 1, 1)));
    assert!(!spawns_volatile(&spawn(ObjectType::Grave, 1, 1)));
    assert!(!spawns_volatile(&despawn(0)));
}

#[test]
fn key_opens_a_door_and_is_used_up() {
    let mut objects = vec![resting(ObjectType::Door, 8, 8), moved(ObjectType::Key, 8, 8)];
    let before = objects.clone();
    assert_eq!(check_for_key(&mut objects), vec![despawn(1)]);
    assert_eq!(objects[0], GameObject { massive: false, ..before[0] });
    assert_eq!(objects[1], before[1]);
}

#[test]
fn key_does_not_open_a_gate_or_an_open_door() {
    let open = GameObject { massive: false, ..resting(ObjectType::Door, 8, 8) };
    let mut objects = vec![
        open,
        moved(ObjectType::Key, 8, 8),
        resting(ObjectType::Gate, 9, 9),
        moved(ObjectType::Key, 9, 9),
        resting(ObjectType::Door, 3, 3),
        resting(ObjectType::Key, 3, 3),
        moved(ObjectType::Key, 3, 4),
    ];
    let before = objects.clone();
    assert_eq!(check_for_key(&mut objects), vec![]);
    assert_eq!(objects, before);
}

#[test]
fn two_keys_on_one_door_are_both_used_up() {
    let mut objects = vec![
        moved(ObjectType::Key, 8, 8),
        resting(ObjectType::Door, 8, 8),
        moved(ObjectType::Key, 8, 8),
    ];
    assert_eq!(check_for_key(&mut objects), vec![despawn(0), despawn(2)]);
    assert!(!objects[1].massive);
}

fn finished(levels: &[u16]) -> GameState {
    let mut state = GameState::default();
    for level in levels {
        state.mark_level_finished(*level);
    }
    state
}

fn gate_for(level: Option<u16>, x: i16, y: i16) -> GameObject {
    GameObject {
        position_change: PositionChange::Unchanged,
        ..spawn_object_of_type(
            ObjectType::Gate,
            InitialPositionAndMetadata { level, ..at(x, y) },
        )
    }
}

#[test]
fn gates_of_finished_levels_are_open() {
    let mut objects = vec![
        gate_for(Some(3), 1, 1),
        gate_for(Some(4), 2, 1),
        gate_for(None, 3, 1),
        resting(ObjectType::Door, 4, 1),
        GameObject { massive: false, ..gate_for(Some(5), 5, 1) },
        GameObject { massive: false, ..gate_for(Some(3), 6, 1) },
    ];
    let before = objects.clone();
    check_for_finished_levels(&mut objects, &finished(&[3, 9]));
    assert_eq!(objects[0], GameObject { massive: false, ..before[0] });
    assert_eq!(objects[1], before[1]);
    assert_eq!(objects[2], before[2]);
    assert_eq!(objects[3], before[3]);
    assert_eq!(objects[4], GameObject { massive: true, ..before[4] });
    assert_eq!(objects[5], before[5]);
}

#[test]
fn more_pressed_triggers_open_the_gates() {
    let mut objects = vec![
        resting(ObjectType::Button, 2, 2),
        gate_for(None, 5, 5),
        gate_for(Some(1), 6, 5),
        moved(ObjectType::YellowBlock, 2, 2),
        gate_for(None, 7, 5),
    ];
    let before = objects.clone();
    let mut pressed = PressedTriggers::default();
    check_for_triggers(&mut objects, &mut pressed);
    assert_eq!(pressed.num_pressed_triggers, 1);
    assert_eq!(objects[1], GameObject { massive: false, ..before[1] });
    assert_eq!(objects[4], GameObject { massive: false, ..before[4] });
    assert_eq!(objects[2], before[2]);
    assert_eq!(objects[0], before[0]);
    assert_eq!(objects[3], before[3]);
}

#[test]
fn fewer_pressed_triggers_close_the_gates() {
    let open = GameObject { massive: false, ..gate_for(None, 5, 5) };
    let mut objects =
        vec![resting(ObjectType::Button, 2, 2), open, moved(ObjectType::YellowBlock, 3, 2)];
    let mut pressed = PressedTriggers { num_pressed_triggers: 1 };
    check_for_triggers(&mut objects, &mut pressed);
    assert_eq!(pressed.num_pressed_triggers, 0);
    assert!(objects[1].massive);
}

#[test]
fn as_many_pressed_triggers_change_nothing() {
    let closed = gate_for(None, 5, 5);
    let mut objects = vec![
        resting(ObjectType::Button, 2, 2),
        resting(ObjectType::Button, 3, 2),
        closed,
        moved(ObjectType::YellowBlock, 3, 2),
    ];
    let before = objects.clone();
    let mut pressed = PressedTriggers { num_pressed_triggers: 1 };
    check_for_triggers(&mut objects, &mut pressed);
    assert_eq!(pressed.num_pressed_triggers, 1);
    assert_eq!(objects, before);
}

#[test]
fn triggers_are_counted_whether_anything_has_moved_or_not() {
    let mut objects = vec![
        resting(ObjectType::Button, 2, 2),
        gate_for(None, 5, 5),
        resting(ObjectType::YellowBlock, 2, 2),
    ];
    let before = objects.clone();
    let mut pressed = PressedTriggers::default();
    check_for_triggers(&mut objects, &mut pressed);
    assert_eq!(pressed.num_pressed_triggers, 1);
    assert_eq!(objects[1], GameObject { massive: false, ..before[1] });
    assert_eq!(objects[0], before[0]);
    assert_eq!(objects[2], before[2]);
}

#[test]
fn gates_close_when_what_pressed_the_trigger_is_gone() {
    let open = GameObject { massive: false, ..gate_for(None, 5, 5) };
    let mut objects = vec![resting(ObjectType::Button, 2, 2), open];
    let mut pressed = PressedTriggers { num_pressed_triggers: 1 };
    check_for_triggers(&mut objects, &mut pressed);
    assert_eq!(pressed.num_pressed_triggers, 0);
    assert_eq!(objects[1], gate_for(None, 5, 5));
    assert_eq!(objects[0], resting(ObjectType::Button, 2, 2));
}

#[test]
fn gates_are_opened_once_for_every_change_of_the_count() {
    let mut objects = vec![
        resting(ObjectType::Button, 2, 2),
        gate_for(None, 5, 5),
        moved(ObjectType::YellowBlock, 2, 2),
    ];
    let mut pressed = PressedTriggers::default();
    check_for_triggers(&mut objects, &mut pressed);
    assert_eq!(pressed.num_pressed_triggers, 1);
    assert!(!objects[1].massive);
    objects[1].massive = true;
    let settled = objects.clone();
    check_for_triggers(&mut objects, &mut pressed);
    assert_eq!(pressed.num_pressed_triggers, 1);
    assert_eq!(objects, settled);
}

#[test]
fn gates_and_triggers_do_not_press_triggers() {
    let mut objects = vec![
        resting(ObjectType::Button, 2, 2),
        GameObject { massive: false, ..gate_for(None, 2, 2) },
        moved(ObjectType::Button, 2, 2),
    ];
    let mut pressed = PressedTriggers { num_pressed_triggers: 0 };
    check_for_triggers(&mut objects, &mut pressed);
    assert_eq!(pressed.num_pressed_triggers, 0);
    assert!(!objects[1].massive);
}

#[test]
fn two_objects_on_one_trigger_press_it_once() {
    let mut objects = vec![
        resting(ObjectType::Button, 2, 2),
        resting(ObjectType::Button, 4, 4),
        moved(ObjectType::YellowBlock, 2, 2),
        moved(ObjectType::Key, 2, 2),
        moved(ObjectType::Player, 4, 4),
        gate_for(None, 9, 9),
    ];
    let mut pressed = PressedTriggers { num_pressed_triggers: 1 };
    check_for_triggers(&mut objects, &mut pressed);
    assert_eq!(pressed.num_pressed_triggers, 2);
    assert!(!objects[5].massive);
}

fn teleporter(identifier: u16, x: i16, y: i16) -> GameObject {
    GameObject {
        position_change: PositionChange::Unchanged,
        ..spawn_object_of_type(
            ObjectType::Teleporter,
            InitialPositionAndMetadata { identifier: Some(identifier), ..at(x, y) },
        )
    }
}

#[test]
fn teleporter_sends_to_its_pair() {
    let mut objects =
        vec![teleporter(7, 2, 2), teleporter(7, 10, 10), moved(ObjectType::Player, 2, 2)];
    let before = objects.clone();
    assert_eq!(
        check_for_teleporter(&mut objects),
        vec![spawn(ObjectType::Flash, 2, 2), spawn(ObjectType::Flash, 10, 10)]
    );
    assert_eq!(
        objects[2],
        GameObject {
            position: Position::new(10, 10),
            position_change: PositionChange::Moved,
            ..before[2]
        }
    );
    assert_eq!(objects[0], before[0]);
    assert_eq!(objects[1], before[1]);
}

#[test]
fn teleporter_sends_back_the_other_way() {
    let mut objects =
        vec![teleporter(7, 2, 2), teleporter(7, 10, 10), moved(ObjectType::YellowBlock, 10, 10)];
    assert_eq!(
        check_for_teleporter(&mut objects),
        vec![spawn(ObjectType::Flash, 10, 10), spawn(ObjectType::Flash, 2, 2)]
    );
    assert_eq!(objects[2].position, Position::new(2, 2));
}

#[test]
fn occupied_teleporter_takes_nobody() {
    let mut objects = vec![
        teleporter(7, 2, 2),
        teleporter(7, 10, 10),
        resting(ObjectType::RedBlock, 10, 10),
        moved(ObjectType::Player, 2, 2),
    ];
    let before = objects.clone();
    assert_eq!(check_for_teleporter(&mut objects), vec![]);
    assert_eq!(objects, before);

    let mut objects = vec![
        teleporter(7, 2, 2),
        teleporter(7, 10, 10),
        moved(ObjectType::Key, 2, 2),
        resting(ObjectType::Grave, 10, 10),
    ];
    let before = objects.clone();
    assert_eq!(check_for_teleporter(&mut objects), vec![]);
    assert_eq!(objects, before);
}

#[test]
fn teleporter_is_occupied_by_a_block_that_has_just_moved_there() {
    let mut objects = vec![
        teleporter(7, 2, 2),
        teleporter(7, 10, 10),
        moved(ObjectType::Key, 2, 2),
        moved(ObjectType::YellowBlock, 10, 10),
    ];
    let before = objects.clone();
    assert_eq!(
        check_for_teleporter(&mut objects),
        vec![spawn(ObjectType::Flash, 10, 10), spawn(ObjectType::Flash, 2, 2)]
    );
    assert_eq!(objects[2], before[2]);
    assert_eq!(objects[3].position, Position::new(2, 2));

    let mut objects = vec![
        teleporter(7, 2, 2),
        teleporter(7, 10, 10),
        moved(ObjectType::BlueBlock, 2, 2),
        moved(ObjectType::YellowBlock, 10, 10),
    ];
    let before = objects.clone();
    assert_eq!(check_for_teleporter(&mut objects), vec![]);
    assert_eq!(objects, before);
}

#[test]
fn teleporter_ignores_what_is_not_massive_at_the_far_end() {
    let mut objects = vec![
        teleporter(7, 2, 2),
        teleporter(7, 10, 10),
        resting(ObjectType::Key, 10, 10),
        moved(ObjectType::RedBlock, 10, 10),
        moved(ObjectType::Player, 2, 2),
    ];
    let events = check_for_teleporter(&mut objects);
    assert_eq!(events, vec![spawn(ObjectType::Flash, 10, 10), spawn(ObjectType::Flash, 2, 2)]);
    assert_eq!(objects[3].position, Position::new(2, 2));
    assert_eq!(objects[4].position, Position::new(2, 2));

    let mut objects = vec![
        teleporter(7, 2, 2),
        teleporter(7, 10, 10),
        resting(ObjectType::Key, 10, 10),
        moved(ObjectType::Raft, 10, 10),
        moved(ObjectType::Player, 2, 2),
    ];
    let events = check_for_teleporter(&mut objects);
    assert_eq!(
        events,
        vec![
            spawn(ObjectType::Flash, 10, 10),
            spawn(ObjectType::Flash, 2, 2),
            spawn(ObjectType::Flash, 2, 2),
            spawn(ObjectType::Flash, 10, 10),
        ]
    );
    assert_eq!(objects[2].position, Position::new(10, 10));
    assert_eq!(objects[3].position, Position::new(2, 2));
    assert_eq!(objects[4].position, Position::new(10, 10));
}

#[test]
fn teleporter_without_a_pair_keeps_what_steps_on_it() {
    let mut objects = vec![
        teleporter(7, 2, 2),
        teleporter(8, 10, 10),
        teleporter(7, 2, 2),
        moved(ObjectType::Player, 2, 2),
    ];
    let before = objects.clone();
    assert_eq!(check_for_teleporter(&mut objects), vec![]);
    assert_eq!(objects, before);
}

#[test]
fn teleporter_leaves_alone_what_rests_and_flashes() {
    let mut objects = vec![
        teleporter(7, 2, 2),
        teleporter(7, 10, 10),
        resting(ObjectType::Player, 2, 2),
        moved(ObjectType::Flash, 2, 2),
        moved(ObjectType::Player, 3, 3),
    ];
    let before = objects.clone();
    assert_eq!(check_for_teleporter(&mut objects), vec![]);
    assert_eq!(objects, before);
}

#[test]
fn first_teleporter_with_the_number_is_the_far_end() {
    let mut objects = vec![
        teleporter(7, 2, 2),
        teleporter(7, 10, 10),
        teleporter(7, 12, 12),
        moved(ObjectType::Player, 12, 12),
    ];
    check_for_teleporter(&mut objects);
    assert_eq!(objects[3].position, Position::new(2, 2));
}

#[test]
fn player_enters_the_level_of_the_entrance() {
    let entrance = |level, x, y| GameObject {
        position_change: PositionChange::Unchanged,
        ..spawn_object_of_type(
            ObjectType::Entrance,
            InitialPositionAndMetadata { level: Some(level), ..at(x, y) },
        )
    };
    let objects =
        vec![entrance(4, 3, 3), entrance(9, 5, 5), moved(ObjectType::Player, 5, 5)];
    assert_eq!(check_for_entrance(&objects), Some(9));

    let objects = vec![entrance(4, 3, 3), resting(ObjectType::Player, 3, 3)];
    assert_eq!(check_for_entrance(&objects), None);

    let objects = vec![entrance(4, 3, 3), spawn_object_of_type(ObjectType::Player, at(3, 3))];
    assert_eq!(check_for_entrance(&objects), None);

    let objects = vec![entrance(4, 3, 3), moved(ObjectType::YellowBlock, 3, 3)];
    assert_eq!(check_for_entrance(&objects), None);

    let objects =
        vec![entrance(4, 3, 3), entrance(6, 3, 3), moved(ObjectType::Player, 3, 3)];
    assert_eq!(check_for_entrance(&objects), Some(4));
}

#[test]
fn player_on_the_exit_finishes_the_level() {
    let objects = vec![resting(ObjectType::Exit, 2, 1), moved(ObjectType::Player, 2, 1)];
    assert!(check_for_exit(&objects));
    let objects = vec![resting(ObjectType::Exit, 2, 1), moved(ObjectType::Player, 1, 1)];
    assert!(!check_for_exit(&objects));
    let objects = vec![resting(ObjectType::Exit, 2, 1), resting(ObjectType::Player, 2, 1)];
    assert!(!check_for_exit(&objects));
    let objects =
        vec![resting(ObjectType::Exit, 2, 1), spawn_object_of_type(ObjectType::Player, at(2, 1))];
    assert!(!check_for_exit(&objects));
    let objects = vec![resting(ObjectType::Exit, 2, 1), moved(ObjectType::Key, 2, 1)];
    assert!(!check_for_exit(&objects));
}
