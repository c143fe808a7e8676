use chunky::animation::animate_objects;
use chunky::background::{slowest, Easing, UpdateBackgroundTransform};
use chunky::components::{BlocksMovement, Direction, Position};
use chunky::game_object::{spawn_object_of_type, GameObject, PositionChange};
use chunky::game_state::{load_relative_level, GameState};
use chunky::input::{deltas_from_pressed, directions_from_deltas, directions_from_inputs};
use chunky::levels::{
    contents_or_default, get_level_path, Dimensions, InitialPositionAndMetadata, Levels,
};
use chunky::motion::{
    attempt_move, check_for_slippery_and_transporter, move_objects, on_game_event, GameEvent,
};
use chunky::movement::MoveObjectError;
use chunky::object_type::ObjectType;

fn grid() -> Dimensions {
    Dimensions { width: 16, height: 16 }
}

fn at(x: i16, y: i16) -> InitialPositionAndMetadata {
    InitialPositionAndMetadata::from(&Position::new(x, y))
}

fn resting(object_type: ObjectType, x: i16, y: i16) -> GameObject {
    GameObject {
        position_change: PositionChange::Unchanged,
        ..spawn_object_of_type(object_type, at(x, y))
    }
}

fn facing(object_type: ObjectType, x: i16, y: i16, direction: Direction) -> GameObject {
    GameObject { direction, ..resting(object_type, x, y) }
}

fn step(direction: Direction) -> GameEvent {
    GameEvent::MovePlayer(direction)
}

#[test]
fn player_steps_and_turns() {
    let mut objects = vec![resting(ObjectType::Player, 5, 5)];
    let result = on_game_event(&mut objects, step(Direction::Right), &grid());
    assert_eq!(result, Some(Ok(())));
    assert_eq!(
        objects[0],
        GameObject {
            position: Position::new(6, 5),
            direction: Direction::Right,
            position_change: PositionChange::Moved,
            ..resting(ObjectType::Player, 5, 5)
        }
    );
}

#[test]
fn player_pushes_a_block() {
    let mut objects = vec![
        resting(ObjectType::YellowBlock, 6, 5),
        resting(ObjectType::Player, 5, 5),
        resting(ObjectType::YellowBlock, 9, 9),
    ];
    let before = objects.clone();
    let result = on_game_event(&mut objects, step(Direction::Right), &grid());
    assert_eq!(result, Some(Ok(())));
    assert_eq!(objects[1].position, Position::new(6, 5));
    assert_eq!(
        objects[0],
        GameObject {
            position: Position::new(7, 5),
            direction: Direction::Right,
            position_change: PositionChange::Moved,
            ..before[0]
        }
    );
    assert_eq!(objects[2], before[2]);
}

#[test]
fn player_at_the_edge_stays_and_keeps_facing() {
    let mut objects = vec![resting(ObjectType::Player, 1, 1)];
    let before = objects.clone();
    let result = on_game_event(&mut objects, step(Direction::Left), &grid());
    assert_eq!(result, Some(Err(MoveObjectError::EdgeCollision)));
    assert_eq!(objects, before);
}

#[test]
fn player_is_stopped_by_a_wall() {
    let mut objects = vec![resting(ObjectType::Player, 5, 5), resting(ObjectType::RedBlock, 5, 6)];
    let before = objects.clone();
    let result = on_game_event(&mut objects, step(Direction::Down), &grid());
    assert_eq!(result, Some(Err(MoveObjectError::ObjectCollision)));
    assert_eq!(objects, before);
}

#[test]
fn no_step_without_exactly_one_player() {
    let mut objects = vec![resting(ObjectType::YellowBlock, 5, 5)];
    assert_eq!(on_game_event(&mut objects, step(Direction::Down), &grid()), None);
    let mut objects = vec![resting(ObjectType::Player, 5, 5), resting(ObjectType::Player, 7, 7)];
    let before = objects.clone();
    assert_eq!(on_game_event(&mut objects, step(Direction::Down), &grid()), None);
    assert_eq!(objects, before);
}

#[test]
fn player_is_held_by_ice_until_it_is_switched_off() {
    let mut objects = vec![resting(ObjectType::Ice, 4, 4), resting(ObjectType::Player, 4, 4)];
    let result = on_game_event(&mut objects, step(Direction::Right), &grid());
    assert_eq!(result, Some(Err(MoveObjectError::MovementBlocked)));
    assert_eq!(objects[1].position, Position::new(4, 4));

    objects[0].blocks_movement = Some(BlocksMovement::Disabled);
    let result = on_game_event(&mut objects, step(Direction::Right), &grid());
    assert_eq!(result, Some(Ok(())));
    assert_eq!(objects[1].position, Position::new(5, 4));
    assert_eq!(objects[0].blocks_movement, Some(BlocksMovement::Enabled));
}

#[test]
fn attempt_ignores_objects_that_take_no_part() {
    let mut objects = vec![resting(ObjectType::Player, 5, 5), resting(ObjectType::RedBlock, 6, 5)];
    let before = objects.clone();
    let result = attempt_move(&mut objects, 0, Direction::Right, &grid(), &vec![false, false]);
    assert_eq!(result, Ok(()));
    assert_eq!(objects[0].position, Position::new(6, 5));
    assert_eq!(objects[1], before[1]);

    let mut objects = before.clone();
    let result = attempt_move(&mut objects, 0, Direction::Right, &grid(), &vec![false, true]);
    assert_eq!(result, Err(MoveObjectError::ObjectCollision));
    assert_eq!(objects, before);
}

#[test]
fn bouncing_ball_goes_on_and_turns_at_a_wall() {
    let mut objects = vec![
        facing(ObjectType::BouncingBall, 14, 3, Direction::Right),
        resting(ObjectType::RedBlock, 16, 3),
    ];
    move_objects(&mut objects, &grid());
    assert_eq!(objects[0].position, Position::new(15, 3));
    assert_eq!(objects[0].direction, Direction::Right);
    move_objects(&mut objects, &grid());
    assert_eq!(objects[0].position, Position::new(15, 3));
    assert_eq!(objects[0].direction, Direction::Left);
    move_objects(&mut objects, &grid());
    assert_eq!(objects[0].position, Position::new(14, 3));
    assert_eq!(objects[0].direction, Direction::Left);
}

#[test]
fn bouncing_ball_turns_at_the_edge() {
    let mut objects = vec![facing(ObjectType::BouncingBall, 3, 1, Direction::Up)];
    move_objects(&mut objects, &grid());
    assert_eq!(objects[0].position, Position::new(3, 1));
    assert_eq!(objects[0].direction, Direction::Down);
}

#[test]
fn bouncing_balls_pass_through_each_other() {
    let mut objects = vec![
        facing(ObjectType::BouncingBall, 3, 3, Direction::Right),
        facing(ObjectType::BouncingBall, 4, 3, Direction::Left),
    ];
    move_objects(&mut objects, &grid());
    assert_eq!(objects[0].position, Position::new(4, 3));
    assert_eq!(objects[1].position, Position::new(3, 3));
}

#[test]
fn light_ball_does_not_push_a_heavy_block() {
    let mut objects = vec![
        facing(ObjectType::BouncingBall, 3, 3, Direction::Right),
        resting(ObjectType::BlueBlock, 4, 3),
    ];
    move_objects(&mut objects, &grid());
    assert_eq!(objects[0].position, Position::new(3, 3));
    assert_eq!(objects[0].direction, Direction::Left);
    assert_eq!(objects[1].position, Position::new(4, 3));
}

#[test]
fn light_ball_pushes_a_light_block() {
    let mut objects = vec![
        facing(ObjectType::BouncingBall, 3, 3, Direction::Right),
        resting(ObjectType::YellowBlock, 4, 3),
    ];
    move_objects(&mut objects, &grid());
    assert_eq!(objects[0].position, Position::new(4, 3));
    assert_eq!(objects[0].direction, Direction::Right);
    assert_eq!(objects[1].position, Position::new(5, 3));
    assert_eq!(objects[1].direction, Direction::Right);
}

#[test]
fn creature_turns_right_where_it_can() {
    let mut objects = vec![facing(ObjectType::Creature1, 5, 5, Direction::Up)];
    move_objects(&mut objects, &grid());
    assert_eq!(objects[0].position, Position::new(6, 5));
    assert_eq!(objects[0].direction, Direction::Right);
}

#[test]
fn creature_follows_the_wall_on_its_right() {
    let mut objects = vec![
        facing(ObjectType::Creature1, 5, 5, Direction::Up),
        resting(ObjectType::RedBlock, 6, 5),
    ];
    move_objects(&mut objects, &grid());
    assert_eq!(objects[0].position, Position::new(5, 4));
    assert_eq!(objects[0].direction, Direction::Up);
}

#[test]
fn creature_turns_left_in_a_corner() {
    let mut objects = vec![
        facing(ObjectType::Creature1, 5, 5, Direction::Up),
        resting(ObjectType::RedBlock, 6, 5),
        resting(ObjectType::RedBlock, 5, 4),
    ];
    move_objects(&mut objects, &grid());
    assert_eq!(objects[0].position, Position::new(5, 5));
    assert_eq!(objects[0].direction, Direction::Left);
}

#[test]
fn creature_held_by_its_tile_waits() {
    let mut objects = vec![
        facing(ObjectType::Creature1, 5, 5, Direction::Up),
        resting(ObjectType::Ice, 5, 5),
    ];
    let before = objects.clone();
    move_objects(&mut objects, &grid());
    assert_eq!(objects, before);
}

#[test]
fn objects_that_do_not_move_by_themselves_stay() {
    let mut objects = vec![resting(ObjectType::Player, 5, 5), resting(ObjectType::Key, 6, 5)];
    let before = objects.clone();
    move_objects(&mut objects, &grid());
    assert_eq!(objects, before);
}

#[test]
fn ice_lets_its_rider_slide_on() {
    let mut objects = vec![
        resting(ObjectType::Ice, 4, 4),
        facing(ObjectType::Player, 4, 4, Direction::Right),
    ];
    check_for_slippery_and_transporter(&mut objects, &grid());
    assert_eq!(objects[1].position, Position::new(5, 4));
    assert_eq!(objects[1].position_change, PositionChange::Moved);
    assert_eq!(objects[0].blocks_movement, Some(BlocksMovement::Enabled));
}

#[test]
fn ice_switches_off_when_its_rider_is_stuck() {
    let mut objects = vec![
        resting(ObjectType::Ice, 4, 4),
        facing(ObjectType::BlueBlock, 4, 4, Direction::Right),
        resting(ObjectType::RedBlock, 5, 4),
    ];
    check_for_slippery_and_transporter(&mut objects, &grid());
    assert_eq!(objects[1].position, Position::new(4, 4));
    assert_eq!(objects[0].blocks_movement, Some(BlocksMovement::Disabled));
}

#[test]
fn ice_holds_again_once_its_rider_has_left() {
    let mut objects = vec![
        resting(ObjectType::Ice, 4, 4),
        facing(ObjectType::Player, 4, 4, Direction::Right),
        resting(ObjectType::RedBlock, 5, 4),
    ];
    assert_eq!(
        on_game_event(&mut objects, step(Direction::Up), &grid()),
        Some(Err(MoveObjectError::MovementBlocked))
    );
    check_for_slippery_and_transporter(&mut objects, &grid());
    assert_eq!(objects[0].blocks_movement, Some(BlocksMovement::Disabled));
    assert_eq!(objects[1].position, Position::new(4, 4));

    assert_eq!(on_game_event(&mut objects, step(Direction::Up), &grid()), Some(Ok(())));
    assert_eq!(objects[1].position, Position::new(4, 3));
    assert_eq!(objects[0].blocks_movement, Some(BlocksMovement::Enabled));
}

#[test]
fn ice_at_the_edge_switches_off() {
    let mut objects = vec![
        resting(ObjectType::Ice, 16, 4),
        facing(ObjectType::Player, 16, 4, Direction::Right),
    ];
    check_for_slippery_and_transporter(&mut objects, &grid());
    assert_eq!(objects[1].position, Position::new(16, 4));
    assert_eq!(objects[0].blocks_movement, Some(BlocksMovement::Disabled));
}

#[test]
fn conveyor_carries_its_rider_the_way_it_faces() {
    let mut objects = vec![
        facing(ObjectType::Transporter, 4, 4, Direction::Down),
        facing(ObjectType::Player, 4, 4, Direction::Right),
    ];
    check_for_slippery_and_transporter(&mut objects, &grid());
    assert_eq!(objects[1].position, Position::new(4, 5));
    assert_eq!(objects[1].direction, Direction::Right);
}

#[test]
fn rider_is_carried_once_in_a_pass() {
    let mut objects = vec![
        facing(ObjectType::Transporter, 4, 5, Direction::Down),
        facing(ObjectType::Transporter, 4, 4, Direction::Down),
        resting(ObjectType::Key, 4, 4),
    ];
    check_for_slippery_and_transporter(&mut objects, &grid());
    assert_eq!(objects[2].position, Position::new(4, 5));

    let mut objects = vec![
        facing(ObjectType::Transporter, 4, 4, Direction::Down),
        facing(ObjectType::Transporter, 4, 5, Direction::Down),
        resting(ObjectType::Key, 4, 4),
    ];
    check_for_slippery_and_transporter(&mut objects, &grid());
    assert_eq!(objects[2].position, Position::new(4, 5));
}

#[test]
fn ice_has_its_turn_before_the_conveyors() {
    let mut objects = vec![
        facing(ObjectType::Transporter, 5, 4, Direction::Down),
        resting(ObjectType::Ice, 4, 4),
        facing(ObjectType::Key, 4, 4, Direction::Right),
    ];
    check_for_slippery_and_transporter(&mut objects, &grid());
    assert_eq!(objects[2].position, Position::new(5, 4));
}

#[test]
fn forcing_tile_with_two_riders_moves_neither() {
    let mut objects = vec![
        resting(ObjectType::Ice, 4, 4),
        facing(ObjectType::Key, 4, 4, Direction::Right),
        facing(ObjectType::Player, 4, 4, Direction::Right),
    ];
    let before = objects.clone();
    check_for_slippery_and_transporter(&mut objects, &grid());
    assert_eq!(objects, before);
}

#[test]
fn forcing_tile_leaves_immovable_objects() {
    let open = GameObject { massive: false, ..resting(ObjectType::Door, 4, 4) };
    let mut objects = vec![facing(ObjectType::Transporter, 4, 4, Direction::Down), open];
    let before = objects.clone();
    check_for_slippery_and_transporter(&mut objects, &grid());
    assert_eq!(objects, before);
}

#[test]
fn conveyor_pushes_a_block_ahead_of_its_rider() {
    let mut objects = vec![
        facing(ObjectType::Transporter, 4, 4, Direction::Right),
        resting(ObjectType::BlueBlock, 4, 4),
        resting(ObjectType::YellowBlock, 5, 4),
    ];
    check_for_slippery_and_transporter(&mut objects, &grid());
    assert_eq!(objects[1].position, Position::new(5, 4));
    assert_eq!(objects[2].position, Position::new(6, 4));
}

#[test]
fn animated_objects_show_one_of_their_frames() {
    let objects = vec![
        resting(ObjectType::Water, 1, 1),
        resting(ObjectType::Player, 2, 1),
        GameObject { animatable: Some(0), ..resting(ObjectType::Water, 3, 1) },
        GameObject { animatable: Some(1), ..resting(ObjectType::Water, 4, 1) },
    ];
    let mut seen = [false; 3];
    for _ in 0..200 {
        let frames = animate_objects(&objects);
        assert_eq!(frames.len(), 4);
        let frame = frames[0].unwrap();
        assert!(frame < 3);
        seen[frame] = true;
        assert_eq!(frames[1], None);
        assert_eq!(frames[2], None);
        assert_eq!(frames[3], Some(0));
    }
    assert_eq!(seen, [true; 3]);
}

#[test]
fn pressed_directions_add_up() {
    assert_eq!(deltas_from_pressed(false, false, false, false), (0, 0));
    assert_eq!(deltas_from_pressed(true, false, false, false), (0, -1));
    assert_eq!(deltas_from_pressed(false, true, false, false), (1, 0));
    assert_eq!(deltas_from_pressed(false, false, true, false), (0, 1));
    assert_eq!(deltas_from_pressed(false, false, false, true), (-1, 0));
    assert_eq!(deltas_from_pressed(true, true, false, false), (1, -1));
    assert_eq!(deltas_from_pressed(true, false, true, false), (0, 0));
    assert_eq!(deltas_from_pressed(true, true, true, true), (0, 0));
}

#[test]
fn one_pull_gives_one_step() {
    assert_eq!(directions_from_deltas(0, 0, None), (None, None));
    assert_eq!(directions_from_deltas(1, 0, None), (Some(Direction::Right), None));
    assert_eq!(directions_from_deltas(-1, 0, Some(Direction::Left)), (Some(Direction::Left), None));
    assert_eq!(directions_from_deltas(0, 1, Some(Direction::Up)), (Some(Direction::Down), None));
    assert_eq!(directions_from_deltas(0, -1, None), (Some(Direction::Up), None));
    assert_eq!(directions_from_deltas(2, 0, None), (None, None));
    assert_eq!(directions_from_deltas(2, 1, None), (Some(Direction::Down), None));
}

#[test]
fn two_pulls_give_a_zigzag() {
    let (right, down) = (Some(Direction::Right), Some(Direction::Down));
    assert_eq!(directions_from_deltas(1, 1, None), (down, right));
    assert_eq!(directions_from_deltas(1, 1, Some(Direction::Right)), (down, right));
    assert_eq!(directions_from_deltas(1, 1, Some(Direction::Left)), (down, right));
    assert_eq!(directions_from_deltas(1, 1, Some(Direction::Down)), (right, down));
    assert_eq!(directions_from_deltas(1, 1, Some(Direction::Up)), (right, down));
}

#[test]
fn game_state_remembers_the_level_left() {
    let mut state = GameState::default();
    assert!(state.is_in_hub());
    assert_eq!(state.previous_level, None);
    state.set_current_level(0);
    assert_eq!((state.current_level, state.previous_level), (0, None));
    state.set_current_level(3);
    assert_eq!((state.current_level, state.previous_level), (3, Some(0)));
    assert!(!state.is_in_hub());
    state.set_current_level(3);
    assert_eq!((state.current_level, state.previous_level), (3, Some(3)));
    state.set_current_level(0);
    assert_eq!((state.current_level, state.previous_level), (0, Some(3)));
    state.set_current_level(0);
    assert_eq!((state.current_level, state.previous_level), (0, Some(3)));
}

#[test]
fn game_state_knows_the_finished_levels() {
    let mut state = GameState::default();
    assert!(!state.is_finished_level(3));
    state.mark_level_finished(3);
    state.mark_level_finished(3);
    state.mark_level_finished(0);
    assert!(state.is_finished_level(3));
    assert!(state.is_finished_level(0));
    assert!(!state.is_finished_level(4));
    assert_eq!(state.finished_levels.len(), 2);
    assert_eq!(state.current_level, 0);
}

#[test]
fn relative_levels_stay_between_0_and_100() {
    assert_eq!(load_relative_level(5, 1), 6);
    assert_eq!(load_relative_level(5, -1), 4);
    assert_eq!(load_relative_level(5, 0), 5);
    assert_eq!(load_relative_level(0, -1), 0);
    assert_eq!(load_relative_level(3, -7), 0);
    assert_eq!(load_relative_level(100, 1), 100);
    assert_eq!(load_relative_level(99, 1), 100);
    assert_eq!(load_relative_level(250, 0), 100);
    assert_eq!(load_relative_level(u16::MAX, i16::MAX), 100);
    assert_eq!(load_relative_level(u16::MAX, i16::MIN), 100);
    assert_eq!(load_relative_level(0, i16::MIN), 0);
}

#[test]
fn levels_are_stored_left_and_reset() {
    let mut levels = Levels::new();
    assert_eq!(levels.get(1), None);
    levels.insert_current(1, "left".to_string());
    assert_eq!(levels.get(1), None);
    levels.reset_level(1);
    assert_eq!(levels.get(1), None);

    levels.insert_stored(1, "stored".to_string());
    levels.insert_stored(2, "other".to_string());
    assert_eq!(levels.get(1), Some("stored"));
    levels.insert_current(1, "left".to_string());
    assert_eq!(levels.get(1), Some("left"));
    assert_eq!(levels.get(2), Some("other"));
    levels.insert_current(1, "left again".to_string());
    assert_eq!(levels.get(1), Some("left again"));
    levels.reset_level(1);
    assert_eq!(levels.get(1), Some("stored"));
    levels.reset_level(1);
    assert_eq!(levels.get(1), Some("stored"));

    levels.insert_current(1, "left".to_string());
    levels.insert_stored(1, "edited".to_string());
    assert_eq!(levels.get(1), Some("edited"));
    levels.reset_level(1);
    assert_eq!(levels.get(1), Some("edited"));
    assert_eq!(levels.get(2), Some("other"));
    assert_eq!(levels.get(0), None);
}

#[test]
fn first_source_with_a_step_is_listened_to() {
    let (up, left) = (Some(Direction::Up), Some(Direction::Left));
    assert_eq!(directions_from_inputs(&vec![]), (None, None));
    assert_eq!(directions_from_inputs(&vec![(None, None), (up, None), (left, up)]), (up, None));
    assert_eq!(directions_from_inputs(&vec![(left, up), (up, None)]), (left, up));
    assert_eq!(directions_from_inputs(&vec![(None, up), (None, None)]), (None, None));
}

#[test]
fn level_files_are_numbered_in_three_digits() {
    assert_eq!(get_level_path(0), "assets/levels/level000");
    assert_eq!(get_level_path(7), "assets/levels/level007");
    assert_eq!(get_level_path(10), "assets/levels/level010");
    assert_eq!(get_level_path(99), "assets/levels/level099");
    assert_eq!(get_level_path(100), "assets/levels/level100");
    assert_eq!(get_level_path(1000), "assets/levels/level1000");
    assert_eq!(get_level_path(u16::MAX), "assets/levels/level65535");
    for level in [0, 5, 42, 123, 4096] {
        assert_eq!(get_level_path(level), format!("assets/levels/level{level:0>3}"));
    }
}

#[test]
fn slowest_move_of_the_view_wins() {
    type U = UpdateBackgroundTransform;
    assert_eq!(slowest(&vec![]), None);
    assert_eq!(slowest(&vec![U::Fast]), Some(U::Fast));
    assert_eq!(slowest(&vec![U::Fast, U::Immediate, U::Fast]), Some(U::Fast));
    assert_eq!(slowest(&vec![U::Immediate, U::LevelExit, U::HubIntro]), Some(U::LevelExit));
    assert_eq!(slowest(&vec![U::LevelEntrance, U::LevelExit]), Some(U::LevelEntrance));
    let all = [U::Immediate, U::Fast, U::HubIntro, U::LevelExit, U::LevelEntrance];
    for (rank, request) in all.iter().enumerate() {
        assert_eq!(usize::from(request.rank()), rank);
        assert_eq!(slowest(&all[..=rank].to_vec()), Some(*request));
        assert_eq!(slowest(&all.to_vec()).max(Some(*request)), Some(U::LevelEntrance));
    }
}

#[test]
fn moves_of_the_view_take_their_time() {
    type U = UpdateBackgroundTransform;
    assert_eq!(U::Immediate.duration_ms(), 0);
    assert_eq!(U::Fast.duration_ms(), 200);
    assert_eq!(U::LevelExit.duration_ms(), 400);
    assert_eq!(U::LevelEntrance.duration_ms(), 400);
    assert_eq!(U::HubIntro.duration_ms(), 2000);
    assert_eq!(U::LevelExit.scale_easing(), Easing::QuarticIn);
    assert_eq!(U::HubIntro.scale_easing(), Easing::QuarticOut);
    assert_eq!(U::Fast.scale_easing(), Easing::QuarticOut);
    assert_eq!(U::HubIntro.translation_easing(), Easing::QuarticInOut);
    assert_eq!(U::LevelExit.translation_easing(), Easing::QuarticIn);
    assert_eq!(U::LevelEntrance.translation_easing(), Easing::QuarticOut);
    assert_eq!(U::Immediate.translation_easing(), Easing::QuarticOut);
}

#[test]
fn missing_level_is_the_smallest_level() {
    let mut levels = Levels::new();
    let smallest = "[Player]\nPosition=1,1\n\n[Exit]\nPosition=2,1\n";
    assert_eq!(contents_or_default(&levels, 3), smallest);
    levels.insert_stored(3, "stored".to_string());
    assert_eq!(contents_or_default(&levels, 3), "stored");
    assert_eq!(contents_or_default(&levels, 4), smallest);
    levels.insert_current(3, "left".to_string());
    assert_eq!(contents_or_default(&levels, 3), "left");
    levels.insert_stored(5, String::new());
    assert_eq!(contents_or_default(&levels, 5), "");
}
