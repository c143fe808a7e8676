use chunky::components::{Direction, Position};
use chunky::editor::{
    change_height, change_identifier, change_level, change_width, changed_number,
    move_all_objects, on_editor_button_interaction, on_editor_number_input_interaction,
    on_select_object, shifted, shifted_position, spawn_selected_object, ClickAction,
    EditorAction, EditorButton, EditorKey, EditorObjectType, EditorRequest, EditorState, Input,
    MoveAllObjects, NumberInput, SelectionState, NUM_EDITOR_OBJECTS,
};
use chunky::game_object::{spawn_object_of_type, Event, GameObject, PositionChange};
use chunky::input::{on_player_movement, ClockAction, Pacing, StepClock};
use chunky::levels::{Dimensions, InitialPositionAndMetadata};
use chunky::menu::{Interaction, MenuAction, MenuButtonKind, MenuKey, MenuKind, MenuState};
use chunky::motion::check_for_game_over;
use chunky::object_type::ObjectType;

fn at(x: i16, y: i16) -> InitialPositionAndMetadata {
    InitialPositionAndMetadata::from(&Position::new(x, y))
}

fn resting(object_type: ObjectType, x: i16, y: i16) -> GameObject {
    GameObject {
        position_change: PositionChange::Unchanged,
        ..spawn_object_of_type(object_type, at(x, y))
    }
}

#[test]
fn menus_have_their_buttons() {
    type B = MenuButtonKind;
    assert_eq!(
        B::buttons_for_menu(MenuKind::Start),
        vec![B::Start, B::Editor, B::OtherGames, B::Quit]
    );
    assert_eq!(
        B::buttons_for_menu(MenuKind::Hub),
        vec![B::Continue, B::Restart, B::Editor, B::OtherGames, B::Quit]
    );
    assert_eq!(
        B::buttons_for_menu(MenuKind::Level),
        vec![B::Continue, B::RestartLevel, B::BackToHub, B::Editor, B::Quit]
    );
    assert_eq!(B::Start.label(), "Start");
    assert_eq!(B::Continue.label(), "Continue");
    assert_eq!(B::Restart.label(), "Restart");
    assert_eq!(B::RestartLevel.label(), "Restart Level");
    assert_eq!(B::BackToHub.label(), "Exit Level");
    assert_eq!(B::Editor.label(), "Level Editor");
    assert_eq!(B::OtherGames.label(), "Other Games");
    assert_eq!(B::Quit.label(), "Quit Game");
}

#[test]
fn menu_starts_open() {
    let state = MenuState::default();
    assert!(state.is_open());
    assert!(state.is_in_start_menu());
    assert_eq!(state.selected_button, MenuButtonKind::Start);
    let closed = MenuState { open_menu: None, ..state };
    assert!(!closed.is_open());
    assert!(!closed.is_in_start_menu());
}

#[test]
fn opened_menu_selects_its_first_button() {
    let mut state = MenuState { open_menu: None, selected_button: MenuButtonKind::Quit };
    state.set_open(MenuKind::Level);
    assert_eq!(state.open_menu, Some(MenuKind::Level));
    assert_eq!(state.selected_button, MenuButtonKind::Continue);
    assert!(!state.is_in_start_menu());
    state.set_open(MenuKind::Start);
    assert_eq!(state.selected_button, MenuButtonKind::Start);
    state.set_open(MenuKind::Hub);
    assert_eq!(state.selected_button, MenuButtonKind::Continue);
}

#[test]
fn selection_goes_round() {
    let mut state = MenuState::default();
    state.move_selected_button(MenuKind::Start, 1);
    assert_eq!(state.selected_button, MenuButtonKind::Editor);
    state.move_selected_button(MenuKind::Start, -1);
    assert_eq!(state.selected_button, MenuButtonKind::Start);
    state.move_selected_button(MenuKind::Start, -1);
    assert_eq!(state.selected_button, MenuButtonKind::Quit);
    state.move_selected_button(MenuKind::Start, 1);
    assert_eq!(state.selected_button, MenuButtonKind::Start);
    state.move_selected_button(MenuKind::Start, 6);
    assert_eq!(state.selected_button, MenuButtonKind::OtherGames);
    state.move_selected_button(MenuKind::Start, -11);
    assert_eq!(state.selected_button, MenuButtonKind::Quit);
    state.move_selected_button(MenuKind::Start, isize::MAX);
    state.move_selected_button(MenuKind::Start, isize::MIN);
    assert_eq!(state.selected_button, MenuButtonKind::OtherGames);
    state.move_selected_button(MenuKind::Start, 0);
    assert_eq!(state.selected_button, MenuButtonKind::OtherGames);
    assert_eq!(state.open_menu, Some(MenuKind::Start));
}

#[test]
fn selection_of_a_button_from_another_menu_starts_at_the_top() {
    let mut state = MenuState { open_menu: None, selected_button: MenuButtonKind::BackToHub };
    state.move_selected_button(MenuKind::Hub, 1);
    assert_eq!(state.selected_button, MenuButtonKind::Restart);
}

#[test]
fn keys_move_the_selection_and_close_the_menu() {
    let mut state = MenuState::default();
    assert!(!state.on_menu_keyboard_input(MenuKey::Down));
    assert_eq!(state.selected_button, MenuButtonKind::Editor);
    assert!(!state.on_menu_keyboard_input(MenuKey::Up));
    assert_eq!(state.selected_button, MenuButtonKind::Start);
    assert!(state.on_menu_keyboard_input(MenuKey::Confirm));
    assert_eq!(state, MenuState::default());
    assert!(!state.on_menu_keyboard_input(MenuKey::Close));
    assert_eq!(state.open_menu, None);
    for key in [MenuKey::Up, MenuKey::Down, MenuKey::Confirm, MenuKey::Close] {
        assert!(!state.on_menu_keyboard_input(key));
        assert_eq!(state, MenuState { open_menu: None, selected_button: MenuButtonKind::Start });
    }
}

#[test]
fn pressed_buttons_ask_for_their_action() {
    let cases = [
        (MenuButtonKind::Start, MenuAction::Intro, true),
        (MenuButtonKind::Continue, MenuAction::Resume, true),
        (MenuButtonKind::Restart, MenuAction::ReloadLevel, true),
        (MenuButtonKind::RestartLevel, MenuAction::ReloadLevel, true),
        (MenuButtonKind::BackToHub, MenuAction::LoadHub, true),
        (MenuButtonKind::Editor, MenuAction::ToggleEditor, true),
        (MenuButtonKind::OtherGames, MenuAction::Stay, false),
        (MenuButtonKind::Quit, MenuAction::Quit, false),
    ];
    for (button, action, closes) in cases {
        let mut state = MenuState { open_menu: Some(MenuKind::Hub), selected_button: button };
        assert_eq!(button.action(), action);
        assert_eq!(state.on_button_press(), action);
        assert_eq!(state.selected_button, button);
        assert_eq!(state.open_menu.is_none(), closes);
    }
}

#[test]
fn pointer_selects_and_presses() {
    let mut state = MenuState::default();
    assert!(!state.on_menu_interaction_input(Interaction::Hovered, MenuButtonKind::Quit));
    assert_eq!(state.selected_button, MenuButtonKind::Quit);
    assert!(!state.on_menu_interaction_input(Interaction::Away, MenuButtonKind::Editor));
    assert_eq!(state.selected_button, MenuButtonKind::Quit);
    assert!(state.on_menu_interaction_input(Interaction::Pressed, MenuButtonKind::Editor));
    assert_eq!(state.selected_button, MenuButtonKind::Editor);
    assert_eq!(state.open_menu, Some(MenuKind::Start));
}

#[test]
fn steps_are_paced() {
    let (up, left) = (Some(Direction::Up), Some(Direction::Left));
    let right = Some(Direction::Right);
    let pacing = |step, queued, clock| Pacing { step, queued, clock };

    assert_eq!(
        on_player_movement(right, StepClock::JustFinished, (up, left), (None, None)),
        pacing(right, None, ClockAction::Reset)
    );
    assert_eq!(
        on_player_movement(None, StepClock::JustFinished, (up, left), (None, None)),
        pacing(up, left, ClockAction::Reset)
    );
    assert_eq!(
        on_player_movement(None, StepClock::JustFinished, (up, None), (left, None)),
        pacing(up, None, ClockAction::Reset)
    );
    assert_eq!(
        on_player_movement(None, StepClock::JustFinished, (None, None), (left, None)),
        pacing(None, None, ClockAction::ResetAndPause)
    );

    assert_eq!(
        on_player_movement(None, StepClock::Paused, (up, None), (None, None)),
        pacing(None, None, ClockAction::Leave)
    );
    assert_eq!(
        on_player_movement(right, StepClock::Paused, (None, None), (up, None)),
        pacing(up, right, ClockAction::Unpause)
    );
    assert_eq!(
        on_player_movement(right, StepClock::Paused, (None, None), (up, left)),
        pacing(up, left, ClockAction::Unpause)
    );

    assert_eq!(
        on_player_movement(right, StepClock::Running, (up, None), (None, None)),
        pacing(None, right, ClockAction::Leave)
    );
    assert_eq!(
        on_player_movement(right, StepClock::Running, (None, None), (up, left)),
        pacing(None, up, ClockAction::Leave)
    );
}

#[test]
fn game_is_over_without_exactly_one_player() {
    let one = vec![resting(ObjectType::Key, 1, 1), resting(ObjectType::Player, 2, 2)];
    let none = vec![resting(ObjectType::Key, 1, 1)];
    let two = vec![resting(ObjectType::Player, 1, 1), resting(ObjectType::Player, 2, 2)];
    assert!(!check_for_game_over(&one, false));
    assert!(check_for_game_over(&none, false));
    assert!(check_for_game_over(&two, false));
    assert!(check_for_game_over(&Vec::new(), false));
    assert!(!check_for_game_over(&none, true));
    assert!(!check_for_game_over(&one, true));
}

#[test]
fn palette_holds_every_object_once() {
    let mut seen = Vec::new();
    for value in 0..NUM_EDITOR_OBJECTS {
        let object = EditorObjectType::from_index(value).unwrap();
        assert!(!seen.contains(&object));
        seen.push(object);
    }
    assert_eq!(seen.len(), 32);
    assert_eq!(EditorObjectType::from_index(-1), None);
    assert_eq!(EditorObjectType::from_index(NUM_EDITOR_OBJECTS), None);
    assert_eq!(EditorObjectType::from_index(0), Some(EditorObjectType::Eraser));
    assert_eq!(EditorObjectType::from_index(1), Some(EditorObjectType::Player));
    assert_eq!(EditorObjectType::from_index(18), Some(EditorObjectType::TransporterLeft));
    assert_eq!(EditorObjectType::from_index(31), Some(EditorObjectType::Entrance));
}

#[test]
fn palette_objects_have_a_kind_and_a_direction() {
    type E = EditorObjectType;
    assert_eq!(E::Eraser.get_object_type_and_direction(), None);
    assert_eq!(
        E::BlueBlock.get_object_type_and_direction(),
        Some((ObjectType::BlueBlock, Direction::Up))
    );
    assert_eq!(
        E::BouncingBallLeft.get_object_type_and_direction(),
        Some((ObjectType::BouncingBall, Direction::Left))
    );
    assert_eq!(
        E::Creature1Down.get_object_type_and_direction(),
        Some((ObjectType::Creature1, Direction::Down))
    );
    assert_eq!(
        E::TransporterRight.get_object_type_and_direction(),
        Some((ObjectType::Transporter, Direction::Right))
    );
    assert_eq!(
        E::TransporterUp.get_object_type_and_direction(),
        Some((ObjectType::Transporter, Direction::Up))
    );
    for value in 1..NUM_EDITOR_OBJECTS {
        let object = E::from_index(value).unwrap();
        let (kind, direction) = object.get_object_type_and_direction().unwrap();
        let name = format!("{object:?}");
        assert!(name.starts_with(kind.name()), "{name}");
        if name != kind.name() {
            assert_eq!(name, format!("{}{}", kind.name(), direction.name()));
        } else {
            assert_eq!(direction, Direction::Up);
        }
    }
}

#[test]
fn palette_pictures_show_the_right_frame() {
    type E = EditorObjectType;
    assert_eq!(E::BouncingBallUp.frame(), Some(0));
    assert_eq!(E::BouncingBallRight.frame(), Some(1));
    assert_eq!(E::Creature1Down.frame(), Some(2));
    assert_eq!(E::TransporterLeft.frame(), Some(3));
    assert_eq!(E::TransporterUp.frame(), Some(0));
    for plain in [E::Door, E::Entrance, E::Gate, E::Water] {
        assert_eq!(plain.frame(), Some(0));
    }
    for single in [E::Eraser, E::Player, E::BlueBlock, E::Key, E::Ice, E::Teleporter, E::Raft] {
        assert_eq!(single.frame(), None);
    }
}

#[test]
fn numbers_change_as_far_as_they_go() {
    assert_eq!(shifted(5, 3), 8);
    assert_eq!(shifted(5, -8), -3);
    assert_eq!(shifted(i16::MAX, 1), i16::MAX);
    assert_eq!(shifted(i16::MIN, -1), i16::MIN);
    assert_eq!(shifted(i16::MIN, i16::MAX), -1);
    assert_eq!(shifted_position(Position::new(3, 4), -5, 2), Position::new(-2, 6));
    assert_eq!(
        shifted_position(Position::new(i16::MAX, i16::MIN), 1, -1),
        Position::new(i16::MAX, i16::MIN)
    );
    assert_eq!(changed_number(5, 2), 7);
    assert_eq!(changed_number(5, -2), 3);
    assert_eq!(changed_number(1, -2), 0);
    assert_eq!(changed_number(0, i16::MIN), 0);
    assert_eq!(changed_number(u16::MAX, 1), u16::MAX);
    assert_eq!(changed_number(u16::MAX - 1, 2), u16::MAX);
    assert_eq!(changed_number(40000, i16::MAX), u16::MAX);
    assert_eq!(changed_number(40000, i16::MIN), 7232);
}

#[test]
fn grid_grows_and_shrinks() {
    let mut grid = Dimensions { width: 16, height: 10 };
    assert_eq!(change_height(&mut grid, 1), None);
    assert_eq!(grid, Dimensions { width: 16, height: 11 });
    assert_eq!(change_height(&mut grid, 2), Some(MoveAllObjects { dx: 0, dy: 1 }));
    assert_eq!(grid, Dimensions { width: 16, height: 13 });
    assert_eq!(change_height(&mut grid, -2), Some(MoveAllObjects { dx: 0, dy: -1 }));
    assert_eq!(change_height(&mut grid, -1), None);
    assert_eq!(grid, Dimensions { width: 16, height: 10 });
    assert_eq!(change_width(&mut grid, -3), Some(MoveAllObjects { dx: -1, dy: 0 }));
    assert_eq!(change_width(&mut grid, 5), Some(MoveAllObjects { dx: 2, dy: 0 }));
    assert_eq!(grid, Dimensions { width: 18, height: 10 });
    assert_eq!(change_width(&mut grid, -18), None);
    assert_eq!(change_width(&mut grid, -19), None);
    assert_eq!(change_width(&mut grid, i16::MAX), None);
    assert_eq!(grid, Dimensions { width: 18, height: 10 });
    assert_eq!(change_width(&mut grid, -17), Some(MoveAllObjects { dx: -8, dy: 0 }));
    assert_eq!(grid, Dimensions { width: 1, height: 10 });
}

#[test]
fn selection_is_drawn_and_made() {
    let mut state = EditorState::default();
    assert_eq!(
        state,
        EditorState {
            is_open: false,
            selected_object: None,
            selected_object_type: None,
            selection: SelectionState::Disabled,
        }
    );
    assert_eq!(SelectionState::default(), SelectionState::Disabled);
    state.selected_object = Some(Position::new(1, 1));
    state.on_toggle_selection();
    assert_eq!(state.selection, SelectionState::WaitingForClick);
    assert_eq!(state.selected_object, None);

    state.extend_selection(Position::new(5, 2));
    assert_eq!(
        state.selection,
        SelectionState::Selecting { start: Position::new(5, 2), current: Position::new(5, 2) }
    );
    state.extend_selection(Position::new(3, 4));
    assert_eq!(
        state.selection,
        SelectionState::Selecting { start: Position::new(5, 2), current: Position::new(3, 4) }
    );
    state.on_activate_selection(Position::new(5, 2), Position::new(3, 4));
    assert_eq!(
        state.selection,
        SelectionState::Active {
            top_left: Position::new(3, 2),
            bottom_right: Position::new(5, 4),
        }
    );
    state.on_toggle_selection();
    assert_eq!(state.selection, SelectionState::Disabled);
}

#[test]
fn selected_objects_move() {
    let mut state = EditorState {
        selection: SelectionState::Active {
            top_left: Position::new(3, 2),
            bottom_right: Position::new(5, 4),
        },
        ..EditorState::default()
    };
    let mut positions = vec![
        Position::new(3, 2),
        Position::new(5, 4),
        Position::new(4, 3),
        Position::new(2, 3),
        Position::new(6, 3),
        Position::new(4, 1),
        Position::new(4, 5),
    ];
    move_all_objects(&mut positions, &mut state, 2, -1);
    assert_eq!(
        positions,
        vec![
            Position::new(5, 1),
            Position::new(7, 3),
            Position::new(6, 2),
            Position::new(2, 3),
            Position::new(6, 3),
            Position::new(4, 1),
            Position::new(4, 5),
        ]
    );
    assert_eq!(
        state.selection,
        SelectionState::Active {
            top_left: Position::new(5, 1),
            bottom_right: Position::new(7, 3),
        }
    );
}

#[test]
fn all_objects_move_without_a_selection() {
    let mut state = EditorState::default();
    let mut positions = vec![Position::new(3, 2), Position::new(i16::MAX, i16::MIN)];
    move_all_objects(&mut positions, &mut state, 1, -1);
    assert_eq!(positions, vec![Position::new(4, 1), Position::new(i16::MAX, i16::MIN)]);
    assert_eq!(state, EditorState::default());
}

#[test]
fn clicks_are_for_the_selection_first() {
    let grid = Dimensions::default();
    let inside = Position::new(2, 2);
    let outside = Position::new(0, 2);
    let mut state = EditorState::default();
    assert_eq!(state.click_action(grid, inside), ClickAction::SelectObject);
    assert_eq!(state.click_action(grid, outside), ClickAction::Stay);
    state.selected_object_type = Some(EditorObjectType::Key);
    assert_eq!(state.click_action(grid, inside), ClickAction::SpawnSelectedObject);
    assert_eq!(state.click_action(grid, outside), ClickAction::SpawnSelectedObject);
    state.selection = SelectionState::WaitingForClick;
    assert_eq!(state.click_action(grid, inside), ClickAction::ExtendSelection);
    state.selection = SelectionState::Selecting { start: inside, current: inside };
    assert_eq!(state.click_action(grid, outside), ClickAction::ExtendSelection);
    state.selection = SelectionState::Active { top_left: inside, bottom_right: inside };
    assert_eq!(state.click_action(grid, inside), ClickAction::SpawnSelectedObject);
}

#[test]
fn escape_lets_go_of_one_thing_at_a_time() {
    let mut state = EditorState {
        is_open: true,
        selected_object: None,
        selected_object_type: Some(EditorObjectType::Key),
        selection: SelectionState::WaitingForClick,
    };
    assert_eq!(state.on_editor_keyboard_input(EditorKey::Escape), EditorAction::Stay);
    assert_eq!(state.selection, SelectionState::Disabled);
    assert_eq!(state.selected_object_type, Some(EditorObjectType::Key));
    assert_eq!(state.on_editor_keyboard_input(EditorKey::Escape), EditorAction::Stay);
    assert_eq!(state.selected_object_type, None);
    assert_eq!(state.on_editor_keyboard_input(EditorKey::Escape), EditorAction::ToggleEditor);
    assert!(state.is_open);
}

#[test]
fn arrows_move_the_selection_or_the_view() {
    let mut state = EditorState::default();
    assert_eq!(
        state.on_editor_keyboard_input(EditorKey::Arrow(Direction::Left)),
        EditorAction::Scroll(Direction::Left)
    );
    state.selection = SelectionState::Active {
        top_left: Position::new(1, 1),
        bottom_right: Position::new(2, 2),
    };
    let before = state;
    assert_eq!(
        state.on_editor_keyboard_input(EditorKey::Arrow(Direction::Up)),
        EditorAction::Move(MoveAllObjects { dx: 0, dy: -1 })
    );
    assert_eq!(
        state.on_editor_keyboard_input(EditorKey::Arrow(Direction::Right)),
        EditorAction::Move(MoveAllObjects { dx: 1, dy: 0 })
    );
    assert_eq!(state, before);
}

#[test]
fn palette_object_is_taken_in_hand() {
    let mut state = EditorState { selected_object: Some(Position::new(1, 1)), ..EditorState::default() };
    state.on_object_selector_input(EditorObjectType::Raft);
    assert_eq!(state.selected_object_type, Some(EditorObjectType::Raft));
    assert_eq!(state.selected_object, None);
}

fn placed(object_type: ObjectType, direction: Direction, x: i16, y: i16) -> Event {
    Event::Spawn {
        object_type,
        position: InitialPositionAndMetadata {
            position: Position::new(x, y),
            direction: Some(direction),
            identifier: Some(1),
            level: Some(1),
            open: false,
        },
    }
}

#[test]
fn object_in_hand_is_put_down() {
    let objects = vec![
        resting(ObjectType::Key, 2, 2),
        resting(ObjectType::Player, 5, 5),
        resting(ObjectType::Ice, 3, 3),
        resting(ObjectType::Key, 3, 3),
    ];
    let grid = Dimensions::default();
    let mut state = EditorState {
        selected_object_type: Some(EditorObjectType::BouncingBallLeft),
        ..EditorState::default()
    };
    let before = state;
    assert_eq!(
        spawn_selected_object(&objects, &mut state, &grid, Position::new(3, 3)),
        vec![
            Event::Despawn { entity: 2 },
            Event::Despawn { entity: 3 },
            placed(ObjectType::BouncingBall, Direction::Left, 3, 3),
        ]
    );
    assert_eq!(state, before);
    assert_eq!(
        spawn_selected_object(&objects, &mut state, &grid, Position::new(4, 4)),
        vec![placed(ObjectType::BouncingBall, Direction::Left, 4, 4)]
    );
    assert_eq!(spawn_selected_object(&objects, &mut state, &grid, Position::new(0, 4)), vec![]);
}

#[test]
fn new_player_takes_the_place_of_the_old() {
    let objects = vec![
        resting(ObjectType::Key, 2, 2),
        resting(ObjectType::Player, 5, 5),
        resting(ObjectType::Key, 3, 3),
    ];
    let mut state = EditorState {
        selected_object_type: Some(EditorObjectType::Player),
        ..EditorState::default()
    };
    assert_eq!(
        spawn_selected_object(&objects, &mut state, &Dimensions::default(), Position::new(3, 3)),
        vec![
            Event::Despawn { entity: 1 },
            Event::Despawn { entity: 2 },
            placed(ObjectType::Player, Direction::Up, 3, 3),
        ]
    );
    assert_eq!(
        spawn_selected_object(&objects, &mut state, &Dimensions::default(), Position::new(0, 0)),
        vec![Event::Despawn { entity: 1 }]
    );
}

#[test]
fn eraser_clears_the_cell() {
    let objects = vec![resting(ObjectType::Key, 2, 2), resting(ObjectType::Player, 2, 2)];
    let mut state = EditorState {
        selected_object_type: Some(EditorObjectType::Eraser),
        ..EditorState::default()
    };
    let before = state;
    assert_eq!(
        spawn_selected_object(&objects, &mut state, &Dimensions::default(), Position::new(2, 2)),
        vec![Event::Despawn { entity: 0 }, Event::Despawn { entity: 1 }]
    );
    assert_eq!(state, before);
    let mut empty_handed = EditorState::default();
    assert_eq!(
        spawn_selected_object(
            &objects,
            &mut empty_handed,
            &Dimensions::default(),
            Position::new(2, 2)
        ),
        vec![Event::Despawn { entity: 0 }, Event::Despawn { entity: 1 }]
    );
}

#[test]
fn new_entrance_or_teleporter_is_selected() {
    for (in_hand, kind) in [
        (EditorObjectType::Entrance, ObjectType::Entrance),
        (EditorObjectType::Teleporter, ObjectType::Teleporter),
    ] {
        let mut state =
            EditorState { selected_object_type: Some(in_hand), ..EditorState::default() };
        assert_eq!(
            spawn_selected_object(
                &Vec::new(),
                &mut state,
                &Dimensions::default(),
                Position::new(2, 2)
            ),
            vec![placed(kind, Direction::Up, 2, 2)]
        );
        assert_eq!(
            state,
            EditorState { selected_object: Some(Position::new(2, 2)), ..EditorState::default() }
        );

        let mut state =
            EditorState { selected_object_type: Some(in_hand), ..EditorState::default() };
        let before = state;
        spawn_selected_object(&Vec::new(), &mut state, &Dimensions::default(), Position::new(0, 2));
        assert_eq!(state, before);
    }
}

#[test]
fn object_on_the_cell_is_selected() {
    let objects = vec![
        resting(ObjectType::Key, 2, 2),
        resting(ObjectType::Teleporter, 3, 3).with_teleporter(7),
        resting(ObjectType::Entrance, 4, 4).with_entrance(9),
        resting(ObjectType::Key, 4, 4),
    ];
    let mut state = EditorState::default();
    assert_eq!(on_select_object(&objects, &mut state, Position::new(2, 2)), None);
    assert_eq!(state.selected_object, Some(Position::new(2, 2)));
    assert_eq!(
        on_select_object(&objects, &mut state, Position::new(3, 3)),
        Some((Input::Identifier, 7))
    );
    assert_eq!(state.selected_object, Some(Position::new(3, 3)));
    assert_eq!(on_select_object(&objects, &mut state, Position::new(4, 4)), Some((Input::Level, 9)));
    assert_eq!(on_select_object(&objects, &mut state, Position::new(5, 5)), None);
    assert_eq!(state.selected_object, None);
}

#[test]
fn number_of_the_selected_teleporter_changes() {
    let mut objects = vec![
        resting(ObjectType::Key, 3, 3),
        resting(ObjectType::Teleporter, 3, 3).with_teleporter(7),
        resting(ObjectType::Teleporter, 4, 4).with_teleporter(7),
    ];
    let before = objects.clone();
    let mut state =
        EditorState { selected_object: Some(Position::new(3, 3)), ..EditorState::default() };
    assert_eq!(change_identifier(&mut objects, &mut state, 2), Some(9));
    assert_eq!(objects[1], before[1].with_teleporter(9));
    assert_eq!(objects[0], before[0]);
    assert_eq!(objects[2], before[2]);
    assert_eq!(change_identifier(&mut objects, &mut state, -20), Some(0));
    assert_eq!(state.selected_object, Some(Position::new(3, 3)));

    state.selected_object = Some(Position::new(5, 5));
    assert_eq!(change_identifier(&mut objects, &mut state, 1), None);
    assert_eq!(state.selected_object, None);
    assert_eq!(change_identifier(&mut objects, &mut state, 1), None);
}

#[test]
fn level_of_the_selected_entrance_changes() {
    let mut objects = vec![
        resting(ObjectType::Key, 3, 3),
        resting(ObjectType::Entrance, 3, 3).with_entrance(4),
    ];
    let before = objects.clone();
    let mut state =
        EditorState { selected_object: Some(Position::new(3, 3)), ..EditorState::default() };
    assert_eq!(
        change_level(&mut objects, &mut state, -1),
        vec![
            Event::Despawn { entity: 1 },
            Event::Spawn {
                object_type: ObjectType::Entrance,
                position: InitialPositionAndMetadata { level: Some(3), ..at(3, 3) },
            },
        ]
    );
    assert_eq!(objects[1], before[1].with_entrance(3));
    assert_eq!(objects[0], before[0]);
    assert_eq!(state.selected_object, Some(Position::new(3, 3)));

    state.selected_object = Some(Position::new(1, 1));
    assert_eq!(change_level(&mut objects, &mut state, 1), vec![]);
    assert_eq!(state.selected_object, None);
}

#[test]
fn presses_on_the_number_fields_ask_for_changes() {
    let press = |input, part, fast| {
        on_editor_number_input_interaction(Interaction::Pressed, input, part, fast)
    };
    assert_eq!(
        press(Input::Width, NumberInput::Increase, false),
        Some(EditorRequest::ChangeWidth(1))
    );
    assert_eq!(
        press(Input::Width, NumberInput::Decrease, true),
        Some(EditorRequest::ChangeWidth(-2))
    );
    assert_eq!(
        press(Input::Height, NumberInput::Increase, true),
        Some(EditorRequest::ChangeHeight(2))
    );
    assert_eq!(
        press(Input::Height, NumberInput::Decrease, false),
        Some(EditorRequest::ChangeHeight(-1))
    );
    assert_eq!(
        press(Input::Level, NumberInput::Decrease, false),
        Some(EditorRequest::ChangeLevel(-1))
    );
    assert_eq!(
        press(Input::Identifier, NumberInput::Increase, false),
        Some(EditorRequest::ChangeIdentifier(1))
    );
    for input in [Input::Width, Input::Height, Input::Level, Input::Identifier] {
        assert_eq!(press(input, NumberInput::Value, false), None);
        for interaction in [Interaction::Hovered, Interaction::Away] {
            assert_eq!(
                on_editor_number_input_interaction(
                    interaction,
                    input,
                    NumberInput::Increase,
                    true
                ),
                None
            );
        }
    }
}

#[test]
fn presses_on_the_editor_buttons_ask_for_their_action() {
    assert_eq!(
        on_editor_button_interaction(Interaction::Pressed, EditorButton::Save),
        Some(EditorRequest::SaveLevel { save_to_disk: true })
    );
    assert_eq!(
        on_editor_button_interaction(Interaction::Pressed, EditorButton::Select),
        Some(EditorRequest::ToggleSelection)
    );
    assert_eq!(on_editor_button_interaction(Interaction::Hovered, EditorButton::Save), None);
    assert_eq!(on_editor_button_interaction(Interaction::Away, EditorButton::Select), None);
}
