use chunky::components::{BlocksMovement, Direction, Openable, Position, Weight};
use chunky::game_object::{spawn_object_of_type, GameObject, PositionChange};
use chunky::collision_object::CollisionObject;
use chunky::levels::{Dimensions, InitialPositionAndMetadata};
use chunky::object_type::ObjectType;
use chunky::components::Movable;

const DIRECTIONS: [Direction; 4] =
    [Direction::Up, Direction::Right, Direction::Down, Direction::Left];

const WEIGHTS: [Weight; 3] = [Weight::Weightless, Weight::Light, Weight::Heavy];

const PAINTS: [ObjectType; 3] =
    [ObjectType::BluePaint, ObjectType::PurplePaint, ObjectType::RedPaint];

const ALL_TYPES: [ObjectType; 26] = [
    ObjectType::BlueBlock,
    ObjectType::BluePaint,
    ObjectType::BouncingBall,
    ObjectType::Button,
    ObjectType::Creature1,
    ObjectType::Door,
    ObjectType::Entrance,
    ObjectType::Exit,
    ObjectType::Explosion,
    ObjectType::Flash,
    ObjectType::Gate,
    ObjectType::Grave,
    ObjectType::Ice,
    ObjectType::Key,
    ObjectType::Mine,
    ObjectType::Player,
    ObjectType::PurpleBlock,
    ObjectType::PurplePaint,
    ObjectType::Raft,
    ObjectType::RedBlock,
    ObjectType::RedPaint,
    ObjectType::Splash,
    ObjectType::Teleporter,
    ObjectType::Transporter,
    ObjectType::Water,
    ObjectType::YellowBlock,
];

#[test]
fn deltas_of_directions() {
    assert_eq!(Direction::Up.as_delta(), (0, -1));
    assert_eq!(Direction::Right.as_delta(), (1, 0));
    assert_eq!(Direction::Down.as_delta(), (0, 1));
    assert_eq!(Direction::Left.as_delta(), (-1, 0));
}

#[test]
fn turns_of_directions() {
    assert_eq!(Direction::Up.inverse(), Direction::Down);
    assert_eq!(Direction::Right.inverse(), Direction::Left);
    assert_eq!(Direction::Up.left_hand(), Direction::Left);
    assert_eq!(Direction::Left.left_hand(), Direction::Down);
    assert_eq!(Direction::Up.right_hand(), Direction::Right);
    assert_eq!(Direction::Left.right_hand(), Direction::Up);
    for direction in DIRECTIONS {
        assert_eq!(direction.inverse().inverse(), direction);
        assert_eq!(direction.left_hand().right_hand(), direction);
        assert_eq!(direction.right_hand().right_hand(), direction.inverse());
    }
}

#[test]
fn direction_from_unit_delta() {
    for direction in DIRECTIONS {
        let (dx, dy) = direction.as_delta();
        assert_eq!(Direction::from_delta(dx, dy), Some(direction));
    }
    assert_eq!(Direction::from_delta(0, 0), None);
    assert_eq!(Direction::from_delta(1, 1), None);
    assert_eq!(Direction::from_delta(2, 0), None);
    assert_eq!(Direction::from_delta(0, -2), None);
}

#[test]
fn direction_defaults_and_indices() {
    assert_eq!(Direction::default(), Direction::Up);
    assert_eq!(Direction::Up.index(), 0);
    assert_eq!(Direction::Right.index(), 1);
    assert_eq!(Direction::Down.index(), 2);
    assert_eq!(Direction::Left.index(), 3);
}

#[test]
fn weights_are_totally_ordered() {
    assert_eq!(Weight::default(), Weight::Weightless);
    assert!(Weight::Weightless.at_most(Weight::Light));
    assert!(Weight::Light.at_most(Weight::Heavy));
    assert!(!Weight::Heavy.at_most(Weight::Light));
    assert!(!Weight::Light.at_most(Weight::Weightless));
    for a in WEIGHTS {
        assert!(a.at_most(a));
        for b in WEIGHTS {
            assert!(a.at_most(b) || b.at_most(a));
            assert_eq!(a.at_most(b), a <= b);
            for c in WEIGHTS {
                if a.at_most(b) && b.at_most(c) {
                    assert!(a.at_most(c));
                }
            }
        }
    }
}

#[test]
fn positions_are_ordered_by_column_then_row() {
    assert!(Position::new(1, 9).precedes(Position::new(2, 1)));
    assert!(Position::new(2, 1).precedes(Position::new(2, 2)));
    assert!(!Position::new(2, 2).precedes(Position::new(2, 2)));
    assert!(!Position::new(3, 1).precedes(Position::new(2, 9)));
    assert!(Position::new(1, 9) < Position::new(2, 1));
}

#[test]
fn grid_contains_its_cells_only() {
    let grid = Dimensions::default();
    assert_eq!(grid, Dimensions { width: 16, height: 16 });
    assert!(grid.contains(Position::new(1, 1)));
    assert!(grid.contains(Position::new(16, 16)));
    assert!(!grid.contains(Position::new(0, 1)));
    assert!(!grid.contains(Position::new(1, 0)));
    assert!(!grid.contains(Position::new(17, 1)));
    assert!(!grid.contains(Position::new(1, 17)));
    let strip = Dimensions { width: 3, height: 1 };
    assert!(strip.contains(Position::new(3, 1)));
    assert!(!strip.contains(Position::new(3, 2)));
    assert!(!Dimensions { width: 0, height: 0 }.contains(Position::new(0, 0)));
}

#[test]
fn paints_mix() {
    assert_eq!(ObjectType::BluePaint.mix_with(ObjectType::RedPaint), Some(ObjectType::PurplePaint));
    assert_eq!(ObjectType::BluePaint.mix_with(ObjectType::BluePaint), Some(ObjectType::BluePaint));
    assert_eq!(ObjectType::RedPaint.mix_with(ObjectType::RedPaint), Some(ObjectType::RedPaint));
    assert_eq!(
        ObjectType::PurplePaint.mix_with(ObjectType::PurplePaint),
        Some(ObjectType::PurplePaint)
    );
    assert_eq!(
        ObjectType::PurplePaint.mix_with(ObjectType::RedPaint),
        Some(ObjectType::PurplePaint)
    );
    assert_eq!(ObjectType::BluePaint.mix_with(ObjectType::BlueBlock), None);
    assert_eq!(ObjectType::Key.mix_with(ObjectType::Key), None);
}

#[test]
fn mixing_is_commutative() {
    for a in ALL_TYPES {
        for b in ALL_TYPES {
            assert_eq!(a.mix_with(b), b.mix_with(a));
            assert_eq!(a.mix_with(b).is_some(), PAINTS.contains(&a) && PAINTS.contains(&b));
        }
    }
}

#[test]
fn collision_object_answers() {
    let mut object = CollisionObject::new(ObjectType::Door, Position::new(2, 3));
    assert!(object.has_position(Position::new(2, 3)));
    assert!(!object.has_position(Position::new(3, 2)));
    assert_eq!(object.object_type(), ObjectType::Door);
    assert_eq!(object.weight(), Weight::Weightless);
    assert!(object.can_push_on());
    assert!(!object.blocks_movement());
    assert!(!object.can_open_with_key());
    assert!(!object.is_massive() && !object.is_pushable() && !object.is_key());
    assert!(!object.is_paint() && !object.is_paintable() && !object.is_player());
    assert!(!object.is_deadly() && !object.blocks_pushes());

    object.openable = Some(Openable::Key);
    assert!(object.can_open_with_key());
    object.openable = Some(Openable::Trigger);
    assert!(!object.can_open_with_key());
    object.openable = Some(Openable::LevelFinished(3));
    assert!(!object.can_open_with_key());
    assert_eq!(Openable::LevelFinished(3).level(), Some(3));
    assert_eq!(Openable::Key.level(), None);

    object.massive = true;
    assert!(!object.can_push_on());
    object.massive = false;
    object.pushable = true;
    assert!(!object.can_push_on());
    object.pushable = false;
    object.blocks_pushes = true;
    assert!(!object.can_push_on() && object.blocks_pushes());

    object.blocks_movement = Some(BlocksMovement::Disabled);
    assert!(!object.blocks_movement());
    object.blocks_movement = Some(BlocksMovement::Enabled);
    assert!(object.blocks_movement());
    assert_eq!(BlocksMovement::default(), BlocksMovement::Enabled);

    object.weight = Some(Weight::Heavy);
    assert_eq!(object.weight(), Weight::Heavy);
    object.object_type = ObjectType::RedPaint;
    assert!(object.can_mix_with(ObjectType::BluePaint));
    assert!(!object.can_mix_with(ObjectType::RedBlock));
    object.paint = Some(ObjectType::RedBlock);
    object.paintable = true;
    object.key = true;
    object.player = true;
    object.deadly = true;
    assert!(object.is_paint() && object.is_paintable() && object.is_key());
    assert!(object.is_player() && object.is_deadly());
}

fn at(x: i16, y: i16) -> InitialPositionAndMetadata {
    InitialPositionAndMetadata::from(&Position::new(x, y))
}

#[test]
fn bare_start_says_nothing_but_the_position() {
    assert_eq!(
        at(4, 7),
        InitialPositionAndMetadata {
            position: Position::new(4, 7),
            direction: None,
            identifier: None,
            level: None,
            open: false,
        }
    );
}

#[test]
fn spawned_objects_have_the_attributes_of_their_kind() {
    let plain = |object_type| GameObject::plain(object_type, Position::new(2, 3));

    let block = spawn_object_of_type(ObjectType::BlueBlock, at(2, 3));
    assert_eq!(
        block,
        GameObject {
            massive: true,
            paintable: true,
            pushable: true,
            weight: Some(Weight::Heavy),
            ..plain(ObjectType::BlueBlock)
        }
    );
    assert_eq!(block.position_change, PositionChange::Added);
    assert_eq!(block.direction, Direction::Up);

    assert_eq!(
        spawn_object_of_type(ObjectType::YellowBlock, at(2, 3)),
        GameObject {
            massive: true,
            paintable: true,
            pushable: true,
            weight: Some(Weight::Light),
            ..plain(ObjectType::YellowBlock)
        }
    );
    assert_eq!(
        spawn_object_of_type(ObjectType::PurpleBlock, at(2, 3)),
        GameObject {
            massive: true,
            paintable: true,
            pushable: true,
            transform_on_push: Some(ObjectType::RedBlock),
            weight: Some(Weight::Heavy),
            ..plain(ObjectType::PurpleBlock)
        }
    );
    assert_eq!(
        spawn_object_of_type(ObjectType::RedBlock, at(2, 3)),
        GameObject { massive: true, paintable: true, ..plain(ObjectType::RedBlock) }
    );
    assert_eq!(
        spawn_object_of_type(ObjectType::RedPaint, at(2, 3)),
        GameObject {
            paint: Some(ObjectType::RedBlock),
            pushable: true,
            weight: Some(Weight::Light),
            ..plain(ObjectType::RedPaint)
        }
    );
    assert_eq!(
        spawn_object_of_type(ObjectType::BluePaint, at(2, 3)).paint,
        Some(ObjectType::BlueBlock)
    );
    assert_eq!(
        spawn_object_of_type(ObjectType::PurplePaint, at(2, 3)).paint,
        Some(ObjectType::PurpleBlock)
    );
    assert_eq!(
        spawn_object_of_type(ObjectType::Player, at(2, 3)),
        GameObject {
            blocks_pushes: true,
            player: true,
            weight: Some(Weight::Heavy),
            ..plain(ObjectType::Player)
        }
    );
    assert_eq!(
        spawn_object_of_type(ObjectType::Key, at(2, 3)),
        GameObject {
            key: true,
            pushable: true,
            weight: Some(Weight::Light),
            ..plain(ObjectType::Key)
        }
    );
    assert_eq!(
        spawn_object_of_type(ObjectType::Raft, at(2, 3)),
        GameObject {
            floatable: true,
            pushable: true,
            weight: Some(Weight::Heavy),
            ..plain(ObjectType::Raft)
        }
    );
    assert_eq!(
        spawn_object_of_type(ObjectType::Water, at(2, 3)),
        GameObject { animatable: Some(3), liquid: true, ..plain(ObjectType::Water) }
    );
    assert_eq!(
        spawn_object_of_type(ObjectType::Mine, at(2, 3)),
        GameObject { explosive: true, ..plain(ObjectType::Mine) }
    );
    assert_eq!(
        spawn_object_of_type(ObjectType::Button, at(2, 3)),
        GameObject { trigger: true, ..plain(ObjectType::Button) }
    );
    assert_eq!(
        spawn_object_of_type(ObjectType::Grave, at(2, 3)),
        GameObject { massive: true, ..plain(ObjectType::Grave) }
    );
    assert_eq!(
        spawn_object_of_type(ObjectType::Exit, at(2, 3)),
        GameObject { blocks_pushes: true, exit: true, ..plain(ObjectType::Exit) }
    );
    assert_eq!(
        spawn_object_of_type(ObjectType::Ice, at(2, 3)),
        GameObject {
            blocks_movement: Some(BlocksMovement::Enabled),
            slippery: true,
            ..plain(ObjectType::Ice)
        }
    );
    for volatile in [ObjectType::Explosion, ObjectType::Flash] {
        assert_eq!(
            spawn_object_of_type(volatile, at(2, 3)),
            GameObject { volatile: true, ..plain(volatile) }
        );
    }
    assert_eq!(
        spawn_object_of_type(ObjectType::Splash, at(2, 3)),
        GameObject { floatable: true, volatile: true, ..plain(ObjectType::Splash) }
    );
}

#[test]
fn spawned_objects_take_what_the_level_says() {
    let plain = |object_type| GameObject::plain(object_type, Position::new(2, 3));
    let said = InitialPositionAndMetadata {
        position: Position::new(2, 3),
        direction: Some(Direction::Left),
        identifier: Some(7),
        level: Some(12),
        open: false,
    };
    assert_eq!(
        spawn_object_of_type(ObjectType::BouncingBall, said),
        GameObject {
            blocks_pushes: true,
            deadly: true,
            direction: Direction::Left,
            movable: Some(Movable::Bounce),
            weight: Some(Weight::Light),
            ..plain(ObjectType::BouncingBall)
        }
    );
    assert_eq!(
        spawn_object_of_type(ObjectType::Creature1, said),
        GameObject {
            blocks_pushes: true,
            deadly: true,
            direction: Direction::Left,
            movable: Some(Movable::FollowRightHand),
            weight: Some(Weight::Light),
            ..plain(ObjectType::Creature1)
        }
    );
    assert_eq!(
        spawn_object_of_type(ObjectType::Transporter, said),
        GameObject {
            blocks_movement: Some(BlocksMovement::Enabled),
            direction: Direction::Left,
            transporter: true,
            ..plain(ObjectType::Transporter)
        }
    );
    assert_eq!(
        spawn_object_of_type(ObjectType::Teleporter, said),
        GameObject {
            direction: Direction::Left,
            teleporter: Some(7),
            ..plain(ObjectType::Teleporter)
        }
    );
    assert_eq!(spawn_object_of_type(ObjectType::Teleporter, at(2, 3)).teleporter, Some(0));
    assert_eq!(
        spawn_object_of_type(ObjectType::Entrance, said),
        GameObject {
            blocks_pushes: true,
            direction: Direction::Left,
            entrance: Some(12),
            ..plain(ObjectType::Entrance)
        }
    );
    assert_eq!(spawn_object_of_type(ObjectType::Entrance, at(2, 3)).entrance, Some(0));
    assert_eq!(
        spawn_object_of_type(ObjectType::Gate, said),
        GameObject {
            direction: Direction::Left,
            immovable: true,
            massive: true,
            openable: Some(Openable::LevelFinished(12)),
            ..plain(ObjectType::Gate)
        }
    );
    assert_eq!(
        spawn_object_of_type(ObjectType::Gate, at(2, 3)),
        GameObject {
            immovable: true,
            massive: true,
            openable: Some(Openable::Trigger),
            ..plain(ObjectType::Gate)
        }
    );
    assert_eq!(
        spawn_object_of_type(ObjectType::Door, at(2, 3)),
        GameObject {
            immovable: true,
            massive: true,
            openable: Some(Openable::Key),
            ..plain(ObjectType::Door)
        }
    );
    let open = InitialPositionAndMetadata { open: true, ..at(2, 3) };
    assert!(!spawn_object_of_type(ObjectType::Door, open).massive);
    assert!(!spawn_object_of_type(ObjectType::Gate, open).massive);
    assert!(spawn_object_of_type(ObjectType::BlueBlock, open).massive);
}

#[test]
fn volatile_kinds() {
    for object_type in ALL_TYPES {
        let volatile = matches!(
            object_type,
            ObjectType::Explosion | ObjectType::Flash | ObjectType::Splash
        );
        assert_eq!(object_type.is_volatile(), volatile);
        assert_eq!(spawn_object_of_type(object_type, at(1, 1)).volatile, volatile);
    }
}

#[test]
fn the_resolver_sees_what_matters_to_it() {
    let key = spawn_object_of_type(
        ObjectType::Key,
        InitialPositionAndMetadata { direction: Some(Direction::Down), ..at(5, 6) },
    );
    let seen = CollisionObject::from(&key);
    assert_eq!(
        seen,
        CollisionObject {
            direction: Direction::Down,
            key: true,
            pushable: true,
            weight: Some(Weight::Light),
            ..CollisionObject::new(ObjectType::Key, Position::new(5, 6))
        }
    );

    let mut moved = seen;
    moved.position = Position::new(5, 7);
    moved.direction = Direction::Left;
    let mut object = GameObject { position_change: PositionChange::Unchanged, ..key };
    moved.write_to(&mut object);
    assert_eq!(
        object,
        GameObject {
            position: Position::new(5, 7),
            direction: Direction::Left,
            position_change: PositionChange::Moved,
            ..key
        }
    );

    let mut object = GameObject { position_change: PositionChange::Unchanged, ..key };
    seen.write_to(&mut object);
    assert_eq!(object.position_change, PositionChange::Unchanged);

    let mut ice = spawn_object_of_type(ObjectType::Ice, at(1, 1));
    let mut switched = CollisionObject::from(&ice);
    switched.blocks_movement = Some(BlocksMovement::Disabled);
    switched.write_to(&mut ice);
    assert_eq!(ice.blocks_movement, Some(BlocksMovement::Disabled));
    assert_eq!(ice.position_change, PositionChange::Added);
}

#[test]
fn changes_of_position() {
    assert!(!PositionChange::Unchanged.is_changed());
    assert!(PositionChange::Added.is_changed());
    assert!(PositionChange::Moved.is_changed());
    assert!(!PositionChange::Unchanged.is_moved());
    assert!(!PositionChange::Added.is_moved());
    assert!(PositionChange::Moved.is_moved());
}

#[test]
fn setters_change_one_thing() {
    let block = spawn_object_of_type(ObjectType::BlueBlock, at(2, 3));
    assert_eq!(block.facing(Direction::Left), GameObject { direction: Direction::Left, ..block });
    assert_eq!(block.with_massive(false), GameObject { massive: false, ..block });
    assert_eq!(block.with_massive(true), block);
    assert_eq!(block.anchored(), GameObject { pushable: false, ..block });
    assert_eq!(
        block.at(Position::new(9, 9)),
        GameObject {
            position: Position::new(9, 9),
            position_change: PositionChange::Moved,
            ..block
        }
    );
    assert_eq!(
        block.switched(BlocksMovement::Disabled),
        GameObject { blocks_movement: Some(BlocksMovement::Disabled), ..block }
    );
    assert_eq!(block.weight(), Weight::Heavy);
    assert_eq!(GameObject::plain(ObjectType::Exit, Position::new(1, 1)).weight(), Weight::Weightless);
}

#[test]
fn ranks_of_weights() {
    assert_eq!(Weight::Weightless.rank(), 0);
    assert_eq!(Weight::Light.rank(), 1);
    assert_eq!(Weight::Heavy.rank(), 2);
}

#[test]
fn doors_and_gates_show_whether_they_are_open() {
    let door = spawn_object_of_type(ObjectType::Door, at(2, 3));
    assert_eq!(door.open_frame(), Some(0));
    assert_eq!(door.with_massive(false).open_frame(), Some(1));
    let gate = spawn_object_of_type(ObjectType::Gate, at(2, 3));
    assert_eq!(gate.open_frame(), Some(0));
    assert_eq!(gate.with_massive(false).open_frame(), Some(1));
    assert_eq!(gate.with_massive(false).with_massive(true).open_frame(), Some(0));
    assert_eq!(spawn_object_of_type(ObjectType::BlueBlock, at(2, 3)).open_frame(), None);
    assert_eq!(spawn_object_of_type(ObjectType::Key, at(2, 3)).open_frame(), None);
}
