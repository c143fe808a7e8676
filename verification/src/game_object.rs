//! The objects of a level with all their attributes, and what the rules ask
//! to be done with them.

use vstd::prelude::*;
use crate::collision_object::CollisionObject;
use crate::components::{BlocksMovement, Direction, Movable, Openable, Position, Weight};
use crate::levels::InitialPositionAndMetadata;
use crate::object_type::ObjectType;

verus! {

/// What has happened to the position of an object since the rules last looked
/// at it.
#[derive(Clone, Copy, Debug, PartialEq, Eq, Structural)]
pub enum PositionChange {
    /// The object stands where it stood.
    Unchanged,
    /// The object is new.
    Added,
    /// The object was moved.
    Moved,
}

impl PositionChange {
    pub open spec fn spec_is_changed(self) -> bool {
        self != PositionChange::Unchanged
    }

    /// Whether the position is new or was written. A new object counts as
    /// changed.
    #[verifier::when_used_as_spec(spec_is_changed)]
    pub fn is_changed(self) -> (changed: bool)
        ensures
            changed == self.spec_is_changed(),
    {
        match self {
            PositionChange::Unchanged => false,
            _ => true,
        }
    }

    pub open spec fn spec_is_moved(self) -> bool {
        self == PositionChange::Moved
    }

    /// Whether an object that was there before was moved.
    #[verifier::when_used_as_spec(spec_is_moved)]
    pub fn is_moved(self) -> (moved: bool)
        ensures
            moved == self.spec_is_moved(),
    {
        match self {
            PositionChange::Moved => true,
            _ => false,
        }
    }
}

/// An object of a level. The rules know an object by its index in the list of
/// all objects.
#[derive(Clone, Copy, Debug, PartialEq, Eq, Structural)]
pub struct GameObject {
    pub object_type: ObjectType,
    pub position: Position,
    pub direction: Direction,
    pub position_change: PositionChange,
    /// The number of frames of an object that shows a random frame now and
    /// then.
    pub animatable: Option<usize>,
    /// Set on forcing tiles only.
    pub blocks_movement: Option<BlocksMovement>,
    /// Not massive, but nothing can be pushed onto it.
    pub blocks_pushes: bool,
    /// Kills the player on contact.
    pub deadly: bool,
    /// Leads to the level with this number.
    pub entrance: Option<u16>,
    /// Finishes the level when the player steps on it.
    pub exit: bool,
    /// Blows up together with whatever moves onto it.
    pub explosive: bool,
    /// Does not sink in a liquid.
    pub floatable: bool,
    /// Is not carried along by a forcing tile.
    pub immovable: bool,
    /// Opens what a key opens.
    pub key: bool,
    /// Whatever moves onto it sinks, unless it floats.
    pub liquid: bool,
    /// Nothing can move onto its cell unless it gives way.
    pub massive: bool,
    /// Moves by itself.
    pub movable: Option<Movable>,
    pub openable: Option<Openable>,
    /// For a paint, the kind of object that it paints others into.
    pub paint: Option<ObjectType>,
    pub paintable: bool,
    pub player: bool,
    /// Gives way to a mover that is heavy enough.
    pub pushable: bool,
    /// A forcing tile on which objects slide on the way they face.
    pub slippery: bool,
    /// Sends what steps on it to the other teleporter with this number.
    pub teleporter: Option<u16>,
    /// The kind of object that this one turns into when it is pushed.
    pub transform_on_push: Option<ObjectType>,
    /// A forcing tile that carries objects the way it faces.
    pub transporter: bool,
    /// Opens the gates while something stands on it.
    pub trigger: bool,
    /// Disappears by itself shortly after it appeared.
    pub volatile: bool,
    pub weight: Option<Weight>,
}

impl ObjectType {
    /// The kinds of object that are massive from the start. Doors and gates
    /// are too, unless they start open.
    pub open spec fn starts_massive(self) -> bool {
        self == ObjectType::BlueBlock || self == ObjectType::Grave || self
            == ObjectType::PurpleBlock || self == ObjectType::RedBlock || self
            == ObjectType::YellowBlock
    }

    /// The kinds of object that give way to a mover that is heavy enough.
    pub open spec fn is_pushable(self) -> bool {
        self == ObjectType::BlueBlock || self == ObjectType::BluePaint || self == ObjectType::Key
            || self == ObjectType::PurpleBlock || self == ObjectType::PurplePaint || self
            == ObjectType::Raft || self == ObjectType::RedPaint || self == ObjectType::YellowBlock
    }

    /// The kinds of object that can be painted.
    pub open spec fn is_paintable(self) -> bool {
        self == ObjectType::BlueBlock || self == ObjectType::PurpleBlock || self
            == ObjectType::RedBlock || self == ObjectType::YellowBlock
    }

    /// The kinds of object onto which nothing can be pushed though they are not massive.
    pub open spec fn blocks_pushes(self) -> bool {
        self == ObjectType::BouncingBall || self == ObjectType::Creature1 || self
            == ObjectType::Entrance || self == ObjectType::Exit || self == ObjectType::Player
    }

    /// The kinds of object that kill the player on contact.
    pub open spec fn is_deadly(self) -> bool {
        self == ObjectType::BouncingBall || self == ObjectType::Creature1
    }

    /// The kinds of tile that move on what stands on them.
    pub open spec fn is_forcing_tile(self) -> bool {
        self == ObjectType::Ice || self == ObjectType::Transporter
    }

    /// The kinds of object that are closed until something opens them.
    pub open spec fn is_door_or_gate(self) -> bool {
        self == ObjectType::Door || self == ObjectType::Gate
    }

    pub open spec fn spec_is_volatile(self) -> bool {
        self == ObjectType::Explosion || self == ObjectType::Flash || self == ObjectType::Splash
    }

    /// Whether objects of this kind disappear by themselves shortly after they
    /// appeared.
    #[verifier::when_used_as_spec(spec_is_volatile)]
    pub fn is_volatile(self) -> (volatile: bool)
        ensures
            volatile == self.spec_is_volatile(),
    {
        match self {
            ObjectType::Explosion | ObjectType::Flash | ObjectType::Splash => true,
            _ => false,
        }
    }

    /// The kinds of object that do not sink in a liquid.
    pub open spec fn is_floatable(self) -> bool {
        self == ObjectType::Raft || self == ObjectType::Splash
    }

    /// The kind of block that a paint of this kind paints others into.
    pub open spec fn painted_block(self) -> Option<ObjectType> {
        if self == ObjectType::BluePaint {
            Some(ObjectType::BlueBlock)
        } else if self == ObjectType::PurplePaint {
            Some(ObjectType::PurpleBlock)
        } else if self == ObjectType::RedPaint {
            Some(ObjectType::RedBlock)
        } else {
            None
        }
    }

    /// The weight that objects of this kind start with.
    pub open spec fn starting_weight(self) -> Option<Weight> {
        if self == ObjectType::BlueBlock || self == ObjectType::Player || self
            == ObjectType::PurpleBlock || self == ObjectType::Raft {
            Some(Weight::Heavy)
        } else if self.is_paint() || self.is_deadly() || self == ObjectType::Key || self
            == ObjectType::YellowBlock {
            Some(Weight::Light)
        } else {
            None
        }
    }

    /// How objects of this kind move by themselves.
    pub open spec fn starting_movable(self) -> Option<Movable> {
        if self == ObjectType::BouncingBall {
            Some(Movable::Bounce)
        } else if self == ObjectType::Creature1 {
            Some(Movable::FollowRightHand)
        } else {
            None
        }
    }
}

impl GameObject {
    /// An object of the given kind that has just appeared, with the
    /// attributes of its kind, read off attribute by attribute.
    pub open spec fn spec_spawn(
        object_type: ObjectType,
        initial: InitialPositionAndMetadata,
    ) -> GameObject {
        GameObject {
            object_type,
            position: initial.position,
            direction: match initial.direction {
                Some(direction) => direction,
                None => Direction::Up,
            },
            position_change: PositionChange::Added,
            animatable: if object_type == ObjectType::Water {
                Some(3usize)
            } else {
                None
            },
            blocks_movement: if object_type.is_forcing_tile() {
                Some(BlocksMovement::Enabled)
            } else {
                None
            },
            blocks_pushes: object_type.blocks_pushes(),
            deadly: object_type.is_deadly(),
            entrance: if object_type == ObjectType::Entrance {
                Some(
                    match initial.level {
                        Some(level) => level,
                        None => 0u16,
                    },
                )
            } else {
                None
            },
            exit: object_type == ObjectType::Exit,
            explosive: object_type == ObjectType::Mine,
            floatable: object_type.is_floatable(),
            immovable: object_type.is_door_or_gate(),
            key: object_type == ObjectType::Key,
            liquid: object_type == ObjectType::Water,
            massive: object_type.starts_massive() || (object_type.is_door_or_gate()
                && !initial.open),
            movable: object_type.starting_movable(),
            openable: if object_type == ObjectType::Door {
                Some(Openable::Key)
            } else if object_type == ObjectType::Gate {
                Some(
                    match initial.level {
                        Some(level) => Openable::LevelFinished(level),
                        None => Openable::Trigger,
                    },
                )
            } else {
                None
            },
            paint: object_type.painted_block(),
            paintable: object_type.is_paintable(),
            player: object_type == ObjectType::Player,
            pushable: object_type.is_pushable(),
            slippery: object_type == ObjectType::Ice,
            teleporter: if object_type == ObjectType::Teleporter {
                Some(
                    match initial.identifier {
                        Some(identifier) => identifier,
                        None => 0u16,
                    },
                )
            } else {
                None
            },
            transform_on_push: if object_type == ObjectType::PurpleBlock {
                Some(ObjectType::RedBlock)
            } else {
                None
            },
            transporter: object_type == ObjectType::Transporter,
            trigger: object_type == ObjectType::Button,
            volatile: object_type.is_volatile(),
            weight: object_type.starting_weight(),
        }
    }

    /// An object of the given kind at `position` that faces up and has no
    /// attribute.
    pub open spec fn spec_plain(object_type: ObjectType, position: Position) -> GameObject {
        GameObject {
            object_type,
            position,
            direction: Direction::Up,
            position_change: PositionChange::Added,
            animatable: None,
            blocks_movement: None,
            blocks_pushes: false,
            deadly: false,
            entrance: None,
            exit: false,
            explosive: false,
            floatable: false,
            immovable: false,
            key: false,
            liquid: false,
            massive: false,
            movable: None,
            openable: None,
            paint: None,
            paintable: false,
            player: false,
            pushable: false,
            slippery: false,
            teleporter: None,
            transform_on_push: None,
            transporter: false,
            trigger: false,
            volatile: false,
            weight: None,
        }
    }

    /// An object of the given kind at `position` that has just appeared,
    /// faces up and has no attribute. The place to start from for an object
    /// that is put together by hand.
    #[verifier::when_used_as_spec(spec_plain)]
    pub fn plain(object_type: ObjectType, position: Position) -> (object: GameObject)
        ensures
            object == GameObject::spec_plain(object_type, position),
    {
        GameObject {
            object_type,
            position,
            direction: Direction::Up,
            position_change: PositionChange::Added,
            animatable: None,
            blocks_movement: None,
            blocks_pushes: false,
            deadly: false,
            entrance: None,
            exit: false,
            explosive: false,
            floatable: false,
            immovable: false,
            key: false,
            liquid: false,
            massive: false,
            movable: None,
            openable: None,
            paint: None,
            paintable: false,
            player: false,
            pushable: false,
            slippery: false,
            teleporter: None,
            transform_on_push: None,
            transporter: false,
            trigger: false,
            volatile: false,
            weight: None,
        }
    }

    /// The frame of its picture that shows whether the object is open, for
    /// an object that can be opened: the first frame while it is massive,
    /// which is to say closed, and the second once it is open.
    pub open spec fn spec_open_frame(&self) -> Option<usize> {
        if self.openable is None {
            None
        } else if self.massive {
            Some(0usize)
        } else {
            Some(1usize)
        }
    }

    /// The frame of its picture that shows whether the object is open.
    #[verifier::when_used_as_spec(spec_open_frame)]
    pub fn open_frame(&self) -> (frame: Option<usize>)
        ensures
            frame == self.spec_open_frame(),
    {
        if self.openable.is_none() {
            None
        } else if self.massive {
            Some(0)
        } else {
            Some(1)
        }
    }

    /// The object's weight, weightless where it has none of its own.
    pub open spec fn spec_weight(&self) -> Weight {
        match self.weight {
            Some(weight) => weight,
            None => Weight::Weightless,
        }
    }

    /// The object's weight, weightless where it has none of its own.
    #[verifier::when_used_as_spec(spec_weight)]
    pub fn weight(&self) -> (weight: Weight)
        ensures
            weight == self.spec_weight(),
    {
        match self.weight {
            Some(weight) => weight,
            None => Weight::Weightless,
        }
    }

    /// What the move resolver sees of the object.
    pub open spec fn collision_view(&self) -> CollisionObject {
        CollisionObject {
            blocks_movement: self.blocks_movement,
            blocks_pushes: self.blocks_pushes,
            deadly: self.deadly,
            direction: self.direction,
            key: self.key,
            massive: self.massive,
            object_type: self.object_type,
            openable: self.openable,
            paint: self.paint,
            paintable: self.paintable,
            player: self.player,
            position: self.position,
            pushable: self.pushable,
            weight: self.weight,
        }
    }

    /// The object turned to face `direction`.
    #[verifier::opaque]
    pub open spec fn spec_facing(self, direction: Direction) -> GameObject {
        GameObject { direction, ..self }
    }

    /// The object turned to face `direction`.
    #[verifier::when_used_as_spec(spec_facing)]
    pub fn facing(self, direction: Direction) -> (turned: GameObject)
        ensures
            turned == self.spec_facing(direction),
    {
        proof {
            reveal(GameObject::spec_facing);
        }
        GameObject { direction, ..self }
    }

    /// The object made massive or not: a door or gate closed or opened.
    #[verifier::opaque]
    pub open spec fn spec_with_massive(self, massive: bool) -> GameObject {
        GameObject { massive, ..self }
    }

    /// The object made massive or not: a door or gate closed or opened.
    #[verifier::when_used_as_spec(spec_with_massive)]
    pub fn with_massive(self, massive: bool) -> (object: GameObject)
        ensures
            object == self.spec_with_massive(massive),
    {
        proof {
            reveal(GameObject::spec_with_massive);
        }
        GameObject { massive, ..self }
    }

    /// The teleporter with the number `identifier`.
    #[verifier::opaque]
    pub open spec fn spec_with_teleporter(self, identifier: u16) -> GameObject {
        GameObject { teleporter: Some(identifier), ..self }
    }

    /// The teleporter with the number `identifier`.
    #[verifier::when_used_as_spec(spec_with_teleporter)]
    pub fn with_teleporter(self, identifier: u16) -> (object: GameObject)
        ensures
            object == self.spec_with_teleporter(identifier),
    {
        proof {
            reveal(GameObject::spec_with_teleporter);
        }
        GameObject { teleporter: Some(identifier), ..self }
    }

    /// The entrance that leads to the level `level`.
    #[verifier::opaque]
    pub open spec fn spec_with_entrance(self, level: u16) -> GameObject {
        GameObject { entrance: Some(level), ..self }
    }

    /// The entrance that leads to the level `level`.
    #[verifier::when_used_as_spec(spec_with_entrance)]
    pub fn with_entrance(self, level: u16) -> (object: GameObject)
        ensures
            object == self.spec_with_entrance(level),
    {
        proof {
            reveal(GameObject::spec_with_entrance);
        }
        GameObject { entrance: Some(level), ..self }
    }

    /// The object as it is once it can no longer be pushed.
    #[verifier::opaque]
    pub open spec fn spec_anchored(self) -> GameObject {
        GameObject { pushable: false, ..self }
    }

    /// The object as it is once it can no longer be pushed.
    #[verifier::when_used_as_spec(spec_anchored)]
    pub fn anchored(self) -> (object: GameObject)
        ensures
            object == self.spec_anchored(),
    {
        proof {
            reveal(GameObject::spec_anchored);
        }
        GameObject { pushable: false, ..self }
    }

    /// The object at `position`. It counts as moved.
    pub fn at(self, position: Position) -> (object: GameObject)
        ensures
            object == self.moved_to((position.x as int, position.y as int)),
    {
        proof {
            reveal(GameObject::moved_to);
        }
        GameObject { position, position_change: PositionChange::Moved, ..self }
    }

    /// The object moved to the cell with the unbounded coordinates `cell`.
    /// It counts as moved.
    #[verifier::opaque]
    pub open spec fn moved_to(self, cell: (int, int)) -> GameObject {
        GameObject {
            position: Position { x: cell.0 as i16, y: cell.1 as i16 },
            position_change: PositionChange::Moved,
            ..self
        }
    }

    /// The forcing tile switched on or off.
    #[verifier::opaque]
    pub open spec fn spec_switched(self, blocks_movement: BlocksMovement) -> GameObject {
        GameObject { blocks_movement: Some(blocks_movement), ..self }
    }

    /// The forcing tile switched on or off.
    #[verifier::when_used_as_spec(spec_switched)]
    pub fn switched(self, blocks_movement: BlocksMovement) -> (tile: GameObject)
        ensures
            tile == self.spec_switched(blocks_movement),
    {
        proof {
            reveal(GameObject::spec_switched);
        }
        GameObject { blocks_movement: Some(blocks_movement), ..self }
    }

    /// The object with what the move resolver has written to `seen`: the
    /// position, the direction and the forcing tile's switch. An object whose
    /// position was written counts as moved.
    #[verifier::opaque]
    pub open spec fn with_collision_view(&self, seen: CollisionObject) -> GameObject {
        GameObject {
            position: seen.position,
            direction: seen.direction,
            blocks_movement: seen.blocks_movement,
            position_change: if seen.position != self.position {
                PositionChange::Moved
            } else {
                self.position_change
            },
            ..*self
        }
    }
}

impl CollisionObject {
    /// What the move resolver sees of `object`.
    pub fn from(object: &GameObject) -> (seen: CollisionObject)
        ensures
            seen == object.collision_view(),
    {
        CollisionObject {
            blocks_movement: object.blocks_movement,
            blocks_pushes: object.blocks_pushes,
            deadly: object.deadly,
            direction: object.direction,
            key: object.key,
            massive: object.massive,
            object_type: object.object_type,
            openable: object.openable,
            paint: object.paint,
            paintable: object.paintable,
            player: object.player,
            position: object.position,
            pushable: object.pushable,
            weight: object.weight,
        }
    }

    /// Writes to `object` what the move resolver has changed of it.
    pub fn write_to(&self, object: &mut GameObject)
        ensures
            *final(object) == old(object).with_collision_view(*self),
    {
        proof {
            reveal(GameObject::with_collision_view);
        }
        let before = *object;
        let position_change = if self.position.x != before.position.x || self.position.y
            != before.position.y {
            PositionChange::Moved
        } else {
            before.position_change
        };
        *object = GameObject {
            position: self.position,
            direction: self.direction,
            blocks_movement: self.blocks_movement,
            position_change,
            ..before
        };
    }
}

/// An object that is opened, closed or anchored stands where it stood, faces
/// the way it faced, and counts as moved if and only if it did.
pub proof fn lemma_opening_and_anchoring_keep_the_place(object: GameObject, massive: bool)
    ensures
        object.with_massive(massive).position == object.position,
        object.with_massive(massive).direction == object.direction,
        object.with_massive(massive).position_change == object.position_change,
        object.with_massive(massive).massive == massive,
        object.anchored().position == object.position,
        object.anchored().direction == object.direction,
        object.anchored().position_change == object.position_change,
        !object.anchored().pushable,
{
    reveal(GameObject::spec_with_massive);
    reveal(GameObject::spec_anchored);
}

/// Makes an object of the given kind as a level or a rule asks for it: at the
/// position given, facing the way given or else up, with the attributes that
/// objects of its kind start with.
pub fn spawn_object_of_type(
    object_type: ObjectType,
    initial_position: InitialPositionAndMetadata,
) -> (object: GameObject)
    ensures
        object == GameObject::spec_spawn(object_type, initial_position),
{
    let direction = match initial_position.direction {
        Some(direction) => direction,
        None => Direction::Up,
    };
    let base = GameObject { direction, ..GameObject::plain(object_type, initial_position.position) };
    match object_type {
        ObjectType::BlueBlock => GameObject {
            massive: true,
            paintable: true,
            pushable: true,
            weight: Some(Weight::Heavy),
            ..base
        },
        ObjectType::BluePaint => GameObject {
            paint: Some(ObjectType::BlueBlock),
            pushable: true,
            weight: Some(Weight::Light),
            ..base
        },
        ObjectType::BouncingBall => GameObject {
            blocks_pushes: true,
            deadly: true,
            movable: Some(Movable::Bounce),
            weight: Some(Weight::Light),
            ..base
        },
        ObjectType::Button => GameObject { trigger: true, ..base },
        ObjectType::Creature1 => GameObject {
            blocks_pushes: true,
            deadly: true,
            movable: Some(Movable::FollowRightHand),
            weight: Some(Weight::Light),
            ..base
        },
        ObjectType::Door => GameObject {
            immovable: true,
            massive: !initial_position.open,
            openable: Some(Openable::Key),
            ..base
        },
        ObjectType::Entrance => GameObject {
            blocks_pushes: true,
            entrance: Some(
                match initial_position.level {
                    Some(level) => level,
                    None => 0,
                },
            ),
            ..base
        },
        ObjectType::Exit => GameObject { blocks_pushes: true, exit: true, ..base },
        ObjectType::Explosion => GameObject { volatile: true, ..base },
        ObjectType::Flash => GameObject { volatile: true, ..base },
        ObjectType::Gate => GameObject {
            immovable: true,
            massive: !initial_position.open,
            openable: Some(
                match initial_position.level {
                    Some(level) => Openable::LevelFinished(level),
                    None => Openable::Trigger,
                },
            ),
            ..base
        },
        ObjectType::Grave => GameObject { massive: true, ..base },
        ObjectType::Ice => GameObject {
            blocks_movement: Some(BlocksMovement::Enabled),
            slippery: true,
            ..base
        },
        ObjectType::Key => GameObject {
            key: true,
            pushable: true,
            weight: Some(Weight::Light),
            ..base
        },
        ObjectType::Mine => GameObject { explosive: true, ..base },
        ObjectType::Player => GameObject {
            blocks_pushes: true,
            player: true,
            weight: Some(Weight::Heavy),
            ..base
        },
        ObjectType::PurpleBlock => GameObject {
            massive: true,
            paintable: true,
            pushable: true,
            transform_on_push: Some(ObjectType::RedBlock),
            weight: Some(Weight::Heavy),
            ..base
        },
        ObjectType::PurplePaint => GameObject {
            paint: Some(ObjectType::PurpleBlock),
            pushable: true,
            weight: Some(Weight::Light),
            ..base
        },
        ObjectType::Raft => GameObject {
            floatable: true,
            pushable: true,
            weight: Some(Weight::Heavy),
            ..base
        },
        ObjectType::RedBlock => GameObject { massive: true, paintable: true, ..base },
        ObjectType::RedPaint => GameObject {
            paint: Some(ObjectType::RedBlock),
            pushable: true,
            weight: Some(Weight::Light),
            ..base
        },
        ObjectType::Splash => GameObject { floatable: true, volatile: true, ..base },
        ObjectType::Teleporter => GameObject {
            teleporter: Some(
                match initial_position.identifier {
                    Some(identifier) => identifier,
                    None => 0,
                },
            ),
            ..base
        },
        ObjectType::Transporter => GameObject {
            blocks_movement: Some(BlocksMovement::Enabled),
            transporter: true,
            ..base
        },
        ObjectType::Water => GameObject { animatable: Some(3), liquid: true, ..base },
        ObjectType::YellowBlock => GameObject {
            massive: true,
            paintable: true,
            pushable: true,
            weight: Some(Weight::Light),
            ..base
        },
    }
}

/// What a rule asks to be done to the list of objects once it has run.
#[derive(Clone, Copy, Debug, PartialEq, Eq, Structural)]
pub enum Event {
    /// A new object of the given kind is to appear.
    Spawn { object_type: ObjectType, position: InitialPositionAndMetadata },
    /// The object with the index `entity` is to disappear.
    Despawn { entity: usize },
}

} // verus!
