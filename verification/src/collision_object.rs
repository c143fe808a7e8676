//! What the move resolver sees of an object.

use vstd::prelude::*;
use crate::components::{BlocksMovement, Direction, Openable, Position, Weight};
use crate::object_type::ObjectType;

verus! {

/// The attributes of one object that decide whether something can move onto
/// its cell, push it, or leave the cell it stands on. The move resolver reads
/// all of them and writes `position`, `direction` and `blocks_movement`.
#[derive(Clone, Copy, Debug, PartialEq, Eq, Structural)]
pub struct CollisionObject {
    /// Set on forcing tiles only.
    pub blocks_movement: Option<BlocksMovement>,
    pub blocks_pushes: bool,
    pub deadly: bool,
    pub direction: Direction,
    pub key: bool,
    pub massive: bool,
    pub object_type: ObjectType,
    pub openable: Option<Openable>,
    /// For a paint, the kind of object that it paints others into.
    pub paint: Option<ObjectType>,
    pub paintable: bool,
    pub player: bool,
    pub position: Position,
    pub pushable: bool,
    pub weight: Option<Weight>,
}

impl CollisionObject {
    /// An object of the given kind at `position` that faces up and has no
    /// other attribute.
    pub fn new(object_type: ObjectType, position: Position) -> (object: CollisionObject)
        ensures
            object == (CollisionObject {
                blocks_movement: None,
                blocks_pushes: false,
                deadly: false,
                direction: Direction::Up,
                key: false,
                massive: false,
                object_type,
                openable: None,
                paint: None,
                paintable: false,
                player: false,
                position,
                pushable: false,
                weight: None,
            }),
    {
        CollisionObject {
            blocks_movement: None,
            blocks_pushes: false,
            deadly: false,
            direction: Direction::Up,
            key: false,
            massive: false,
            object_type,
            openable: None,
            paint: None,
            paintable: false,
            player: false,
            position,
            pushable: false,
            weight: None,
        }
    }

    pub open spec fn spec_blocks_movement(&self) -> bool {
        self.blocks_movement == Some(BlocksMovement::Enabled)
    }

    /// Whether the object keeps what stands on its cell from walking off.
    #[verifier::when_used_as_spec(spec_blocks_movement)]
    pub fn blocks_movement(&self) -> (blocks: bool)
        ensures
            blocks == self.spec_blocks_movement(),
    {
        match self.blocks_movement {
            Some(BlocksMovement::Enabled) => true,
            _ => false,
        }
    }

    pub open spec fn spec_blocks_pushes(&self) -> bool {
        self.blocks_pushes
    }

    /// Whether the object refuses to have anything pushed onto it.
    #[verifier::when_used_as_spec(spec_blocks_pushes)]
    pub fn blocks_pushes(&self) -> (blocks: bool)
        ensures
            blocks == self.spec_blocks_pushes(),
    {
        self.blocks_pushes
    }

    pub open spec fn spec_can_mix_with(&self, other: ObjectType) -> bool {
        self.object_type.mix_with(other) is Some
    }

    /// Whether an object of kind `other` mixes with this one.
    #[verifier::when_used_as_spec(spec_can_mix_with)]
    pub fn can_mix_with(&self, other: ObjectType) -> (mixes: bool)
        ensures
            mixes == self.spec_can_mix_with(other),
    {
        self.object_type.mix_with(other).is_some()
    }

    pub open spec fn spec_can_open_with_key(&self) -> bool {
        self.openable == Some(Openable::Key)
    }

    /// Whether a key opens the object.
    #[verifier::when_used_as_spec(spec_can_open_with_key)]
    pub fn can_open_with_key(&self) -> (opens: bool)
        ensures
            opens == self.spec_can_open_with_key(),
    {
        match self.openable {
            Some(Openable::Key) => true,
            _ => false,
        }
    }

    pub open spec fn spec_can_push_on(&self) -> bool {
        !self.massive && !self.pushable && !self.blocks_pushes
    }

    /// Whether another object may be pushed onto the cell of this one.
    #[verifier::when_used_as_spec(spec_can_push_on)]
    pub fn can_push_on(&self) -> (free: bool)
        ensures
            free == self.spec_can_push_on(),
    {
        !self.massive && !self.pushable && !self.blocks_pushes()
    }

    pub open spec fn spec_has_position(&self, position: Position) -> bool {
        self.position == position
    }

    /// Whether the object stands on `position`.
    #[verifier::when_used_as_spec(spec_has_position)]
    pub fn has_position(&self, position: Position) -> (there: bool)
        ensures
            there == self.spec_has_position(position),
    {
        self.position.x == position.x && self.position.y == position.y
    }

    pub open spec fn spec_is_deadly(&self) -> bool {
        self.deadly
    }

    /// Whether the object kills the player on contact.
    #[verifier::when_used_as_spec(spec_is_deadly)]
    pub fn is_deadly(&self) -> (deadly: bool)
        ensures
            deadly == self.spec_is_deadly(),
    {
        self.deadly
    }

    pub open spec fn spec_is_key(&self) -> bool {
        self.key
    }

    /// Whether the object is a key.
    #[verifier::when_used_as_spec(spec_is_key)]
    pub fn is_key(&self) -> (key: bool)
        ensures
            key == self.spec_is_key(),
    {
        self.key
    }

    pub open spec fn spec_is_massive(&self) -> bool {
        self.massive
    }

    /// Whether nothing can move onto the cell of the object unless it gives way.
    #[verifier::when_used_as_spec(spec_is_massive)]
    pub fn is_massive(&self) -> (massive: bool)
        ensures
            massive == self.spec_is_massive(),
    {
        self.massive
    }

    pub open spec fn spec_is_paint(&self) -> bool {
        self.paint is Some
    }

    /// Whether the object is a paint.
    #[verifier::when_used_as_spec(spec_is_paint)]
    pub fn is_paint(&self) -> (paint: bool)
        ensures
            paint == self.spec_is_paint(),
    {
        self.paint.is_some()
    }

    pub open spec fn spec_is_paintable(&self) -> bool {
        self.paintable
    }

    /// Whether the object can be painted.
    #[verifier::when_used_as_spec(spec_is_paintable)]
    pub fn is_paintable(&self) -> (paintable: bool)
        ensures
            paintable == self.spec_is_paintable(),
    {
        self.paintable
    }

    pub open spec fn spec_is_player(&self) -> bool {
        self.player
    }

    /// Whether the object is a player.
    #[verifier::when_used_as_spec(spec_is_player)]
    pub fn is_player(&self) -> (player: bool)
        ensures
            player == self.spec_is_player(),
    {
        self.player
    }

    pub open spec fn spec_is_pushable(&self) -> bool {
        self.pushable
    }

    /// Whether the object gives way to a mover that is heavy enough.
    #[verifier::when_used_as_spec(spec_is_pushable)]
    pub fn is_pushable(&self) -> (pushable: bool)
        ensures
            pushable == self.spec_is_pushable(),
    {
        self.pushable
    }

    pub open spec fn spec_object_type(&self) -> ObjectType {
        self.object_type
    }

    /// The kind of the object.
    #[verifier::when_used_as_spec(spec_object_type)]
    pub fn object_type(&self) -> (object_type: ObjectType)
        ensures
            object_type == self.spec_object_type(),
    {
        self.object_type
    }

    pub open spec fn spec_weight(&self) -> Weight {
        match self.weight {
            Some(weight) => weight,
            None => Weight::Weightless,
        }
    }

    /// The weight of the object. One without a weight of its own is
    /// weightless.
    #[verifier::when_used_as_spec(spec_weight)]
    pub fn weight(&self) -> (weight: Weight)
        ensures
            weight == self.spec_weight(),
    {
        match self.weight {
            Some(weight) => weight,
            None => Weight::Weightless,
        }
    }
}

} // verus!
