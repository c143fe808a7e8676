//! The kinds of object a level can hold.

use vstd::prelude::*;
use crate::text::{chars_of, spells};

verus! {

/// The kind of an object. It decides how the object looks and which
/// attributes it starts with.
#[derive(Clone, Copy, Debug, PartialEq, Eq, Structural, PartialOrd, Ord)]
pub enum ObjectType {
    BlueBlock,
    BluePaint,
    BouncingBall,
    Button,
    Creature1,
    Door,
    Entrance,
    Exit,
    Explosion,
    Flash,
    Gate,
    Grave,
    Ice,
    Key,
    Mine,
    Player,
    PurpleBlock,
    PurplePaint,
    Raft,
    RedBlock,
    RedPaint,
    Splash,
    Teleporter,
    Transporter,
    Water,
    YellowBlock,
}

impl ObjectType {
    /// Whether this is one of the three paints.
    pub open spec fn is_paint(self) -> bool {
        self == ObjectType::BluePaint || self == ObjectType::PurplePaint || self
            == ObjectType::RedPaint
    }

    /// Two paints mix; nothing else does. A paint mixed with itself stays what
    /// it is, and two different paints give purple.
    pub open spec fn spec_mix_with(self, other: ObjectType) -> Option<ObjectType> {
        if self.is_paint() && other.is_paint() {
            if self == other {
                Some(self)
            } else {
                Some(ObjectType::PurplePaint)
            }
        } else {
            None
        }
    }

    /// The kind of object that this one turns into when it is mixed with
    /// `other`, if the two mix.
    #[verifier::when_used_as_spec(spec_mix_with)]
    pub fn mix_with(self, other: ObjectType) -> (mixed: Option<ObjectType>)
        ensures
            mixed == self.spec_mix_with(other),
    {
        match (self, other) {
            (ObjectType::BluePaint, ObjectType::BluePaint) => Some(ObjectType::BluePaint),
            (ObjectType::BluePaint, ObjectType::PurplePaint) => Some(ObjectType::PurplePaint),
            (ObjectType::BluePaint, ObjectType::RedPaint) => Some(ObjectType::PurplePaint),
            (ObjectType::PurplePaint, ObjectType::BluePaint) => Some(ObjectType::PurplePaint),
            (ObjectType::PurplePaint, ObjectType::PurplePaint) => Some(ObjectType::PurplePaint),
            (ObjectType::PurplePaint, ObjectType::RedPaint) => Some(ObjectType::PurplePaint),
            (ObjectType::RedPaint, ObjectType::BluePaint) => Some(ObjectType::PurplePaint),
            (ObjectType::RedPaint, ObjectType::PurplePaint) => Some(ObjectType::PurplePaint),
            (ObjectType::RedPaint, ObjectType::RedPaint) => Some(ObjectType::RedPaint),
            _ => None,
        }
    }
}

/// Mixing does not depend on which of the two kinds comes first, and what
/// comes out of it is a paint again.
pub proof fn lemma_mixing_is_commutative(a: ObjectType, b: ObjectType)
    ensures
        a.mix_with(b) == b.mix_with(a),
        a.mix_with(b) matches Some(mixed) ==> mixed.is_paint(),
{
}

/// Mixing three paints gives the same whichever two are mixed first.
pub proof fn lemma_mixing_is_associative(a: ObjectType, b: ObjectType, c: ObjectType)
    requires
        a.is_paint(),
        b.is_paint(),
        c.is_paint(),
    ensures
        a.mix_with(b).unwrap().mix_with(c) == a.mix_with(b.mix_with(c).unwrap()),
{
}

/// The number of kinds of object.
pub const NUM_OBJECT_TYPES: usize = 26;

/// No kind of object that a level can hold has the name asked for.
#[derive(Clone, Copy, Debug, PartialEq, Eq, Structural)]
pub struct UnknownObjectType;

impl ObjectType {
    /// The place of the kind in the order of all kinds.
    pub open spec fn spec_index(self) -> usize {
        match self {
            ObjectType::BlueBlock => 0usize,
            ObjectType::BluePaint => 1usize,
            ObjectType::BouncingBall => 2usize,
            ObjectType::Button => 3usize,
            ObjectType::Creature1 => 4usize,
            ObjectType::Door => 5usize,
            ObjectType::Entrance => 6usize,
            ObjectType::Exit => 7usize,
            ObjectType::Explosion => 8usize,
            ObjectType::Flash => 9usize,
            ObjectType::Gate => 10usize,
            ObjectType::Grave => 11usize,
            ObjectType::Ice => 12usize,
            ObjectType::Key => 13usize,
            ObjectType::Mine => 14usize,
            ObjectType::Player => 15usize,
            ObjectType::PurpleBlock => 16usize,
            ObjectType::PurplePaint => 17usize,
            ObjectType::Raft => 18usize,
            ObjectType::RedBlock => 19usize,
            ObjectType::RedPaint => 20usize,
            ObjectType::Splash => 21usize,
            ObjectType::Teleporter => 22usize,
            ObjectType::Transporter => 23usize,
            ObjectType::Water => 24usize,
            ObjectType::YellowBlock => 25usize,
        }
    }

    /// The place of the kind in the order of all kinds.
    #[verifier::when_used_as_spec(spec_index)]
    pub fn index(self) -> (index: usize)
        ensures
            index == self.spec_index(),
            index < NUM_OBJECT_TYPES,
    {
        match self {
            ObjectType::BlueBlock => 0,
            ObjectType::BluePaint => 1,
            ObjectType::BouncingBall => 2,
            ObjectType::Button => 3,
            ObjectType::Creature1 => 4,
            ObjectType::Door => 5,
            ObjectType::Entrance => 6,
            ObjectType::Exit => 7,
            ObjectType::Explosion => 8,
            ObjectType::Flash => 9,
            ObjectType::Gate => 10,
            ObjectType::Grave => 11,
            ObjectType::Ice => 12,
            ObjectType::Key => 13,
            ObjectType::Mine => 14,
            ObjectType::Player => 15,
            ObjectType::PurpleBlock => 16,
            ObjectType::PurplePaint => 17,
            ObjectType::Raft => 18,
            ObjectType::RedBlock => 19,
            ObjectType::RedPaint => 20,
            ObjectType::Splash => 21,
            ObjectType::Teleporter => 22,
            ObjectType::Transporter => 23,
            ObjectType::Water => 24,
            ObjectType::YellowBlock => 25,
        }
    }

    /// The kind at the place `index` in the order of all kinds.
    pub open spec fn spec_from_index(index: usize) -> Option<ObjectType> {
        if index == 0 {
            Some(ObjectType::BlueBlock)
        } else if index == 1 {
            Some(ObjectType::BluePaint)
        } else if index == 2 {
            Some(ObjectType::BouncingBall)
        } else if index == 3 {
            Some(ObjectType::Button)
        } else if index == 4 {
            Some(ObjectType::Creature1)
        } else if index == 5 {
            Some(ObjectType::Door)
        } else if index == 6 {
            Some(ObjectType::Entrance)
        } else if index == 7 {
            Some(ObjectType::Exit)
        } else if index == 8 {
            Some(ObjectType::Explosion)
        } else if index == 9 {
            Some(ObjectType::Flash)
        } else if index == 10 {
            Some(ObjectType::Gate)
        } else if index == 11 {
            Some(ObjectType::Grave)
        } else if index == 12 {
            Some(ObjectType::Ice)
        } else if index == 13 {
            Some(ObjectType::Key)
        } else if index == 14 {
            Some(ObjectType::Mine)
        } else if index == 15 {
            Some(ObjectType::Player)
        } else if index == 16 {
            Some(ObjectType::PurpleBlock)
        } else if index == 17 {
            Some(ObjectType::PurplePaint)
        } else if index == 18 {
            Some(ObjectType::Raft)
        } else if index == 19 {
            Some(ObjectType::RedBlock)
        } else if index == 20 {
            Some(ObjectType::RedPaint)
        } else if index == 21 {
            Some(ObjectType::Splash)
        } else if index == 22 {
            Some(ObjectType::Teleporter)
        } else if index == 23 {
            Some(ObjectType::Transporter)
        } else if index == 24 {
            Some(ObjectType::Water)
        } else if index == 25 {
            Some(ObjectType::YellowBlock)
        } else {
            None
        }
    }

    /// The kind at the place `index` in the order of all kinds.
    #[verifier::when_used_as_spec(spec_from_index)]
    pub fn from_index(index: usize) -> (kind: Option<ObjectType>)
        ensures
            kind == ObjectType::spec_from_index(index),
    {
        match index {
            0 => Some(ObjectType::BlueBlock),
            1 => Some(ObjectType::BluePaint),
            2 => Some(ObjectType::BouncingBall),
            3 => Some(ObjectType::Button),
            4 => Some(ObjectType::Creature1),
            5 => Some(ObjectType::Door),
            6 => Some(ObjectType::Entrance),
            7 => Some(ObjectType::Exit),
            8 => Some(ObjectType::Explosion),
            9 => Some(ObjectType::Flash),
            10 => Some(ObjectType::Gate),
            11 => Some(ObjectType::Grave),
            12 => Some(ObjectType::Ice),
            13 => Some(ObjectType::Key),
            14 => Some(ObjectType::Mine),
            15 => Some(ObjectType::Player),
            16 => Some(ObjectType::PurpleBlock),
            17 => Some(ObjectType::PurplePaint),
            18 => Some(ObjectType::Raft),
            19 => Some(ObjectType::RedBlock),
            20 => Some(ObjectType::RedPaint),
            21 => Some(ObjectType::Splash),
            22 => Some(ObjectType::Teleporter),
            23 => Some(ObjectType::Transporter),
            24 => Some(ObjectType::Water),
            25 => Some(ObjectType::YellowBlock),
            _ => None,
        }
    }

    /// The name of the kind, as levels write it.
    pub open spec fn spec_name(self) -> Seq<char> {
        match self {
            ObjectType::BlueBlock => "BlueBlock"@,
            ObjectType::BluePaint => "BluePaint"@,
            ObjectType::BouncingBall => "BouncingBall"@,
            ObjectType::Button => "Button"@,
            ObjectType::Creature1 => "Creature1"@,
            ObjectType::Door => "Door"@,
            ObjectType::Entrance => "Entrance"@,
            ObjectType::Exit => "Exit"@,
            ObjectType::Explosion => "Explosion"@,
            ObjectType::Flash => "Flash"@,
            ObjectType::Gate => "Gate"@,
            ObjectType::Grave => "Grave"@,
            ObjectType::Ice => "Ice"@,
            ObjectType::Key => "Key"@,
            ObjectType::Mine => "Mine"@,
            ObjectType::Player => "Player"@,
            ObjectType::PurpleBlock => "PurpleBlock"@,
            ObjectType::PurplePaint => "PurplePaint"@,
            ObjectType::Raft => "Raft"@,
            ObjectType::RedBlock => "RedBlock"@,
            ObjectType::RedPaint => "RedPaint"@,
            ObjectType::Splash => "Splash"@,
            ObjectType::Teleporter => "Teleporter"@,
            ObjectType::Transporter => "Transporter"@,
            ObjectType::Water => "Water"@,
            ObjectType::YellowBlock => "YellowBlock"@,
        }
    }

    /// The name of the kind, as levels write it.
    pub fn name(self) -> (name: &'static str)
        ensures
            name@ == self.spec_name(),
    {
        match self {
            ObjectType::BlueBlock => "BlueBlock",
            ObjectType::BluePaint => "BluePaint",
            ObjectType::BouncingBall => "BouncingBall",
            ObjectType::Button => "Button",
            ObjectType::Creature1 => "Creature1",
            ObjectType::Door => "Door",
            ObjectType::Entrance => "Entrance",
            ObjectType::Exit => "Exit",
            ObjectType::Explosion => "Explosion",
            ObjectType::Flash => "Flash",
            ObjectType::Gate => "Gate",
            ObjectType::Grave => "Grave",
            ObjectType::Ice => "Ice",
            ObjectType::Key => "Key",
            ObjectType::Mine => "Mine",
            ObjectType::Player => "Player",
            ObjectType::PurpleBlock => "PurpleBlock",
            ObjectType::PurplePaint => "PurplePaint",
            ObjectType::Raft => "Raft",
            ObjectType::RedBlock => "RedBlock",
            ObjectType::RedPaint => "RedPaint",
            ObjectType::Splash => "Splash",
            ObjectType::Teleporter => "Teleporter",
            ObjectType::Transporter => "Transporter",
            ObjectType::Water => "Water",
            ObjectType::YellowBlock => "YellowBlock",
        }
    }

    /// Whether a level can hold objects of this kind. It cannot hold what
    /// only ever comes out of the play: explosions, flashes, graves and
    /// splashes.
    pub open spec fn is_loadable(self) -> bool {
        self != ObjectType::Explosion && self != ObjectType::Flash && self != ObjectType::Grave
            && self != ObjectType::Splash
    }

    /// The kind that a level can hold under the name `name`, if there is
    /// one.
    pub open spec fn spec_from_name(name: Seq<char>) -> Option<ObjectType> {
        if name == "BlueBlock"@ {
            Some(ObjectType::BlueBlock)
        }         else if name == "BluePaint"@ {
            Some(ObjectType::BluePaint)
        }         else if name == "BouncingBall"@ {
            Some(ObjectType::BouncingBall)
        }         else if name == "Button"@ {
            Some(ObjectType::Button)
        }         else if name == "Creature1"@ {
            Some(ObjectType::Creature1)
        }         else if name == "Door"@ {
            Some(ObjectType::Door)
        }         else if name == "Entrance"@ {
            Some(ObjectType::Entrance)
        }         else if name == "Exit"@ {
            Some(ObjectType::Exit)
        }         else if name == "Gate"@ {
            Some(ObjectType::Gate)
        }         else if name == "Ice"@ {
            Some(ObjectType::Ice)
        }         else if name == "Key"@ {
            Some(ObjectType::Key)
        }         else if name == "Mine"@ {
            Some(ObjectType::Mine)
        }         else if name == "Player"@ {
            Some(ObjectType::Player)
        }         else if name == "PurpleBlock"@ {
            Some(ObjectType::PurpleBlock)
        }         else if name == "PurplePaint"@ {
            Some(ObjectType::PurplePaint)
        }         else if name == "Raft"@ {
            Some(ObjectType::Raft)
        }         else if name == "RedBlock"@ {
            Some(ObjectType::RedBlock)
        }         else if name == "RedPaint"@ {
            Some(ObjectType::RedPaint)
        }         else if name == "Teleporter"@ {
            Some(ObjectType::Teleporter)
        }         else if name == "Transporter"@ {
            Some(ObjectType::Transporter)
        }         else if name == "Water"@ {
            Some(ObjectType::Water)
        }         else if name == "YellowBlock"@ {
            Some(ObjectType::YellowBlock)
        } else {
            None
        }
    }

    /// The kind that a level can hold under the name `name`, if there is
    /// one.
    pub fn from_name(name: &Vec<char>) -> (kind: Option<ObjectType>)
        ensures
            kind == ObjectType::spec_from_name(name@),
    {
        if spells(name, "BlueBlock") {
            Some(ObjectType::BlueBlock)
        }         else if spells(name, "BluePaint") {
            Some(ObjectType::BluePaint)
        }         else if spells(name, "BouncingBall") {
            Some(ObjectType::BouncingBall)
        }         else if spells(name, "Button") {
            Some(ObjectType::Button)
        }         else if spells(name, "Creature1") {
            Some(ObjectType::Creature1)
        }         else if spells(name, "Door") {
            Some(ObjectType::Door)
        }         else if spells(name, "Entrance") {
            Some(ObjectType::Entrance)
        }         else if spells(name, "Exit") {
            Some(ObjectType::Exit)
        }         else if spells(name, "Gate") {
            Some(ObjectType::Gate)
        }         else if spells(name, "Ice") {
            Some(ObjectType::Ice)
        }         else if spells(name, "Key") {
            Some(ObjectType::Key)
        }         else if spells(name, "Mine") {
            Some(ObjectType::Mine)
        }         else if spells(name, "Player") {
            Some(ObjectType::Player)
        }         else if spells(name, "PurpleBlock") {
            Some(ObjectType::PurpleBlock)
        }         else if spells(name, "PurplePaint") {
            Some(ObjectType::PurplePaint)
        }         else if spells(name, "Raft") {
            Some(ObjectType::Raft)
        }         else if spells(name, "RedBlock") {
            Some(ObjectType::RedBlock)
        }         else if spells(name, "RedPaint") {
            Some(ObjectType::RedPaint)
        }         else if spells(name, "Teleporter") {
            Some(ObjectType::Teleporter)
        }         else if spells(name, "Transporter") {
            Some(ObjectType::Transporter)
        }         else if spells(name, "Water") {
            Some(ObjectType::Water)
        }         else if spells(name, "YellowBlock") {
            Some(ObjectType::YellowBlock)
        } else {
            None
        }
    }
}

impl std::str::FromStr for ObjectType {
    type Err = UnknownObjectType;

    /// The kind that a level can hold under the name `object_type`.
    fn from_str(object_type: &str) -> (kind: Result<ObjectType, UnknownObjectType>)
        ensures
            kind == (match ObjectType::spec_from_name(object_type@) {
                Some(named) => Ok::<ObjectType, UnknownObjectType>(named),
                None => Err::<ObjectType, UnknownObjectType>(UnknownObjectType),
            }),
    {
        match ObjectType::from_name(&chars_of(object_type)) {
            Some(kind) => Ok(kind),
            None => Err(UnknownObjectType),
        }
    }
}

/// Every kind has a place of its own in the order of all kinds, and is found
/// again at its place.
pub proof fn lemma_kind_is_found_at_its_index(kind: ObjectType, index: usize)
    ensures
        kind.index() < NUM_OBJECT_TYPES,
        ObjectType::from_index(kind.index()) == Some(kind),
        ObjectType::from_index(index) is Some <==> index < NUM_OBJECT_TYPES,
        ObjectType::from_index(index) == Some(kind) <==> kind.index() == index,
{
}

/// Every kind that a level can hold is found again under its own name, and
/// under no other.
pub proof fn lemma_kind_is_found_by_its_name(kind: ObjectType)
    ensures
        ObjectType::spec_from_name(kind.spec_name()) == (if kind.is_loadable() {
            Some(kind)
        } else {
            None
        }),
{
    reveal_strlit("BlueBlock");
    reveal_strlit("BluePaint");
    reveal_strlit("BouncingBall");
    reveal_strlit("Button");
    reveal_strlit("Creature1");
    reveal_strlit("Door");
    reveal_strlit("Entrance");
    reveal_strlit("Exit");
    reveal_strlit("Explosion");
    reveal_strlit("Flash");
    reveal_strlit("Gate");
    reveal_strlit("Grave");
    reveal_strlit("Ice");
    reveal_strlit("Key");
    reveal_strlit("Mine");
    reveal_strlit("Player");
    reveal_strlit("PurpleBlock");
    reveal_strlit("PurplePaint");
    reveal_strlit("Raft");
    reveal_strlit("RedBlock");
    reveal_strlit("RedPaint");
    reveal_strlit("Splash");
    reveal_strlit("Teleporter");
    reveal_strlit("Transporter");
    reveal_strlit("Water");
    reveal_strlit("YellowBlock");
    assert("BlueBlock"@.len() == 9);
    assert("BluePaint"@.len() == 9);
    assert("BouncingBall"@.len() == 12);
    assert("Button"@.len() == 6);
    assert("Creature1"@.len() == 9);
    assert("Door"@.len() == 4);
    assert("Entrance"@.len() == 8);
    assert("Exit"@.len() == 4);
    assert("Explosion"@.len() == 9);
    assert("Flash"@.len() == 5);
    assert("Gate"@.len() == 4);
    assert("Grave"@.len() == 5);
    assert("Ice"@.len() == 3);
    assert("Key"@.len() == 3);
    assert("Mine"@.len() == 4);
    assert("Player"@.len() == 6);
    assert("PurpleBlock"@.len() == 11);
    assert("PurplePaint"@.len() == 11);
    assert("Raft"@.len() == 4);
    assert("RedBlock"@.len() == 8);
    assert("RedPaint"@.len() == 8);
    assert("Splash"@.len() == 6);
    assert("Teleporter"@.len() == 10);
    assert("Transporter"@.len() == 11);
    assert("Water"@.len() == 5);
    assert("YellowBlock"@.len() == 11);
    assert("Ice"@[0] == 'I');
    assert("Key"@[0] == 'K');
    assert("Door"@[0] == 'D');
    assert("Exit"@[0] == 'E');
    assert("Gate"@[0] == 'G');
    assert("Mine"@[0] == 'M');
    assert("Raft"@[0] == 'R');
    assert("Flash"@[0] == 'F');
    assert("Grave"@[0] == 'G');
    assert("Water"@[0] == 'W');
    assert("Button"@[0] == 'B');
    assert("Player"@[0] == 'P');
    assert("Splash"@[0] == 'S');
    assert("Entrance"@[0] == 'E');
    assert("Entrance"@[3] == 'r');
    assert("RedBlock"@[0] == 'R');
    assert("RedBlock"@[3] == 'B');
    assert("RedPaint"@[0] == 'R');
    assert("RedPaint"@[3] == 'P');
    assert("BlueBlock"@[0] == 'B');
    assert("BlueBlock"@[4] == 'B');
    assert("BluePaint"@[0] == 'B');
    assert("BluePaint"@[4] == 'P');
    assert("Creature1"@[0] == 'C');
    assert("Creature1"@[4] == 't');
    assert("Explosion"@[0] == 'E');
    assert("Explosion"@[4] == 'o');
    assert("PurpleBlock"@[0] == 'P');
    assert("PurpleBlock"@[6] == 'B');
    assert("PurplePaint"@[0] == 'P');
    assert("PurplePaint"@[6] == 'P');
    assert("Transporter"@[0] == 'T');
    assert("Transporter"@[6] == 'o');
    assert("YellowBlock"@[0] == 'Y');
    assert("YellowBlock"@[6] == 'B');
}

} // verus!
