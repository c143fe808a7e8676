//! The attributes an object on the grid can carry.

use vstd::prelude::*;
use crate::text::{chars_of, spells};

verus! {

/// A cell of the grid. The top-left cell of a level is `(1, 1)`.
#[derive(Clone, Copy, Debug, PartialEq, Eq, Structural, PartialOrd, Ord)]
pub struct Position {
    /// 1-based column.
    pub x: i16,
    /// 1-based row.
    pub y: i16,
}

impl Position {
    /// The cell in the column `x` and the row `y`.
    pub fn new(x: i16, y: i16) -> (position: Position)
        ensures
            position.x == x,
            position.y == y,
    {
        Position { x, y }
    }

    /// The cell one step further in `direction`, as unbounded coordinates.
    pub open spec fn step(self, direction: Direction) -> (int, int) {
        (self.x + direction.spec_as_delta().0, self.y + direction.spec_as_delta().1)
    }

    /// Whether this cell has the unbounded coordinates `cell`.
    pub open spec fn is_at(self, cell: (int, int)) -> bool {
        self.x == cell.0 && self.y == cell.1
    }

    /// Whether `self` comes before `other` when cells are ordered by column,
    /// then by row.
    pub open spec fn spec_precedes(self, other: Position) -> bool {
        self.x < other.x || (self.x == other.x && self.y < other.y)
    }

    /// Compares by column, then by row.
    #[verifier::when_used_as_spec(spec_precedes)]
    pub fn precedes(self, other: Position) -> (before: bool)
        ensures
            before == self.spec_precedes(other),
    {
        self.x < other.x || (self.x == other.x && self.y < other.y)
    }
}

/// One of the four ways an object can face or move.
#[derive(Clone, Copy, Debug, PartialEq, Eq, Structural, PartialOrd, Ord)]
pub enum Direction {
    Up,
    Right,
    Down,
    Left,
}

impl Default for Direction {
    fn default() -> (direction: Direction)
        ensures
            direction == Direction::Up,
    {
        Direction::Up
    }
}

impl Direction {
    pub open spec fn spec_inverse(self) -> Direction {
        match self {
            Direction::Up => Direction::Down,
            Direction::Right => Direction::Left,
            Direction::Down => Direction::Up,
            Direction::Left => Direction::Right,
        }
    }

    /// The opposite direction.
    #[verifier::when_used_as_spec(spec_inverse)]
    pub fn inverse(self) -> (turned: Direction)
        ensures
            turned == self.spec_inverse(),
    {
        match self {
            Direction::Up => Direction::Down,
            Direction::Right => Direction::Left,
            Direction::Down => Direction::Up,
            Direction::Left => Direction::Right,
        }
    }

    pub open spec fn spec_left_hand(self) -> Direction {
        match self {
            Direction::Up => Direction::Left,
            Direction::Right => Direction::Up,
            Direction::Down => Direction::Right,
            Direction::Left => Direction::Down,
        }
    }

    /// The direction after a quarter turn to the left.
    #[verifier::when_used_as_spec(spec_left_hand)]
    pub fn left_hand(self) -> (turned: Direction)
        ensures
            turned == self.spec_left_hand(),
    {
        match self {
            Direction::Up => Direction::Left,
            Direction::Right => Direction::Up,
            Direction::Down => Direction::Right,
            Direction::Left => Direction::Down,
        }
    }

    pub open spec fn spec_right_hand(self) -> Direction {
        match self {
            Direction::Up => Direction::Right,
            Direction::Right => Direction::Down,
            Direction::Down => Direction::Left,
            Direction::Left => Direction::Up,
        }
    }

    /// The direction after a quarter turn to the right.
    #[verifier::when_used_as_spec(spec_right_hand)]
    pub fn right_hand(self) -> (turned: Direction)
        ensures
            turned == self.spec_right_hand(),
    {
        match self {
            Direction::Up => Direction::Right,
            Direction::Right => Direction::Down,
            Direction::Down => Direction::Left,
            Direction::Left => Direction::Up,
        }
    }

    pub open spec fn spec_as_delta(self) -> (i16, i16) {
        match self {
            Direction::Up => (0i16, -1i16),
            Direction::Right => (1i16, 0i16),
            Direction::Down => (0i16, 1i16),
            Direction::Left => (-1i16, 0i16),
        }
    }

    /// The `(dx, dy)` step of one move in this direction. Rows grow downwards.
    #[verifier::when_used_as_spec(spec_as_delta)]
    pub fn as_delta(self) -> (delta: (i16, i16))
        ensures
            delta == self.spec_as_delta(),
    {
        match self {
            Direction::Up => (0, -1),
            Direction::Right => (1, 0),
            Direction::Down => (0, 1),
            Direction::Left => (-1, 0),
        }
    }

    pub open spec fn spec_from_delta(dx: i16, dy: i16) -> Option<Direction> {
        if dx == 0 && dy == -1 {
            Some(Direction::Up)
        } else if dx == 1 && dy == 0 {
            Some(Direction::Right)
        } else if dx == 0 && dy == 1 {
            Some(Direction::Down)
        } else if dx == -1 && dy == 0 {
            Some(Direction::Left)
        } else {
            None
        }
    }

    /// The direction whose step is `(dx, dy)`, if that is a unit step along
    /// one axis.
    #[verifier::when_used_as_spec(spec_from_delta)]
    pub fn from_delta(dx: i16, dy: i16) -> (direction: Option<Direction>)
        ensures
            direction == Direction::spec_from_delta(dx, dy),
    {
        if dx == 0 && dy == -1 {
            Some(Direction::Up)
        } else if dx == 1 && dy == 0 {
            Some(Direction::Right)
        } else if dx == 0 && dy == 1 {
            Some(Direction::Down)
        } else if dx == -1 && dy == 0 {
            Some(Direction::Left)
        } else {
            None
        }
    }

    pub open spec fn spec_index(self) -> usize {
        match self {
            Direction::Up => 0usize,
            Direction::Right => 1usize,
            Direction::Down => 2usize,
            Direction::Left => 3usize,
        }
    }

    /// The position of this direction in the order Up, Right, Down, Left.
    /// It selects the frame of a sprite that has one frame per direction.
    #[verifier::when_used_as_spec(spec_index)]
    pub fn index(self) -> (index: usize)
        ensures
            index == self.spec_index(),
    {
        match self {
            Direction::Up => 0,
            Direction::Right => 1,
            Direction::Down => 2,
            Direction::Left => 3,
        }
    }
}

/// No direction has the name asked for.
#[derive(Clone, Copy, Debug, PartialEq, Eq, Structural)]
pub struct UnknownDirection;

impl Direction {
    /// The name of the direction, as levels write it.
    pub open spec fn spec_name(self) -> Seq<char> {
        match self {
            Direction::Up => "Up"@,
            Direction::Right => "Right"@,
            Direction::Down => "Down"@,
            Direction::Left => "Left"@,
        }
    }

    /// The name of the direction, as levels write it.
    pub fn name(self) -> (name: &'static str)
        ensures
            name@ == self.spec_name(),
    {
        match self {
            Direction::Up => "Up",
            Direction::Right => "Right",
            Direction::Down => "Down",
            Direction::Left => "Left",
        }
    }

    /// The direction with the name `name`, if there is one.
    pub open spec fn spec_from_name(name: Seq<char>) -> Option<Direction> {
        if name == "Up"@ {
            Some(Direction::Up)
        } else if name == "Right"@ {
            Some(Direction::Right)
        } else if name == "Down"@ {
            Some(Direction::Down)
        } else if name == "Left"@ {
            Some(Direction::Left)
        } else {
            None
        }
    }

    /// The direction with the name `name`, if there is one.
    pub fn from_name(name: &Vec<char>) -> (direction: Option<Direction>)
        ensures
            direction == Direction::spec_from_name(name@),
    {
        if spells(name, "Up") {
            Some(Direction::Up)
        } else if spells(name, "Right") {
            Some(Direction::Right)
        } else if spells(name, "Down") {
            Some(Direction::Down)
        } else if spells(name, "Left") {
            Some(Direction::Left)
        } else {
            None
        }
    }
}

impl std::str::FromStr for Direction {
    type Err = UnknownDirection;

    /// The direction with the name `direction`.
    fn from_str(direction: &str) -> (found: Result<Direction, UnknownDirection>)
        ensures
            found == (match Direction::spec_from_name(direction@) {
                Some(named) => Ok::<Direction, UnknownDirection>(named),
                None => Err::<Direction, UnknownDirection>(UnknownDirection),
            }),
    {
        match Direction::from_name(&chars_of(direction)) {
            Some(found) => Ok(found),
            None => Err(UnknownDirection),
        }
    }
}

/// Every direction is found again under its own name.
pub proof fn lemma_direction_is_found_by_its_name(direction: Direction)
    ensures
        Direction::spec_from_name(direction.spec_name()) == Some(direction),
{
    reveal_strlit("Up");
    reveal_strlit("Right");
    reveal_strlit("Down");
    reveal_strlit("Left");
    assert("Up"@.len() == 2);
    assert("Right"@.len() == 5);
    assert("Down"@[0] == 'D');
    assert("Left"@[0] == 'L');
}

/// Turning around twice gives the direction one started with.
pub proof fn lemma_inverse_is_involution(direction: Direction)
    ensures
        direction.inverse().inverse() == direction,
        direction.inverse() != direction,
{
}

/// A quarter turn to the left undoes a quarter turn to the right, two quarter
/// turns the same way turn around, and four are a full circle.
pub proof fn lemma_quarter_turns(direction: Direction)
    ensures
        direction.left_hand().right_hand() == direction,
        direction.right_hand().left_hand() == direction,
        direction.right_hand().right_hand() == direction.inverse(),
        direction.left_hand().left_hand() == direction.inverse(),
        direction.right_hand().right_hand().right_hand().right_hand() == direction,
{
}

/// Every direction is recovered from its own step, the opposite direction
/// steps the opposite way, and a step moves exactly one cell along one axis.
pub proof fn lemma_delta_round_trip(direction: Direction)
    ensures
        Direction::from_delta(direction.as_delta().0, direction.as_delta().1) == Some(direction),
        direction.inverse().as_delta().0 == -direction.as_delta().0,
        direction.inverse().as_delta().1 == -direction.as_delta().1,
        (direction.as_delta().0 == 0) != (direction.as_delta().1 == 0),
        -1 <= direction.as_delta().0 <= 1,
        -1 <= direction.as_delta().1 <= 1,
{
}

/// Only the four unit steps stand for a direction, and each for the one
/// direction that steps that way.
pub proof fn lemma_from_delta_is_exact(dx: i16, dy: i16, direction: Direction)
    ensures
        Direction::from_delta(dx, dy) == Some(direction) <==> direction.as_delta() == (dx, dy),
{
}

/// How heavy an object is. An object pushes another only if it is at least as
/// heavy.
#[derive(Clone, Copy, Debug, PartialEq, Eq, Structural, PartialOrd, Ord)]
pub enum Weight {
    Weightless,
    Light,
    Heavy,
}

impl Default for Weight {
    fn default() -> (weight: Weight)
        ensures
            weight == Weight::Weightless,
    {
        Weight::Weightless
    }
}

impl Weight {
    /// The place of this weight in the order Weightless < Light < Heavy.
    pub open spec fn spec_rank(self) -> u8 {
        match self {
            Weight::Weightless => 0u8,
            Weight::Light => 1u8,
            Weight::Heavy => 2u8,
        }
    }

    /// The place of this weight in the order Weightless < Light < Heavy.
    #[verifier::when_used_as_spec(spec_rank)]
    pub fn rank(self) -> (rank: u8)
        ensures
            rank == self.spec_rank(),
    {
        match self {
            Weight::Weightless => 0,
            Weight::Light => 1,
            Weight::Heavy => 2,
        }
    }

    pub open spec fn spec_at_most(self, other: Weight) -> bool {
        self.spec_rank() <= other.spec_rank()
    }

    /// Whether this weight is no heavier than `other`.
    #[verifier::when_used_as_spec(spec_at_most)]
    pub fn at_most(self, other: Weight) -> (fits: bool)
        ensures
            fits == self.spec_at_most(other),
    {
        self.rank() <= other.rank()
    }
}

/// The order of weights is total: of two weights, one is no heavier than the
/// other, and two weights that are no heavier than each other are the same.
pub proof fn lemma_weight_order_is_total(a: Weight, b: Weight)
    ensures
        a.at_most(b) || b.at_most(a),
        a.at_most(b) && b.at_most(a) ==> a == b,
        a.at_most(a),
{
}

/// The order of weights is transitive.
pub proof fn lemma_weight_order_is_transitive(a: Weight, b: Weight, c: Weight)
    requires
        a.at_most(b),
        b.at_most(c),
    ensures
        a.at_most(c),
{
}

/// Whether a forcing tile (slippery or conveyor) refuses to let the object
/// that stands on it walk off by itself. It is switched off while the tile
/// cannot move its occupant on, and switched on again when the occupant has
/// left.
#[derive(Clone, Copy, Debug, PartialEq, Eq, Structural)]
pub enum BlocksMovement {
    Enabled,
    Disabled,
}

impl Default for BlocksMovement {
    fn default() -> (flag: BlocksMovement)
        ensures
            flag == BlocksMovement::Enabled,
    {
        BlocksMovement::Enabled
    }
}

/// How an object moves by itself.
#[derive(Clone, Copy, Debug, PartialEq, Eq, Structural)]
pub enum Movable {
    /// Turns around whenever it cannot go on.
    Bounce,
    /// Turns right whenever it can, and so follows the obstacles on its right.
    FollowRightHand,
}

/// What opens a closed (massive) object.
#[derive(Clone, Copy, Debug, PartialEq, Eq, Structural)]
pub enum Openable {
    /// A key that is pushed onto it.
    Key,
    /// Finishing the level with this number.
    LevelFinished(u16),
    /// A pressed trigger.
    Trigger,
}

impl Openable {
    pub open spec fn spec_level(self) -> Option<u16> {
        match self {
            Openable::LevelFinished(level) => Some(level),
            _ => None,
        }
    }

    /// The level that has to be finished to open the object, if it opens that
    /// way.
    #[verifier::when_used_as_spec(spec_level)]
    pub fn level(self) -> (level: Option<u16>)
        ensures
            level == self.spec_level(),
    {
        match self {
            Openable::LevelFinished(level) => Some(level),
            _ => None,
        }
    }
}

} // verus!
