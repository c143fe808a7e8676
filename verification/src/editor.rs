//! The level editor: what is selected, and what a click or a key does to the
//! level.

use vstd::prelude::*;
use crate::behaviors::{despawn, in_order};
use crate::components::{Direction, Position};
use crate::game_object::{Event, GameObject};
use crate::levels::{Dimensions, InitialPositionAndMetadata};
use crate::menu::Interaction;
use crate::object_type::ObjectType;

verus! {

/// What the editor can put on a cell: nothing, which clears the cell, or an
/// object of some kind that faces some way.
#[derive(Clone, Copy, Debug, PartialEq, Eq, Structural, PartialOrd, Ord)]
pub enum EditorObjectType {
    Eraser,
    BlueBlock,
    BluePaint,
    BouncingBallUp,
    BouncingBallRight,
    BouncingBallDown,
    BouncingBallLeft,
    Button,
    Creature1Up,
    Creature1Right,
    Creature1Down,
    Creature1Left,
    Door,
    Entrance,
    Exit,
    Gate,
    Key,
    Ice,
    Mine,
    Player,
    PurpleBlock,
    PurplePaint,
    Raft,
    RedBlock,
    RedPaint,
    Teleporter,
    TransporterUp,
    TransporterRight,
    TransporterDown,
    TransporterLeft,
    Water,
    YellowBlock,
}

/// The number of things that the editor can put on a cell.
pub const NUM_EDITOR_OBJECTS: i16 = 32;

impl EditorObjectType {
    /// The kind of the object, if it is one.
    pub open spec fn spec_object_type(self) -> Option<ObjectType> {
        match self {
            EditorObjectType::Eraser => None,
            EditorObjectType::BlueBlock => Some(ObjectType::BlueBlock),
            EditorObjectType::BluePaint => Some(ObjectType::BluePaint),
            EditorObjectType::BouncingBallUp => Some(ObjectType::BouncingBall),
            EditorObjectType::BouncingBallRight => Some(ObjectType::BouncingBall),
            EditorObjectType::BouncingBallDown => Some(ObjectType::BouncingBall),
            EditorObjectType::BouncingBallLeft => Some(ObjectType::BouncingBall),
            EditorObjectType::Button => Some(ObjectType::Button),
            EditorObjectType::Creature1Up => Some(ObjectType::Creature1),
            EditorObjectType::Creature1Right => Some(ObjectType::Creature1),
            EditorObjectType::Creature1Down => Some(ObjectType::Creature1),
            EditorObjectType::Creature1Left => Some(ObjectType::Creature1),
            EditorObjectType::Door => Some(ObjectType::Door),
            EditorObjectType::Entrance => Some(ObjectType::Entrance),
            EditorObjectType::Exit => Some(ObjectType::Exit),
            EditorObjectType::Gate => Some(ObjectType::Gate),
            EditorObjectType::Key => Some(ObjectType::Key),
            EditorObjectType::Ice => Some(ObjectType::Ice),
            EditorObjectType::Mine => Some(ObjectType::Mine),
            EditorObjectType::Player => Some(ObjectType::Player),
            EditorObjectType::PurpleBlock => Some(ObjectType::PurpleBlock),
            EditorObjectType::PurplePaint => Some(ObjectType::PurplePaint),
            EditorObjectType::Raft => Some(ObjectType::Raft),
            EditorObjectType::RedBlock => Some(ObjectType::RedBlock),
            EditorObjectType::RedPaint => Some(ObjectType::RedPaint),
            EditorObjectType::Teleporter => Some(ObjectType::Teleporter),
            EditorObjectType::TransporterUp => Some(ObjectType::Transporter),
            EditorObjectType::TransporterRight => Some(ObjectType::Transporter),
            EditorObjectType::TransporterDown => Some(ObjectType::Transporter),
            EditorObjectType::TransporterLeft => Some(ObjectType::Transporter),
            EditorObjectType::Water => Some(ObjectType::Water),
            EditorObjectType::YellowBlock => Some(ObjectType::YellowBlock),
        }
    }

    /// The way the object faces: the way that its name says, and else up.
    pub open spec fn spec_direction(self) -> Direction {
        match self {
            EditorObjectType::BouncingBallUp => Direction::Up,
            EditorObjectType::BouncingBallRight => Direction::Right,
            EditorObjectType::BouncingBallDown => Direction::Down,
            EditorObjectType::BouncingBallLeft => Direction::Left,
            EditorObjectType::Creature1Up => Direction::Up,
            EditorObjectType::Creature1Right => Direction::Right,
            EditorObjectType::Creature1Down => Direction::Down,
            EditorObjectType::Creature1Left => Direction::Left,
            EditorObjectType::TransporterUp => Direction::Up,
            EditorObjectType::TransporterRight => Direction::Right,
            EditorObjectType::TransporterDown => Direction::Down,
            EditorObjectType::TransporterLeft => Direction::Left,
            _ => Direction::Up,
        }
    }

    /// The kind of the object and the way it faces, if it is an object.
    pub open spec fn spec_get_object_type_and_direction(self) -> Option<(ObjectType, Direction)> {
        match self.spec_object_type() {
            Some(object_type) => Some((object_type, self.spec_direction())),
            None => None,
        }
    }

    /// The kind of the object and the way it faces, if it is an object.
    #[verifier::when_used_as_spec(spec_get_object_type_and_direction)]
    pub fn get_object_type_and_direction(self) -> (object: Option<(ObjectType, Direction)>)
        ensures
            object == self.spec_get_object_type_and_direction(),
    {
        let object_type = match self {
            EditorObjectType::BlueBlock => ObjectType::BlueBlock,
            EditorObjectType::BluePaint => ObjectType::BluePaint,
            EditorObjectType::BouncingBallUp | EditorObjectType::BouncingBallRight | EditorObjectType::BouncingBallDown | EditorObjectType::BouncingBallLeft => ObjectType::BouncingBall,
            EditorObjectType::Button => ObjectType::Button,
            EditorObjectType::Creature1Up | EditorObjectType::Creature1Right | EditorObjectType::Creature1Down | EditorObjectType::Creature1Left => ObjectType::Creature1,
            EditorObjectType::Door => ObjectType::Door,
            EditorObjectType::Entrance => ObjectType::Entrance,
            EditorObjectType::Exit => ObjectType::Exit,
            EditorObjectType::Gate => ObjectType::Gate,
            EditorObjectType::Key => ObjectType::Key,
            EditorObjectType::Ice => ObjectType::Ice,
            EditorObjectType::Mine => ObjectType::Mine,
            EditorObjectType::Player => ObjectType::Player,
            EditorObjectType::PurpleBlock => ObjectType::PurpleBlock,
            EditorObjectType::PurplePaint => ObjectType::PurplePaint,
            EditorObjectType::Raft => ObjectType::Raft,
            EditorObjectType::RedBlock => ObjectType::RedBlock,
            EditorObjectType::RedPaint => ObjectType::RedPaint,
            EditorObjectType::Teleporter => ObjectType::Teleporter,
            EditorObjectType::TransporterUp | EditorObjectType::TransporterRight | EditorObjectType::TransporterDown | EditorObjectType::TransporterLeft => ObjectType::Transporter,
            EditorObjectType::Water => ObjectType::Water,
            EditorObjectType::YellowBlock => ObjectType::YellowBlock,
            EditorObjectType::Eraser => {
                return None;
            },
        };
        let direction = match self {
            EditorObjectType::BouncingBallUp => Direction::Up,
            EditorObjectType::BouncingBallRight => Direction::Right,
            EditorObjectType::BouncingBallDown => Direction::Down,
            EditorObjectType::BouncingBallLeft => Direction::Left,
            EditorObjectType::Creature1Up => Direction::Up,
            EditorObjectType::Creature1Right => Direction::Right,
            EditorObjectType::Creature1Down => Direction::Down,
            EditorObjectType::Creature1Left => Direction::Left,
            EditorObjectType::TransporterUp => Direction::Up,
            EditorObjectType::TransporterRight => Direction::Right,
            EditorObjectType::TransporterDown => Direction::Down,
            EditorObjectType::TransporterLeft => Direction::Left,
            _ => Direction::Up,
        };
        Some((object_type, direction))
    }

    /// The frame of its picture that shows the thing in the palette, where
    /// its picture has frames: the frame of its direction for what comes in
    /// four directions, and the first frame for what opens and for water.
    pub open spec fn spec_frame(self) -> Option<usize> {
        match self.spec_object_type() {
            Some(ObjectType::BouncingBall) | Some(ObjectType::Creature1) | Some(
                ObjectType::Transporter,
            ) => Some(self.spec_direction().index()),
            Some(ObjectType::Door) | Some(ObjectType::Entrance) | Some(ObjectType::Gate) | Some(
                ObjectType::Water,
            ) => Some(0usize),
            _ => None,
        }
    }

    /// The frame of its picture that shows the thing in the palette.
    #[verifier::when_used_as_spec(spec_frame)]
    pub fn frame(self) -> (frame: Option<usize>)
        ensures
            frame == self.spec_frame(),
    {
        match self.get_object_type_and_direction() {
            Some((ObjectType::BouncingBall, direction))
            | Some((ObjectType::Creature1, direction))
            | Some((ObjectType::Transporter, direction)) => Some(direction.index()),
            Some((ObjectType::Door, _))
            | Some((ObjectType::Entrance, _))
            | Some((ObjectType::Gate, _))
            | Some((ObjectType::Water, _)) => Some(0),
            _ => None,
        }
    }

    /// The thing at the place `value` of the editor's palette.
    pub open spec fn spec_from_index(value: i16) -> Option<EditorObjectType> {
        if value == 0 {
            Some(EditorObjectType::Eraser)
        } else if value == 1 {
            Some(EditorObjectType::Player)
        } else if value == 2 {
            Some(EditorObjectType::Exit)
        } else if value == 3 {
            Some(EditorObjectType::RedBlock)
        } else if value == 4 {
            Some(EditorObjectType::BlueBlock)
        } else if value == 5 {
            Some(EditorObjectType::BouncingBallUp)
        } else if value == 6 {
            Some(EditorObjectType::BouncingBallRight)
        } else if value == 7 {
            Some(EditorObjectType::BouncingBallDown)
        } else if value == 8 {
            Some(EditorObjectType::BouncingBallLeft)
        } else if value == 9 {
            Some(EditorObjectType::Water)
        } else if value == 10 {
            Some(EditorObjectType::Creature1Up)
        } else if value == 11 {
            Some(EditorObjectType::Creature1Right)
        } else if value == 12 {
            Some(EditorObjectType::Creature1Down)
        } else if value == 13 {
            Some(EditorObjectType::Creature1Left)
        } else if value == 14 {
            Some(EditorObjectType::Raft)
        } else if value == 15 {
            Some(EditorObjectType::TransporterUp)
        } else if value == 16 {
            Some(EditorObjectType::TransporterRight)
        } else if value == 17 {
            Some(EditorObjectType::TransporterDown)
        } else if value == 18 {
            Some(EditorObjectType::TransporterLeft)
        } else if value == 19 {
            Some(EditorObjectType::Mine)
        } else if value == 20 {
            Some(EditorObjectType::Gate)
        } else if value == 21 {
            Some(EditorObjectType::Button)
        } else if value == 22 {
            Some(EditorObjectType::PurpleBlock)
        } else if value == 23 {
            Some(EditorObjectType::YellowBlock)
        } else if value == 24 {
            Some(EditorObjectType::Ice)
        } else if value == 25 {
            Some(EditorObjectType::Door)
        } else if value == 26 {
            Some(EditorObjectType::Key)
        } else if value == 27 {
            Some(EditorObjectType::PurplePaint)
        } else if value == 28 {
            Some(EditorObjectType::RedPaint)
        } else if value == 29 {
            Some(EditorObjectType::BluePaint)
        } else if value == 30 {
            Some(EditorObjectType::Teleporter)
        } else if value == 31 {
            Some(EditorObjectType::Entrance)
        } else {
            None
        }
    }

    /// The thing at the place `value` of the editor's palette.
    #[verifier::when_used_as_spec(spec_from_index)]
    pub fn from_index(value: i16) -> (object: Option<EditorObjectType>)
        ensures
            object == EditorObjectType::spec_from_index(value),
    {
        match value {
            0 => Some(EditorObjectType::Eraser),
            1 => Some(EditorObjectType::Player),
            2 => Some(EditorObjectType::Exit),
            3 => Some(EditorObjectType::RedBlock),
            4 => Some(EditorObjectType::BlueBlock),
            5 => Some(EditorObjectType::BouncingBallUp),
            6 => Some(EditorObjectType::BouncingBallRight),
            7 => Some(EditorObjectType::BouncingBallDown),
            8 => Some(EditorObjectType::BouncingBallLeft),
            9 => Some(EditorObjectType::Water),
            10 => Some(EditorObjectType::Creature1Up),
            11 => Some(EditorObjectType::Creature1Right),
            12 => Some(EditorObjectType::Creature1Down),
            13 => Some(EditorObjectType::Creature1Left),
            14 => Some(EditorObjectType::Raft),
            15 => Some(EditorObjectType::TransporterUp),
            16 => Some(EditorObjectType::TransporterRight),
            17 => Some(EditorObjectType::TransporterDown),
            18 => Some(EditorObjectType::TransporterLeft),
            19 => Some(EditorObjectType::Mine),
            20 => Some(EditorObjectType::Gate),
            21 => Some(EditorObjectType::Button),
            22 => Some(EditorObjectType::PurpleBlock),
            23 => Some(EditorObjectType::YellowBlock),
            24 => Some(EditorObjectType::Ice),
            25 => Some(EditorObjectType::Door),
            26 => Some(EditorObjectType::Key),
            27 => Some(EditorObjectType::PurplePaint),
            28 => Some(EditorObjectType::RedPaint),
            29 => Some(EditorObjectType::BluePaint),
            30 => Some(EditorObjectType::Teleporter),
            31 => Some(EditorObjectType::Entrance),
            _ => None,
        }
    }
}

/// The palette holds each thing that the editor can put on a cell once.
pub proof fn lemma_palette_holds_everything_once(object: EditorObjectType, a: i16, b: i16)
    ensures
        exists|value: i16|
            0 <= value < NUM_EDITOR_OBJECTS && EditorObjectType::from_index(value) == Some(object),
        EditorObjectType::from_index(a) is Some <==> 0 <= a < NUM_EDITOR_OBJECTS,
        EditorObjectType::from_index(a) is Some && EditorObjectType::from_index(a)
            == EditorObjectType::from_index(b) ==> a == b,
{
    let value: i16 = match object {
        EditorObjectType::Eraser => 0i16,
        EditorObjectType::Player => 1i16,
        EditorObjectType::Exit => 2i16,
        EditorObjectType::RedBlock => 3i16,
        EditorObjectType::BlueBlock => 4i16,
        EditorObjectType::BouncingBallUp => 5i16,
        EditorObjectType::BouncingBallRight => 6i16,
        EditorObjectType::BouncingBallDown => 7i16,
        EditorObjectType::BouncingBallLeft => 8i16,
        EditorObjectType::Water => 9i16,
        EditorObjectType::Creature1Up => 10i16,
        EditorObjectType::Creature1Right => 11i16,
        EditorObjectType::Creature1Down => 12i16,
        EditorObjectType::Creature1Left => 13i16,
        EditorObjectType::Raft => 14i16,
        EditorObjectType::TransporterUp => 15i16,
        EditorObjectType::TransporterRight => 16i16,
        EditorObjectType::TransporterDown => 17i16,
        EditorObjectType::TransporterLeft => 18i16,
        EditorObjectType::Mine => 19i16,
        EditorObjectType::Gate => 20i16,
        EditorObjectType::Button => 21i16,
        EditorObjectType::PurpleBlock => 22i16,
        EditorObjectType::YellowBlock => 23i16,
        EditorObjectType::Ice => 24i16,
        EditorObjectType::Door => 25i16,
        EditorObjectType::Key => 26i16,
        EditorObjectType::PurplePaint => 27i16,
        EditorObjectType::RedPaint => 28i16,
        EditorObjectType::BluePaint => 29i16,
        EditorObjectType::Teleporter => 30i16,
        EditorObjectType::Entrance => 31i16,
    };
    assert(0 <= value < NUM_EDITOR_OBJECTS && EditorObjectType::from_index(value) == Some(object));
}

/// The selection of a part of the level.
#[derive(Clone, Copy, Debug, PartialEq, Eq, Structural)]
pub enum SelectionState {
    /// Nothing is being selected.
    Disabled,
    /// The next click starts a selection.
    WaitingForClick,
    /// The pointer is being dragged from `start` and is at `current`.
    Selecting { start: Position, current: Position },
    /// The cells from `top_left` to `bottom_right` are selected.
    Active { top_left: Position, bottom_right: Position },
}

impl Default for SelectionState {
    fn default() -> (selection: SelectionState)
        ensures
            selection == SelectionState::Disabled,
    {
        SelectionState::Disabled
    }
}

/// What the editor has in hand.
#[derive(Clone, Copy, Debug, PartialEq, Eq, Structural)]
pub struct EditorState {
    pub is_open: bool,
    /// The cell of the object whose number can be changed.
    pub selected_object: Option<Position>,
    /// What a click puts on a cell.
    pub selected_object_type: Option<EditorObjectType>,
    pub selection: SelectionState,
}

impl Default for EditorState {
    fn default() -> (state: EditorState)
        ensures
            state == EditorState::closed(),
    {
        EditorState {
            is_open: false,
            selected_object: None,
            selected_object_type: None,
            selection: SelectionState::Disabled,
        }
    }
}

/// The request to move the selected objects by `dx` columns and `dy` rows.
#[derive(Clone, Copy, Debug, PartialEq, Eq, Structural)]
pub struct MoveAllObjects {
    pub dx: i16,
    pub dy: i16,
}

/// What a key asks the editor to do.
#[derive(Clone, Copy, Debug, PartialEq, Eq, Structural)]
pub enum EditorKey {
    Arrow(Direction),
    Escape,
}

/// What the editor asks for after a key.
#[derive(Clone, Copy, Debug, PartialEq, Eq, Structural)]
pub enum EditorAction {
    /// Move the selected objects.
    Move(MoveAllObjects),
    /// Move the view by one cell in the given direction.
    Scroll(Direction),
    /// Close the editor.
    ToggleEditor,
    /// Nothing more.
    Stay,
}

/// What a click on the level asks the editor to do.
#[derive(Clone, Copy, Debug, PartialEq, Eq, Structural)]
pub enum ClickAction {
    /// Draw the selection on from the cell.
    ExtendSelection,
    /// Put the object in hand on the cell.
    SpawnSelectedObject,
    /// Select the object on the cell.
    SelectObject,
    /// Nothing.
    Stay,
}

/// The number that is `delta` more than `value`, but no less than the least
/// and no more than the greatest that a position can hold.
pub open spec fn spec_shifted(value: i16, delta: i16) -> i16 {
    if value + delta < i16::MIN {
        i16::MIN
    } else if value + delta > i16::MAX {
        i16::MAX
    } else {
        (value + delta) as i16
    }
}

/// The number that is `delta` more than `value`, as far as it goes.
#[verifier::when_used_as_spec(spec_shifted)]
pub fn shifted(value: i16, delta: i16) -> (sum: i16)
    ensures
        sum == spec_shifted(value, delta),
{
    let sum: i32 = value as i32 + delta as i32;
    if sum < -32768 {
        -32768
    } else if sum > 32767 {
        32767
    } else {
        sum as i16
    }
}

/// The cell `dx` columns and `dy` rows from `position`.
pub open spec fn spec_shifted_position(position: Position, dx: i16, dy: i16) -> Position {
    Position { x: spec_shifted(position.x, dx), y: spec_shifted(position.y, dy) }
}

/// The cell `dx` columns and `dy` rows from `position`.
#[verifier::when_used_as_spec(spec_shifted_position)]
pub fn shifted_position(position: Position, dx: i16, dy: i16) -> (moved: Position)
    ensures
        moved == spec_shifted_position(position, dx, dy),
{
    Position { x: shifted(position.x, dx), y: shifted(position.y, dy) }
}

/// The number of a teleporter or of a level that is `delta` more than
/// `number`, but not below 0 and not above the greatest number.
pub open spec fn spec_changed_number(number: u16, delta: i16) -> u16 {
    if number + delta < 0 {
        0
    } else if number + delta > u16::MAX {
        u16::MAX
    } else {
        (number + delta) as u16
    }
}

/// The number of a teleporter or of a level that is `delta` more than
/// `number`, as far as it goes.
#[verifier::when_used_as_spec(spec_changed_number)]
pub fn changed_number(number: u16, delta: i16) -> (changed: u16)
    ensures
        changed == spec_changed_number(number, delta),
{
    let sum: i32 = number as i32 + delta as i32;
    if sum < 0 {
        0
    } else if sum > 65535 {
        65535
    } else {
        sum as u16
    }
}

/// Whether `position` lies in the selection: in the selected cells if cells
/// are selected, and anywhere if none are.
pub open spec fn is_selected(selection: SelectionState, position: Position) -> bool {
    match selection {
        SelectionState::Active { top_left, bottom_right } => top_left.x <= position.x
            <= bottom_right.x && top_left.y <= position.y <= bottom_right.y,
        _ => true,
    }
}

/// The size of one side of the grid after it has been asked to grow by
/// `delta`: it grows, or shrinks where `delta` is negative, as long as a cell
/// is left.
pub open spec fn resized(size: i16, delta: i16) -> i16 {
    if 0 < size + delta <= i16::MAX {
        (size + delta) as i16
    } else {
        size
    }
}

/// How far the objects move along with a side of the grid that grows by
/// `delta`: by half of it, so that the level stays in the middle, if it
/// grows by more than one cell.
pub open spec fn shift_for(size: i16, delta: i16) -> Option<int> {
    if 0 < size + delta <= i16::MAX && (delta > 1 || delta < -1) {
        Some(
            if delta >= 0 {
                delta / 2
            } else {
                -((-delta) / 2)
            },
        )
    } else {
        None
    }
}

fn resize(size: i16, delta: i16) -> (result: (i16, Option<i16>))
    ensures
        result.0 == resized(size, delta),
        result.1 == match shift_for(size, delta) {
            Some(shift) => Some(shift as i16),
            None => None,
        },
{
    let sum: i32 = size as i32 + delta as i32;
    if 0 < sum && sum <= 32767 {
        let shift = if delta > 1 {
            Some(delta / 2)
        } else if delta < -1 {
            Some((-((-(delta as i32)) / 2)) as i16)
        } else {
            None
        };
        (sum as i16, shift)
    } else {
        (size, None)
    }
}

/// Changes the height of the grid by `delta`, and says how the objects are
/// to move along.
pub fn change_height(dimensions: &mut Dimensions, delta: i16) -> (moving: Option<MoveAllObjects>)
    ensures
        final(dimensions).width == old(dimensions).width,
        final(dimensions).height == resized(old(dimensions).height, delta),
        moving == match shift_for(old(dimensions).height, delta) {
            Some(shift) => Some(MoveAllObjects { dx: 0, dy: shift as i16 }),
            None => None,
        },
{
    let (height, shift) = resize(dimensions.height, delta);
    dimensions.height = height;
    match shift {
        Some(dy) => Some(MoveAllObjects { dx: 0, dy }),
        None => None,
    }
}

/// Changes the width of the grid by `delta`, and says how the objects are to
/// move along.
pub fn change_width(dimensions: &mut Dimensions, delta: i16) -> (moving: Option<MoveAllObjects>)
    ensures
        final(dimensions).height == old(dimensions).height,
        final(dimensions).width == resized(old(dimensions).width, delta),
        moving == match shift_for(old(dimensions).width, delta) {
            Some(shift) => Some(MoveAllObjects { dx: shift as i16, dy: 0 }),
            None => None,
        },
{
    let (width, shift) = resize(dimensions.width, delta);
    dimensions.width = width;
    match shift {
        Some(dx) => Some(MoveAllObjects { dx, dy: 0 }),
        None => None,
    }
}

impl EditorState {
    /// The editor when it is closed.
    pub open spec fn closed() -> EditorState {
        EditorState {
            is_open: false,
            selected_object: None,
            selected_object_type: None,
            selection: SelectionState::Disabled,
        }
    }

    /// The selection once the pointer has been dragged on to `current`: from
    /// where the drag started, or from `current` if it starts there.
    pub open spec fn spec_extended_to(self, current: Position) -> SelectionState {
        match self.selection {
            SelectionState::Selecting { start, .. } => SelectionState::Selecting { start, current },
            _ => SelectionState::Selecting { start: current, current },
        }
    }

    /// Draws the selection on to the cell `current`.
    pub fn extend_selection(&mut self, current: Position)
        ensures
            *final(self) == (EditorState {
                selection: old(self).spec_extended_to(current),
                ..*old(self)
            }),
    {
        let start = match self.selection {
            SelectionState::Selecting { start, .. } => start,
            _ => current,
        };
        self.selection = SelectionState::Selecting { start, current };
    }

    /// Selects the cells of the rectangle with the corners `start` and
    /// `current`, whichever way round they lie.
    pub fn on_activate_selection(&mut self, start: Position, current: Position)
        ensures
            *final(self) == (EditorState {
                selection: SelectionState::Active {
                    top_left: Position {
                        x: if start.x <= current.x {
                            start.x
                        } else {
                            current.x
                        },
                        y: if start.y <= current.y {
                            start.y
                        } else {
                            current.y
                        },
                    },
                    bottom_right: Position {
                        x: if start.x <= current.x {
                            current.x
                        } else {
                            start.x
                        },
                        y: if start.y <= current.y {
                            current.y
                        } else {
                            start.y
                        },
                    },
                },
                ..*old(self)
            }),
    {
        let (left, right) = if start.x <= current.x {
            (start.x, current.x)
        } else {
            (current.x, start.x)
        };
        let (top, bottom) = if start.y <= current.y {
            (start.y, current.y)
        } else {
            (current.y, start.y)
        };
        self.selection = SelectionState::Active {
            top_left: Position { x: left, y: top },
            bottom_right: Position { x: right, y: bottom },
        };
    }

    /// Starts selecting if nothing is being selected, and stops selecting if
    /// something is. Either way no object stays selected.
    pub fn on_toggle_selection(&mut self)
        ensures
            *final(self) == (EditorState {
                selection: if old(self).selection == SelectionState::Disabled {
                    SelectionState::WaitingForClick
                } else {
                    SelectionState::Disabled
                },
                selected_object: None,
                ..*old(self)
            }),
    {
        self.selection = match self.selection {
            SelectionState::Disabled => SelectionState::WaitingForClick,
            _ => SelectionState::Disabled,
        };
        self.selected_object = None;
    }

    /// Takes in hand what the palette offers, and lets go of the selected
    /// object.
    pub fn on_object_selector_input(&mut self, object_type: EditorObjectType)
        ensures
            *final(self) == (EditorState {
                selected_object_type: Some(object_type),
                selected_object: None,
                ..*old(self)
            }),
    {
        self.selected_object_type = Some(object_type);
        self.selected_object = None;
    }

    /// What a click on the cell `position` is for: for the selection while
    /// one is being drawn, else for putting down what is in hand, else for
    /// selecting the object on a cell of the grid.
    pub open spec fn spec_click_action(&self, dimensions: Dimensions, position: Position) -> ClickAction {
        if self.selection == SelectionState::WaitingForClick
            || self.selection is Selecting {
            ClickAction::ExtendSelection
        } else if self.selected_object_type is Some {
            ClickAction::SpawnSelectedObject
        } else if dimensions.contains(position) {
            ClickAction::SelectObject
        } else {
            ClickAction::Stay
        }
    }

    /// What a click on the cell `position` is for.
    #[verifier::when_used_as_spec(spec_click_action)]
    pub fn click_action(&self, dimensions: Dimensions, position: Position) -> (action: ClickAction)
        ensures
            action == self.spec_click_action(dimensions, position),
    {
        match self.selection {
            SelectionState::WaitingForClick | SelectionState::Selecting { .. } => {
                return ClickAction::ExtendSelection;
            },
            _ => {},
        }
        if self.selected_object_type.is_some() {
            ClickAction::SpawnSelectedObject
        } else if dimensions.contains(position) {
            ClickAction::SelectObject
        } else {
            ClickAction::Stay
        }
    }

    /// The editor once `key` has been put in. Escape lets go of one thing at
    /// a time: of the selection first, then of what is in hand.
    pub open spec fn after_key(self, key: EditorKey) -> EditorState {
        match key {
            EditorKey::Escape => if self.selection != SelectionState::Disabled {
                EditorState { selection: SelectionState::Disabled, ..self }
            } else if self.selected_object_type is Some {
                EditorState { selected_object_type: None, ..self }
            } else {
                self
            },
            EditorKey::Arrow(_) => self,
        }
    }

    /// What the editor asks for after `key`. An arrow moves the selected
    /// cells if cells are selected, and the view if not. Escape closes the
    /// editor once there is nothing left to let go of.
    pub open spec fn action_for(self, key: EditorKey) -> EditorAction {
        match key {
            EditorKey::Arrow(direction) => if self.selection is Active {
                EditorAction::Move(
                    MoveAllObjects { dx: direction.as_delta().0, dy: direction.as_delta().1 },
                )
            } else {
                EditorAction::Scroll(direction)
            },
            EditorKey::Escape => if self.selection == SelectionState::Disabled
                && self.selected_object_type is None {
                EditorAction::ToggleEditor
            } else {
                EditorAction::Stay
            },
        }
    }

    /// Takes a key, and says what is to be done for it.
    pub fn on_editor_keyboard_input(&mut self, key: EditorKey) -> (action: EditorAction)
        ensures
            *final(self) == old(self).after_key(key),
            action == old(self).action_for(key),
    {
        match key {
            EditorKey::Arrow(direction) => {
                match self.selection {
                    SelectionState::Active { .. } => {
                        let (dx, dy) = direction.as_delta();
                        EditorAction::Move(MoveAllObjects { dx, dy })
                    },
                    _ => EditorAction::Scroll(direction),
                }
            },
            EditorKey::Escape => {
                match self.selection {
                    SelectionState::Disabled => {
                        if self.selected_object_type.is_some() {
                            self.selected_object_type = None;
                            EditorAction::Stay
                        } else {
                            EditorAction::ToggleEditor
                        }
                    },
                    _ => {
                        self.selection = SelectionState::Disabled;
                        EditorAction::Stay
                    },
                }
            },
        }
    }

    /// The selection moved along with its cells.
    pub open spec fn spec_moved_selection(self, dx: i16, dy: i16) -> SelectionState {
        match self.selection {
            SelectionState::Active { top_left, bottom_right } => SelectionState::Active {
                top_left: shifted_position(top_left, dx, dy),
                bottom_right: shifted_position(bottom_right, dx, dy),
            },
            other => other,
        }
    }
}

/// The position `position` after the selected objects have moved.
pub open spec fn position_after_move(
    selection: SelectionState,
    position: Position,
    dx: i16,
    dy: i16,
) -> Position {
    if is_selected(selection, position) {
        shifted_position(position, dx, dy)
    } else {
        position
    }
}

/// Moves every object in the selection by `dx` columns and `dy` rows, and
/// the selection with them. Where no cells are selected, every object moves.
pub fn move_all_objects(
    positions: &mut Vec<Position>,
    editor_state: &mut EditorState,
    dx: i16,
    dy: i16,
)
    ensures
        final(positions)@.len() == old(positions)@.len(),
        forall|i: int|
            0 <= i < old(positions)@.len() ==> #[trigger] final(positions)@[i]
                == position_after_move(old(editor_state).selection, old(positions)@[i], dx, dy),
        *final(editor_state) == (EditorState {
            selection: old(editor_state).spec_moved_selection(dx, dy),
            ..*old(editor_state)
        }),
{
    let ghost before = positions@;
    let selection = editor_state.selection;
    let mut i: usize = 0;
    while i < positions.len()
        invariant
            i <= positions.len(),
            positions@.len() == before.len(),
            forall|k: int|
                0 <= k < i ==> #[trigger] positions@[k] == position_after_move(
                    selection,
                    before[k],
                    dx,
                    dy,
                ),
            forall|k: int| i <= k < before.len() ==> #[trigger] positions@[k] == before[k],
        decreases positions.len() - i,
    {
        let position = positions[i];
        let inside = match selection {
            SelectionState::Active { top_left, bottom_right } => top_left.x <= position.x
                && position.x <= bottom_right.x && top_left.y <= position.y && position.y
                <= bottom_right.y,
            _ => true,
        };
        if inside {
            positions.set(i, shifted_position(position, dx, dy));
        }
        i += 1;
    }
    if let SelectionState::Active { top_left, bottom_right } = selection {
        editor_state.selection = SelectionState::Active {
            top_left: shifted_position(top_left, dx, dy),
            bottom_right: shifted_position(bottom_right, dx, dy),
        };
    }
}

/// What the object `i` has to give way to when the editor puts `object_type`
/// on the cell `position`: whatever stands on the cell goes, and every
/// player goes where a player is put down, for there is only one.
pub open spec fn clearing_of(
    objects: Seq<GameObject>,
    object_type: Option<ObjectType>,
    position: Position,
    i: int,
) -> Seq<Event> {
    if (object_type == Some(ObjectType::Player) && objects[i].object_type == ObjectType::Player)
        || objects[i].position == position {
        seq![despawn(i)]
    } else {
        Seq::empty()
    }
}

/// The request for the object that the editor puts on the cell `position`:
/// one of the kind `object_type` that faces `direction`, with the number 1
/// for its teleporter or its level.
pub open spec fn placing_of(
    object_type: ObjectType,
    direction: Direction,
    position: Position,
) -> Event {
    Event::Spawn {
        object_type,
        position: InitialPositionAndMetadata {
            position,
            direction: Some(direction),
            identifier: Some(1),
            level: Some(1),
            open: false,
        },
    }
}

/// What putting `selected` on the cell `position` asks for: first whatever
/// has to give way, then the new object, if there is one to put and the cell
/// lies on the grid.
pub open spec fn placement_events(
    objects: Seq<GameObject>,
    selected: Option<EditorObjectType>,
    dimensions: Dimensions,
    position: Position,
) -> Seq<Event> {
    let object = match selected {
        Some(selected) => selected.get_object_type_and_direction(),
        None => None,
    };
    let object_type = match object {
        Some((object_type, _)) => Some(object_type),
        None => None,
    };
    let cleared = in_order(
        objects.len(),
        |i: int| clearing_of(objects, object_type, position, i),
    );
    match object {
        Some((object_type, direction)) if dimensions.contains(position) => cleared.push(
            placing_of(object_type, direction, position),
        ),
        _ => cleared,
    }
}

/// Whether an object that the editor has put down is selected at once, so
/// that its number can be set: an entrance is, and a teleporter.
pub open spec fn is_numbered(selected: Option<EditorObjectType>) -> bool {
    selected == Some(EditorObjectType::Entrance) || selected == Some(EditorObjectType::Teleporter)
}

/// Puts what the editor has in hand on the cell `position`. An entrance or
/// a teleporter that has been put down on the grid is selected, and the hand
/// is empty again.
pub fn spawn_selected_object(
    objects: &Vec<GameObject>,
    editor_state: &mut EditorState,
    dimensions: &Dimensions,
    position: Position,
) -> (events: Vec<Event>)
    ensures
        events@ == placement_events(
            objects@,
            old(editor_state).selected_object_type,
            *dimensions,
            position,
        ),
        *final(editor_state) == (if is_numbered(old(editor_state).selected_object_type)
            && dimensions.contains(position) {
            EditorState {
                selected_object: Some(position),
                selected_object_type: None,
                ..*old(editor_state)
            }
        } else {
            *old(editor_state)
        }),
{
    let object = match editor_state.selected_object_type {
        Some(selected) => selected.get_object_type_and_direction(),
        None => None,
    };
    let placing_player = match object {
        Some((ObjectType::Player, _)) => true,
        _ => false,
    };
    let ghost object_type = match object {
        Some((object_type, _)) => Some(object_type),
        None => None,
    };
    let mut events: Vec<Event> = Vec::new();
    let mut i: usize = 0;
    while i < objects.len()
        invariant
            i <= objects.len(),
            placing_player == (object_type == Some(ObjectType::Player)),
            events@ == in_order(
                i as nat,
                |k: int| clearing_of(objects@, object_type, position, k),
            ),
        decreases objects.len() - i,
    {
        let is_player = match objects[i].object_type {
            ObjectType::Player => true,
            _ => false,
        };
        if (placing_player && is_player) || (objects[i].position.x == position.x
            && objects[i].position.y == position.y) {
            events.push(Event::Despawn { entity: i });
        }
        i += 1;
    }
    if !dimensions.contains(position) {
        return events;
    }
    if let Some((object_type, direction)) = object {
        events.push(
            Event::Spawn {
                object_type,
                position: InitialPositionAndMetadata {
                    position,
                    direction: Some(direction),
                    identifier: Some(1),
                    level: Some(1),
                    open: false,
                },
            },
        );
        match object_type {
            ObjectType::Entrance | ObjectType::Teleporter => {
                editor_state.selected_object = Some(position);
                editor_state.selected_object_type = None;
            },
            _ => {},
        }
    }
    events
}

/// The numbers that the editor can set.
#[derive(Clone, Copy, Debug, PartialEq, Eq, Structural)]
pub enum Input {
    /// The width of the grid.
    Width,
    /// The height of the grid.
    Height,
    /// The level that an entrance leads to.
    Level,
    /// The number of a teleporter.
    Identifier,
}

/// The parts of the field in which a number is set.
#[derive(Clone, Copy, Debug, PartialEq, Eq, Structural)]
pub enum NumberInput {
    Increase,
    Decrease,
    Value,
}

/// The buttons of the editor.
#[derive(Clone, Copy, Debug, PartialEq, Eq, Structural)]
pub enum EditorButton {
    Save,
    Select,
}

/// What a press on a part of the editor asks for.
#[derive(Clone, Copy, Debug, PartialEq, Eq, Structural)]
pub enum EditorRequest {
    ChangeWidth(i16),
    ChangeHeight(i16),
    ChangeLevel(i16),
    ChangeIdentifier(i16),
    /// Store the level, on disk too or not.
    SaveLevel { save_to_disk: bool },
    /// Start or stop selecting.
    ToggleSelection,
}

/// What a press on the part `number_input` of the field for `input` asks
/// for: a change by one, or by two while `fast` is held, up or down. A press
/// on the number itself asks for nothing, and so does anything but a press.
pub open spec fn spec_on_editor_number_input_interaction(
    interaction: Interaction,
    input: Input,
    number_input: NumberInput,
    fast: bool,
) -> Option<EditorRequest> {
    let by: i16 = if fast {
        2
    } else {
        1
    };
    let delta: i16 = if number_input == NumberInput::Increase {
        by
    } else {
        (-by) as i16
    };
    if interaction != Interaction::Pressed || number_input == NumberInput::Value {
        None
    } else {
        Some(
            match input {
                Input::Width => EditorRequest::ChangeWidth(delta),
                Input::Height => EditorRequest::ChangeHeight(delta),
                Input::Level => EditorRequest::ChangeLevel(delta),
                Input::Identifier => EditorRequest::ChangeIdentifier(delta),
            },
        )
    }
}

/// What a press on a part of the field for a number asks for.
#[verifier::when_used_as_spec(spec_on_editor_number_input_interaction)]
pub fn on_editor_number_input_interaction(
    interaction: Interaction,
    input: Input,
    number_input: NumberInput,
    fast: bool,
) -> (request: Option<EditorRequest>)
    ensures
        request == spec_on_editor_number_input_interaction(interaction, input, number_input, fast),
{
    match interaction {
        Interaction::Pressed => {},
        _ => {
            return None;
        },
    }
    let by: i16 = if fast {
        2
    } else {
        1
    };
    let delta: i16 = match number_input {
        NumberInput::Increase => by,
        NumberInput::Decrease => -by,
        NumberInput::Value => {
            return None;
        },
    };
    Some(
        match input {
            Input::Width => EditorRequest::ChangeWidth(delta),
            Input::Height => EditorRequest::ChangeHeight(delta),
            Input::Level => EditorRequest::ChangeLevel(delta),
            Input::Identifier => EditorRequest::ChangeIdentifier(delta),
        },
    )
}

/// What a press on the button `button` asks for. Anything but a press asks
/// for nothing.
pub open spec fn spec_on_editor_button_interaction(
    interaction: Interaction,
    button: EditorButton,
) -> Option<EditorRequest> {
    if interaction != Interaction::Pressed {
        None
    } else if button == EditorButton::Save {
        Some(EditorRequest::SaveLevel { save_to_disk: true })
    } else {
        Some(EditorRequest::ToggleSelection)
    }
}

/// What a press on a button of the editor asks for.
#[verifier::when_used_as_spec(spec_on_editor_button_interaction)]
pub fn on_editor_button_interaction(
    interaction: Interaction,
    button: EditorButton,
) -> (request: Option<EditorRequest>)
    ensures
        request == spec_on_editor_button_interaction(interaction, button),
{
    match (interaction, button) {
        (Interaction::Pressed, EditorButton::Save) => Some(
            EditorRequest::SaveLevel { save_to_disk: true },
        ),
        (Interaction::Pressed, EditorButton::Select) => Some(
            EditorRequest::ToggleSelection,
        ),
        _ => None,
    }
}

/// Whether the object `i` is the first on the cell `position`.
pub open spec fn is_first_at(objects: Seq<GameObject>, position: Position, i: int) -> bool {
    &&& 0 <= i < objects.len()
    &&& objects[i].position == position
    &&& forall|k: int| 0 <= k < i ==> (#[trigger] objects[k]).position != position
}

/// The number that can be set on `object`, if there is one, and what it is
/// now: the level of an entrance, or else the number of a teleporter.
pub open spec fn spec_input_of(object: GameObject) -> Option<(Input, u16)> {
    match (object.entrance, object.teleporter) {
        (Some(level), _) => Some((Input::Level, level)),
        (None, Some(identifier)) => Some((Input::Identifier, identifier)),
        (None, None) => None,
    }
}

/// Selects the first object on the cell `position`, if there is one, and
/// says which number can be set on it. Where the cell is empty no object
/// stays selected.
pub fn on_select_object(
    objects: &Vec<GameObject>,
    editor_state: &mut EditorState,
    position: Position,
) -> (input: Option<(Input, u16)>)
    ensures
        match final(editor_state).selected_object {
            Some(selected) => selected == position && exists|i: int|
                is_first_at(objects@, position, i) && input == spec_input_of(objects@[i]),
            None => input is None && forall|i: int|
                0 <= i < objects@.len() ==> (#[trigger] objects@[i]).position != position,
        },
        *final(editor_state) == (EditorState {
            selected_object: final(editor_state).selected_object,
            ..*old(editor_state)
        }),
{
    let mut i: usize = 0;
    while i < objects.len()
        invariant
            i <= objects.len(),
            *editor_state == *old(editor_state),
            forall|k: int| 0 <= k < i ==> (#[trigger] objects@[k]).position != position,
        decreases objects.len() - i,
    {
        if objects[i].position.x == position.x && objects[i].position.y == position.y {
            editor_state.selected_object = Some(position);
            assert(is_first_at(objects@, position, i as int));
            return match (objects[i].entrance, objects[i].teleporter) {
                (Some(level), _) => Some((Input::Level, level)),
                (None, Some(identifier)) => Some((Input::Identifier, identifier)),
                (None, None) => None,
            };
        }
        i += 1;
    }
    editor_state.selected_object = None;
    None
}

/// Whether the object `i` is the first teleporter on the cell that is
/// selected.
pub open spec fn is_selected_teleporter(
    objects: Seq<GameObject>,
    editor_state: EditorState,
    i: int,
) -> bool {
    &&& 0 <= i < objects.len()
    &&& objects[i].teleporter is Some
    &&& Some(objects[i].position) == editor_state.selected_object
    &&& forall|k: int|
        0 <= k < i ==> !((#[trigger] objects[k]).teleporter is Some && Some(objects[k].position)
            == editor_state.selected_object)
}

/// Whether the object `i` is the first entrance on the cell that is
/// selected.
pub open spec fn is_selected_entrance(
    objects: Seq<GameObject>,
    editor_state: EditorState,
    i: int,
) -> bool {
    &&& 0 <= i < objects.len()
    &&& objects[i].entrance is Some
    &&& Some(objects[i].position) == editor_state.selected_object
    &&& forall|k: int|
        0 <= k < i ==> !((#[trigger] objects[k]).entrance is Some && Some(objects[k].position)
            == editor_state.selected_object)
}

/// The teleporter that is selected, if one is.
pub open spec fn selected_teleporter(objects: Seq<GameObject>, editor_state: EditorState) -> Option<
    int,
> {
    if exists|i: int| is_selected_teleporter(objects, editor_state, i) {
        Some(choose|i: int| is_selected_teleporter(objects, editor_state, i))
    } else {
        None
    }
}

/// The entrance that is selected, if one is.
pub open spec fn selected_entrance(objects: Seq<GameObject>, editor_state: EditorState) -> Option<
    int,
> {
    if exists|i: int| is_selected_entrance(objects, editor_state, i) {
        Some(choose|i: int| is_selected_entrance(objects, editor_state, i))
    } else {
        None
    }
}

fn is_on_selected_cell(object: &GameObject, editor_state: &EditorState) -> (there: bool)
    ensures
        there == (Some(object.position) == editor_state.selected_object),
{
    match editor_state.selected_object {
        Some(position) => object.position.x == position.x && object.position.y == position.y,
        None => false,
    }
}

/// Changes the number of the selected teleporter by `delta`, and gives the
/// new number. Where no teleporter is selected, nothing stays selected.
pub fn change_identifier(
    objects: &mut Vec<GameObject>,
    editor_state: &mut EditorState,
    delta: i16,
) -> (identifier: Option<u16>)
    ensures
        match selected_teleporter(old(objects)@, *old(editor_state)) {
            Some(i) => {
                &&& identifier == Some(
                    changed_number(old(objects)@[i].teleporter.unwrap(), delta),
                )
                &&& final(objects)@ == old(objects)@.update(
                    i,
                    old(objects)@[i].with_teleporter(identifier.unwrap()),
                )
                &&& *final(editor_state) == *old(editor_state)
            },
            None => {
                &&& identifier is None
                &&& final(objects)@ == old(objects)@
                &&& *final(editor_state) == (EditorState {
                    selected_object: None,
                    ..*old(editor_state)
                })
            },
        },
{
    let mut i: usize = 0;
    while i < objects.len()
        invariant
            i <= objects.len(),
            objects@ == old(objects)@,
            *editor_state == *old(editor_state),
            forall|k: int|
                0 <= k < i ==> !((#[trigger] objects@[k]).teleporter is Some && Some(
                    objects@[k].position,
                ) == editor_state.selected_object),
        decreases objects.len() - i,
    {
        let object = objects[i];
        if let Some(number) = object.teleporter {
            if is_on_selected_cell(&object, editor_state) {
                proof {
                    assert(is_selected_teleporter(objects@, *editor_state, i as int));
                    let chosen = choose|j: int|
                        is_selected_teleporter(objects@, *editor_state, j);
                    assert(objects@[chosen].teleporter is Some);
                    assert(objects@[i as int].teleporter is Some);
                    assert(chosen == i);
                }
                let identifier = changed_number(number, delta);
                objects.set(i, object.with_teleporter(identifier));
                return Some(identifier);
            }
        }
        i += 1;
    }
    proof {
        assert forall|j: int| !is_selected_teleporter(objects@, *editor_state, j) by {
            if 0 <= j < objects@.len() {
                assert(!(objects@[j].teleporter is Some && Some(objects@[j].position)
                    == editor_state.selected_object));
            }
        }
    }
    editor_state.selected_object = None;
    None
}

/// The request for an entrance on the cell `position` that leads to the
/// level `level`.
pub open spec fn entrance_to(level: u16, position: Position) -> Event {
    Event::Spawn {
        object_type: ObjectType::Entrance,
        position: InitialPositionAndMetadata {
            position,
            direction: None,
            identifier: None,
            level: Some(level),
            open: false,
        },
    }
}

/// The level that the entrance `object` leads to once it has been changed by
/// `delta`.
pub open spec fn changed_level(object: GameObject, delta: i16) -> u16 {
    changed_number(object.entrance.unwrap(), delta)
}

/// Changes the level that the selected entrance leads to by `delta`, and
/// asks for the entrance to be put up anew, so that it shows the new number.
/// Where no entrance is selected, nothing stays selected.
pub fn change_level(
    objects: &mut Vec<GameObject>,
    editor_state: &mut EditorState,
    delta: i16,
) -> (events: Vec<Event>)
    ensures
        match selected_entrance(old(objects)@, *old(editor_state)) {
            Some(i) => {
                &&& final(objects)@ == old(objects)@.update(
                    i,
                    old(objects)@[i].with_entrance(changed_level(old(objects)@[i], delta)),
                )
                &&& events@ == seq![
                    despawn(i),
                    entrance_to(
                        changed_level(old(objects)@[i], delta),
                        old(objects)@[i].position,
                    ),
                ]
                &&& *final(editor_state) == *old(editor_state)
            },
            None => {
                &&& events@ == Seq::<Event>::empty()
                &&& final(objects)@ == old(objects)@
                &&& *final(editor_state) == (EditorState {
                    selected_object: None,
                    ..*old(editor_state)
                })
            },
        },
{
    let mut events: Vec<Event> = Vec::new();
    let mut i: usize = 0;
    while i < objects.len()
        invariant
            i <= objects.len(),
            events@.len() == 0,
            objects@ == old(objects)@,
            *editor_state == *old(editor_state),
            forall|k: int|
                0 <= k < i ==> !((#[trigger] objects@[k]).entrance is Some && Some(
                    objects@[k].position,
                ) == editor_state.selected_object),
        decreases objects.len() - i,
    {
        let object = objects[i];
        if let Some(number) = object.entrance {
            if is_on_selected_cell(&object, editor_state) {
                proof {
                    assert(is_selected_entrance(objects@, *editor_state, i as int));
                    let chosen = choose|j: int| is_selected_entrance(objects@, *editor_state, j);
                    assert(objects@[chosen].entrance is Some);
                    assert(objects@[i as int].entrance is Some);
                    assert(chosen == i);
                }
                let level = changed_number(number, delta);
                objects.set(i, object.with_entrance(level));
                events.push(Event::Despawn { entity: i });
                events.push(
                    Event::Spawn {
                        object_type: ObjectType::Entrance,
                        position: InitialPositionAndMetadata {
                            position: object.position,
                            direction: None,
                            identifier: None,
                            level: Some(level),
                            open: false,
                        },
                    },
                );
                assert(events@ =~= seq![
                    despawn(i as int),
                    entrance_to(level, object.position),
                ]);
                return events;
            }
        }
        i += 1;
    }
    proof {
        assert forall|j: int| !is_selected_entrance(objects@, *editor_state, j) by {
            if 0 <= j < objects@.len() {
                assert(!(objects@[j].entrance is Some && Some(objects@[j].position)
                    == editor_state.selected_object));
            }
        }
        assert(events@ =~= Seq::<Event>::empty());
    }
    editor_state.selected_object = None;
    events
}

} // verus!
