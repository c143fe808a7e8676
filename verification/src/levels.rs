//! Levels: their size and their stored contents.

use vstd::prelude::*;
use vstd::string::StringExecFns;
use std::collections::BTreeMap;
use crate::components::{Direction, Position};
use crate::text::{decimal, write_decimal};

verus! {

/// The size of a level's grid. Its cells are `(1, 1)` to `(width, height)`.
#[derive(Clone, Copy, Debug, PartialEq, Eq, Structural)]
pub struct Dimensions {
    pub width: i16,
    pub height: i16,
}

impl Default for Dimensions {
    fn default() -> (dimensions: Dimensions)
        ensures
            dimensions.width == 16,
            dimensions.height == 16,
    {
        Dimensions { width: 16, height: 16 }
    }
}

impl Dimensions {
    /// Whether the cell with the unbounded coordinates `cell` lies on the grid.
    pub open spec fn contains_cell(self, cell: (int, int)) -> bool {
        1 <= cell.0 <= self.width && 1 <= cell.1 <= self.height
    }

    pub open spec fn spec_contains(&self, position: Position) -> bool {
        self.contains_cell((position.x as int, position.y as int))
    }

    /// Whether `position` lies on the grid.
    #[verifier::when_used_as_spec(spec_contains)]
    pub fn contains(&self, position: Position) -> (inside: bool)
        ensures
            inside == self.spec_contains(position),
    {
        position.x >= 1 && position.x <= self.width && position.y >= 1 && position.y
            <= self.height
    }
}

/// Where an object of a level starts, and what else the level says of it.
#[derive(Clone, Copy, Debug, PartialEq, Eq, Structural)]
pub struct InitialPositionAndMetadata {
    pub position: Position,
    /// The way the object faces, where the level says so.
    pub direction: Option<Direction>,
    /// The number that pairs a teleporter with another.
    pub identifier: Option<u16>,
    /// The level that an entrance leads to, or that opens a gate.
    pub level: Option<u16>,
    /// Whether a door or gate starts open.
    pub open: bool,
}

impl From<&Position> for InitialPositionAndMetadata {
    /// A start at `position` with nothing else said.
    fn from(position: &Position) -> (initial: InitialPositionAndMetadata) {
        InitialPositionAndMetadata {
            position: *position,
            direction: None,
            identifier: None,
            level: None,
            open: false,
        }
    }
}

impl vstd::std_specs::convert::FromSpecImpl<&Position> for InitialPositionAndMetadata {
    open spec fn obeys_from_spec() -> bool {
        true
    }

    open spec fn from_spec(position: &Position) -> InitialPositionAndMetadata {
        InitialPositionAndMetadata {
            position: *position,
            direction: None,
            identifier: None,
            level: None,
            open: false,
        }
    }
}

impl InitialPositionAndMetadata {
    /// A start at `position` with nothing else said.
    pub open spec fn bare(position: Position) -> InitialPositionAndMetadata {
        InitialPositionAndMetadata {
            position,
            direction: None,
            identifier: None,
            level: None,
            open: false,
        }
    }
}

/// The contents of one level: as stored, and as last left by the player.
struct LevelData {
    current: Option<String>,
    stored: String,
}

/// The contents of all levels, by the number of the level.
pub struct Levels(BTreeMap<u16, LevelData>);

impl Levels {
    /// Whether there is a level with the number `level`.
    pub closed spec fn has(&self, level: u16) -> bool {
        self.0@.contains_key(level)
    }

    /// The contents of the level `level` as stored.
    pub closed spec fn stored(&self, level: u16) -> Seq<char> {
        self.0@[level].stored@
    }

    /// The contents of the level `level` as the player last left it, if it
    /// has been left.
    pub closed spec fn current(&self, level: u16) -> Option<Seq<char>> {
        match self.0@[level].current {
            Some(current) => Some(current@),
            None => None,
        }
    }

    /// The contents of the level `level` that are in play: as the player
    /// last left it, or else as stored.
    pub open spec fn contents(&self, level: u16) -> Seq<char> {
        match self.current(level) {
            Some(current) => current,
            None => self.stored(level),
        }
    }

    /// Whether `self` holds of every level but `level` what `before` holds
    /// of it.
    pub open spec fn differs_only_at(&self, before: &Levels, level: u16) -> bool {
        forall|other: u16|
            other != level ==> self.has(other) == before.has(other) && (before.has(other)
                ==> self.stored(other) == before.stored(other) && self.current(other)
                == before.current(other))
    }

    /// No levels.
    pub fn new() -> (levels: Levels)
        ensures
            forall|level: u16| !levels.has(level),
    {
        Levels(BTreeMap::new())
    }

    /// Returns the contents of a level: as the player last left it, or else
    /// as stored.
    pub fn get(&self, level: u16) -> (contents: Option<&str>)
        ensures
            match contents {
                Some(text) => self.has(level) && text@ == self.contents(level),
                None => !self.has(level),
            },
    {
        match self.0.get(&level) {
            Some(data) => match &data.current {
                Some(current) => Some(current.as_str()),
                None => Some(data.stored.as_str()),
            },
            None => None,
        }
    }

    /// Makes `contents` the state in which the player has left the level. A
    /// level that is not there is not made.
    pub fn insert_current(&mut self, level: u16, contents: String)
        ensures
            final(self).differs_only_at(old(self), level),
            final(self).has(level) == old(self).has(level),
            old(self).has(level) ==> final(self).current(level) == Some(contents@)
                && final(self).stored(level) == old(self).stored(level),
    {
        if let Some(data) = self.0.remove(&level) {
            self.0.insert(level, LevelData { current: Some(contents), stored: data.stored });
        }
    }

    /// Makes `contents` the stored contents of the level, and forgets the
    /// state in which the player has left it. Makes the level if it is not
    /// there.
    pub fn insert_stored(&mut self, level: u16, contents: String)
        ensures
            final(self).differs_only_at(old(self), level),
            final(self).has(level),
            final(self).stored(level) == contents@,
            final(self).current(level) is None,
    {
        self.0.insert(level, LevelData { current: None, stored: contents });
    }

    /// Takes the level back to its stored contents.
    pub fn reset_level(&mut self, level: u16)
        ensures
            final(self).differs_only_at(old(self), level),
            final(self).has(level) == old(self).has(level),
            old(self).has(level) ==> final(self).current(level) is None && final(self).stored(level)
                == old(self).stored(level),
    {
        if let Some(data) = self.0.remove(&level) {
            self.0.insert(level, LevelData { current: None, stored: data.stored });
        }
    }
}

/// The text of the level that stands in for a level that is not there: a
/// player and, beside it, an exit.
pub open spec fn default_level_text() -> Seq<char> {
    "[Player]\nPosition=1,1\n\n[Exit]\nPosition=2,1\n"@
}

/// The contents of the level with the number `level` that are in play, or
/// the text of the smallest level where there is no such level.
pub fn contents_or_default<'a>(levels: &'a Levels, level: u16) -> (text: &'a str)
    ensures
        text@ == (if levels.has(level) {
            levels.contents(level)
        } else {
            default_level_text()
        }),
{
    match levels.get(level) {
        Some(text) => text,
        None => "[Player]\nPosition=1,1\n\n[Exit]\nPosition=2,1\n",
    }
}

/// The name of the file that holds the level with the number
/// `level_number`: the number is written in three digits at least.
pub open spec fn level_path(level_number: u16) -> Seq<char> {
    "assets/levels/level"@ + (if level_number < 10 {
        "00"@
    } else if level_number < 100 {
        "0"@
    } else {
        ""@
    }) + decimal(level_number as int)
}

/// The name of the file that holds the level with the number `level_number`.
pub fn get_level_path(level_number: u16) -> (path: String)
    ensures
        path@ == level_path(level_number),
{
    let mut path = String::new();
    path.append("assets/levels/level");
    if level_number < 10 {
        path.append("00");
    } else if level_number < 100 {
        path.append("0");
    } else {
        path.append("");
    }
    write_decimal(&mut path, level_number as u32);
    assert(path@ =~= level_path(level_number));
    path
}

} // verus!
