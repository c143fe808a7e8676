//! What a player has reached: the level played, the level come from, and the
//! levels finished.

use vstd::prelude::*;
use std::collections::BTreeSet;

verus! {

/// The progress of a game.
pub struct GameState {
    /// The level that is being played. Level 0 is the hub, from which the
    /// other levels are entered.
    pub current_level: u16,
    /// The level that was played before this one, if any.
    pub previous_level: Option<u16>,
    /// The levels that have been finished.
    pub finished_levels: BTreeSet<u16>,
}

impl Default for GameState {
    fn default() -> (state: GameState)
        ensures
            state.current_level == 0,
            state.previous_level is None,
            state.finished() == Set::<u16>::empty(),
    {
        GameState { current_level: 0, previous_level: None, finished_levels: BTreeSet::new() }
    }
}

impl GameState {
    /// The levels that have been finished.
    pub open spec fn finished(&self) -> Set<u16> {
        self.finished_levels@
    }

    /// Records that `level` has been finished.
    pub fn mark_level_finished(&mut self, level: u16)
        ensures
            final(self).finished() == old(self).finished().insert(level),
            final(self).current_level == old(self).current_level,
            final(self).previous_level == old(self).previous_level,
    {
        self.finished_levels.insert(level);
    }

    /// Whether `level` has been finished.
    pub fn is_finished_level(&self, level: u16) -> (finished: bool)
        ensures
            finished == self.finished().contains(level),
    {
        self.finished_levels.contains(&level)
    }

    pub open spec fn spec_is_in_hub(&self) -> bool {
        self.current_level == 0
    }

    /// Whether the player is in the hub.
    #[verifier::when_used_as_spec(spec_is_in_hub)]
    pub fn is_in_hub(&self) -> (hub: bool)
        ensures
            hub == self.spec_is_in_hub(),
    {
        self.current_level == 0
    }

    /// Goes to `level`, and remembers the level left. Going to the hub while
    /// in the hub changes nothing, so that the level last left stays known
    /// there.
    pub fn set_current_level(&mut self, level: u16)
        ensures
            final(self).finished() == old(self).finished(),
            level > 0 || old(self).current_level > 0 ==> final(self).current_level == level
                && final(self).previous_level == Some(old(self).current_level),
            level == 0 && old(self).current_level == 0 ==> final(self).current_level == 0
                && final(self).previous_level == old(self).previous_level,
    {
        if level > 0 || self.current_level > 0 {
            self.previous_level = Some(self.current_level);
            self.current_level = level;
        }
    }
}

/// The level reached from `current_level` by going `delta` levels on or back.
/// There is no level before level 0 and none after level 100.
pub open spec fn relative_level(current_level: u16, delta: i16) -> int {
    if current_level + delta < 0 {
        0
    } else if current_level + delta > 100 {
        100
    } else {
        current_level + delta
    }
}

/// The number of the level to load when the player asks for the level
/// `delta` levels after the current one (before it, where `delta` is
/// negative; the same again, where it is 0).
pub fn load_relative_level(current_level: u16, delta: i16) -> (level: u16)
    ensures
        level == relative_level(current_level, delta),
{
    let target: i32 = current_level as i32 + delta as i32;
    if target < 0 {
        0
    } else if target > 100 {
        100
    } else {
        target as u16
    }
}

} // verus!
