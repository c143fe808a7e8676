//! From what is pressed to the steps that the player is to take.

use vstd::prelude::*;
use crate::components::Direction;

verus! {

/// The step along each axis that the pressed directions add up to. Opposite
/// directions cancel.
pub open spec fn spec_deltas_from_pressed(up: bool, right: bool, down: bool, left: bool) -> (
    i16,
    i16,
) {
    (
        if right == left {
            0i16
        } else if right {
            1i16
        } else {
            -1i16
        },
        if up == down {
            0i16
        } else if down {
            1i16
        } else {
            -1i16
        },
    )
}

/// The step along each axis that the pressed directions add up to.
#[verifier::when_used_as_spec(spec_deltas_from_pressed)]
pub fn deltas_from_pressed(up: bool, right: bool, down: bool, left: bool) -> (delta: (i16, i16))
    ensures
        delta == spec_deltas_from_pressed(up, right, down, left),
{
    let mut dx: i16 = 0;
    let mut dy: i16 = 0;
    if up {
        dy -= 1;
    }
    if right {
        dx += 1;
    }
    if down {
        dy += 1;
    }
    if left {
        dx -= 1;
    }
    (dx, dy)
}

/// Whether the last step taken went up or down.
pub open spec fn went_vertically(previous_direction: Option<Direction>) -> bool {
    previous_direction == Some(Direction::Up) || previous_direction == Some(Direction::Down)
}

/// The step to take now and the step to take after it, for a pull of `dx`
/// along the columns and `dy` along the rows.
///
/// A pull along one axis gives one step. A pull along both gives two: the one
/// across the way last gone first, so that a player who holds two directions
/// goes in a zigzag; up or down first where no step has been taken yet. A
/// pull of more than one cell along an axis counts as none along it.
pub open spec fn spec_directions_from_deltas(
    dx: i16,
    dy: i16,
    previous_direction: Option<Direction>,
) -> (Option<Direction>, Option<Direction>) {
    let sideways = Direction::from_delta(dx, 0);
    let vertically = Direction::from_delta(0, dy);
    if sideways is Some && (vertically is None || went_vertically(previous_direction)) {
        (sideways, vertically)
    } else {
        (vertically, sideways)
    }
}

/// The step to take now and the step to take after it, for a pull of `dx`
/// along the columns and `dy` along the rows.
#[verifier::when_used_as_spec(spec_directions_from_deltas)]
pub fn directions_from_deltas(dx: i16, dy: i16, previous_direction: Option<Direction>) -> (steps:
    (Option<Direction>, Option<Direction>))
    ensures
        steps == spec_directions_from_deltas(dx, dy, previous_direction),
{
    let x_dir = Direction::from_delta(dx, 0);
    let y_dir = Direction::from_delta(0, dy);
    let vertical_before = match previous_direction {
        Some(previous) => previous.as_delta().0 == 0,
        None => false,
    };
    if x_dir.is_some() && (y_dir.is_none() || vertical_before) {
        (x_dir, y_dir)
    } else {
        (y_dir, x_dir)
    }
}

/// There is a step to take now whenever there is a pull along an axis, a
/// second step only after a first, and the two steps are along different
/// axes.
pub proof fn lemma_steps_are_in_order(dx: i16, dy: i16, previous_direction: Option<Direction>)
    ensures
        ({
            let steps = directions_from_deltas(dx, dy, previous_direction);
            &&& steps.0 is None <==> Direction::from_delta(dx, 0) is None && Direction::from_delta(
                0,
                dy,
            ) is None
            &&& steps.1 is Some ==> steps.0 is Some
            &&& steps.0 is Some && steps.1 is Some ==> (steps.0.unwrap().as_delta().0 == 0)
                != (steps.1.unwrap().as_delta().0 == 0)
        }),
{
}

/// The steps from the first of `sources` that asks for one: the keyboard
/// comes before the arrows on the screen, and those before the gamepads.
pub open spec fn first_directions(
    sources: Seq<(Option<Direction>, Option<Direction>)>,
    from: int,
) -> (Option<Direction>, Option<Direction>)
    decreases sources.len() - from,
{
    if from < 0 || from >= sources.len() {
        (None, None)
    } else if sources[from].0 is Some {
        sources[from]
    } else {
        first_directions(sources, from + 1)
    }
}

/// The steps to take, given what each source of input asks for, the sources
/// in the order in which they are listened to.
pub fn directions_from_inputs(sources: &Vec<(Option<Direction>, Option<Direction>)>) -> (steps: (
    Option<Direction>,
    Option<Direction>,
))
    ensures
        steps == first_directions(sources@, 0),
{
    let mut i: usize = 0;
    while i < sources.len()
        invariant
            i <= sources.len(),
            first_directions(sources@, 0) == first_directions(sources@, i as int),
        decreases sources.len() - i,
    {
        if sources[i].0.is_some() {
            return sources[i];
        }
        i += 1;
    }
    (None, None)
}

/// Where the clock stands that paces the steps of the player.
#[derive(Clone, Copy, Debug, PartialEq, Eq, Structural)]
pub enum StepClock {
    /// The time between two steps has just run out.
    JustFinished,
    /// The clock stands still: the player has not been moving.
    Paused,
    /// The time between two steps is running.
    Running,
}

/// What is to be done with the clock that paces the steps of the player.
#[derive(Clone, Copy, Debug, PartialEq, Eq, Structural)]
pub enum ClockAction {
    /// Let it start anew.
    Reset,
    /// Let it start anew and stand still.
    ResetAndPause,
    /// Let it run again.
    Unpause,
    /// Leave it as it is.
    Leave,
}

/// What follows from the directions that the player holds and has just
/// pressed.
#[derive(Clone, Copy, Debug, PartialEq, Eq, Structural)]
pub struct Pacing {
    /// The step for the player to take now.
    pub step: Option<Direction>,
    /// The step to take when the time between two steps has next run out.
    pub queued: Option<Direction>,
    pub clock: ClockAction,
}

/// The step to take and the step to keep for later, for a player who has
/// the step `queued` waiting, holds the directions `held` and has just
/// pressed the directions `pressed`, each given as the step to take now and
/// the step after it.
///
/// When the time between two steps has run out, the waiting step is taken;
/// if none waits, the player goes on the way it holds, and stands still if
/// it holds none. A player that stands still starts to move as soon as a
/// direction is pressed. While the time is running, a direction that is
/// pressed waits for its turn.
pub open spec fn spec_on_player_movement(
    queued: Option<Direction>,
    clock: StepClock,
    held: (Option<Direction>, Option<Direction>),
    pressed: (Option<Direction>, Option<Direction>),
) -> Pacing {
    match clock {
        StepClock::JustFinished => if queued is Some {
            Pacing { step: queued, queued: None, clock: ClockAction::Reset }
        } else if held.0 is Some {
            Pacing { step: held.0, queued: held.1, clock: ClockAction::Reset }
        } else {
            Pacing { step: None, queued: None, clock: ClockAction::ResetAndPause }
        },
        StepClock::Paused => if pressed.0 is Some {
            Pacing {
                step: pressed.0,
                queued: if pressed.1 is Some {
                    pressed.1
                } else {
                    queued
                },
                clock: ClockAction::Unpause,
            }
        } else {
            Pacing { step: None, queued, clock: ClockAction::Leave }
        },
        StepClock::Running => Pacing {
            step: None,
            queued: if pressed.0 is Some {
                pressed.0
            } else {
                queued
            },
            clock: ClockAction::Leave,
        },
    }
}

/// The step to take and the step to keep for later.
#[verifier::when_used_as_spec(spec_on_player_movement)]
pub fn on_player_movement(
    queued: Option<Direction>,
    clock: StepClock,
    held: (Option<Direction>, Option<Direction>),
    pressed: (Option<Direction>, Option<Direction>),
) -> (pacing: Pacing)
    ensures
        pacing == spec_on_player_movement(queued, clock, held, pressed),
{
    match clock {
        StepClock::JustFinished => {
            if queued.is_some() {
                Pacing { step: queued, queued: None, clock: ClockAction::Reset }
            } else if held.0.is_some() {
                Pacing { step: held.0, queued: held.1, clock: ClockAction::Reset }
            } else {
                Pacing { step: None, queued: None, clock: ClockAction::ResetAndPause }
            }
        },
        StepClock::Paused => {
            if pressed.0.is_some() {
                let later = if pressed.1.is_some() {
                    pressed.1
                } else {
                    queued
                };
                Pacing { step: pressed.0, queued: later, clock: ClockAction::Unpause }
            } else {
                Pacing { step: None, queued, clock: ClockAction::Leave }
            }
        },
        StepClock::Running => {
            let later = if pressed.0.is_some() {
                pressed.0
            } else {
                queued
            };
            Pacing { step: None, queued: later, clock: ClockAction::Leave }
        },
    }
}

} // verus!
