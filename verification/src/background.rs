//! How the view follows the game: which move of the view is asked for, and
//! how long it takes.

use vstd::prelude::*;

verus! {

/// A request to move the view, given here from the quickest to the slowest.
#[derive(Clone, Copy, Debug, PartialEq, Eq, Structural, PartialOrd, Ord)]
pub enum UpdateBackgroundTransform {
    /// At once.
    Immediate,
    /// Quickly, as when the player takes a step.
    Fast,
    /// Slowly from the whole hub to the player, as the game starts.
    HubIntro,
    /// Into the entrance that the player has stepped on.
    LevelExit,
    /// Out of the entrance by which the player has come.
    LevelEntrance,
}

/// How the view gathers and loses speed on its way.
#[derive(Clone, Copy, Debug, PartialEq, Eq, Structural)]
pub enum Easing {
    QuarticIn,
    QuarticOut,
    QuarticInOut,
}

impl UpdateBackgroundTransform {
    /// The place of the request in the order in which requests give way to
    /// each other.
    pub open spec fn spec_rank(self) -> u8 {
        match self {
            UpdateBackgroundTransform::Immediate => 0u8,
            UpdateBackgroundTransform::Fast => 1u8,
            UpdateBackgroundTransform::HubIntro => 2u8,
            UpdateBackgroundTransform::LevelExit => 3u8,
            UpdateBackgroundTransform::LevelEntrance => 4u8,
        }
    }

    /// The place of the request in the order in which requests give way to
    /// each other.
    #[verifier::when_used_as_spec(spec_rank)]
    pub fn rank(self) -> (rank: u8)
        ensures
            rank == self.spec_rank(),
    {
        match self {
            UpdateBackgroundTransform::Immediate => 0,
            UpdateBackgroundTransform::Fast => 1,
            UpdateBackgroundTransform::HubIntro => 2,
            UpdateBackgroundTransform::LevelExit => 3,
            UpdateBackgroundTransform::LevelEntrance => 4,
        }
    }

    /// How many thousandths of a second the move of the view takes.
    pub open spec fn spec_duration_ms(self) -> u64 {
        match self {
            UpdateBackgroundTransform::Immediate => 0u64,
            UpdateBackgroundTransform::Fast => 200u64,
            UpdateBackgroundTransform::LevelExit => 400u64,
            UpdateBackgroundTransform::LevelEntrance => 400u64,
            UpdateBackgroundTransform::HubIntro => 2000u64,
        }
    }

    /// How many thousandths of a second the move of the view takes.
    #[verifier::when_used_as_spec(spec_duration_ms)]
    pub fn duration_ms(self) -> (duration: u64)
        ensures
            duration == self.spec_duration_ms(),
    {
        match self {
            UpdateBackgroundTransform::Immediate => 0,
            UpdateBackgroundTransform::Fast => 200,
            UpdateBackgroundTransform::LevelExit | UpdateBackgroundTransform::LevelEntrance => 400,
            UpdateBackgroundTransform::HubIntro => 2000,
        }
    }

    /// How the size of the view changes on the way: it speeds up into an
    /// entrance, and slows down everywhere else.
    pub open spec fn spec_scale_easing(self) -> Easing {
        if self == UpdateBackgroundTransform::LevelExit {
            Easing::QuarticIn
        } else {
            Easing::QuarticOut
        }
    }

    /// How the size of the view changes on the way.
    #[verifier::when_used_as_spec(spec_scale_easing)]
    pub fn scale_easing(self) -> (easing: Easing)
        ensures
            easing == self.spec_scale_easing(),
    {
        match self {
            UpdateBackgroundTransform::LevelExit => Easing::QuarticIn,
            _ => Easing::QuarticOut,
        }
    }

    /// How the place of the view changes on the way.
    pub open spec fn spec_translation_easing(self) -> Easing {
        if self == UpdateBackgroundTransform::HubIntro {
            Easing::QuarticInOut
        } else if self == UpdateBackgroundTransform::LevelExit {
            Easing::QuarticIn
        } else {
            Easing::QuarticOut
        }
    }

    /// How the place of the view changes on the way.
    #[verifier::when_used_as_spec(spec_translation_easing)]
    pub fn translation_easing(self) -> (easing: Easing)
        ensures
            easing == self.spec_translation_easing(),
    {
        match self {
            UpdateBackgroundTransform::HubIntro => Easing::QuarticInOut,
            UpdateBackgroundTransform::LevelExit => Easing::QuarticIn,
            _ => Easing::QuarticOut,
        }
    }
}

/// Whether `chosen` is the request among `requests` to which all others give
/// way: the last of them in the order of `rank`.
pub open spec fn is_slowest(
    requests: Seq<UpdateBackgroundTransform>,
    chosen: Option<UpdateBackgroundTransform>,
) -> bool {
    match chosen {
        Some(request) => requests.contains(request) && forall|i: int|
            0 <= i < requests.len() ==> (#[trigger] requests[i]).rank() <= request.rank(),
        None => requests.len() == 0,
    }
}

/// The request among `requests` to which all others give way, if there is
/// any request.
pub fn slowest(requests: &Vec<UpdateBackgroundTransform>) -> (chosen: Option<
    UpdateBackgroundTransform,
>)
    ensures
        is_slowest(requests@, chosen),
{
    let mut chosen: Option<UpdateBackgroundTransform> = None;
    let mut i: usize = 0;
    while i < requests.len()
        invariant
            i <= requests.len(),
            is_slowest(requests@.take(i as int), chosen),
        decreases requests.len() - i,
    {
        let request = requests[i];
        let ghost before = requests@.take(i as int);
        let ghost after = requests@.take(i + 1);
        proof {
            assert(after.drop_last() =~= before);
            assert(after.last() == request);
            assert forall|k: int| 0 <= k < before.len() implies before[k] == after[k] by {}
        }
        let slower = match chosen {
            Some(so_far) => request.rank() > so_far.rank(),
            None => true,
        };
        if slower {
            chosen = Some(request);
            proof {
                assert(after[i as int] == request);
                assert forall|k: int| 0 <= k < after.len() implies (#[trigger] after[k]).rank()
                    <= request.rank() by {
                    if k < i {
                        assert(before[k] == after[k]);
                    }
                }
            }
        } else {
            proof {
                let so_far = chosen.unwrap();
                let at = choose|at: int| 0 <= at < before.len() && before[at] == so_far;
                assert(after[at] == so_far);
                assert forall|k: int| 0 <= k < after.len() implies (#[trigger] after[k]).rank()
                    <= so_far.rank() by {
                    if k < i {
                        assert(before[k] == after[k]);
                    }
                }
            }
        }
        i += 1;
    }
    proof {
        assert(requests@.take(requests@.len() as int) =~= requests@);
    }
    chosen
}

} // verus!
