//! Which frame an animated object shows.

use vstd::prelude::*;
use rand::Rng;
use crate::game_object::GameObject;

verus! {

/// A number below `bound`, drawn by `rand::Rng::gen_range` on the generator
/// of `rand::thread_rng` from the range `0..bound`. The generator promises a
/// number within the range, and panics on an empty range, which is why
/// `bound` must not be 0. Nothing is claimed about which number comes.
#[verifier::external_body]
fn random_below(bound: usize) -> (index: usize)
    requires
        bound > 0,
    ensures
        index < bound,
{
    rand::thread_rng().gen_range(0..bound)
}

/// Whether `frame` is a frame that `object` can show: one of its frames if
/// it is animated and has any, and none otherwise.
pub open spec fn is_frame_of(object: GameObject, frame: Option<usize>) -> bool {
    match frame {
        Some(index) => object.animatable matches Some(num_frames) && index < num_frames,
        None => object.animatable is None || object.animatable == Some(0usize),
    }
}

/// Draws a frame for every animated object. To be called whenever the time
/// between two frames has passed.
pub fn animate_objects(objects: &Vec<GameObject>) -> (frames: Vec<Option<usize>>)
    ensures
        frames@.len() == objects@.len(),
        forall|i: int| 0 <= i < objects@.len() ==> is_frame_of(objects@[i], #[trigger] frames@[i]),
{
    let mut frames: Vec<Option<usize>> = Vec::new();
    let mut i: usize = 0;
    while i < objects.len()
        invariant
            i <= objects.len(),
            frames@.len() == i,
            forall|k: int| 0 <= k < i ==> is_frame_of(objects@[k], #[trigger] frames@[k]),
        decreases objects.len() - i,
    {
        let frame = match objects[i].animatable {
            Some(num_frames) => if num_frames > 0 {
                Some(random_below(num_frames))
            } else {
                None
            },
            None => None,
        };
        frames.push(frame);
        i += 1;
    }
    frames
}

} // verus!
