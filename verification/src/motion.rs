//! Who moves: the player, the objects that move by themselves, and what
//! stands on ice or on a conveyor.
//!
//! All of them go through the move resolver. What the resolver is to see of
//! the other objects differs from case to case; an object that takes no part
//! is shown to it as a bystander, which nothing can run into, push or hold.

use vstd::prelude::*;
use std::collections::BTreeSet;
use crate::collision_object::CollisionObject;
use crate::components::{BlocksMovement, Direction, Movable, Position};
use crate::game_object::{GameObject, PositionChange};
use crate::levels::Dimensions;
use crate::movement::{
    can_mix_at,
    can_open_at,
    can_paint_at,
    can_push_to,
    cell_beyond,
    is_held_at,
    is_obstacle,
    move_object,
    move_outcome,
    object_after_move,
    objects_after_move,
    MoveObjectError,
};
use crate::object_type::ObjectType;

verus! {

/// What the resolver sees on `position` of an object that takes no part in a
/// move.
pub open spec fn bystander(position: Position) -> CollisionObject {
    CollisionObject {
        blocks_movement: None,
        blocks_pushes: false,
        deadly: false,
        direction: Direction::Up,
        key: false,
        massive: false,
        object_type: ObjectType::Flash,
        openable: None,
        paint: None,
        paintable: false,
        player: false,
        position,
        pushable: false,
        weight: None,
    }
}

/// A bystander answers none of the resolver's questions: it holds nothing,
/// stops nothing, gives no reason to push something onto its cell or not to,
/// and is never pushed itself.
pub proof fn lemma_bystander_is_inert(position: Position, other: ObjectType)
    ensures
        !bystander(position).blocks_movement(),
        !bystander(position).is_massive(),
        !bystander(position).is_pushable(),
        bystander(position).can_push_on(),
        !bystander(position).can_mix_with(other),
        !bystander(position).can_open_with_key(),
        !bystander(position).is_paintable(),
        bystander(position).blocks_movement is None,
{
}

/// What the resolver sees of `objects` when those marked in `among` take
/// part in a move.
pub open spec fn views(objects: Seq<GameObject>, among: Seq<bool>) -> Seq<CollisionObject> {
    Seq::new(
        objects.len(),
        |i: int|
            if among[i] {
                objects[i].collision_view()
            } else {
                bystander(objects[i].position)
            },
    )
}

/// Objects that take no part in a move have no say in it: two lists of
/// objects that agree in the mover and in every object that takes part let
/// the move end the same way.
pub proof fn lemma_only_participants_matter(
    objects: Seq<GameObject>,
    others: Seq<GameObject>,
    subject: int,
    direction: Direction,
    dimensions: Dimensions,
    among: Seq<bool>,
)
    requires
        0 <= subject < objects.len(),
        objects.len() == others.len(),
        among.len() == objects.len(),
        objects[subject] == others[subject],
        forall|i: int| 0 <= i < objects.len() && among[i] ==> objects[i] == others[i],
    ensures
        attempt_outcome(objects, subject, direction, dimensions, among) == attempt_outcome(
            others,
            subject,
            direction,
            dimensions,
            among,
        ),
{
    reveal(attempt_outcome);
    reveal(move_outcome);
    let position = objects[subject].position;
    let weight = objects[subject].weight();
    let seen = views(objects, among);
    let other = views(others, among);
    let beyond = cell_beyond(position, direction);
    assert forall|i: int| 0 <= i < seen.len() implies (#[trigger] seen[i] == other[i] || (seen[i]
        == bystander(objects[i].position) && other[i] == bystander(others[i].position))) by {}
    assert(is_held_at(seen, position) == is_held_at(
        other,
        position,
    )) by {
        if is_held_at(seen, position) {
            let i = choose|i: int|
                0 <= i < seen.len() && (#[trigger] seen[i]).has_position(position)
                    && seen[i].blocks_movement();
            assert(other[i].has_position(position) && other[i].blocks_movement());
        }
        if is_held_at(other, position) {
            let i = choose|i: int|
                0 <= i < other.len() && (#[trigger] other[i]).has_position(position)
                    && other[i].blocks_movement();
            assert(seen[i].has_position(position) && seen[i].blocks_movement());
        }
    }
    lemma_same_questions_same_answers(seen, other, dimensions, beyond);
    assert forall|i: int| 0 <= i < seen.len() implies is_obstacle(
        seen,
        i,
        position,
        direction,
        dimensions,
        weight,
    ) == is_obstacle(other, i, position, direction, dimensions, weight) by {
        assert(seen[i] == other[i] || (seen[i] == bystander(objects[i].position) && other[i]
            == bystander(others[i].position)));
    }
}

/// Two lists of what the resolver sees that differ only in where their
/// bystanders stand answer every question about a cell alike.
proof fn lemma_same_questions_same_answers(
    seen: Seq<CollisionObject>,
    other: Seq<CollisionObject>,
    dimensions: Dimensions,
    cell: (int, int),
)
    requires
        seen.len() == other.len(),
        forall|i: int|
            0 <= i < seen.len() ==> (#[trigger] seen[i] == other[i] || (exists|p: Position|
                seen[i] == bystander(p)) && (exists|q: Position| other[i] == bystander(q))),
    ensures
        can_push_to(seen, dimensions, cell) == can_push_to(
            other,
            dimensions,
            cell,
        ),
        forall|kind: ObjectType|
            can_mix_at(seen, cell, kind) == can_mix_at(
                other,
                cell,
                kind,
            ),
        can_open_at(seen, cell) == can_open_at(other, cell),
        can_paint_at(seen, cell) == can_paint_at(other, cell),
{
    assert forall|i: int| 0 <= i < seen.len() implies (#[trigger] seen[i] == other[i] || (
    !seen[i].is_paintable() && !other[i].is_paintable() && !seen[i].can_open_with_key()
        && !other[i].can_open_with_key() && seen[i].can_push_on() && other[i].can_push_on()
        && seen[i].object_type == ObjectType::Flash && other[i].object_type
        == ObjectType::Flash)) by {
        if seen[i] != other[i] {
            let p = choose|p: Position| seen[i] == bystander(p);
            let q = choose|q: Position| other[i] == bystander(q);
        }
    }
    assert(can_push_to(seen, dimensions, cell) == can_push_to(
        other,
        dimensions,
        cell,
    )) by {
        if !can_push_to(seen, dimensions, cell) && dimensions.contains_cell(cell) {
            let i = choose|i: int|
                0 <= i < seen.len() && (#[trigger] seen[i]).position.is_at(cell)
                    && !seen[i].can_push_on();
            assert(other[i].position.is_at(cell) && !other[i].can_push_on());
        }
        if !can_push_to(other, dimensions, cell) && dimensions.contains_cell(
            cell,
        ) {
            let i = choose|i: int|
                0 <= i < other.len() && (#[trigger] other[i]).position.is_at(cell)
                    && !other[i].can_push_on();
            assert(seen[i].position.is_at(cell) && !seen[i].can_push_on());
        }
    }
    assert forall|kind: ObjectType|
        can_mix_at(seen, cell, kind) == can_mix_at(
            other,
            cell,
            kind,
        ) by {
        if can_mix_at(seen, cell, kind) {
            let i = choose|i: int|
                0 <= i < seen.len() && (#[trigger] seen[i]).position.is_at(cell)
                    && seen[i].can_mix_with(kind);
            assert(other[i].position.is_at(cell) && other[i].can_mix_with(kind));
        }
        if can_mix_at(other, cell, kind) {
            let i = choose|i: int|
                0 <= i < other.len() && (#[trigger] other[i]).position.is_at(cell)
                    && other[i].can_mix_with(kind);
            assert(seen[i].position.is_at(cell) && seen[i].can_mix_with(kind));
        }
    }
    assert(can_open_at(seen, cell) == can_open_at(other, cell))
        by {
        if can_open_at(seen, cell) {
            let i = choose|i: int|
                0 <= i < seen.len() && (#[trigger] seen[i]).position.is_at(cell)
                    && seen[i].can_open_with_key();
            assert(other[i].position.is_at(cell) && other[i].can_open_with_key());
        }
        if can_open_at(other, cell) {
            let i = choose|i: int|
                0 <= i < other.len() && (#[trigger] other[i]).position.is_at(cell)
                    && other[i].can_open_with_key();
            assert(seen[i].position.is_at(cell) && seen[i].can_open_with_key());
        }
    }
    assert(can_paint_at(seen, cell) == can_paint_at(other, cell))
        by {
        if can_paint_at(seen, cell) {
            let i = choose|i: int|
                0 <= i < seen.len() && (#[trigger] seen[i]).position.is_at(cell)
                    && seen[i].is_paintable();
            assert(other[i].position.is_at(cell) && other[i].is_paintable());
        }
        if can_paint_at(other, cell) {
            let i = choose|i: int|
                0 <= i < other.len() && (#[trigger] other[i]).position.is_at(cell)
                    && other[i].is_paintable();
            assert(seen[i].position.is_at(cell) && seen[i].is_paintable());
        }
    }
}

/// How a move of the object `subject` in `direction` ends when the objects
/// marked in `among` can be in its way.
#[verifier::opaque]
pub open spec fn attempt_outcome(
    objects: Seq<GameObject>,
    subject: int,
    direction: Direction,
    dimensions: Dimensions,
    among: Seq<bool>,
) -> Result<(), MoveObjectError> {
    move_outcome(
        objects[subject].position,
        direction,
        dimensions,
        views(objects, among),
        objects[subject].weight(),
    )
}

/// The object `i` after the object `subject` has moved in `direction`. The
/// mover stands on the cell ahead. An object that took part is as the
/// resolver left it. Each of them counts as moved if it stands on another
/// cell than before.
pub open spec fn object_after_attempt(
    objects: Seq<GameObject>,
    subject: int,
    direction: Direction,
    dimensions: Dimensions,
    among: Seq<bool>,
    i: int,
) -> GameObject {
    if i == subject {
        objects[i].moved_to(objects[i].position.step(direction))
    } else if among[i] {
        objects[i].with_collision_view(
            object_after_move(
                views(objects, among),
                i,
                objects[subject].position,
                direction,
                dimensions,
                objects[subject].weight(),
            ),
        )
    } else {
        objects[i]
    }
}

/// All objects after the object `subject` has tried to move in `direction`:
/// as they were if it could not, and else each as the move left it.
#[verifier::opaque]
pub open spec fn objects_after_attempt(
    objects: Seq<GameObject>,
    subject: int,
    direction: Direction,
    dimensions: Dimensions,
    among: Seq<bool>,
) -> Seq<GameObject> {
    if attempt_outcome(objects, subject, direction, dimensions, among) is Ok {
        Seq::new(
            objects.len(),
            |i: int| object_after_attempt(objects, subject, direction, dimensions, among, i),
        )
    } else {
        objects
    }
}

/// A move that fails changes nothing, and one that succeeds takes the mover
/// to the cell ahead.
pub proof fn lemma_attempt_is_all_or_nothing(
    objects: Seq<GameObject>,
    subject: int,
    direction: Direction,
    dimensions: Dimensions,
    among: Seq<bool>,
)
    requires
        0 <= subject < objects.len(),
        among.len() == objects.len(),
    ensures
        attempt_outcome(objects, subject, direction, dimensions, among) is Err
            ==> objects_after_attempt(objects, subject, direction, dimensions, among) == objects,
        attempt_outcome(objects, subject, direction, dimensions, among) is Ok
            ==> objects_after_attempt(
            objects,
            subject,
            direction,
            dimensions,
            among,
        )[subject].position.is_at(objects[subject].position.step(direction)),
{
    reveal(objects_after_attempt);
    reveal(attempt_outcome);
    reveal(move_outcome);
    reveal(GameObject::moved_to);
}

fn view_of(object: &GameObject, takes_part: bool) -> (seen: CollisionObject)
    ensures
        seen == (if takes_part {
            object.collision_view()
        } else {
            bystander(object.position)
        }),
{
    if takes_part {
        CollisionObject::from(object)
    } else {
        CollisionObject::new(ObjectType::Flash, object.position)
    }
}

/// Tries to move the object `subject` one cell in `direction`, with the
/// objects marked in `among` in its way.
pub fn attempt_move(
    objects: &mut Vec<GameObject>,
    subject: usize,
    direction: Direction,
    dimensions: &Dimensions,
    among: &Vec<bool>,
) -> (result: Result<(), MoveObjectError>)
    requires
        subject < old(objects)@.len(),
        among@.len() == old(objects)@.len(),
        !among@[subject as int],
    ensures
        result == attempt_outcome(old(objects)@, subject as int, direction, *dimensions, among@),
        final(objects)@.len() == old(objects)@.len(),
        result is Err ==> final(objects)@ == old(objects)@,
        final(objects)@ == objects_after_attempt(
            old(objects)@,
            subject as int,
            direction,
            *dimensions,
            among@,
        ),
{
    proof {
        reveal(objects_after_attempt);
        reveal(attempt_outcome);
    }
    let ghost before = objects@;
    let mut seen: Vec<CollisionObject> = Vec::new();
    let mut i: usize = 0;
    while i < objects.len()
        invariant
            i <= objects.len(),
            objects@ == before,
            among@.len() == before.len(),
            seen@.len() == i,
            forall|k: int| 0 <= k < i ==> #[trigger] seen@[k] == views(before, among@)[k],
        decreases objects.len() - i,
    {
        seen.push(view_of(&objects[i], among[i]));
        i += 1;
    }
    assert(seen@ =~= views(before, among@));
    let mover = objects[subject];
    let mut position = mover.position;
    let result = move_object(&mut position, direction, dimensions, &mut seen, mover.weight());
    if result.is_err() {
        return result;
    }
    let ghost after = objects_after_move(
        views(before, among@),
        mover.position,
        direction,
        *dimensions,
        mover.weight(),
    );
    i = 0;
    while i < objects.len()
        invariant
            i <= objects.len(),
            objects@.len() == before.len(),
            among@.len() == before.len(),
            subject < before.len(),
            seen@ == after,
            after.len() == before.len(),
            mover == before[subject as int],
            position.is_at(mover.position.step(direction)),
            forall|k: int|
                0 <= k < before.len() ==> #[trigger] after[k] == object_after_move(
                    views(before, among@),
                    k,
                    mover.position,
                    direction,
                    *dimensions,
                    mover.weight(),
                ),
            forall|k: int|
                0 <= k < i ==> #[trigger] objects@[k] == object_after_attempt(
                    before,
                    subject as int,
                    direction,
                    *dimensions,
                    among@,
                    k,
                ),
            forall|k: int| i <= k < before.len() ==> #[trigger] objects@[k] == before[k],
        decreases objects.len() - i,
    {
        let mut object = objects[i];
        if i == subject {
            object = object.at(position);
        } else if among[i] {
            seen[i].write_to(&mut object);
        }
        objects.set(i, object);
        i += 1;
    }
    assert(objects@ =~= objects_after_attempt(
        before,
        subject as int,
        direction,
        *dimensions,
        among@,
    ));
    result
}

/// Whether `after` is `before` but for where it stands, which way it faces,
/// whether it holds as a forcing tile, and whether it counts as moved.
pub open spec fn is_same_object(before: GameObject, after: GameObject) -> bool {
    after == (GameObject {
        position: after.position,
        direction: after.direction,
        blocks_movement: after.blocks_movement,
        position_change: after.position_change,
        ..before
    })
}

proof fn lemma_moved_object_keeps_attributes(
    objects: Seq<GameObject>,
    subject: int,
    direction: Direction,
    dimensions: Dimensions,
    among: Seq<bool>,
    i: int,
)
    requires
        0 <= subject < objects.len(),
        among.len() == objects.len(),
        0 <= i < objects.len(),
    ensures
        is_same_object(
            objects[i],
            object_after_attempt(objects, subject, direction, dimensions, among, i),
        ),
{
    reveal(GameObject::moved_to);
    reveal(GameObject::with_collision_view);
}

/// A move changes where objects stand, which way they face and whether
/// forcing tiles hold, and nothing else; and it neither adds nor removes an
/// object.
pub proof fn lemma_attempt_keeps_attributes(
    objects: Seq<GameObject>,
    subject: int,
    direction: Direction,
    dimensions: Dimensions,
    among: Seq<bool>,
    i: int,
)
    requires
        0 <= subject < objects.len(),
        among.len() == objects.len(),
        0 <= i < objects.len(),
    ensures
        objects_after_attempt(objects, subject, direction, dimensions, among).len()
            == objects.len(),
        is_same_object(
            objects[i],
            objects_after_attempt(objects, subject, direction, dimensions, among)[i],
        ),
{
    reveal(objects_after_attempt);
    let after = objects_after_attempt(objects, subject, direction, dimensions, among);
    if attempt_outcome(objects, subject, direction, dimensions, among) is Ok {
        assert(after[i] == object_after_attempt(
            objects,
            subject,
            direction,
            dimensions,
            among,
            i,
        ));
        lemma_moved_object_keeps_attributes(objects, subject, direction, dimensions, among, i);
    } else {
        assert(after[i] == objects[i]);
    }
}

/// What the player asks for.
#[derive(Clone, Copy, Debug, PartialEq, Eq, Structural)]
pub enum GameEvent {
    /// The player is to take a step in the given direction.
    MovePlayer(Direction),
}

/// Whether the object `i` is the only player.
pub open spec fn is_sole_player(objects: Seq<GameObject>, i: int) -> bool {
    &&& 0 <= i < objects.len()
    &&& objects[i].player
    &&& forall|k: int| 0 <= k < objects.len() && (#[trigger] objects[k]).player ==> k == i
}

/// The player, where there is exactly one.
pub open spec fn sole_player(objects: Seq<GameObject>) -> Option<int> {
    if exists|i: int| is_sole_player(objects, i) {
        Some(choose|i: int| is_sole_player(objects, i))
    } else {
        None
    }
}

/// For each object whether it can be in the player's way: all can but
/// players.
pub open spec fn not_players(objects: Seq<GameObject>) -> Seq<bool> {
    Seq::new(objects.len(), |i: int| !objects[i].player)
}

/// All objects after the player `player` has tried to step in `direction`.
/// A player that has taken the step faces the way it went.
pub open spec fn objects_after_step(
    objects: Seq<GameObject>,
    player: int,
    direction: Direction,
    dimensions: Dimensions,
) -> Seq<GameObject> {
    let after = objects_after_attempt(objects, player, direction, dimensions, not_players(objects));
    if attempt_outcome(objects, player, direction, dimensions, not_players(objects)) is Ok {
        after.update(player, after[player].facing(direction))
    } else {
        after
    }
}

fn find_sole_player(objects: &Vec<GameObject>) -> (player: Option<usize>)
    ensures
        match player {
            Some(index) => sole_player(objects@) == Some(index as int) && is_sole_player(
                objects@,
                index as int,
            ),
            None => sole_player(objects@) is None,
        },
{
    let mut found: Option<usize> = None;
    let mut i: usize = 0;
    while i < objects.len()
        invariant
            i <= objects.len(),
            match found {
                Some(index) => index < i && objects@[index as int].player && forall|k: int|
                    0 <= k < i && (#[trigger] objects@[k]).player ==> k == index,
                None => forall|k: int| 0 <= k < i ==> !(#[trigger] objects@[k]).player,
            },
        decreases objects.len() - i,
    {
        if objects[i].player {
            if found.is_some() {
                proof {
                    let first = found.unwrap() as int;
                    assert forall|k: int| !is_sole_player(objects@, k) by {
                        if is_sole_player(objects@, k) {
                            assert(objects@[first].player);
                            assert(objects@[i as int].player);
                        }
                    }
                }
                return None;
            }
            found = Some(i);
        }
        i += 1;
    }
    proof {
        match found {
            Some(index) => {
                assert(is_sole_player(objects@, index as int));
                let chosen = choose|k: int| is_sole_player(objects@, k);
                assert(objects@[index as int].player);
            },
            None => {
                assert forall|k: int| !is_sole_player(objects@, k) by {}
            },
        }
    }
    found
}

/// Whether the game is over: there is not exactly one player, and the level
/// is not being edited.
pub fn check_for_game_over(objects: &Vec<GameObject>, editing: bool) -> (over: bool)
    ensures
        over == (!editing && sole_player(objects@) is None),
{
    !editing && find_sole_player(objects).is_none()
}

fn step_player(
    objects: &mut Vec<GameObject>,
    player: usize,
    direction: Direction,
    dimensions: &Dimensions,
) -> (result: Result<(), MoveObjectError>)
    requires
        player < old(objects)@.len(),
        old(objects)@[player as int].player,
    ensures
        result == attempt_outcome(
            old(objects)@,
            player as int,
            direction,
            *dimensions,
            not_players(old(objects)@),
        ),
        final(objects)@ == objects_after_step(old(objects)@, player as int, direction, *dimensions),
{
    let ghost before = objects@;
    let mut among: Vec<bool> = Vec::new();
    let mut i: usize = 0;
    while i < objects.len()
        invariant
            i <= objects.len(),
            objects@ == before,
            among@.len() == i,
            forall|k: int| 0 <= k < i ==> #[trigger] among@[k] == !before[k].player,
        decreases objects.len() - i,
    {
        among.push(!objects[i].player);
        i += 1;
    }
    assert(among@ =~= not_players(before));
    let result = attempt_move(objects, player, direction, dimensions, &among);
    if result.is_ok() {
        let object = objects[player];
        objects.set(player, object.facing(direction));
    }
    result
}

/// Lets the player take the step that it asks for, if there is exactly one
/// player. Says how the step ended, or nothing where no step was tried.
pub fn on_game_event(
    objects: &mut Vec<GameObject>,
    event: GameEvent,
    dimensions: &Dimensions,
) -> (result: Option<Result<(), MoveObjectError>>)
    ensures
        match (sole_player(old(objects)@), event) {
            (Some(player), GameEvent::MovePlayer(direction)) => {
                &&& result == Some(
                    attempt_outcome(
                        old(objects)@,
                        player,
                        direction,
                        *dimensions,
                        not_players(old(objects)@),
                    ),
                )
                &&& final(objects)@ == objects_after_step(
                    old(objects)@,
                    player,
                    direction,
                    *dimensions,
                )
            },
            (None, _) => result is None && final(objects)@ == old(objects)@,
        },
{
    let GameEvent::MovePlayer(direction) = event;
    match find_sole_player(objects) {
        Some(player) => {
            assert(is_sole_player(objects@, player as int));
            Some(step_player(objects, player, direction, dimensions))
        },
        None => None,
    }
}

/// For each object whether it can be in the way of one that moves by
/// itself: all can but those that move by themselves.
pub open spec fn not_movables(objects: Seq<GameObject>) -> Seq<bool> {
    Seq::new(objects.len(), |i: int| objects[i].movable is None)
}

/// How the object `i` fares when it tries to go in `direction` by itself.
pub open spec fn self_move_outcome(
    objects: Seq<GameObject>,
    dimensions: Dimensions,
    i: int,
    direction: Direction,
) -> Result<(), MoveObjectError> {
    attempt_outcome(objects, i, direction, dimensions, not_movables(objects))
}

/// All objects after the object `i` has tried to go in `direction` by
/// itself, and has then turned to face `facing`.
pub open spec fn objects_after_self_move(
    objects: Seq<GameObject>,
    dimensions: Dimensions,
    i: int,
    direction: Direction,
    facing: Direction,
) -> Seq<GameObject> {
    let after = objects_after_attempt(objects, i, direction, dimensions, not_movables(objects));
    after.update(i, after[i].facing(facing))
}

/// Whether a move ended in a collision, with the edge or with an object.
pub open spec fn is_collision(outcome: Result<(), MoveObjectError>) -> bool {
    outcome matches Err(error) && error.is_collision()
}

/// All objects after the object `i` has had its turn to move by itself.
///
/// A bouncing object goes the way it faces, and turns around where it
/// collides. An object that follows its right hand turns right where it can
/// go there; where it collides there, it goes straight on, and turns left
/// where it collides there too. An object that its tile holds back stays and
/// tries again next time.
pub open spec fn objects_after_turn(
    objects: Seq<GameObject>,
    dimensions: Dimensions,
    i: int,
) -> Seq<GameObject> {
    let ahead = objects[i].direction;
    match objects[i].movable {
        None => objects,
        Some(Movable::Bounce) => objects_after_self_move(
            objects,
            dimensions,
            i,
            ahead,
            if is_collision(self_move_outcome(objects, dimensions, i, ahead)) {
                ahead.inverse()
            } else {
                ahead
            },
        ),
        Some(Movable::FollowRightHand) => {
            let right = self_move_outcome(objects, dimensions, i, ahead.right_hand());
            if right is Ok {
                objects_after_self_move(
                    objects,
                    dimensions,
                    i,
                    ahead.right_hand(),
                    ahead.right_hand(),
                )
            } else if is_collision(right) {
                objects_after_self_move(
                    objects,
                    dimensions,
                    i,
                    ahead,
                    if is_collision(self_move_outcome(objects, dimensions, i, ahead)) {
                        ahead.left_hand()
                    } else {
                        ahead
                    },
                )
            } else {
                objects
            }
        },
    }
}

/// All objects after the first `n` of them have had their turn to move by
/// themselves, one after the other.
pub open spec fn objects_after_turns(
    objects: Seq<GameObject>,
    dimensions: Dimensions,
    n: nat,
) -> Seq<GameObject>
    decreases n,
{
    if n == 0 {
        objects
    } else {
        objects_after_turn(
            objects_after_turns(objects, dimensions, (n - 1) as nat),
            dimensions,
            n - 1,
        )
    }
}

fn mark_not_movable(objects: &Vec<GameObject>) -> (among: Vec<bool>)
    ensures
        among@ == not_movables(objects@),
{
    let mut among: Vec<bool> = Vec::new();
    let mut i: usize = 0;
    while i < objects.len()
        invariant
            i <= objects.len(),
            among@.len() == i,
            forall|k: int| 0 <= k < i ==> #[trigger] among@[k] == (objects@[k].movable is None),
        decreases objects.len() - i,
    {
        among.push(objects[i].movable.is_none());
        i += 1;
    }
    assert(among@ =~= not_movables(objects@));
    among
}

fn self_move(
    objects: &mut Vec<GameObject>,
    dimensions: &Dimensions,
    i: usize,
    direction: Direction,
) -> (result: Result<(), MoveObjectError>)
    requires
        i < old(objects)@.len(),
        old(objects)@[i as int].movable is Some,
    ensures
        result == self_move_outcome(old(objects)@, *dimensions, i as int, direction),
        final(objects)@.len() == old(objects)@.len(),
        final(objects)@ == objects_after_attempt(
            old(objects)@,
            i as int,
            direction,
            *dimensions,
            not_movables(old(objects)@),
        ),
        result is Err ==> final(objects)@ == old(objects)@,
{
    let among = mark_not_movable(objects);
    attempt_move(objects, i, direction, dimensions, &among)
}

fn turn_to(objects: &mut Vec<GameObject>, i: usize, facing: Direction)
    requires
        i < old(objects)@.len(),
    ensures
        final(objects)@ == old(objects)@.update(i as int, old(objects)@[i as int].facing(facing)),
{
    let object = objects[i];
    objects.set(i, object.facing(facing));
}

fn take_turn(objects: &mut Vec<GameObject>, dimensions: &Dimensions, i: usize)
    requires
        i < old(objects)@.len(),
    ensures
        final(objects)@.len() == old(objects)@.len(),
        final(objects)@ == objects_after_turn(old(objects)@, *dimensions, i as int),
{
    let ahead = objects[i].direction;
    match objects[i].movable {
        None => {},
        Some(Movable::Bounce) => {
            let facing = match self_move(objects, dimensions, i, ahead) {
                Err(error) => if error.is_collision() {
                    ahead.inverse()
                } else {
                    ahead
                },
                Ok(()) => ahead,
            };
            turn_to(objects, i, facing);
        },
        Some(Movable::FollowRightHand) => {
            match self_move(objects, dimensions, i, ahead.right_hand()) {
                Ok(()) => {
                    turn_to(objects, i, ahead.right_hand());
                },
                Err(error) => {
                    if error.is_collision() {
                        let facing = match self_move(objects, dimensions, i, ahead) {
                            Err(error) => if error.is_collision() {
                                ahead.left_hand()
                            } else {
                                ahead
                            },
                            Ok(()) => ahead,
                        };
                        turn_to(objects, i, facing);
                    }
                },
            }
        },
    }
}

/// Lets every object that moves by itself take its turn, in the order of the
/// objects. To be called whenever the time between two such moves has
/// passed.
pub fn move_objects(objects: &mut Vec<GameObject>, dimensions: &Dimensions)
    ensures
        final(objects)@ == objects_after_turns(old(objects)@, *dimensions, old(objects)@.len()),
{
    let ghost before = objects@;
    let mut i: usize = 0;
    while i < objects.len()
        invariant
            i <= objects.len(),
            objects@.len() == before.len(),
            objects@ == objects_after_turns(before, *dimensions, i as nat),
        decreases objects.len() - i,
    {
        take_turn(objects, dimensions, i);
        i += 1;
    }
}

/// Whether the object `tile` is a forcing tile of the kind in turn: ice
/// where `slippery`, a conveyor where not. A tile that is both is neither.
pub open spec fn is_forcing(objects: Seq<GameObject>, tile: int, slippery: bool) -> bool {
    &&& objects[tile].blocks_movement is Some
    &&& objects[tile].slippery == slippery
    &&& objects[tile].transporter == !slippery
}

/// Whether the object `i` stands on the forcing tile `tile` and can be
/// carried off: forcing tiles and immovable objects cannot.
pub open spec fn rides_on(objects: Seq<GameObject>, tile: int, i: int) -> bool {
    &&& !objects[i].slippery
    &&& !objects[i].transporter
    &&& !objects[i].immovable
    &&& objects[i].position == objects[tile].position
}

/// Whether the object `i` rides on the forcing tile `tile` and has not been
/// carried on in this pass yet.
pub open spec fn is_rider(objects: Seq<GameObject>, moved: Set<usize>, tile: int, i: int) -> bool {
    0 <= i < objects.len() && rides_on(objects, tile, i) && !moved.contains(i as usize)
}

/// Whether the object `i` is the only rider of the forcing tile `tile`.
pub open spec fn is_sole_rider(
    objects: Seq<GameObject>,
    moved: Set<usize>,
    tile: int,
    i: int,
) -> bool {
    is_rider(objects, moved, tile, i) && forall|k: int|
        #[trigger] is_rider(objects, moved, tile, k) ==> k == i
}

/// The rider of the forcing tile `tile`, where it has exactly one.
pub open spec fn sole_rider(objects: Seq<GameObject>, moved: Set<usize>, tile: int) -> Option<int> {
    if exists|i: int| is_sole_rider(objects, moved, tile, i) {
        Some(choose|i: int| is_sole_rider(objects, moved, tile, i))
    } else {
        None
    }
}

/// For each object whether it can be in the way of what the forcing tile
/// `tile` carries off: all can but forcing tiles and what rides on the tile.
pub open spec fn not_riding(objects: Seq<GameObject>, tile: int) -> Seq<bool> {
    Seq::new(
        objects.len(),
        |i: int| !objects[i].slippery && !objects[i].transporter && !rides_on(objects, tile, i),
    )
}

/// The way that the forcing tile `tile` sends its rider `rider`: ice the way
/// the rider faces, a conveyor the way the conveyor faces.
pub open spec fn forced_direction(objects: Seq<GameObject>, tile: int, rider: int) -> Direction {
    if objects[tile].slippery {
        objects[rider].direction
    } else {
        objects[tile].direction
    }
}

/// The objects, and which of them have been carried on, after the forcing
/// tile `tile` has had its turn.
///
/// A tile with exactly one rider tries to move it on. Where that works, the
/// rider is not carried again in this pass. Where the rider collides, the
/// tile is switched off, so that the rider can walk off by itself.
pub open spec fn after_forcing_tile(
    objects: Seq<GameObject>,
    moved: Set<usize>,
    dimensions: Dimensions,
    tile: int,
    slippery: bool,
) -> (Seq<GameObject>, Set<usize>) {
    match sole_rider(objects, moved, tile) {
        Some(rider) if is_forcing(objects, tile, slippery) => {
            let direction = forced_direction(objects, tile, rider);
            let among = not_riding(objects, tile);
            let outcome = attempt_outcome(objects, rider, direction, dimensions, among);
            let after = objects_after_attempt(objects, rider, direction, dimensions, among);
            if outcome is Ok {
                (after, moved.insert(rider as usize))
            } else if is_collision(outcome) {
                (after.update(tile, after[tile].switched(BlocksMovement::Disabled)), moved)
            } else {
                (after, moved)
            }
        },
        _ => (objects, moved),
    }
}

/// The objects, and which of them have been carried on, after the first `n`
/// objects have had their turn as forcing tiles of the kind in turn.
pub open spec fn after_forcing_tiles(
    objects: Seq<GameObject>,
    moved: Set<usize>,
    dimensions: Dimensions,
    slippery: bool,
    n: nat,
) -> (Seq<GameObject>, Set<usize>)
    decreases n,
{
    if n == 0 {
        (objects, moved)
    } else {
        let earlier = after_forcing_tiles(objects, moved, dimensions, slippery, (n - 1) as nat);
        after_forcing_tile(earlier.0, earlier.1, dimensions, n - 1, slippery)
    }
}

/// All objects after one pass of forced movement: first every ice tile has
/// its turn, then every conveyor, and nothing is carried on twice.
pub open spec fn objects_after_forced_movement(
    objects: Seq<GameObject>,
    dimensions: Dimensions,
) -> Seq<GameObject> {
    let slid = after_forcing_tiles(objects, Set::empty(), dimensions, true, objects.len());
    after_forcing_tiles(slid.0, slid.1, dimensions, false, objects.len()).0
}

fn does_ride(objects: &Vec<GameObject>, tile: usize, i: usize) -> (rides: bool)
    requires
        tile < objects@.len(),
        i < objects@.len(),
    ensures
        rides == rides_on(objects@, tile as int, i as int),
{
    !objects[i].slippery && !objects[i].transporter && !objects[i].immovable
        && objects[i].position.x == objects[tile].position.x && objects[i].position.y
        == objects[tile].position.y
}

fn find_sole_rider(objects: &Vec<GameObject>, moved: &BTreeSet<usize>, tile: usize) -> (rider: Option<
    usize,
>)
    requires
        tile < objects@.len(),
    ensures
        match rider {
            Some(index) => sole_rider(objects@, moved@, tile as int) == Some(index as int)
                && is_sole_rider(objects@, moved@, tile as int, index as int),
            None => sole_rider(objects@, moved@, tile as int) is None,
        },
{
    let mut found: Option<usize> = None;
    let mut i: usize = 0;
    while i < objects.len()
        invariant
            i <= objects.len(),
            tile < objects@.len(),
                match found {
                Some(index) => index < i && is_rider(objects@, moved@, tile as int, index as int)
                    && forall|k: int|
                    0 <= k < i && #[trigger] is_rider(objects@, moved@, tile as int, k) ==> k
                        == index,
                None => forall|k: int|
                    0 <= k < i ==> !#[trigger] is_rider(objects@, moved@, tile as int, k),
            },
        decreases objects.len() - i,
    {
        if does_ride(objects, tile, i) && !moved.contains(&i) {
            if found.is_some() {
                proof {
                    let first = found.unwrap() as int;
                    assert(is_rider(objects@, moved@, tile as int, first));
                    assert(is_rider(objects@, moved@, tile as int, i as int));
                    assert forall|k: int| !is_sole_rider(objects@, moved@, tile as int, k) by {}
                }
                return None;
            }
            found = Some(i);
        }
        i += 1;
    }
    proof {
        match found {
            Some(index) => {
                assert(is_sole_rider(objects@, moved@, tile as int, index as int));
                let chosen = choose|k: int| is_sole_rider(objects@, moved@, tile as int, k);
                assert(is_rider(objects@, moved@, tile as int, index as int));
            },
            None => {
                assert forall|k: int| !is_sole_rider(objects@, moved@, tile as int, k) by {}
            },
        }
    }
    found
}

fn mark_not_riding(objects: &Vec<GameObject>, tile: usize) -> (among: Vec<bool>)
    requires
        tile < objects@.len(),
    ensures
        among@ == not_riding(objects@, tile as int),
{
    let mut among: Vec<bool> = Vec::new();
    let mut i: usize = 0;
    while i < objects.len()
        invariant
            i <= objects.len(),
            tile < objects@.len(),
            among@.len() == i,
            forall|k: int|
                0 <= k < i ==> #[trigger] among@[k] == (!objects@[k].slippery
                    && !objects@[k].transporter && !rides_on(objects@, tile as int, k)),
        decreases objects.len() - i,
    {
        among.push(
            !objects[i].slippery && !objects[i].transporter && !does_ride(objects, tile, i),
        );
        i += 1;
    }
    assert(among@ =~= not_riding(objects@, tile as int));
    among
}

fn switch_off(objects: &mut Vec<GameObject>, tile: usize)
    requires
        tile < old(objects)@.len(),
    ensures
        final(objects)@ == old(objects)@.update(
            tile as int,
            old(objects)@[tile as int].switched(BlocksMovement::Disabled),
        ),
{
    let object = objects[tile];
    objects.set(tile, object.switched(BlocksMovement::Disabled));
}

fn force_tile(
    objects: &mut Vec<GameObject>,
    moved: &mut BTreeSet<usize>,
    dimensions: &Dimensions,
    tile: usize,
    slippery: bool,
)
    requires
        tile < old(objects)@.len(),
    ensures
        final(objects)@.len() == old(objects)@.len(),
        (final(objects)@, final(moved)@) == after_forcing_tile(
            old(objects)@,
            old(moved)@,
            *dimensions,
            tile as int,
            slippery,
        ),
{
    let forcing = objects[tile].blocks_movement.is_some() && objects[tile].slippery == slippery
        && objects[tile].transporter == !slippery;
    if !forcing {
        return ;
    }
    let rider = match find_sole_rider(objects, moved, tile) {
        Some(rider) => rider,
        None => {
            return ;
        },
    };
    let direction = if objects[tile].slippery {
        objects[rider].direction
    } else {
        objects[tile].direction
    };
    let among = mark_not_riding(objects, tile);
    match attempt_move(objects, rider, direction, dimensions, &among) {
        Ok(()) => {
            moved.insert(rider);
        },
        Err(error) => {
            if error.is_collision() {
                switch_off(objects, tile);
            }
        },
    }
}

fn force_tiles(
    objects: &mut Vec<GameObject>,
    moved: &mut BTreeSet<usize>,
    dimensions: &Dimensions,
    slippery: bool,
)
    requires
    ensures
        final(objects)@.len() == old(objects)@.len(),
        (final(objects)@, final(moved)@) == after_forcing_tiles(
            old(objects)@,
            old(moved)@,
            *dimensions,
            slippery,
            old(objects)@.len(),
        ),
{
    let ghost before = objects@;
    let ghost moved_before = moved@;
    let mut tile: usize = 0;
    while tile < objects.len()
        invariant
            tile <= objects.len(),
            objects@.len() == before.len(),
            (objects@, moved@) == after_forcing_tiles(
                before,
                moved_before,
                *dimensions,
                slippery,
                tile as nat,
            ),
        decreases objects.len() - tile,
    {
        force_tile(objects, moved, dimensions, tile, slippery);
        tile += 1;
    }
}

/// Lets every forcing tile move on what stands on it: first the ice, then
/// the conveyors, each tile in the order of the objects. To be called
/// whenever the time between two such moves has passed.
pub fn check_for_slippery_and_transporter(objects: &mut Vec<GameObject>, dimensions: &Dimensions)
    ensures
        final(objects)@ == objects_after_forced_movement(old(objects)@, *dimensions),
{
    let mut moved: BTreeSet<usize> = BTreeSet::new();
    force_tiles(objects, &mut moved, dimensions, true);
    force_tiles(objects, &mut moved, dimensions, false);
}

} // verus!
