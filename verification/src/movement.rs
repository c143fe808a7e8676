//! The move resolver: whether an object can advance one cell, and what it
//! pushes along when it does.

use vstd::prelude::*;
use crate::collision_object::CollisionObject;
use crate::components::{BlocksMovement, Direction, Position, Weight};
use crate::levels::Dimensions;
use crate::object_type::ObjectType;

verus! {

/// Why an object could not move.
#[derive(Clone, Copy, Debug, PartialEq, Eq, Structural)]
pub enum MoveObjectError {
    /// The cell ahead lies outside the grid.
    EdgeCollision,
    /// The cell ahead holds a massive object that cannot be pushed on.
    ObjectCollision,
    /// The tile under the object does not let it go.
    MovementBlocked,
}

impl MoveObjectError {
    pub open spec fn spec_is_collision(self) -> bool {
        self != MoveObjectError::MovementBlocked
    }

    /// Whether the object ran into the edge or into another object. An object
    /// that moves by itself turns on a collision, and simply tries again
    /// later when its tile held it back.
    #[verifier::when_used_as_spec(spec_is_collision)]
    pub fn is_collision(self) -> (collision: bool)
        ensures
            collision == self.spec_is_collision(),
    {
        match self {
            MoveObjectError::EdgeCollision | MoveObjectError::ObjectCollision => true,
            MoveObjectError::MovementBlocked => false,
        }
    }
}

/// The cell two steps from `position` in `direction`: the one that an object
/// on the cell ahead is pushed to.
pub open spec fn cell_beyond(position: Position, direction: Direction) -> (int, int) {
    (position.x + 2 * direction.as_delta().0, position.y + 2 * direction.as_delta().1)
}

/// Whether `candidate` is the cell `position` itself or lies straight ahead of
/// it in `direction`, at any distance.
pub open spec fn on_line(candidate: Position, position: Position, direction: Direction) -> bool {
    candidate == position || match direction {
        Direction::Up => candidate.x == position.x && candidate.y < position.y,
        Direction::Right => candidate.x > position.x && candidate.y == position.y,
        Direction::Down => candidate.x == position.x && candidate.y > position.y,
        Direction::Left => candidate.x < position.x && candidate.y == position.y,
    }
}

/// The number of steps along the axes from `candidate` to `cell`.
pub open spec fn distance(candidate: Position, cell: (int, int)) -> int {
    (if candidate.x >= cell.0 {
        candidate.x - cell.0
    } else {
        cell.0 - candidate.x
    }) + (if candidate.y >= cell.1 {
        candidate.y - cell.1
    } else {
        cell.1 - candidate.y
    })
}

/// Whether the index `i` occurs in `indices`.
pub open spec fn lists(indices: Seq<usize>, i: int) -> bool {
    exists|k: int| 0 <= k < indices.len() && (#[trigger] indices[k]) as int == i
}

/// Whether the object with index `a` comes before the one with index `b` when
/// objects are taken by their distance from `cell`, and those equally far by
/// their index.
pub open spec fn nearer_first(
    objects: Seq<CollisionObject>,
    cell: (int, int),
    a: usize,
    b: usize,
) -> bool {
    let near = distance(objects[a as int].position, cell);
    let far = distance(objects[b as int].position, cell);
    near < far || (near == far && a < b)
}

/// Whether `indices` is in the order of `nearer_first`.
pub open spec fn is_nearest_first(
    indices: Seq<usize>,
    objects: Seq<CollisionObject>,
    cell: (int, int),
) -> bool {
    forall|k: int, l: int|
        0 <= k < l < indices.len() ==> nearer_first(
            objects,
            cell,
            #[trigger] indices[k],
            #[trigger] indices[l],
        )
}

/// Whether `candidates` lists the objects on the line of a move exactly once
/// each, those nearest to the cell ahead first, and those equally near in the
/// order in which `objects` holds them.
pub open spec fn is_candidate_order(
    candidates: Seq<usize>,
    position: Position,
    direction: Direction,
    objects: Seq<CollisionObject>,
) -> bool {
    &&& forall|k: int|
        0 <= k < candidates.len() ==> (#[trigger] candidates[k]) < objects.len() && on_line(
            objects[candidates[k] as int].position,
            position,
            direction,
        )
    &&& forall|i: int|
        0 <= i < objects.len() && on_line((#[trigger] objects[i]).position, position, direction)
            ==> lists(candidates, i)
    &&& is_nearest_first(candidates, objects, position.step(direction))
}

/// Whether some object on `position` keeps what stands there from walking
/// off.
pub open spec fn is_held_at(objects: Seq<CollisionObject>, position: Position) -> bool {
    exists|i: int|
        0 <= i < objects.len() && (#[trigger] objects[i]).has_position(position)
            && objects[i].blocks_movement()
}

/// Whether `cell` lies on the grid and holds nothing that is massive,
/// pushable or refuses pushes.
pub open spec fn can_push_to(
    objects: Seq<CollisionObject>,
    dimensions: Dimensions,
    cell: (int, int),
) -> bool {
    dimensions.contains_cell(cell) && forall|i: int|
        0 <= i < objects.len() && (#[trigger] objects[i]).position.is_at(cell)
            ==> objects[i].can_push_on()
}

/// Whether `cell` holds an object that mixes with one of kind `other`.
pub open spec fn can_mix_at(
    objects: Seq<CollisionObject>,
    cell: (int, int),
    other: ObjectType,
) -> bool {
    exists|i: int|
        0 <= i < objects.len() && (#[trigger] objects[i]).position.is_at(cell)
            && objects[i].can_mix_with(other)
}

/// Whether `cell` holds an object that a key opens.
pub open spec fn can_open_at(objects: Seq<CollisionObject>, cell: (int, int)) -> bool {
    exists|i: int|
        0 <= i < objects.len() && (#[trigger] objects[i]).position.is_at(cell)
            && objects[i].can_open_with_key()
}

/// Whether `cell` holds an object that can be painted.
pub open spec fn can_paint_at(objects: Seq<CollisionObject>, cell: (int, int)) -> bool {
    exists|i: int|
        0 <= i < objects.len() && (#[trigger] objects[i]).position.is_at(cell)
            && objects[i].is_paintable()
}

/// Whether `occupant` gives way to a mover of weight `max_weight` by moving on
/// to `cell`: it is pushable and no heavier than the mover, and the cell is
/// free to be pushed to, or holds something that the occupant mixes with,
/// opens as a key, or paints.
pub open spec fn can_displace(
    objects: Seq<CollisionObject>,
    dimensions: Dimensions,
    occupant: CollisionObject,
    cell: (int, int),
    max_weight: Weight,
) -> bool {
    &&& occupant.weight().at_most(max_weight)
    &&& occupant.is_pushable()
    &&& (can_push_to(objects, dimensions, cell) || can_mix_at(objects, cell, occupant.object_type())
        || (occupant.is_key() && can_open_at(objects, cell)) || (occupant.is_paint()
        && can_paint_at(objects, cell)))
}

/// Whether the object with index `i` is pushed on by a move from `position` in
/// `direction`: it stands on the cell ahead and gives way.
pub open spec fn is_displaced(
    objects: Seq<CollisionObject>,
    i: int,
    position: Position,
    direction: Direction,
    dimensions: Dimensions,
    max_weight: Weight,
) -> bool {
    objects[i].position.is_at(position.step(direction)) && can_displace(
        objects,
        dimensions,
        objects[i],
        cell_beyond(position, direction),
        max_weight,
    )
}

/// Whether the object with index `i` stops a move from `position` in
/// `direction`: it stands on the cell ahead, is massive, and does not give
/// way.
pub open spec fn is_obstacle(
    objects: Seq<CollisionObject>,
    i: int,
    position: Position,
    direction: Direction,
    dimensions: Dimensions,
    max_weight: Weight,
) -> bool {
    &&& objects[i].position.is_at(position.step(direction))
    &&& objects[i].is_massive()
    &&& !can_displace(objects, dimensions, objects[i], cell_beyond(position, direction), max_weight)
}

/// How a move of an object of weight `max_weight` from `position` in
/// `direction` ends: at the edge of the grid, held back by the tile under the
/// object, stopped by an obstacle on the cell ahead, or well. The first of
/// these that applies decides.
#[verifier::opaque]
pub open spec fn move_outcome(
    position: Position,
    direction: Direction,
    dimensions: Dimensions,
    objects: Seq<CollisionObject>,
    max_weight: Weight,
) -> Result<(), MoveObjectError> {
    if !dimensions.contains_cell(position.step(direction)) {
        Err(MoveObjectError::EdgeCollision)
    } else if is_held_at(objects, position) {
        Err(MoveObjectError::MovementBlocked)
    } else if exists|i: int|
        0 <= i < objects.len() && #[trigger] is_obstacle(
            objects,
            i,
            position,
            direction,
            dimensions,
            max_weight,
        ) {
        Err(MoveObjectError::ObjectCollision)
    } else {
        Ok(())
    }
}

/// The object with index `i` after a successful move from `position` in
/// `direction`. One that is pushed on stands one cell further and faces the
/// way it was pushed. A forcing tile on the cell that the mover has left
/// holds again what steps onto it. Every other object is as before.
#[verifier::opaque]
pub open spec fn object_after_move(
    objects: Seq<CollisionObject>,
    i: int,
    position: Position,
    direction: Direction,
    dimensions: Dimensions,
    max_weight: Weight,
) -> CollisionObject {
    let object = objects[i];
    if is_displaced(objects, i, position, direction, dimensions, max_weight) {
        CollisionObject {
            position: Position {
                x: (object.position.x + direction.as_delta().0) as i16,
                y: (object.position.y + direction.as_delta().1) as i16,
            },
            direction,
            ..object
        }
    } else if object.has_position(position) && object.blocks_movement is Some {
        CollisionObject { blocks_movement: Some(BlocksMovement::Enabled), ..object }
    } else {
        object
    }
}

/// All objects after a successful move from `position` in `direction`.
pub open spec fn objects_after_move(
    objects: Seq<CollisionObject>,
    position: Position,
    direction: Direction,
    dimensions: Dimensions,
    max_weight: Weight,
) -> Seq<CollisionObject> {
    Seq::new(
        objects.len(),
        |i: int| object_after_move(objects, i, position, direction, dimensions, max_weight),
    )
}

/// An object that is pushed on lands on a cell of the grid or on the cell of
/// another object, so its new coordinates are those of a cell.
pub proof fn lemma_displaced_lands_on_a_cell(
    objects: Seq<CollisionObject>,
    i: int,
    position: Position,
    direction: Direction,
    dimensions: Dimensions,
    max_weight: Weight,
)
    requires
        0 <= i < objects.len(),
        is_displaced(objects, i, position, direction, dimensions, max_weight),
    ensures
        object_after_move(objects, i, position, direction, dimensions, max_weight).position.is_at(
            cell_beyond(position, direction),
        ),
        object_after_move(objects, i, position, direction, dimensions, max_weight).position.is_at(
            objects[i].position.step(direction),
        ),
{
    reveal(object_after_move);
    let cell = cell_beyond(position, direction);
    assert(i16::MIN <= cell.0 <= i16::MAX && i16::MIN <= cell.1 <= i16::MAX);
}

/// An object that is heavier than the mover is never pushed on, whatever
/// else holds: it stands after the move where it stood before.
pub proof fn lemma_heavier_object_stays(
    objects: Seq<CollisionObject>,
    i: int,
    position: Position,
    direction: Direction,
    dimensions: Dimensions,
    max_weight: Weight,
)
    requires
        0 <= i < objects.len(),
        !objects[i].weight().at_most(max_weight),
    ensures
        !is_displaced(objects, i, position, direction, dimensions, max_weight),
        object_after_move(objects, i, position, direction, dimensions, max_weight).position
            == objects[i].position,
{
    reveal(object_after_move);
}

/// A light mover never moves a heavy object.
pub proof fn lemma_light_never_displaces_heavy(
    objects: Seq<CollisionObject>,
    i: int,
    position: Position,
    direction: Direction,
    dimensions: Dimensions,
)
    requires
        0 <= i < objects.len(),
        objects[i].weight() == Weight::Heavy,
    ensures
        !is_displaced(objects, i, position, direction, dimensions, Weight::Light),
        object_after_move(objects, i, position, direction, dimensions, Weight::Light).position
            == objects[i].position,
{
    reveal(object_after_move);
}

/// A successful move shifts the mover and every object that it pushes by the
/// same single step, so each pushed object is as far from the mover, and from
/// every other pushed object, as it was before. An object that is not pushed
/// stays where it is.
pub proof fn lemma_push_keeps_spacing(
    objects: Seq<CollisionObject>,
    i: int,
    j: int,
    position: Position,
    direction: Direction,
    dimensions: Dimensions,
    max_weight: Weight,
)
    requires
        0 <= i < objects.len(),
        0 <= j < objects.len(),
        move_outcome(position, direction, dimensions, objects, max_weight) is Ok,
    ensures
        ({
            let at = |k: int|
                object_after_move(objects, k, position, direction, dimensions, max_weight).position;
            let pushed = |k: int|
                is_displaced(objects, k, position, direction, dimensions, max_weight);
            let mover = position.step(direction);
            &&& pushed(i) ==> at(i).is_at(objects[i].position.step(direction))
            &&& pushed(i) ==> at(i).x - mover.0 == objects[i].position.x - position.x && at(i).y
                - mover.1 == objects[i].position.y - position.y
            &&& pushed(i) && pushed(j) ==> at(i).x - at(j).x == objects[i].position.x
                - objects[j].position.x && at(i).y - at(j).y == objects[i].position.y
                - objects[j].position.y
            &&& !pushed(i) ==> at(i) == objects[i].position
        }),
{
    reveal(object_after_move);
    reveal(move_outcome);
    if is_displaced(objects, i, position, direction, dimensions, max_weight) {
        lemma_displaced_lands_on_a_cell(objects, i, position, direction, dimensions, max_weight);
    }
    if is_displaced(objects, j, position, direction, dimensions, max_weight) {
        lemma_displaced_lands_on_a_cell(objects, j, position, direction, dimensions, max_weight);
    }
}

/// After a successful move no forcing tile on the cell that the mover has
/// left is switched off, and nothing but a pushed object has changed
/// otherwise.
pub proof fn lemma_left_tiles_hold_again(
    objects: Seq<CollisionObject>,
    i: int,
    position: Position,
    direction: Direction,
    dimensions: Dimensions,
    max_weight: Weight,
)
    requires
        0 <= i < objects.len(),
    ensures
        ({
            let after = object_after_move(
                objects,
                i,
                position,
                direction,
                dimensions,
                max_weight,
            );
            &&& objects[i].has_position(position) ==> after.blocks_movement != Some(
                BlocksMovement::Disabled,
            )
            &&& after.blocks_movement is Some <==> objects[i].blocks_movement is Some
            &&& !objects[i].has_position(position) ==> after.blocks_movement
                == objects[i].blocks_movement
        }),
{
    reveal(object_after_move);
}

fn distance_to(position: Position, x: i32, y: i32) -> (steps: i32)
    requires
        -40000 <= x <= 40000,
        -40000 <= y <= 40000,
    ensures
        steps == distance(position, (x as int, y as int)),
{
    let px: i32 = position.x as i32;
    let py: i32 = position.y as i32;
    let along: i32 = if px >= x {
        px - x
    } else {
        x - px
    };
    let across: i32 = if py >= y {
        py - y
    } else {
        y - py
    };
    along + across
}

fn is_on_line(candidate: Position, position: Position, direction: Direction) -> (on: bool)
    ensures
        on == on_line(candidate, position, direction),
{
    (candidate.x == position.x && candidate.y == position.y) || match direction {
        Direction::Up => candidate.x == position.x && candidate.y < position.y,
        Direction::Right => candidate.x > position.x && candidate.y == position.y,
        Direction::Down => candidate.x == position.x && candidate.y > position.y,
        Direction::Left => candidate.x < position.x && candidate.y == position.y,
    }
}

/// Putting a further index into a list that is nearest first, behind all that
/// are no farther, keeps the list nearest first and adds that index alone.
proof fn lemma_insert_keeps_order(
    earlier: Seq<usize>,
    at: int,
    i: usize,
    objects: Seq<CollisionObject>,
    cell: (int, int),
)
    requires
        0 <= at <= earlier.len(),
        is_nearest_first(earlier, objects, cell),
        forall|k: int| 0 <= k < earlier.len() ==> (#[trigger] earlier[k]) < i,
        forall|k: int|
            0 <= k < at ==> distance(objects[(#[trigger] earlier[k]) as int].position, cell)
                <= distance(objects[i as int].position, cell),
        at < earlier.len() ==> distance(objects[earlier[at] as int].position, cell) > distance(
            objects[i as int].position,
            cell,
        ),
    ensures
        is_nearest_first(earlier.insert(at, i), objects, cell),
        lists(earlier.insert(at, i), i as int),
        forall|j: int| lists(earlier, j) ==> lists(earlier.insert(at, i), j),
        forall|k: int|
            0 <= k < earlier.insert(at, i).len() ==> (#[trigger] earlier.insert(at, i)[k]) == i
                || lists(earlier, earlier.insert(at, i)[k] as int),
{
    let later = earlier.insert(at, i);
    assert(later.len() == earlier.len() + 1);
    assert(forall|k: int| 0 <= k < at ==> later[k] == earlier[k]);
    assert(later[at] == i);
    assert(forall|k: int| at < k < later.len() ==> later[k] == earlier[k - 1]);
    assert forall|k: int, l: int| 0 <= k < l < later.len() implies nearer_first(
        objects,
        cell,
        #[trigger] later[k],
        #[trigger] later[l],
    ) by {
        if l < at {
            assert(nearer_first(objects, cell, earlier[k], earlier[l]));
        } else if l == at {
            assert(earlier[k] < i);
        } else if k < at {
            assert(nearer_first(objects, cell, earlier[k], earlier[l - 1]));
        } else if k == at {
            if at < l - 1 {
                assert(nearer_first(objects, cell, earlier[at], earlier[l - 1]));
            }
        } else {
            assert(nearer_first(objects, cell, earlier[k - 1], earlier[l - 1]));
        }
    }
    assert forall|j: int| lists(earlier, j) implies lists(later, j) by {
        let k = choose|k: int| 0 <= k < earlier.len() && (#[trigger] earlier[k]) as int == j;
        if k < at {
            assert(later[k] as int == j);
        } else {
            assert(later[k + 1] as int == j);
        }
    }
    assert forall|k: int| 0 <= k < later.len() implies (#[trigger] later[k]) == i || lists(
        earlier,
        later[k] as int,
    ) by {
        if k < at {
            assert(earlier[k] == later[k]);
        } else if k > at {
            assert(earlier[k - 1] == later[k]);
        }
    }
}

/// The objects that a move from `position` in `direction` has to look at:
/// those on `position` and those straight ahead of it, by their indices in
/// `objects`, nearest to the cell ahead first.
pub fn line_candidates(
    position: Position,
    direction: Direction,
    objects: &Vec<CollisionObject>,
) -> (candidates: Vec<usize>)
    ensures
        is_candidate_order(candidates@, position, direction, objects@),
{
    let (dx, dy) = direction.as_delta();
    let target_x: i32 = position.x as i32 + dx as i32;
    let target_y: i32 = position.y as i32 + dy as i32;
    let ghost target = position.step(direction);
    let mut candidates: Vec<usize> = Vec::new();
    let mut i: usize = 0;
    while i < objects.len()
        invariant
            i <= objects.len(),
            target == (target_x as int, target_y as int),
            -40000 <= target_x <= 40000,
            -40000 <= target_y <= 40000,
            forall|k: int|
                0 <= k < candidates@.len() ==> (#[trigger] candidates@[k]) < i && on_line(
                    objects@[candidates@[k] as int].position,
                    position,
                    direction,
                ),
            forall|j: int|
                0 <= j < i && on_line((#[trigger] objects@[j]).position, position, direction)
                    ==> lists(candidates@, j),
            is_nearest_first(candidates@, objects@, target),
        decreases objects.len() - i,
    {
        if is_on_line(objects[i].position, position, direction) {
            let steps = distance_to(objects[i].position, target_x, target_y);
            let mut at: usize = 0;
            while at < candidates.len() && distance_to(
                objects[candidates[at]].position,
                target_x,
                target_y,
            ) <= steps
                invariant
                    at <= candidates@.len(),
                    i < objects.len(),
                    target == (target_x as int, target_y as int),
                    -40000 <= target_x <= 40000,
                    -40000 <= target_y <= 40000,
                    steps == distance(objects@[i as int].position, target),
                    forall|k: int|
                        0 <= k < candidates@.len() ==> (#[trigger] candidates@[k]) < i,
                    forall|k: int|
                        0 <= k < at ==> distance(
                            objects@[(#[trigger] candidates@[k]) as int].position,
                            target,
                        ) <= steps,
                decreases candidates@.len() - at,
            {
                at += 1;
            }
            let ghost earlier = candidates@;
            candidates.insert(at, i);
            proof {
                lemma_insert_keeps_order(earlier, at as int, i, objects@, target);
                assert forall|k: int| 0 <= k < candidates@.len() implies (
                #[trigger] candidates@[k]) < i + 1 && on_line(
                    objects@[candidates@[k] as int].position,
                    position,
                    direction,
                ) by {
                    if candidates@[k] != i {
                        let e = choose|e: int|
                            0 <= e < earlier.len() && (#[trigger] earlier[e]) as int
                                == candidates@[k] as int;
                    }
                }
            }
        }
        i += 1;
    }
    candidates
}

/// What the resolver asks of the objects on a cell.
#[derive(Clone, Copy)]
enum Probe {
    RefusesPush,
    MixesWith(ObjectType),
    OpensWithKey,
    Paintable,
}

impl Probe {
    spec fn spec_matches(self, object: CollisionObject) -> bool {
        match self {
            Probe::RefusesPush => !object.can_push_on(),
            Probe::MixesWith(other) => object.can_mix_with(other),
            Probe::OpensWithKey => object.can_open_with_key(),
            Probe::Paintable => object.is_paintable(),
        }
    }

    #[verifier::when_used_as_spec(spec_matches)]
    fn matches(self, object: CollisionObject) -> (found: bool)
        ensures
            found == self.spec_matches(object),
    {
        match self {
            Probe::RefusesPush => !object.can_push_on(),
            Probe::MixesWith(other) => object.can_mix_with(other),
            Probe::OpensWithKey => object.can_open_with_key(),
            Probe::Paintable => object.is_paintable(),
        }
    }
}

/// Whether every object on `cell` is among `candidates`.
spec fn covers(candidates: Seq<usize>, objects: Seq<CollisionObject>, cell: (int, int)) -> bool {
    forall|i: int|
        0 <= i < objects.len() && (#[trigger] objects[i]).position.is_at(cell)
            ==> lists(candidates, i)
}

/// The candidates of a move hold every object on the cell that the mover
/// leaves, on the cell ahead and on the cell beyond that.
proof fn lemma_candidates_cover_the_cells(
    candidates: Seq<usize>,
    position: Position,
    direction: Direction,
    objects: Seq<CollisionObject>,
)
    requires
        is_candidate_order(candidates, position, direction, objects),
    ensures
        covers(candidates, objects, (position.x as int, position.y as int)),
        covers(candidates, objects, position.step(direction)),
        covers(candidates, objects, cell_beyond(position, direction)),
{
}

fn any_at(
    objects: &Vec<CollisionObject>,
    candidates: &Vec<usize>,
    x: i32,
    y: i32,
    probe: Probe,
) -> (found: bool)
    requires
        forall|k: int| 0 <= k < candidates@.len() ==> (#[trigger] candidates@[k]) < objects@.len(),
        covers(candidates@, objects@, (x as int, y as int)),
    ensures
        found == exists|i: int|
            0 <= i < objects@.len() && (#[trigger] objects@[i]).position.is_at(
                (x as int, y as int),
            ) && probe.matches(objects@[i]),
{
    let mut k: usize = 0;
    while k < candidates.len()
        invariant
            k <= candidates@.len(),
            forall|j: int|
                0 <= j < candidates@.len() ==> (#[trigger] candidates@[j]) < objects@.len(),
            forall|j: int|
                0 <= j < k ==> !(objects@[(#[trigger] candidates@[j]) as int].position.is_at(
                    (x as int, y as int),
                ) && probe.matches(objects@[candidates@[j] as int])),
        decreases candidates@.len() - k,
    {
        let object = objects[candidates[k]];
        if object.position.x as i32 == x && object.position.y as i32 == y && probe.matches(
            object,
        ) {
            return true;
        }
        k += 1;
    }
    proof {
        assert forall|i: int|
            0 <= i < objects@.len() && (#[trigger] objects@[i]).position.is_at(
                (x as int, y as int),
            ) implies !probe.matches(objects@[i]) by {
            let j = choose|j: int| 0 <= j < candidates@.len() && candidates@[j] as int == i;
            assert(candidates@[j] as int == i);
        }
    }
    false
}

fn gives_way(
    objects: &Vec<CollisionObject>,
    candidates: &Vec<usize>,
    dimensions: &Dimensions,
    occupant: CollisionObject,
    x: i32,
    y: i32,
    max_weight: Weight,
) -> (yields: bool)
    requires
        forall|k: int| 0 <= k < candidates@.len() ==> (#[trigger] candidates@[k]) < objects@.len(),
        covers(candidates@, objects@, (x as int, y as int)),
    ensures
        yields == can_displace(objects@, *dimensions, occupant, (x as int, y as int), max_weight),
{
    if !(occupant.weight().at_most(max_weight) && occupant.is_pushable()) {
        return false;
    }
    let inside = 1 <= x && x <= dimensions.width as i32 && 1 <= y && y <= dimensions.height as i32;
    if inside && !any_at(objects, candidates, x, y, Probe::RefusesPush) {
        return true;
    }
    if any_at(objects, candidates, x, y, Probe::MixesWith(occupant.object_type())) {
        return true;
    }
    if occupant.is_key() && any_at(objects, candidates, x, y, Probe::OpensWithKey) {
        return true;
    }
    occupant.is_paint() && any_at(objects, candidates, x, y, Probe::Paintable)
}

/// Tries to advance an object of weight `max_weight` from `object_position`
/// one cell in `direction`, among `collision_objects`, which are all the other
/// objects that can be in its way.
///
/// The move fails at the edge of the grid, where a forcing tile under the
/// object holds it, and where the cell ahead holds a massive object that does
/// not give way; then nothing is changed. Otherwise the object advances, each
/// object on the cell ahead that gives way is pushed one cell on and turned
/// to face that way, and the forcing tiles on the cell that the object has
/// left hold again.
pub fn move_object(
    object_position: &mut Position,
    direction: Direction,
    dimensions: &Dimensions,
    collision_objects: &mut Vec<CollisionObject>,
    max_weight: Weight,
) -> (result: Result<(), MoveObjectError>)
    ensures
        result == move_outcome(
            *old(object_position),
            direction,
            *dimensions,
            old(collision_objects)@,
            max_weight,
        ),
        result is Err ==> *final(object_position) == *old(object_position)
            && final(collision_objects)@ == old(collision_objects)@,
        result is Ok ==> final(object_position).is_at(old(object_position).step(direction))
            && final(collision_objects)@ == objects_after_move(
            old(collision_objects)@,
            *old(object_position),
            direction,
            *dimensions,
            max_weight,
        ),
{
    proof {
        reveal(move_outcome);
        reveal(object_after_move);
    }
    let ghost start = *object_position;
    let ghost before = collision_objects@;
    let origin = *object_position;
    let (dx, dy) = direction.as_delta();
    let new_x: i32 = origin.x as i32 + dx as i32;
    let new_y: i32 = origin.y as i32 + dy as i32;
    if !(1 <= new_x && new_x <= dimensions.width as i32 && 1 <= new_y && new_y
        <= dimensions.height as i32) {
        return Err(MoveObjectError::EdgeCollision);
    }
    let candidates = line_candidates(origin, direction, collision_objects);
    proof {
        lemma_candidates_cover_the_cells(candidates@, start, direction, before);
    }

    let mut k: usize = 0;
    while k < candidates.len()
        invariant
            k <= candidates@.len(),
            collision_objects@ == before,
            before == old(collision_objects)@,
            origin == start,
            start == *old(object_position),
            *object_position == start,
            dimensions.contains_cell(start.step(direction)),
            is_candidate_order(candidates@, start, direction, before),
            forall|j: int|
                0 <= j < k ==> !(before[(#[trigger] candidates@[j]) as int].has_position(start)
                    && before[candidates@[j] as int].blocks_movement()),
        decreases candidates@.len() - k,
    {
        proof {
            reveal(move_outcome);
            reveal(object_after_move);
        }
        let object = collision_objects[candidates[k]];
        if object.has_position(origin) && object.blocks_movement() {
            assert(is_held_at(before, start));
            return Err(MoveObjectError::MovementBlocked);
        }
        k += 1;
    }
    proof {
        assert forall|i: int| 0 <= i < before.len() && (#[trigger] before[i]).has_position(
            start,
        ) implies !before[i].blocks_movement() by {
            assert(before[i].position.is_at((start.x as int, start.y as int)));
            let j = choose|j: int| 0 <= j < candidates@.len() && candidates@[j] as int == i;
            assert(candidates@[j] as int == i);
        }
        assert(!is_held_at(before, start));
    }

    let mut pushed: Vec<usize> = Vec::new();
    k = 0;
    while k < candidates.len()
        invariant
            k <= candidates@.len(),
            collision_objects@ == before,
            before == old(collision_objects)@,
            origin == start,
            start == *old(object_position),
            *object_position == start,
            (new_x as int, new_y as int) == start.step(direction),
            (dx, dy) == direction.as_delta(),
            dimensions.contains_cell(start.step(direction)),
            !is_held_at(before, start),
            is_candidate_order(candidates@, start, direction, before),
            covers(candidates@, before, cell_beyond(start, direction)),
            forall|j: int|
                0 <= j < k ==> !is_obstacle(
                    before,
                    (#[trigger] candidates@[j]) as int,
                    start,
                    direction,
                    *dimensions,
                    max_weight,
                ),
            forall|p: int|
                0 <= p < pushed@.len() ==> (#[trigger] pushed@[p]) < k && is_displaced(
                    before,
                    candidates@[pushed@[p] as int] as int,
                    start,
                    direction,
                    *dimensions,
                    max_weight,
                ),
            forall|p: int, q: int|
                0 <= p < q < pushed@.len() ==> (#[trigger] pushed@[p]) < (#[trigger] pushed@[q]),
            forall|j: int|
                0 <= j < k && is_displaced(
                    before,
                    (#[trigger] candidates@[j]) as int,
                    start,
                    direction,
                    *dimensions,
                    max_weight,
                ) ==> lists(pushed@, j),
        decreases candidates@.len() - k,
    {
        proof {
            reveal(move_outcome);
            reveal(object_after_move);
        }
        let object = collision_objects[candidates[k]];
        if object.position.x as i32 == new_x && object.position.y as i32 == new_y {
            if gives_way(
                collision_objects,
                &candidates,
                dimensions,
                object,
                new_x + dx as i32,
                new_y + dy as i32,
                max_weight,
            ) {
                let ghost earlier = pushed@;
                pushed.push(k);
                proof {
                    assert forall|j: int|
                        0 <= j < k + 1 && is_displaced(
                            before,
                            (#[trigger] candidates@[j]) as int,
                            start,
                            direction,
                            *dimensions,
                            max_weight,
                        ) implies lists(pushed@, j) by {
                        if j < k {
                            let p = choose|p: int| 0 <= p < earlier.len() && earlier[p] as int == j;
                            assert(pushed@[p] as int == j);
                        } else {
                            assert(pushed@[earlier.len() as int] as int == j);
                        }
                    }
                }
            } else if object.is_massive() {
                proof {
                    assert(is_obstacle(
                        before,
                        candidates@[k as int] as int,
                        start,
                        direction,
                        *dimensions,
                        max_weight,
                    ));
                }
                return Err(MoveObjectError::ObjectCollision);
            }
        }
        k += 1;
    }
    proof {
        assert forall|i: int| 0 <= i < before.len() implies !#[trigger] is_obstacle(
            before,
            i,
            start,
            direction,
            *dimensions,
            max_weight,
        ) by {
            if before[i].position.is_at(start.step(direction)) {
                let j = choose|j: int| 0 <= j < candidates@.len() && candidates@[j] as int == i;
                assert(candidates@[j] as int == i);
            }
        }
    }

    let mut p: usize = 0;
    while p < pushed.len()
        invariant
            p <= pushed@.len(),
            collision_objects@.len() == before.len(),
            (dx, dy) == direction.as_delta(),
            is_candidate_order(candidates@, start, direction, before),
            forall|q: int|
                0 <= q < pushed@.len() ==> (#[trigger] pushed@[q]) < candidates@.len()
                    && is_displaced(
                    before,
                    candidates@[pushed@[q] as int] as int,
                    start,
                    direction,
                    *dimensions,
                    max_weight,
                ),
            forall|q: int, r: int|
                0 <= q < r < pushed@.len() ==> (#[trigger] pushed@[q]) < (#[trigger] pushed@[r]),
            forall|i: int|
                0 <= i < before.len() ==> #[trigger] collision_objects@[i] == (if exists|q: int|
                    0 <= q < p && candidates@[pushed@[q] as int] as int == i {
                    object_after_move(before, i, start, direction, *dimensions, max_weight)
                } else {
                    before[i]
                }),
        decreases pushed@.len() - p,
    {
        proof {
            reveal(move_outcome);
            reveal(object_after_move);
        }
        let index = candidates[pushed[p]];
        let object = collision_objects[index];
        proof {
            let i = index as int;
            assert(candidates@[pushed@[p as int] as int] == index);
            assert(is_displaced(before, i, start, direction, *dimensions, max_weight));
            if exists|q: int| 0 <= q < p && candidates@[pushed@[q] as int] as int == i {
                let q = choose|q: int| 0 <= q < p && candidates@[pushed@[q] as int] as int == i;
                assert(pushed@[q] < pushed@[p as int]);
                let a = pushed@[q] as int;
                let b = pushed@[p as int] as int;
                assert(candidates@[a] == candidates@[b]);
                assert(false);
            }
            assert(object == before[i]);
            lemma_displaced_lands_on_a_cell(before, i, start, direction, *dimensions, max_weight);
        }
        let moved = CollisionObject {
            position: Position { x: object.position.x + dx, y: object.position.y + dy },
            direction,
            ..object
        };
        let ghost earlier = collision_objects@;
        collision_objects.set(index, moved);
        proof {
            assert forall|i: int| 0 <= i < before.len() implies #[trigger] collision_objects@[i]
                == (if exists|q: int|
                0 <= q < p + 1 && candidates@[pushed@[q] as int] as int == i {
                object_after_move(before, i, start, direction, *dimensions, max_weight)
            } else {
                before[i]
            }) by {
                if i == index as int {
                    assert(candidates@[pushed@[p as int] as int] as int == i);
                } else if exists|q: int|
                    0 <= q < p && candidates@[pushed@[q] as int] as int == i {
                    let q = choose|q: int|
                        0 <= q < p && candidates@[pushed@[q] as int] as int == i;
                    assert(0 <= q < p + 1 && candidates@[pushed@[q] as int] as int == i);
                    assert(collision_objects@[i] == earlier[i]);
                } else {
                    assert(collision_objects@[i] == earlier[i]);
                }
            }
        }
        p += 1;
    }
    let ghost shifted = collision_objects@;
    proof {
        assert forall|i: int| 0 <= i < before.len() implies #[trigger] shifted[i] == (
        if is_displaced(before, i, start, direction, *dimensions, max_weight) {
            object_after_move(before, i, start, direction, *dimensions, max_weight)
        } else {
            before[i]
        }) by {
            if is_displaced(before, i, start, direction, *dimensions, max_weight) {
                let j = choose|j: int| 0 <= j < candidates@.len() && candidates@[j] as int == i;
                assert(candidates@[j] as int == i);
                let q = choose|q: int| 0 <= q < pushed@.len() && pushed@[q] as int == j;
                assert(candidates@[pushed@[q] as int] as int == i);
            } else if exists|q: int|
                0 <= q < pushed@.len() && candidates@[pushed@[q] as int] as int == i {
                let q = choose|q: int|
                    0 <= q < pushed@.len() && candidates@[pushed@[q] as int] as int == i;
                assert(is_displaced(
                    before,
                    candidates@[pushed@[q] as int] as int,
                    start,
                    direction,
                    *dimensions,
                    max_weight,
                ));
            }
        }
    }

    k = 0;
    while k < candidates.len()
        invariant
            k <= candidates@.len(),
            origin == start,
            collision_objects@.len() == before.len(),
            shifted.len() == before.len(),
            is_candidate_order(candidates@, start, direction, before),
            forall|i: int|
                0 <= i < before.len() ==> #[trigger] shifted[i] == (if is_displaced(
                    before,
                    i,
                    start,
                    direction,
                    *dimensions,
                    max_weight,
                ) {
                    object_after_move(before, i, start, direction, *dimensions, max_weight)
                } else {
                    before[i]
                }),
            forall|i: int|
                0 <= i < before.len() ==> #[trigger] collision_objects@[i] == (if exists|j: int|
                    0 <= j < k && candidates@[j] as int == i {
                    object_after_move(before, i, start, direction, *dimensions, max_weight)
                } else {
                    shifted[i]
                }),
        decreases candidates@.len() - k,
    {
        proof {
            reveal(move_outcome);
            reveal(object_after_move);
        }
        let index = candidates[k];
        let object = collision_objects[index];
        let ghost earlier = collision_objects@;
        proof {
            let i = index as int;
            if exists|j: int| 0 <= j < k && candidates@[j] as int == i {
                let j = choose|j: int| 0 <= j < k && candidates@[j] as int == i;
                assert(false);
            }
            assert(object == shifted[i]);
            if is_displaced(before, i, start, direction, *dimensions, max_weight) {
                lemma_displaced_lands_on_a_cell(
                    before,
                    i,
                    start,
                    direction,
                    *dimensions,
                    max_weight,
                );
            }
        }
        if object.has_position(origin) {
            if object.blocks_movement.is_some() {
                collision_objects.set(
                    index,
                    CollisionObject { blocks_movement: Some(BlocksMovement::Enabled), ..object },
                );
            }
        }
        proof {
            assert forall|i: int| 0 <= i < before.len() implies #[trigger] collision_objects@[i]
                == (if exists|j: int| 0 <= j < k + 1 && candidates@[j] as int == i {
                object_after_move(before, i, start, direction, *dimensions, max_weight)
            } else {
                shifted[i]
            }) by {
                if i == index as int {
                    assert(candidates@[k as int] as int == i);
                } else if exists|j: int| 0 <= j < k && candidates@[j] as int == i {
                    let j = choose|j: int| 0 <= j < k && candidates@[j] as int == i;
                    assert(0 <= j < k + 1 && candidates@[j] as int == i);
                    assert(collision_objects@[i] == earlier[i]);
                } else {
                    assert(collision_objects@[i] == earlier[i]);
                }
            }
        }
        k += 1;
    }
    proof {
        assert forall|i: int| 0 <= i < before.len() implies #[trigger] collision_objects@[i]
            == object_after_move(before, i, start, direction, *dimensions, max_weight) by {
            if exists|j: int| 0 <= j < candidates@.len() && candidates@[j] as int == i {
            } else {
                assert(!lists(candidates@, i));
                assert(!on_line(before[i].position, start, direction));
            }
        }
        assert(collision_objects@ =~= objects_after_move(
            before,
            start,
            direction,
            *dimensions,
            max_weight,
        ));
    }
    object_position.x = new_x as i16;
    object_position.y = new_y as i16;
    Ok(())
}

} // verus!
