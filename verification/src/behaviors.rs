//! The rules that follow a move: what happens to objects that have come to
//! share a cell.
//!
//! Each rule looks at the list of all objects and says which objects are to
//! disappear and which are to appear. Nothing disappears while a rule runs:
//! every decision of one run is taken on the objects as they were when it
//! began.

use vstd::prelude::*;
use crate::components::{Direction, Openable, Position};
use crate::game_object::{lemma_opening_and_anchoring_keep_the_place, Event, GameObject};
use crate::game_state::GameState;
use crate::levels::InitialPositionAndMetadata;
use crate::object_type::{lemma_mixing_is_commutative, ObjectType};

verus! {

/// The events of the rows `0` to `n - 1`, one row after the other.
pub open spec fn in_order(n: nat, row: spec_fn(int) -> Seq<Event>) -> Seq<Event>
    decreases n,
{
    if n == 0 {
        Seq::empty()
    } else {
        in_order((n - 1) as nat, row) + row(n - 1)
    }
}

/// The request to let the object with index `entity` disappear.
pub open spec fn despawn(entity: int) -> Event {
    Event::Despawn { entity: entity as usize }
}

/// The request for a new object of the given kind at `position`, with
/// nothing else said of it.
pub open spec fn spawn(object_type: ObjectType, position: Position) -> Event {
    Event::Spawn { object_type, position: InitialPositionAndMetadata::bare(position) }
}

fn push_despawn(events: &mut Vec<Event>, entity: usize)
    ensures
        final(events)@ == old(events)@.push(despawn(entity as int)),
{
    events.push(Event::Despawn { entity });
}

fn push_spawn(events: &mut Vec<Event>, object_type: ObjectType, position: Position)
    ensures
        final(events)@ == old(events)@.push(spawn(object_type, position)),
{
    events.push(
        Event::Spawn {
            object_type,
            position: InitialPositionAndMetadata {
                position,
                direction: None,
                identifier: None,
                level: None,
                open: false,
            },
        },
    );
}

fn same_cell(a: Position, b: Position) -> (same: bool)
    ensures
        same == (a == b),
{
    a.x == b.x && a.y == b.y
}

/// What follows where the object `player` is a player and the object `deadly`
/// is deadly and both share a cell: both disappear, and a grave appears in
/// their place.
pub open spec fn deadly_contact(objects: Seq<GameObject>, player: int, deadly: int) -> Seq<Event> {
    if objects[player].player && objects[deadly].deadly && objects[player].position
        == objects[deadly].position {
        seq![
            despawn(player),
            despawn(deadly),
            spawn(ObjectType::Grave, objects[player].position),
        ]
    } else {
        Seq::empty()
    }
}

/// The contacts of the object `player` with every object, in their order.
pub open spec fn deadly_contacts_of(objects: Seq<GameObject>, player: int) -> Seq<Event> {
    in_order(objects.len(), |deadly: int| deadly_contact(objects, player, deadly))
}

/// What follows from all contacts of players with deadly objects: those of
/// the first player first, each in the order of the deadly objects.
pub open spec fn deadly_events(objects: Seq<GameObject>) -> Seq<Event> {
    in_order(objects.len(), |player: int| deadly_contacts_of(objects, player))
}

/// Lets every player die that shares its cell with a deadly object.
pub fn check_for_deadly(objects: &Vec<GameObject>) -> (events: Vec<Event>)
    ensures
        events@ == deadly_events(objects@),
{
    let mut events: Vec<Event> = Vec::new();
    let mut i: usize = 0;
    while i < objects.len()
        invariant
            i <= objects.len(),
            events@ == in_order(i as nat, |player: int| deadly_contacts_of(objects@, player)),
        decreases objects.len() - i,
    {
        let ghost done = events@;
        let mut j: usize = 0;
        while j < objects.len()
            invariant
                i < objects.len(),
                j <= objects.len(),
                events@ == done + in_order(
                    j as nat,
                    |deadly: int| deadly_contact(objects@, i as int, deadly),
                ),
            decreases objects.len() - j,
        {
            if objects[i].player && objects[j].deadly && same_cell(
                objects[i].position,
                objects[j].position,
            ) {
                push_despawn(&mut events, i);
                push_despawn(&mut events, j);
                push_spawn(&mut events, ObjectType::Grave, objects[i].position);
            }
            j += 1;
        }
        i += 1;
    }
    events
}

/// What follows where the object `moved` has come onto the cell of the
/// explosive object `explosive`: both disappear in an explosion.
pub open spec fn explosive_contact(
    objects: Seq<GameObject>,
    moved: int,
    explosive: int,
) -> Seq<Event> {
    if objects[moved].position_change.is_changed() && !objects[moved].explosive
        && objects[explosive].explosive && objects[explosive].position
        == objects[moved].position {
        seq![
            despawn(explosive),
            despawn(moved),
            spawn(ObjectType::Explosion, objects[moved].position),
        ]
    } else {
        Seq::empty()
    }
}

/// The contacts of the object `moved` with every explosive object, in their
/// order.
pub open spec fn explosive_contacts_of(objects: Seq<GameObject>, moved: int) -> Seq<Event> {
    in_order(objects.len(), |explosive: int| explosive_contact(objects, moved, explosive))
}

/// What follows from all contacts of objects that have moved with explosive
/// ones.
pub open spec fn explosive_events(objects: Seq<GameObject>) -> Seq<Event> {
    in_order(objects.len(), |moved: int| explosive_contacts_of(objects, moved))
}

/// Blows up every explosive object onto whose cell another object has come,
/// together with that object.
pub fn check_for_explosive(objects: &Vec<GameObject>) -> (events: Vec<Event>)
    ensures
        events@ == explosive_events(objects@),
{
    let mut events: Vec<Event> = Vec::new();
    let mut i: usize = 0;
    while i < objects.len()
        invariant
            i <= objects.len(),
            events@ == in_order(i as nat, |moved: int| explosive_contacts_of(objects@, moved)),
        decreases objects.len() - i,
    {
        let ghost done = events@;
        let mut j: usize = 0;
        while j < objects.len()
            invariant
                i < objects.len(),
                j <= objects.len(),
                events@ == done + in_order(
                    j as nat,
                    |explosive: int| explosive_contact(objects@, i as int, explosive),
                ),
            decreases objects.len() - j,
        {
            if objects[i].position_change.is_changed() && !objects[i].explosive
                && objects[j].explosive && same_cell(objects[j].position, objects[i].position) {
                push_despawn(&mut events, j);
                push_despawn(&mut events, i);
                push_spawn(&mut events, ObjectType::Explosion, objects[i].position);
            }
            j += 1;
        }
        i += 1;
    }
    events
}

/// Whether a floatable object other than `except` stands on `position`.
pub open spec fn floats_at(objects: Seq<GameObject>, position: Position, except: int) -> bool {
    exists|k: int|
        0 <= k < objects.len() && k != except && (#[trigger] objects[k]).floatable
            && objects[k].position == position
}

/// Whether the object `moved` has come onto the cell of the liquid object
/// `liquid`.
pub open spec fn has_entered_liquid(objects: Seq<GameObject>, moved: int, liquid: int) -> bool {
    &&& objects[moved].position_change.is_changed()
    &&& !objects[moved].liquid
    &&& objects[liquid].liquid
    &&& objects[liquid].position == objects[moved].position
}

/// What follows where the object `moved` has come onto the cell of the liquid
/// object `liquid`: an object that does not float sinks with a splash, unless
/// something that floats is on the cell and carries it.
pub open spec fn liquid_contact(objects: Seq<GameObject>, moved: int, liquid: int) -> Seq<Event> {
    if has_entered_liquid(objects, moved, liquid) && !objects[moved].floatable && !floats_at(
        objects,
        objects[moved].position,
        -1,
    ) {
        seq![despawn(moved), spawn(ObjectType::Splash, objects[moved].position)]
    } else {
        Seq::empty()
    }
}

/// The contacts of the object `moved` with every liquid object, in their
/// order.
pub open spec fn liquid_contacts_of(objects: Seq<GameObject>, moved: int) -> Seq<Event> {
    in_order(objects.len(), |liquid: int| liquid_contact(objects, moved, liquid))
}

/// What follows from all contacts of objects that have moved with liquid.
pub open spec fn liquid_events(objects: Seq<GameObject>) -> Seq<Event> {
    in_order(objects.len(), |moved: int| liquid_contacts_of(objects, moved))
}

/// Whether the object `moved` floats, has come onto a liquid, and is the
/// only thing that floats on its cell: it then stays there for good.
pub open spec fn is_anchored(objects: Seq<GameObject>, moved: int) -> bool {
    &&& objects[moved].floatable
    &&& exists|liquid: int|
        0 <= liquid < objects.len() && #[trigger] has_entered_liquid(objects, moved, liquid)
    &&& !floats_at(objects, objects[moved].position, moved)
}

/// The object `i` once the liquids have been looked at: one that is anchored
/// can no longer be pushed.
pub open spec fn object_after_liquid(objects: Seq<GameObject>, i: int) -> GameObject {
    if is_anchored(objects, i) {
        objects[i].anchored()
    } else {
        objects[i]
    }
}

fn any_floats_at(objects: &Vec<GameObject>, position: Position, except: Option<usize>) -> (found:
    bool)
    ensures
        found == floats_at(
            objects@,
            position,
            match except {
                Some(index) => index as int,
                None => -1,
            },
        ),
{
    let mut k: usize = 0;
    while k < objects.len()
        invariant
            k <= objects.len(),
            forall|l: int|
                0 <= l < k ==> !(Some(l as usize) != except && (#[trigger] objects@[l]).floatable
                    && objects@[l].position == position),
        decreases objects.len() - k,
    {
        let skipped = match except {
            Some(index) => index == k,
            None => false,
        };
        if !skipped && objects[k].floatable && same_cell(objects[k].position, position) {
            return true;
        }
        k += 1;
    }
    false
}

/// Lets every object sink that has come onto a liquid and does not float, and
/// anchors every one that floats. A floating object on the cell carries what
/// comes onto it, whether that floats or not.
pub fn check_for_liquid(objects: &mut Vec<GameObject>) -> (events: Vec<Event>)
    ensures
        events@ == liquid_events(old(objects)@),
        final(objects)@.len() == old(objects)@.len(),
        forall|i: int|
            0 <= i < old(objects)@.len() ==> #[trigger] final(objects)@[i] == object_after_liquid(
                old(objects)@,
                i,
            ),
{
    let ghost before = objects@;
    let mut events: Vec<Event> = Vec::new();
    let mut anchored: Vec<bool> = Vec::new();
    let mut i: usize = 0;
    while i < objects.len()
        invariant
            i <= objects.len(),
            objects@ == before,
            anchored@.len() == i,
            forall|k: int| 0 <= k < i ==> #[trigger] anchored@[k] == is_anchored(before, k),
            events@ == in_order(i as nat, |moved: int| liquid_contacts_of(before, moved)),
        decreases objects.len() - i,
    {
        let ghost done = events@;
        let mut entered = false;
        let mut j: usize = 0;
        while j < objects.len()
            invariant
                i < objects.len(),
                j <= objects.len(),
                objects@ == before,
                entered == exists|liquid: int|
                    0 <= liquid < j && #[trigger] has_entered_liquid(before, i as int, liquid),
                events@ == done + in_order(
                    j as nat,
                    |liquid: int| liquid_contact(before, i as int, liquid),
                ),
            decreases objects.len() - j,
        {
            if objects[i].position_change.is_changed() && !objects[i].liquid && objects[j].liquid
                && same_cell(objects[j].position, objects[i].position) {
                assert(has_entered_liquid(before, i as int, j as int));
                entered = true;
                if !objects[i].floatable && !any_floats_at(objects, objects[i].position, None) {
                    push_despawn(&mut events, i);
                    push_spawn(&mut events, ObjectType::Splash, objects[i].position);
                }
            }
            j += 1;
        }
        let anchors = entered && objects[i].floatable && !any_floats_at(
            objects,
            objects[i].position,
            Some(i),
        );
        anchored.push(anchors);
        i += 1;
    }
    i = 0;
    while i < objects.len()
        invariant
            i <= objects.len(),
            objects@.len() == before.len(),
            anchored@.len() == before.len(),
            forall|k: int|
                0 <= k < before.len() ==> #[trigger] anchored@[k] == is_anchored(before, k),
            forall|k: int| 0 <= k < i ==> #[trigger] objects@[k] == object_after_liquid(before, k),
            forall|k: int| i <= k < before.len() ==> #[trigger] objects@[k] == before[k],
        decreases objects.len() - i,
    {
        if anchored[i] {
            let object = objects[i];
            objects.set(i, object.anchored());
        }
        i += 1;
    }
    events
}

/// Whether the object `i` is a paint that has moved.
pub open spec fn is_moved_paint(objects: Seq<GameObject>, i: int) -> bool {
    objects[i].position_change.is_changed() && objects[i].paint is Some
}

/// What follows where the paint `paint` has come onto the cell of the object
/// `paintable`, which can be painted: both disappear, and an object of the
/// kind that the paint paints appears in their place.
pub open spec fn paint_contact(objects: Seq<GameObject>, paint: int, paintable: int) -> Seq<Event> {
    if is_moved_paint(objects, paint) && objects[paintable].paintable
        && objects[paintable].position == objects[paint].position {
        seq![
            despawn(paint),
            despawn(paintable),
            spawn(objects[paint].paint.unwrap(), objects[paintable].position),
        ]
    } else {
        Seq::empty()
    }
}

/// What follows where the paint `paint` has come onto the cell of another
/// paint, `other`: where the two kinds mix, both disappear, and the mixed
/// paint appears in their place. Where they do not mix, nothing happens.
pub open spec fn mix_contact(objects: Seq<GameObject>, paint: int, other: int) -> Seq<Event> {
    if is_moved_paint(objects, paint) && objects[other].paint is Some && paint != other
        && objects[other].position == objects[paint].position
        && objects[paint].object_type.mix_with(objects[other].object_type) is Some {
        seq![
            despawn(paint),
            despawn(other),
            spawn(
                objects[paint].object_type.mix_with(objects[other].object_type).unwrap(),
                objects[paint].position,
            ),
        ]
    } else {
        Seq::empty()
    }
}

/// Two paints whose kinds do not mix stay as they are when they meet.
pub proof fn lemma_unmixable_paints_stay(objects: Seq<GameObject>, paint: int, other: int)
    requires
        objects[paint].object_type.mix_with(objects[other].object_type) is None,
    ensures
        mix_contact(objects, paint, other) == Seq::<Event>::empty(),
        mix_contact(objects, other, paint) == Seq::<Event>::empty(),
{
    lemma_mixing_is_commutative(
        objects[paint].object_type,
        objects[other].object_type,
    );
}

/// The contacts of the paint `paint`: first with everything that can be
/// painted, then with the other paints.
pub open spec fn paint_contacts_of(objects: Seq<GameObject>, paint: int) -> Seq<Event> {
    in_order(objects.len(), |paintable: int| paint_contact(objects, paint, paintable)) + in_order(
        objects.len(),
        |other: int| mix_contact(objects, paint, other),
    )
}

/// What follows from all contacts of paints that have moved.
pub open spec fn paint_events(objects: Seq<GameObject>) -> Seq<Event> {
    in_order(objects.len(), |paint: int| paint_contacts_of(objects, paint))
}

/// Paints what a paint has been moved onto, and mixes paints that have been
/// moved onto each other.
pub fn check_for_paint(objects: &Vec<GameObject>) -> (events: Vec<Event>)
    ensures
        events@ == paint_events(objects@),
{
    let mut events: Vec<Event> = Vec::new();
    let mut i: usize = 0;
    while i < objects.len()
        invariant
            i <= objects.len(),
            events@ == in_order(i as nat, |paint: int| paint_contacts_of(objects@, paint)),
        decreases objects.len() - i,
    {
        let ghost done = events@;
        let moved_paint = objects[i].position_change.is_changed() && objects[i].paint.is_some();
        let mut j: usize = 0;
        while j < objects.len()
            invariant
                i < objects.len(),
                j <= objects.len(),
                moved_paint == is_moved_paint(objects@, i as int),
                events@ == done + in_order(
                    j as nat,
                    |paintable: int| paint_contact(objects@, i as int, paintable),
                ),
            decreases objects.len() - j,
        {
            if moved_paint && objects[j].paintable && same_cell(
                objects[j].position,
                objects[i].position,
            ) {
                if let Some(painted) = objects[i].paint {
                    push_despawn(&mut events, i);
                    push_despawn(&mut events, j);
                    push_spawn(&mut events, painted, objects[j].position);
                }
            }
            j += 1;
        }
        let ghost painted = events@;
        j = 0;
        while j < objects.len()
            invariant
                i < objects.len(),
                j <= objects.len(),
                moved_paint == is_moved_paint(objects@, i as int),
                events@ == painted + in_order(
                    j as nat,
                    |other: int| mix_contact(objects@, i as int, other),
                ),
            decreases objects.len() - j,
        {
            if moved_paint && objects[j].paint.is_some() && i != j && same_cell(
                objects[j].position,
                objects[i].position,
            ) {
                if let Some(mixed) = objects[i].object_type.mix_with(objects[j].object_type) {
                    push_despawn(&mut events, i);
                    push_despawn(&mut events, j);
                    push_spawn(&mut events, mixed, objects[i].position);
                }
            }
            j += 1;
        }
        i += 1;
    }
    events
}

/// The request for the object that `objects[i]` turns into when it is
/// pushed: one of the kind `object_type` on the same cell, facing the same
/// way.
pub open spec fn spawn_transformed(
    objects: Seq<GameObject>,
    i: int,
    object_type: ObjectType,
) -> Event {
    Event::Spawn {
        object_type,
        position: InitialPositionAndMetadata {
            position: objects[i].position,
            direction: Some(objects[i].direction),
            identifier: None,
            level: None,
            open: false,
        },
    }
}

/// What follows for the object `i` if it has been pushed and turns into
/// something else when pushed: it disappears, and the other appears in its
/// place. An object that has only just appeared has not been pushed.
pub open spec fn transformation_of(objects: Seq<GameObject>, i: int) -> Seq<Event> {
    if objects[i].transform_on_push is Some && objects[i].pushable
        && objects[i].position_change.is_moved() {
        seq![despawn(i), spawn_transformed(objects, i, objects[i].transform_on_push.unwrap())]
    } else {
        Seq::empty()
    }
}

/// What follows from all pushes of objects that turn into something else
/// when pushed. Nothing does while the level is being edited.
pub open spec fn transformation_events(objects: Seq<GameObject>, editing: bool) -> Seq<Event> {
    if editing {
        Seq::empty()
    } else {
        in_order(objects.len(), |i: int| transformation_of(objects, i))
    }
}

/// Replaces every object that has been pushed and turns into something else
/// when pushed.
pub fn check_for_transform_on_push(objects: &Vec<GameObject>, editing: bool) -> (events: Vec<
    Event,
>)
    ensures
        events@ == transformation_events(objects@, editing),
{
    let mut events: Vec<Event> = Vec::new();
    if editing {
        return events;
    }
    let mut i: usize = 0;
    while i < objects.len()
        invariant
            i <= objects.len(),
            events@ == in_order(i as nat, |k: int| transformation_of(objects@, k)),
        decreases objects.len() - i,
    {
        if objects[i].pushable && objects[i].position_change.is_moved() {
            if let Some(object_type) = objects[i].transform_on_push {
                push_despawn(&mut events, i);
                events.push(
                    Event::Spawn {
                        object_type,
                        position: InitialPositionAndMetadata {
                            position: objects[i].position,
                            direction: Some(objects[i].direction),
                            identifier: None,
                            level: None,
                            open: false,
                        },
                    },
                );
            }
        }
        i += 1;
    }
    events
}

/// The request to let the object `i` disappear if it is volatile.
pub open spec fn expiry_of(objects: Seq<GameObject>, i: int) -> Seq<Event> {
    if objects[i].volatile {
        seq![despawn(i)]
    } else {
        Seq::empty()
    }
}

/// The requests to let every volatile object disappear.
pub open spec fn expiry_events(objects: Seq<GameObject>) -> Seq<Event> {
    in_order(objects.len(), |i: int| expiry_of(objects, i))
}

/// Lets every volatile object disappear. To be called when the time that
/// such objects stay has run out.
pub fn despawn_volatile_objects(objects: &Vec<GameObject>) -> (events: Vec<Event>)
    ensures
        events@ == expiry_events(objects@),
{
    let mut events: Vec<Event> = Vec::new();
    let mut i: usize = 0;
    while i < objects.len()
        invariant
            i <= objects.len(),
            events@ == in_order(i as nat, |k: int| expiry_of(objects@, k)),
        decreases objects.len() - i,
    {
        if objects[i].volatile {
            push_despawn(&mut events, i);
        }
        i += 1;
    }
    events
}

/// Whether the request `event` has an object appear that will disappear
/// again by itself. The time that such objects stay starts anew with each of
/// them, if it had run out.
pub fn spawns_volatile(event: &Event) -> (volatile: bool)
    ensures
        volatile == (event matches Event::Spawn { object_type, .. } && object_type.is_volatile()),
{
    match event {
        Event::Spawn { object_type, .. } => object_type.is_volatile(),
        Event::Despawn { .. } => false,
    }
}

/// Whether the key `key` has come onto the cell of the object `lock`, which
/// is closed and opens with a key.
pub open spec fn key_fits(objects: Seq<GameObject>, key: int, lock: int) -> bool {
    &&& objects[key].position_change.is_changed()
    &&& objects[key].key
    &&& objects[lock].openable == Some(Openable::Key)
    &&& objects[lock].massive
    &&& objects[lock].position == objects[key].position
}

/// What follows where the key `key` fits the object `lock`: the key is used
/// up.
pub open spec fn key_contact(objects: Seq<GameObject>, key: int, lock: int) -> Seq<Event> {
    if key_fits(objects, key, lock) {
        seq![despawn(key)]
    } else {
        Seq::empty()
    }
}

/// The contacts of the key `key` with everything that it opens, in order.
pub open spec fn key_contacts_of(objects: Seq<GameObject>, key: int) -> Seq<Event> {
    in_order(objects.len(), |lock: int| key_contact(objects, key, lock))
}

/// What follows from all contacts of keys that have moved.
pub open spec fn key_events(objects: Seq<GameObject>) -> Seq<Event> {
    in_order(objects.len(), |key: int| key_contacts_of(objects, key))
}

/// Whether some key fits the object `lock`.
pub open spec fn is_unlocked(objects: Seq<GameObject>, lock: int) -> bool {
    exists|key: int| 0 <= key < objects.len() && #[trigger] key_fits(objects, key, lock)
}

/// The object `i` once the keys have been looked at: one that a key fits is
/// open, which is to say no longer massive.
pub open spec fn object_after_keys(objects: Seq<GameObject>, i: int) -> GameObject {
    if is_unlocked(objects, i) {
        objects[i].with_massive(false)
    } else {
        objects[i]
    }
}

/// Opens what a key has been moved onto, and uses the key up.
pub fn check_for_key(objects: &mut Vec<GameObject>) -> (events: Vec<Event>)
    ensures
        events@ == key_events(old(objects)@),
        final(objects)@.len() == old(objects)@.len(),
        forall|i: int|
            0 <= i < old(objects)@.len() ==> #[trigger] final(objects)@[i] == object_after_keys(
                old(objects)@,
                i,
            ),
{
    let ghost before = objects@;
    let mut events: Vec<Event> = Vec::new();
    let mut unlocked: Vec<bool> = Vec::new();
    let mut j: usize = 0;
    while j < objects.len()
        invariant
            j <= objects.len(),
            objects@ == before,
            unlocked@.len() == j,
            forall|k: int| 0 <= k < j ==> !#[trigger] unlocked@[k],
        decreases objects.len() - j,
    {
        unlocked.push(false);
        j += 1;
    }
    let mut i: usize = 0;
    while i < objects.len()
        invariant
            i <= objects.len(),
            objects@ == before,
            unlocked@.len() == before.len(),
            forall|lock: int|
                0 <= lock < before.len() ==> #[trigger] unlocked@[lock] == exists|key: int|
                    0 <= key < i && #[trigger] key_fits(before, key, lock),
            events@ == in_order(i as nat, |key: int| key_contacts_of(before, key)),
        decreases objects.len() - i,
    {
        let ghost done = events@;
        let ghost found = unlocked@;
        j = 0;
        while j < objects.len()
            invariant
                i < objects.len(),
                j <= objects.len(),
                objects@ == before,
                unlocked@.len() == before.len(),
                forall|lock: int|
                    0 <= lock < before.len() ==> #[trigger] found[lock] == exists|key: int|
                        0 <= key < i && #[trigger] key_fits(before, key, lock),
                forall|lock: int|
                    0 <= lock < j ==> #[trigger] unlocked@[lock] == (found[lock] || key_fits(
                        before,
                        i as int,
                        lock,
                    )),
                forall|lock: int| j <= lock < before.len() ==> #[trigger] unlocked@[lock] == found[lock],
                found.len() == before.len(),
                events@ == done + in_order(
                    j as nat,
                    |lock: int| key_contact(before, i as int, lock),
                ),
            decreases objects.len() - j,
        {
            let fits = objects[i].position_change.is_changed() && objects[i].key && match objects[j].openable {
                Some(Openable::Key) => true,
                _ => false,
            } && objects[j].massive && same_cell(objects[j].position, objects[i].position);
            if fits {
                push_despawn(&mut events, i);
                unlocked.set(j, true);
            }
            j += 1;
        }
        proof {
            assert forall|lock: int| 0 <= lock < before.len() implies #[trigger] unlocked@[lock]
                == exists|key: int| 0 <= key < i + 1 && #[trigger] key_fits(before, key, lock) by {
                if key_fits(before, i as int, lock) {
                } else if found[lock] {
                    let key = choose|key: int| 0 <= key < i && #[trigger] key_fits(before, key, lock);
                    assert(0 <= key < i + 1 && key_fits(before, key, lock));
                }
            }
        }
        i += 1;
    }
    i = 0;
    while i < objects.len()
        invariant
            i <= objects.len(),
            objects@.len() == before.len(),
            unlocked@.len() == before.len(),
            forall|lock: int|
                0 <= lock < before.len() ==> #[trigger] unlocked@[lock] == is_unlocked(before, lock),
            forall|k: int| 0 <= k < i ==> #[trigger] objects@[k] == object_after_keys(before, k),
            forall|k: int| i <= k < before.len() ==> #[trigger] objects@[k] == before[k],
        decreases objects.len() - i,
    {
        if unlocked[i] {
            let object = objects[i];
            objects.set(i, object.with_massive(false));
        }
        i += 1;
    }
    events
}

/// The level that the player is to enter: that of the first entrance, in the
/// order of the objects, onto whose cell the first player that has moved
/// onto an entrance has come.
pub open spec fn entered_level(objects: Seq<GameObject>) -> Option<u16> {
    if exists|player: int, entrance: int| #[trigger]
        is_entered(objects, player, entrance) {
        let (player, entrance) = first_entered(objects);
        objects[entrance].entrance
    } else {
        None
    }
}

/// Whether the player `player` has moved onto the cell of the entrance
/// `entrance`. A player that has just appeared there has not.
pub open spec fn is_entered(objects: Seq<GameObject>, player: int, entrance: int) -> bool {
    &&& 0 <= player < objects.len()
    &&& 0 <= entrance < objects.len()
    &&& objects[player].player
    &&& objects[player].position_change.is_moved()
    &&& objects[entrance].entrance is Some
    &&& objects[entrance].position == objects[player].position
}

/// The first player that has moved onto an entrance, with the first
/// entrance on its cell.
pub open spec fn first_entered(objects: Seq<GameObject>) -> (int, int) {
    choose|pair: (int, int)|
        is_entered(objects, pair.0, pair.1) && forall|player: int, entrance: int| #[trigger]
            is_entered(objects, player, entrance) ==> pair.0 < player || (pair.0 == player
                && pair.1 <= entrance)
}

/// Whether the player has moved onto an entrance, and to which level that
/// leads.
pub fn check_for_entrance(objects: &Vec<GameObject>) -> (level: Option<u16>)
    ensures
        level == entered_level(objects@),
{
    let mut i: usize = 0;
    while i < objects.len()
        invariant
            i <= objects.len(),
            forall|player: int, entrance: int|
                0 <= player < i ==> !#[trigger] is_entered(objects@, player, entrance),
        decreases objects.len() - i,
    {
        if objects[i].player && objects[i].position_change.is_moved() {
            let mut j: usize = 0;
            while j < objects.len()
                invariant
                    i < objects.len(),
                    j <= objects.len(),
                    objects@[i as int].player,
                    objects@[i as int].position_change.is_moved(),
                    forall|player: int, entrance: int|
                        0 <= player < i ==> !#[trigger] is_entered(objects@, player, entrance),
                    forall|entrance: int|
                        0 <= entrance < j ==> !#[trigger] is_entered(objects@, i as int, entrance),
                decreases objects.len() - j,
            {
                if objects[j].entrance.is_some() && same_cell(
                    objects[j].position,
                    objects[i].position,
                ) {
                    proof {
                        let found = (i as int, j as int);
                        assert(is_entered(objects@, found.0, found.1));
                        assert forall|player: int, entrance: int| #[trigger]
                            is_entered(objects@, player, entrance) implies found.0 < player || (
                        found.0 == player && found.1 <= entrance) by {}
                        let pair = first_entered(objects@);
                        assert(is_entered(objects@, pair.0, pair.1));
                        assert(pair.0 < found.0 || (pair.0 == found.0 && pair.1 <= found.1));
                    }
                    return objects[j].entrance;
                }
                j += 1;
            }
        }
        i += 1;
    }
    None
}

/// Whether the player `player` has moved onto the cell of the exit `exit`.
/// A player that has just appeared there has not.
pub open spec fn is_at_exit(objects: Seq<GameObject>, player: int, exit: int) -> bool {
    &&& 0 <= player < objects.len()
    &&& 0 <= exit < objects.len()
    &&& objects[player].player
    &&& objects[player].position_change.is_moved()
    &&& objects[exit].exit
    &&& objects[exit].position == objects[player].position
}

/// Whether a player has moved onto an exit, which finishes the level.
pub fn check_for_exit(objects: &Vec<GameObject>) -> (finished: bool)
    ensures
        finished == exists|player: int, exit: int| #[trigger] is_at_exit(objects@, player, exit),
{
    let mut i: usize = 0;
    while i < objects.len()
        invariant
            i <= objects.len(),
            forall|player: int, exit: int|
                0 <= player < i ==> !#[trigger] is_at_exit(objects@, player, exit),
        decreases objects.len() - i,
    {
        if objects[i].player && objects[i].position_change.is_moved() {
            let mut j: usize = 0;
            while j < objects.len()
                invariant
                    i < objects.len(),
                    j <= objects.len(),
                    objects@[i as int].player,
                    objects@[i as int].position_change.is_moved(),
                    forall|exit: int|
                        0 <= exit < j ==> !#[trigger] is_at_exit(objects@, i as int, exit),
                decreases objects.len() - j,
            {
                if objects[j].exit && same_cell(objects[j].position, objects[i].position) {
                    assert(is_at_exit(objects@, i as int, j as int));
                    return true;
                }
                j += 1;
            }
        }
        i += 1;
    }
    false
}

/// An object once the finished levels have been looked at: a gate that opens
/// when a level is finished is open if that level is among `finished`, and
/// closed if not.
pub open spec fn object_after_finished_levels(object: GameObject, finished: Set<u16>) -> GameObject {
    match object.openable {
        Some(Openable::LevelFinished(level)) => if object.entrance is None {
            object.with_massive(!finished.contains(level))
        } else {
            object
        },
        _ => object,
    }
}

fn after_finished_levels(object: GameObject, game_state: &GameState) -> (after: GameObject)
    ensures
        after == object_after_finished_levels(object, game_state.finished()),
{
    match object.openable {
        Some(Openable::LevelFinished(level)) => {
            if object.entrance.is_none() {
                let opened = game_state.is_finished_level(level);
                object.with_massive(!opened)
            } else {
                object
            }
        },
        _ => object,
    }
}

/// Opens every gate whose level has been finished, and closes every gate
/// whose level has not.
pub fn check_for_finished_levels(objects: &mut Vec<GameObject>, game_state: &GameState)
    ensures
        final(objects)@.len() == old(objects)@.len(),
        forall|i: int|
            0 <= i < old(objects)@.len() ==> #[trigger] final(objects)@[i]
                == object_after_finished_levels(old(objects)@[i], game_state.finished()),
{
    let ghost before = objects@;
    let mut i: usize = 0;
    while i < objects.len()
        invariant
            i <= objects.len(),
            objects@.len() == before.len(),
            forall|k: int|
                0 <= k < i ==> #[trigger] objects@[k] == object_after_finished_levels(
                    before[k],
                    game_state.finished(),
                ),
            forall|k: int| i <= k < before.len() ==> #[trigger] objects@[k] == before[k],
        decreases objects.len() - i,
    {
        let after = after_finished_levels(objects[i], game_state);
        objects.set(i, after);
        i += 1;
    }
}

/// How many triggers were pressed when the triggers were last looked at.
#[derive(Clone, Copy, Debug, PartialEq, Eq, Structural)]
pub struct PressedTriggers {
    pub num_pressed_triggers: usize,
}

impl Default for PressedTriggers {
    fn default() -> (pressed: PressedTriggers)
        ensures
            pressed.num_pressed_triggers == 0,
    {
        PressedTriggers { num_pressed_triggers: 0 }
    }
}

/// Whether the object `i` is a gate that the triggers open.
pub open spec fn is_triggered_gate(objects: Seq<GameObject>, i: int) -> bool {
    !objects[i].trigger && objects[i].openable == Some(Openable::Trigger)
}

/// Whether the object `i` presses the trigger under it: anything does that
/// is neither a trigger nor a gate that the triggers open.
pub open spec fn is_presser(objects: Seq<GameObject>, i: int) -> bool {
    !objects[i].trigger && objects[i].openable != Some(Openable::Trigger)
}

/// Whether the object `i` is a trigger with something on it.
pub open spec fn is_pressed(objects: Seq<GameObject>, i: int) -> bool {
    objects[i].trigger && exists|k: int|
        0 <= k < objects.len() && #[trigger] is_presser(objects, k) && objects[k].position
            == objects[i].position
}

/// The number of pressed triggers among the first `n` objects.
pub open spec fn count_pressed(objects: Seq<GameObject>, n: nat) -> nat
    decreases n,
{
    if n == 0 {
        0
    } else {
        count_pressed(objects, (n - 1) as nat) + if is_pressed(objects, n - 1) {
            1nat
        } else {
            0nat
        }
    }
}

/// Whether more triggers are pressed than `pressed_before`, or fewer.
pub open spec fn triggers_turn(objects: Seq<GameObject>, pressed_before: nat) -> bool {
    count_pressed(objects, objects.len()) != pressed_before
}

/// The object `i` once the triggers have been looked at. Where more triggers
/// are pressed than before, every gate that the triggers open is open; where
/// fewer are, every such gate is closed. Nothing else changes, and nothing
/// at all where as many are pressed as before.
pub open spec fn object_after_triggers(
    objects: Seq<GameObject>,
    pressed_before: nat,
    i: int,
) -> GameObject {
    if triggers_turn(objects, pressed_before) && is_triggered_gate(objects, i) {
        objects[i].with_massive(count_pressed(objects, objects.len()) < pressed_before)
    } else {
        objects[i]
    }
}

/// All objects once the triggers have been looked at.
pub open spec fn objects_after_triggers(
    objects: Seq<GameObject>,
    pressed_before: nat,
) -> Seq<GameObject> {
    Seq::new(objects.len(), |i: int| object_after_triggers(objects, pressed_before, i))
}

/// Where more triggers are pressed than before, every gate that the triggers
/// open is open afterwards; where fewer are, every such gate is closed; and
/// where as many are, nothing changes.
pub proof fn lemma_gates_follow_the_triggers(
    objects: Seq<GameObject>,
    pressed_before: nat,
    i: int,
)
    requires
        0 <= i < objects.len(),
    ensures
        ({
            let pressed = count_pressed(objects, objects.len());
            let after = object_after_triggers(objects, pressed_before, i);
            &&& pressed > pressed_before && is_triggered_gate(objects, i) ==> !after.massive
            &&& pressed < pressed_before && is_triggered_gate(objects, i) ==> after.massive
            &&& pressed == pressed_before || !is_triggered_gate(objects, i) ==> after
                == objects[i]
        }),
{
    reveal(GameObject::spec_with_massive);
}

proof fn lemma_gates_do_not_press(
    objects: Seq<GameObject>,
    pressed_before: nat,
    n: nat,
)
    requires
        n <= objects.len(),
    ensures
        count_pressed(objects_after_triggers(objects, pressed_before), n) == count_pressed(
            objects,
            n,
        ),
    decreases n,
{
    reveal(GameObject::spec_with_massive);
    let after = objects_after_triggers(objects, pressed_before);
    if n > 0 {
        lemma_gates_do_not_press(objects, pressed_before, (n - 1) as nat);
        let t = n - 1;
        assert(after[t].trigger == objects[t].trigger);
        if is_pressed(objects, t) {
            let k = choose|k: int|
                0 <= k < objects.len() && #[trigger] is_presser(objects, k)
                    && objects[k].position == objects[t].position;
            assert(is_presser(after, k) && after[k].position == after[t].position);
        }
        if is_pressed(after, t) {
            let k = choose|k: int|
                0 <= k < after.len() && #[trigger] is_presser(after, k) && after[k].position
                    == after[t].position;
            assert(is_presser(objects, k) && objects[k].position == objects[t].position);
        }
    }
}

/// Once the triggers have been looked at, looking at them again changes
/// nothing: the gates are opened or closed once for every change of the
/// number of pressed triggers, and stay as they are until it changes again.
pub proof fn lemma_triggers_settle(objects: Seq<GameObject>, pressed_before: nat, i: int)
    requires
        0 <= i < objects.len(),
    ensures
        ({
            let after = objects_after_triggers(objects, pressed_before);
            let pressed = count_pressed(objects, objects.len());
            object_after_triggers(after, pressed, i) == after[i]
        }),
{
    lemma_gates_do_not_press(objects, pressed_before, objects.len());
}

fn count_pressed_triggers(objects: &Vec<GameObject>) -> (count: usize)
    ensures
        count == count_pressed(objects@, objects@.len()),
{
    let mut count: usize = 0;
    let mut i: usize = 0;
    while i < objects.len()
        invariant
            i <= objects.len(),
            count == count_pressed(objects@, i as nat),
            count <= i,
        decreases objects.len() - i,
    {
        if objects[i].trigger {
            let mut pressed = false;
            let mut k: usize = 0;
            while k < objects.len() && !pressed
                invariant
                    i < objects.len(),
                    k <= objects.len(),
                    objects@[i as int].trigger,
                    pressed ==> is_pressed(objects@, i as int),
                    !pressed ==> forall|l: int|
                        0 <= l < k ==> !(#[trigger] is_presser(objects@, l) && objects@[l].position
                            == objects@[i as int].position),
                decreases objects.len() - k + if pressed { 0int } else { 1int },
            {
                let presser = !objects[k].trigger && match objects[k].openable {
                    Some(Openable::Trigger) => false,
                    _ => true,
                };
                if presser && same_cell(objects[k].position, objects[i].position) {
                    assert(is_presser(objects@, k as int));
                    pressed = true;
                } else {
                    k += 1;
                }
            }
            if pressed {
                count += 1;
            }
        }
        i += 1;
    }
    count
}

/// Counts the pressed triggers, and opens or closes the gates that the
/// triggers open where the count has gone up or down since it was last
/// taken. The count is taken anew every time, whether anything has moved or
/// not: a trigger is also released when what stood on it has disappeared.
pub fn check_for_triggers(objects: &mut Vec<GameObject>, pressed_triggers: &mut PressedTriggers)
    ensures
        final(objects)@.len() == old(objects)@.len(),
        forall|i: int|
            0 <= i < old(objects)@.len() ==> #[trigger] final(objects)@[i]
                == object_after_triggers(
                old(objects)@,
                old(pressed_triggers).num_pressed_triggers as nat,
                i,
            ),
        final(pressed_triggers).num_pressed_triggers == count_pressed(
            old(objects)@,
            old(objects)@.len(),
        ),
{
    let ghost before = objects@;
    let previous = pressed_triggers.num_pressed_triggers;
    let count = count_pressed_triggers(objects);
    let opened = count > previous;
    let mut i: usize = 0;
    while i < objects.len()
        invariant
            i <= objects.len(),
            objects@.len() == before.len(),
            count == count_pressed(before, before.len()),
            opened == (count > previous),
            forall|k: int|
                0 <= k < i ==> #[trigger] objects@[k] == object_after_triggers(
                    before,
                    previous as nat,
                    k,
                ),
            forall|k: int| i <= k < before.len() ==> #[trigger] objects@[k] == before[k],
        decreases objects.len() - i,
    {
        let object = objects[i];
        let gate = !object.trigger && match object.openable {
            Some(Openable::Trigger) => true,
            _ => false,
        };
        if gate && count != previous {
            objects.set(i, object.with_massive(!opened));
        }
        i += 1;
    }
    pressed_triggers.num_pressed_triggers = count;
}

/// Whether the object `i` travels through teleporters: it has moved or
/// appeared, and is neither a teleporter nor the flash that a journey leaves
/// behind.
pub open spec fn is_traveller(objects: Seq<GameObject>, i: int) -> bool {
    &&& objects[i].teleporter is None
    &&& objects[i].object_type != ObjectType::Flash
    &&& objects[i].position_change.is_changed()
}

/// Whether a massive object stands on `cell`, whether it has long stood
/// there or has only just come.
pub open spec fn is_occupied(objects: Seq<GameObject>, cell: Position) -> bool {
    exists|k: int|
        0 <= k < objects.len() && (#[trigger] objects[k]).position == cell && objects[k].massive
}

/// Whether the teleporter `other` is at the far end of the teleporter
/// `teleporter`: it carries the same number and stands on another cell.
pub open spec fn is_paired(objects: Seq<GameObject>, teleporter: int, other: int) -> bool {
    &&& objects[teleporter].teleporter is Some
    &&& objects[other].teleporter == objects[teleporter].teleporter
    &&& objects[other].position != objects[teleporter].position
}

/// The first teleporter from the index `from` on that is paired with
/// `teleporter`.
pub open spec fn first_paired(objects: Seq<GameObject>, teleporter: int, from: int) -> Option<int>
    decreases objects.len() - from,
{
    if from < 0 || from >= objects.len() {
        None
    } else if is_paired(objects, teleporter, from) {
        Some(from)
    } else {
        first_paired(objects, teleporter, from + 1)
    }
}

/// The cell that the teleporter `teleporter` sends the object `i` to, if the
/// object stands on it, the teleporter has another end, and nothing massive
/// rests there.
pub open spec fn destination_via(objects: Seq<GameObject>, i: int, teleporter: int) -> Option<
    Position,
> {
    if objects[teleporter].teleporter is Some && objects[teleporter].position
        == objects[i].position {
        match first_paired(objects, teleporter, 0) {
            Some(other) => if is_occupied(objects, objects[other].position) {
                None
            } else {
                Some(objects[other].position)
            },
            None => None,
        }
    } else {
        None
    }
}

/// The cell that the first teleporter from the index `from` on that sends
/// the object `i` anywhere sends it to.
pub open spec fn first_destination(objects: Seq<GameObject>, i: int, from: int) -> Option<
    Position,
>
    decreases objects.len() - from,
{
    if from < 0 || from >= objects.len() {
        None
    } else if destination_via(objects, i, from) is Some {
        destination_via(objects, i, from)
    } else {
        first_destination(objects, i, from + 1)
    }
}

/// Where the object `i` is sent, if it travels and stands on a teleporter
/// that sends it somewhere.
pub open spec fn destination(objects: Seq<GameObject>, i: int) -> Option<Position> {
    if is_traveller(objects, i) {
        first_destination(objects, i, 0)
    } else {
        None
    }
}

/// The object `i` once the teleporters have been looked at: where it is
/// sent to, if anywhere.
pub open spec fn object_after_teleport(objects: Seq<GameObject>, i: int) -> GameObject {
    match destination(objects, i) {
        Some(cell) => objects[i].moved_to((cell.x as int, cell.y as int)),
        None => objects[i],
    }
}

/// What a journey of the object `i` leaves behind: a flash where it left
/// and a flash where it arrived.
pub open spec fn journey_of(objects: Seq<GameObject>, i: int) -> Seq<Event> {
    match destination(objects, i) {
        Some(cell) => seq![
            spawn(ObjectType::Flash, objects[i].position),
            spawn(ObjectType::Flash, cell),
        ],
        None => Seq::empty(),
    }
}

/// The flashes of all journeys, in the order of the travellers.
pub open spec fn teleport_events(objects: Seq<GameObject>) -> Seq<Event> {
    in_order(objects.len(), |i: int| journey_of(objects, i))
}

/// Two teleporters that share a number which no third teleporter carries,
/// and that stand on different cells, are each the far end of the other.
pub proof fn lemma_teleporters_pair_up(objects: Seq<GameObject>, a: int, b: int)
    requires
        0 <= a < objects.len(),
        0 <= b < objects.len(),
        objects[a].teleporter is Some,
        objects[b].teleporter == objects[a].teleporter,
        objects[a].position != objects[b].position,
        forall|t: int|
            0 <= t < objects.len() && (#[trigger] objects[t]).teleporter == objects[a].teleporter
                ==> t == a || t == b,
    ensures
        first_paired(objects, a, 0) == Some(b),
        first_paired(objects, b, 0) == Some(a),
{
    lemma_first_paired_is_the_only_one(objects, a, b, 0);
    lemma_first_paired_is_the_only_one(objects, b, a, 0);
}

proof fn lemma_first_paired_is_the_only_one(
    objects: Seq<GameObject>,
    teleporter: int,
    other: int,
    from: int,
)
    requires
        0 <= from <= other < objects.len(),
        is_paired(objects, teleporter, other),
        forall|t: int| 0 <= t < objects.len() && is_paired(objects, teleporter, t) ==> t == other,
    ensures
        first_paired(objects, teleporter, from) == Some(other),
    decreases other - from,
{
    if from < other {
        lemma_first_paired_is_the_only_one(objects, teleporter, other, from + 1);
    }
}

/// An object that steps onto the only teleporter of its cell, whose number
/// exactly one other teleporter carries, arrives on the cell of that other
/// teleporter, unless something massive rests there; then it stays.
pub proof fn lemma_journey_between_a_pair(objects: Seq<GameObject>, i: int, a: int, b: int)
    requires
        0 <= i < objects.len(),
        0 <= a < objects.len(),
        0 <= b < objects.len(),
        is_traveller(objects, i),
        objects[a].teleporter is Some,
        objects[b].teleporter == objects[a].teleporter,
        objects[a].position != objects[b].position,
        objects[a].position == objects[i].position,
        forall|t: int|
            0 <= t < objects.len() && (#[trigger] objects[t]).teleporter == objects[a].teleporter
                ==> t == a || t == b,
        forall|t: int|
            0 <= t < objects.len() && (#[trigger] objects[t]).teleporter is Some
                && objects[t].position == objects[i].position ==> t == a,
    ensures
        destination(objects, i) == (if is_occupied(objects, objects[b].position) {
            None
        } else {
            Some(objects[b].position)
        }),
{
    lemma_teleporters_pair_up(objects, a, b);
    lemma_first_destination_is_the_only_one(objects, i, a, 0);
}

proof fn lemma_first_destination_is_the_only_one(
    objects: Seq<GameObject>,
    i: int,
    teleporter: int,
    from: int,
)
    requires
        0 <= from <= teleporter < objects.len(),
        forall|t: int|
            0 <= t < objects.len() && t != teleporter ==> destination_via(objects, i, t) is None,
    ensures
        first_destination(objects, i, from) == destination_via(objects, i, teleporter),
    decreases objects.len() - from,
{
    if from < objects.len() - 1 || from < teleporter {
        if from < teleporter {
            lemma_first_destination_is_the_only_one(objects, i, teleporter, from + 1);
        } else {
            lemma_no_destination_behind(objects, i, from + 1);
        }
    } else {
        assert(first_destination(objects, i, from + 1) is None);
    }
}

proof fn lemma_no_destination_behind(objects: Seq<GameObject>, i: int, from: int)
    requires
        0 <= from,
        forall|t: int| from <= t < objects.len() ==> destination_via(objects, i, t) is None,
    ensures
        first_destination(objects, i, from) is None,
    decreases objects.len() - from,
{
    if from < objects.len() {
        lemma_no_destination_behind(objects, i, from + 1);
    }
}

fn find_paired(objects: &Vec<GameObject>, teleporter: usize) -> (other: Option<usize>)
    requires
        teleporter < objects@.len(),
    ensures
        match other {
            Some(index) => first_paired(objects@, teleporter as int, 0) == Some(index as int)
                && index < objects@.len(),
            None => first_paired(objects@, teleporter as int, 0) is None,
        },
{
    let mut k: usize = 0;
    while k < objects.len()
        invariant
            k <= objects.len(),
            teleporter < objects@.len(),
            first_paired(objects@, teleporter as int, 0) == first_paired(
                objects@,
                teleporter as int,
                k as int,
            ),
        decreases objects.len() - k,
    {
        let paired = match (objects[teleporter].teleporter, objects[k].teleporter) {
            (Some(number), Some(other)) => number == other && !same_cell(
                objects[k].position,
                objects[teleporter].position,
            ),
            _ => false,
        };
        if paired {
            return Some(k);
        }
        k += 1;
    }
    None
}

fn something_rests_at(objects: &Vec<GameObject>, cell: Position) -> (occupied: bool)
    ensures
        occupied == is_occupied(objects@, cell),
{
    let mut k: usize = 0;
    while k < objects.len()
        invariant
            k <= objects.len(),
            forall|l: int|
                0 <= l < k ==> !((#[trigger] objects@[l]).position == cell && objects@[l].massive),
        decreases objects.len() - k,
    {
        let object = &objects[k];
        if same_cell(object.position, cell) && object.massive {
            return true;
        }
        k += 1;
    }
    false
}

fn find_destination(objects: &Vec<GameObject>, i: usize) -> (cell: Option<Position>)
    requires
        i < objects@.len(),
    ensures
        cell == destination(objects@, i as int),
{
    let flash = match objects[i].object_type {
        ObjectType::Flash => true,
        _ => false,
    };
    if !(objects[i].teleporter.is_none() && !flash && objects[i].position_change.is_changed()) {
        return None;
    }
    let mut t: usize = 0;
    while t < objects.len()
        invariant
            t <= objects.len(),
            i < objects@.len(),
            is_traveller(objects@, i as int),
            first_destination(objects@, i as int, 0) == first_destination(
                objects@,
                i as int,
                t as int,
            ),
        decreases objects.len() - t,
    {
        if objects[t].teleporter.is_some() && same_cell(objects[t].position, objects[i].position) {
            if let Some(other) = find_paired(objects, t) {
                let cell = objects[other].position;
                if !something_rests_at(objects, cell) {
                    return Some(cell);
                }
            }
        }
        t += 1;
    }
    None
}

/// Sends every object that has stepped onto a teleporter to the far end of
/// it, unless something massive rests there, and leaves a flash at both ends.
pub fn check_for_teleporter(objects: &mut Vec<GameObject>) -> (events: Vec<Event>)
    ensures
        events@ == teleport_events(old(objects)@),
        final(objects)@.len() == old(objects)@.len(),
        forall|i: int|
            0 <= i < old(objects)@.len() ==> #[trigger] final(objects)@[i] == object_after_teleport(
                old(objects)@,
                i,
            ),
{
    let ghost before = objects@;
    let mut events: Vec<Event> = Vec::new();
    let mut destinations: Vec<Option<Position>> = Vec::new();
    let mut i: usize = 0;
    while i < objects.len()
        invariant
            i <= objects.len(),
            objects@ == before,
            destinations@.len() == i,
            forall|k: int| 0 <= k < i ==> #[trigger] destinations@[k] == destination(before, k),
            events@ == in_order(i as nat, |k: int| journey_of(before, k)),
        decreases objects.len() - i,
    {
        let cell = find_destination(objects, i);
        if let Some(target) = cell {
            push_spawn(&mut events, ObjectType::Flash, objects[i].position);
            push_spawn(&mut events, ObjectType::Flash, target);
        }
        destinations.push(cell);
        i += 1;
    }
    i = 0;
    while i < objects.len()
        invariant
            i <= objects.len(),
            objects@.len() == before.len(),
            destinations@.len() == before.len(),
            forall|k: int|
                0 <= k < before.len() ==> #[trigger] destinations@[k] == destination(before, k),
            forall|k: int| 0 <= k < i ==> #[trigger] objects@[k] == object_after_teleport(before, k),
            forall|k: int| i <= k < before.len() ==> #[trigger] objects@[k] == before[k],
        decreases objects.len() - i,
    {
        if let Some(cell) = destinations[i] {
            let object = objects[i];
            objects.set(i, object.at(cell));
        }
        i += 1;
    }
    events
}

/// No rule of contact moves an object: sinking and floating, keys, finished
/// levels and triggers leave every object where it stands.
pub proof fn lemma_contact_rules_keep_positions(
    objects: Seq<GameObject>,
    finished: Set<u16>,
    pressed_before: nat,
    i: int,
)
    requires
        0 <= i < objects.len(),
    ensures
        object_after_liquid(objects, i).position == objects[i].position,
        object_after_keys(objects, i).position == objects[i].position,
        object_after_finished_levels(objects[i], finished).position == objects[i].position,
        object_after_triggers(objects, pressed_before, i).position == objects[i].position,
{
    lemma_opening_and_anchoring_keep_the_place(objects[i], true);
    lemma_opening_and_anchoring_keep_the_place(objects[i], false);
}

/// A teleporter changes nothing of an object but where it stands, and sends
/// it nowhere but to the cell of a teleporter, on which nothing massive
/// rests.
pub proof fn lemma_journeys_end_on_teleporters(objects: Seq<GameObject>, i: int)
    requires
        0 <= i < objects.len(),
    ensures
        match destination(objects, i) {
            Some(cell) => {
                &&& object_after_teleport(objects, i).position == cell
                &&& !is_occupied(objects, cell)
                &&& exists|t: int|
                    0 <= t < objects.len() && (#[trigger] objects[t]).teleporter is Some
                        && objects[t].position == cell
            },
            None => object_after_teleport(objects, i) == objects[i],
        },
{
    reveal(GameObject::moved_to);
    if destination(objects, i) is Some {
        lemma_first_destination_is_via_a_teleporter(objects, i, 0);
    }
}

proof fn lemma_first_destination_is_via_a_teleporter(objects: Seq<GameObject>, i: int, from: int)
    requires
        0 <= from,
        first_destination(objects, i, from) is Some,
    ensures
        ({
            let cell = first_destination(objects, i, from).unwrap();
            &&& !is_occupied(objects, cell)
            &&& exists|t: int|
                0 <= t < objects.len() && (#[trigger] objects[t]).teleporter is Some
                    && objects[t].position == cell
        }),
    decreases objects.len() - from,
{
    if destination_via(objects, i, from) is Some {
        lemma_first_paired_is_paired(objects, from, 0);
        let other = first_paired(objects, from, 0).unwrap();
        assert(objects[other].teleporter is Some);
    } else {
        lemma_first_destination_is_via_a_teleporter(objects, i, from + 1);
    }
}

proof fn lemma_first_paired_is_paired(objects: Seq<GameObject>, teleporter: int, from: int)
    requires
        0 <= from,
        first_paired(objects, teleporter, from) is Some,
    ensures
        0 <= first_paired(objects, teleporter, from).unwrap() < objects.len(),
        is_paired(objects, teleporter, first_paired(objects, teleporter, from).unwrap()),
    decreases objects.len() - from,
{
    if !is_paired(objects, teleporter, from) {
        lemma_first_paired_is_paired(objects, teleporter, from + 1);
    }
}

} // verus!
