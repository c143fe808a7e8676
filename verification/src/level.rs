//! A level as a list of objects, and as the text that stores it.
//!
//! The text is made of sections. A section starts with a line that holds its
//! name in square brackets, and goes on with lines of the form `key=value`.
//! The section `General` gives the size of the grid; every other section is
//! named after a kind of object and gives where the objects of that kind
//! start. A line that cannot be read is passed over.

use vstd::prelude::*;
use std::collections::BTreeMap;
use vstd::string::StringExecFns;
use crate::components::{Direction, Openable, Position};
use crate::game_object::GameObject;
use crate::levels::{Dimensions, InitialPositionAndMetadata};
use crate::movement::lists;
use crate::object_type::{ObjectType, NUM_OBJECT_TYPES};
use crate::text::{
    chars_of,
    decimal,
    ends_line,
    number_within,
    parse_number,
    signed_decimal,
    slice_of,
    spec_split,
    spec_split_once,
    spec_trim,
    spells,
    split,
    split_once,
    trim,
    views_of,
    write_decimal,
    write_signed,
};

verus! {

/// A level: the size of its grid and where its objects start.
#[derive(Clone, Debug, PartialEq, Eq)]
pub struct Level {
    pub dimensions: Dimensions,
    /// For each kind of which there are objects, under the place of the kind
    /// in the order of all kinds, where the objects of that kind start.
    pub objects: BTreeMap<usize, Vec<InitialPositionAndMetadata>>,
}

/// The lists in `objects`, kind by kind: for each kind the list held under
/// its place, and no starts for a kind under whose place none is held.
pub open spec fn lists_of(objects: Map<usize, Vec<InitialPositionAndMetadata>>) -> Seq<
    Seq<InitialPositionAndMetadata>,
> {
    Seq::new(
        NUM_OBJECT_TYPES as nat,
        |k: int|
            if objects.contains_key(k as usize) {
                objects[k as usize]@
            } else {
                Seq::empty()
            },
    )
}

/// What a level says about the objects that follow: what was last said in
/// their section.
#[derive(Clone, Copy, Debug, PartialEq, Eq, Structural)]
pub struct Metadata {
    pub direction: Option<Direction>,
    pub identifier: Option<u16>,
    pub level: Option<u16>,
    pub open: bool,
}

impl Metadata {
    /// Nothing said.
    pub open spec fn spec_nothing() -> Metadata {
        Metadata { direction: None, identifier: None, level: None, open: false }
    }

    /// Nothing said.
    #[verifier::when_used_as_spec(spec_nothing)]
    pub fn nothing() -> (metadata: Metadata)
        ensures
            metadata == Metadata::spec_nothing(),
    {
        Metadata { direction: None, identifier: None, level: None, open: false }
    }

    /// The start at `position` of an object of which this is said.
    pub open spec fn spec_at(self, position: Position) -> InitialPositionAndMetadata {
        InitialPositionAndMetadata {
            position,
            direction: self.direction,
            identifier: self.identifier,
            level: self.level,
            open: self.open,
        }
    }

    /// The start at `position` of an object of which this is said.
    #[verifier::when_used_as_spec(spec_at)]
    pub fn at(self, position: Position) -> (initial: InitialPositionAndMetadata)
        ensures
            initial == self.spec_at(position),
    {
        InitialPositionAndMetadata {
            position,
            direction: self.direction,
            identifier: self.identifier,
            level: self.level,
            open: self.open,
        }
    }
}

/// How far the reading of a level has come.
pub struct Reading {
    pub dimensions: Dimensions,
    /// The name of the section that is being read.
    pub section: Option<Seq<char>>,
    /// What has been said in that section so far.
    pub metadata: Metadata,
    /// The objects read so far, kind by kind.
    pub objects: Seq<Seq<InitialPositionAndMetadata>>,
}

/// The name of the section that `line` starts, if it starts one.
pub open spec fn section_of(line: Seq<char>) -> Option<Seq<char>> {
    if line.len() >= 2 && line[0] == '[' && line.last() == ']' {
        Some(line.subrange(1, line.len() - 1))
    } else {
        None
    }
}

/// The cell that `location` names: two numbers with a comma between them.
pub open spec fn position_of(location: Seq<char>) -> Option<Position> {
    match spec_split_once(location, ',') {
        Some((x, y)) => match (
            number_within(x, i16::MIN as int, i16::MAX as int),
            number_within(y, i16::MIN as int, i16::MAX as int),
        ) {
            (Some(x), Some(y)) => Some(Position { x: x as i16, y: y as i16 }),
            _ => None,
        },
        None => None,
    }
}

/// The starts that the first `n` of `locations` stand for, with `metadata`
/// said of each. A location that names no cell stands for none.
pub open spec fn starts_of(locations: Seq<Seq<char>>, metadata: Metadata, n: nat) -> Seq<
    InitialPositionAndMetadata,
>
    decreases n,
{
    if n == 0 {
        Seq::empty()
    } else {
        let earlier = starts_of(locations, metadata, (n - 1) as nat);
        match position_of(locations[n - 1]) {
            Some(position) => earlier.push(metadata.at(position)),
            None => earlier,
        }
    }
}

/// The starts that `value` lists: locations with a semicolon between them.
pub open spec fn starts_in(value: Seq<char>, metadata: Metadata) -> Seq<
    InitialPositionAndMetadata,
> {
    starts_of(spec_split(value, ';'), metadata, spec_split(value, ';').len())
}

/// The size of the grid once `key=value` has been read in the section
/// `General`: the width or the height is the number given, if one is given.
pub open spec fn dimensions_after(dimensions: Dimensions, key: Seq<char>, value: Seq<char>) -> Dimensions {
    match number_within(value, i16::MIN as int, i16::MAX as int) {
        Some(number) => if key == "Width"@ {
            Dimensions { width: number as i16, ..dimensions }
        } else if key == "Height"@ {
            Dimensions { height: number as i16, ..dimensions }
        } else {
            dimensions
        },
        None => dimensions,
    }
}

/// What is said of the objects that follow once `key=value` has been read in
/// the section of a kind of object.
pub open spec fn metadata_after(metadata: Metadata, key: Seq<char>, value: Seq<char>) -> Metadata {
    if key == "Direction"@ {
        match Direction::spec_from_name(value) {
            Some(direction) => Metadata { direction: Some(direction), ..metadata },
            None => metadata,
        }
    } else if key == "Identifier"@ {
        match number_within(value, 0, u16::MAX as int) {
            Some(number) => Metadata { identifier: Some(number as u16), ..metadata },
            None => metadata,
        }
    } else if key == "Level"@ {
        match number_within(value, 0, u16::MAX as int) {
            Some(number) => Metadata { level: Some(number as u16), ..metadata },
            None => metadata,
        }
    } else if key == "Open"@ {
        if value == "true"@ {
            Metadata { open: true, ..metadata }
        } else if value == "false"@ {
            Metadata { open: false, ..metadata }
        } else {
            metadata
        }
    } else {
        metadata
    }
}

/// The reading once the line `line` has been read.
///
/// A line in square brackets starts a section, of which nothing has been
/// said yet. A line `key=value` in the section `General` gives the width or
/// the height of the grid. In the section of a kind of object, `Position`
/// lists where objects of that kind start, and any other key says something
/// of the objects that follow. Every other line changes nothing.
pub open spec fn after_line(reading: Reading, line: Seq<char>) -> Reading {
    let line = spec_trim(line);
    match section_of(line) {
        Some(name) => Reading { section: Some(name), metadata: Metadata::nothing(), ..reading },
        None => match (spec_split_once(line, '='), reading.section) {
            (Some((key, value)), Some(section)) => if section == "General"@ {
                Reading {
                    dimensions: dimensions_after(reading.dimensions, key, value),
                    ..reading
                }
            } else {
                match ObjectType::spec_from_name(section) {
                    Some(kind) => if key == "Position"@ {
                        Reading {
                            objects: reading.objects.update(
                                kind.index() as int,
                                reading.objects[kind.index() as int] + starts_in(
                                    value,
                                    reading.metadata,
                                ),
                            ),
                            ..reading
                        }
                    } else {
                        Reading {
                            metadata: metadata_after(reading.metadata, key, value),
                            ..reading
                        }
                    },
                    None => reading,
                }
            },
            _ => reading,
        },
    }
}

/// The reading once the first `n` of `lines` have been read.
pub open spec fn after_lines(reading: Reading, lines: Seq<Seq<char>>, n: nat) -> Reading
    decreases n,
{
    if n == 0 {
        reading
    } else {
        after_line(after_lines(reading, lines, (n - 1) as nat), lines[n - 1])
    }
}

/// The reading before anything has been read: a grid of 16 by 16 cells with
/// nothing on it.
pub open spec fn blank_reading() -> Reading {
    Reading {
        dimensions: Dimensions { width: 16, height: 16 },
        section: None,
        metadata: Metadata::nothing(),
        objects: Seq::new(NUM_OBJECT_TYPES as nat, |k: int| Seq::empty()),
    }
}

/// The reading at the end of `content`.
pub open spec fn reading_of(content: Seq<char>) -> Reading {
    after_lines(blank_reading(), spec_split(content, '\n'), spec_split(content, '\n').len())
}

/// The reading in progress.
struct Reader {
    dimensions: Dimensions,
    section: Option<Vec<char>>,
    metadata: Metadata,
    objects: BTreeMap<usize, Vec<InitialPositionAndMetadata>>,
}

impl Reader {
    spec fn reading(&self) -> Reading {
        Reading {
            dimensions: self.dimensions,
            section: match self.section {
                Some(name) => Some(name@),
                None => None,
            },
            metadata: self.metadata,
            objects: lists_of(self.objects@),
        }
    }
}

fn read_position(location: &Vec<char>) -> (position: Option<Position>)
    ensures
        position == position_of(location@),
{
    match split_once(location, ',') {
        Some((x, y)) => {
            let x = parse_number(&x, -32768, 32767);
            let y = parse_number(&y, -32768, 32767);
            match (x, y) {
                (Some(x), Some(y)) => Some(Position { x: x as i16, y: y as i16 }),
                _ => None,
            }
        },
        None => None,
    }
}

fn read_starts(value: &Vec<char>, metadata: Metadata) -> (starts: Vec<InitialPositionAndMetadata>)
    ensures
        starts@ == starts_in(value@, metadata),
{
    let locations = split(value, ';');
    let mut starts: Vec<InitialPositionAndMetadata> = Vec::new();
    let mut i: usize = 0;
    while i < locations.len()
        invariant
            i <= locations.len(),
            views_of(locations@) == spec_split(value@, ';'),
            starts@ == starts_of(views_of(locations@), metadata, i as nat),
        decreases locations.len() - i,
    {
        assert(views_of(locations@)[i as int] == locations@[i as int]@);
        if let Some(position) = read_position(&locations[i]) {
            starts.push(metadata.at(position));
        }
        i += 1;
    }
    starts
}

fn read_dimensions(dimensions: Dimensions, key: &Vec<char>, value: &Vec<char>) -> (after:
    Dimensions)
    ensures
        after == dimensions_after(dimensions, key@, value@),
{
    match parse_number(value, -32768, 32767) {
        Some(number) => {
            if spells(key, "Width") {
                Dimensions { width: number as i16, height: dimensions.height }
            } else if spells(key, "Height") {
                Dimensions { width: dimensions.width, height: number as i16 }
            } else {
                dimensions
            }
        },
        None => dimensions,
    }
}

fn read_metadata(metadata: Metadata, key: &Vec<char>, value: &Vec<char>) -> (after: Metadata)
    ensures
        after == metadata_after(metadata, key@, value@),
{
    if spells(key, "Direction") {
        match Direction::from_name(value) {
            Some(direction) => Metadata { direction: Some(direction), ..metadata },
            None => metadata,
        }
    } else if spells(key, "Identifier") {
        match parse_number(value, 0, 65535) {
            Some(number) => Metadata { identifier: Some(number as u16), ..metadata },
            None => metadata,
        }
    } else if spells(key, "Level") {
        match parse_number(value, 0, 65535) {
            Some(number) => Metadata { level: Some(number as u16), ..metadata },
            None => metadata,
        }
    } else if spells(key, "Open") {
        if spells(value, "true") {
            Metadata { open: true, ..metadata }
        } else if spells(value, "false") {
            Metadata { open: false, ..metadata }
        } else {
            metadata
        }
    } else {
        metadata
    }
}

fn read_section(line: &Vec<char>) -> (name: Option<Vec<char>>)
    ensures
        match name {
            Some(name) => section_of(line@) == Some(name@),
            None => section_of(line@) is None,
        },
{
    if line.len() >= 2 && line[0] == '[' && line[line.len() - 1] == ']' {
        Some(slice_of(line, 1, line.len() - 1))
    } else {
        None
    }
}

fn add_starts(
    objects: &mut BTreeMap<usize, Vec<InitialPositionAndMetadata>>,
    kind: ObjectType,
    starts: Vec<InitialPositionAndMetadata>,
)
    ensures
        lists_of(final(objects)@) == lists_of(old(objects)@).update(
            kind.index() as int,
            lists_of(old(objects)@)[kind.index() as int] + starts@,
        ),
{
    let ghost before = objects@;
    let index = kind.index();
    if starts.len() == 0 {
        assert(lists_of(before) =~= lists_of(before).update(
            index as int,
            lists_of(before)[index as int] + starts@,
        ));
        return ;
    }
    let mut list = match objects.remove(&index) {
        Some(list) => list,
        None => Vec::new(),
    };
    assert(list@ =~= lists_of(before)[index as int]);
    let mut i: usize = 0;
    while i < starts.len()
        invariant
            i <= starts.len(),
            list@ == lists_of(before)[index as int] + starts@.take(i as int),
        decreases starts.len() - i,
    {
        list.push(starts[i]);
        assert(starts@.take(i as int).push(starts@[i as int]) =~= starts@.take(i + 1));
        i += 1;
    }
    assert(starts@.take(i as int) =~= starts@);
    objects.insert(index, list);
    assert(lists_of(objects@) =~= lists_of(before).update(
        index as int,
        lists_of(before)[index as int] + starts@,
    ));
}

fn read_line(reader: &mut Reader, raw: &Vec<char>)
    ensures
        final(reader).reading() == after_line(old(reader).reading(), raw@),
{
    let line = trim(raw);
    if let Some(name) = read_section(&line) {
        reader.section = Some(name);
        reader.metadata = Metadata::nothing();
        return ;
    }
    let (key, value) = match split_once(&line, '=') {
        Some(halves) => halves,
        None => {
            return ;
        },
    };
    let general = match &reader.section {
        Some(section) => spells(section, "General"),
        None => {
            return ;
        },
    };
    if general {
        reader.dimensions = read_dimensions(reader.dimensions, &key, &value);
        return ;
    }
    let kind = match &reader.section {
        Some(section) => ObjectType::from_name(section),
        None => None,
    };
    let kind = match kind {
        Some(kind) => kind,
        None => {
            return ;
        },
    };
    if spells(&key, "Position") {
        let starts = read_starts(&value, reader.metadata);
        add_starts(&mut reader.objects, kind, starts);
    } else {
        reader.metadata = read_metadata(reader.metadata, &key, &value);
    }
}

impl Level {
    /// Where the objects of the kind `kind` start.
    pub open spec fn starts(&self, kind: ObjectType) -> Seq<InitialPositionAndMetadata> {
        lists_of(self.objects@)[kind.index() as int]
    }

    /// A level of the given size without objects.
    pub fn new(dimensions: Dimensions) -> (level: Level)
        ensures
            level.dimensions == dimensions,
            level.objects@ == Map::<usize, Vec<InitialPositionAndMetadata>>::empty(),
    {
        Level { dimensions, objects: BTreeMap::new() }
    }

    /// Reads a level from the text that stores it. What cannot be read is
    /// passed over; a text that gives no size stands for a grid of 16 by 16
    /// cells.
    pub fn load(content: &str) -> (level: Level)
        ensures
            level.dimensions == reading_of(content@).dimensions,
            lists_of(level.objects@) == reading_of(content@).objects,
    {
        let chars = chars_of(content);
        let lines = split(&chars, '\n');
        let mut reader = Reader {
            dimensions: Dimensions { width: 16, height: 16 },
            section: None,
            metadata: Metadata::nothing(),
            objects: BTreeMap::new(),
        };
        assert(reader.reading().objects =~= blank_reading().objects);
        let mut i: usize = 0;
        while i < lines.len()
            invariant
                i <= lines.len(),
                reader.reading() == after_lines(blank_reading(), views_of(lines@), i as nat),
            decreases lines.len() - i,
        {
            assert(views_of(lines@)[i as int] == lines@[i as int]@);
            read_line(&mut reader, &lines[i]);
            i += 1;
        }
        Level { dimensions: reader.dimensions, objects: reader.objects }
    }
}

/// The place of a start in the order in which a level lists its starts: by
/// the level said of it, then by its direction, then by its column, then by
/// its row. A start of which no level or no direction is said comes before
/// those of which one is.
pub open spec fn listing_key(start: InitialPositionAndMetadata) -> (int, int, int, int) {
    (
        match start.level {
            Some(level) => level as int,
            None => -1,
        },
        match start.direction {
            Some(direction) => direction.index() as int,
            None => -1,
        },
        start.position.x as int,
        start.position.y as int,
    )
}

/// Whether the key `a` comes before the key `b`.
pub open spec fn key_precedes(a: (int, int, int, int), b: (int, int, int, int)) -> bool {
    a.0 < b.0 || (a.0 == b.0 && (a.1 < b.1 || (a.1 == b.1 && (a.2 < b.2 || (a.2 == b.2 && a.3
        < b.3)))))
}

/// Whether the start with the index `a` is listed before the one with the
/// index `b`: the one whose key comes first, or of two with the same key the
/// one that was first before.
pub open spec fn is_listed_before(
    starts: Seq<InitialPositionAndMetadata>,
    a: usize,
    b: usize,
) -> bool {
    key_precedes(listing_key(starts[a as int]), listing_key(starts[b as int])) || (listing_key(
        starts[a as int],
    ) == listing_key(starts[b as int]) && a < b)
}

/// Whether `order` holds the index of every start exactly once, in the order
/// in which a level lists them.
pub open spec fn is_listing_order(
    order: Seq<usize>,
    starts: Seq<InitialPositionAndMetadata>,
) -> bool {
    &&& order.len() == starts.len()
    &&& forall|k: int| 0 <= k < order.len() ==> (#[trigger] order[k]) < starts.len()
    &&& forall|i: int| 0 <= i < starts.len() ==> #[trigger] lists(order, i)
    &&& forall|k: int, l: int|
        0 <= k < l < order.len() ==> is_listed_before(
            starts,
            #[trigger] order[k],
            #[trigger] order[l],
        )
}

fn key_of(start: &InitialPositionAndMetadata) -> (key: (i32, i32, i32, i32))
    ensures
        (key.0 as int, key.1 as int, key.2 as int, key.3 as int) == listing_key(*start),
{
    (
        match start.level {
            Some(level) => level as i32,
            None => -1,
        },
        match start.direction {
            Some(direction) => direction.index() as i32,
            None => -1,
        },
        start.position.x as i32,
        start.position.y as i32,
    )
}

fn listed_not_after(a: &InitialPositionAndMetadata, b: &InitialPositionAndMetadata) -> (first:
    bool)
    ensures
        first == !key_precedes(listing_key(*b), listing_key(*a)),
{
    let a = key_of(a);
    let b = key_of(b);
    !(b.0 < a.0 || (b.0 == a.0 && (b.1 < a.1 || (b.1 == a.1 && (b.2 < a.2 || (b.2 == a.2 && b.3
        < a.3))))))
}

proof fn lemma_insert_keeps_listing_order(
    earlier: Seq<usize>,
    at: int,
    i: usize,
    starts: Seq<InitialPositionAndMetadata>,
)
    requires
        0 <= at <= earlier.len(),
        i < starts.len(),
        forall|k: int| 0 <= k < earlier.len() ==> (#[trigger] earlier[k]) < i,
        forall|k: int, l: int|
            0 <= k < l < earlier.len() ==> is_listed_before(
                starts,
                #[trigger] earlier[k],
                #[trigger] earlier[l],
            ),
        forall|k: int|
            0 <= k < at ==> !key_precedes(
                listing_key(starts[i as int]),
                listing_key(starts[(#[trigger] earlier[k]) as int]),
            ),
        at < earlier.len() ==> key_precedes(
            listing_key(starts[i as int]),
            listing_key(starts[earlier[at] as int]),
        ),
    ensures
        forall|k: int|
            0 <= k < earlier.insert(at, i).len() ==> (#[trigger] earlier.insert(at, i)[k]) < i + 1,
        forall|k: int, l: int|
            0 <= k < l < earlier.insert(at, i).len() ==> is_listed_before(
                starts,
                #[trigger] earlier.insert(at, i)[k],
                #[trigger] earlier.insert(at, i)[l],
            ),
        lists(earlier.insert(at, i), i as int),
        forall|j: int| lists(earlier, j) ==> lists(earlier.insert(at, i), j),
{
    let later = earlier.insert(at, i);
    assert forall|j: int| lists(earlier, j) implies lists(later, j) by {
        let k = choose|k: int| 0 <= k < earlier.len() && (#[trigger] earlier[k]) as int == j;
        if k < at {
            assert(later[k] as int == j);
        } else {
            assert(later[k + 1] as int == j);
        }
    }
    assert(later[at] as int == i as int);
    assert(later.len() == earlier.len() + 1);
    assert(forall|k: int| 0 <= k < at ==> later[k] == earlier[k]);
    assert(later[at] == i);
    assert(forall|k: int| at < k < later.len() ==> later[k] == earlier[k - 1]);
    assert forall|k: int, l: int| 0 <= k < l < later.len() implies is_listed_before(
        starts,
        #[trigger] later[k],
        #[trigger] later[l],
    ) by {
        if l < at {
            assert(is_listed_before(starts, earlier[k], earlier[l]));
        } else if l == at {
            assert(earlier[k] < i);
        } else if k < at {
            assert(is_listed_before(starts, earlier[k], earlier[l - 1]));
        } else if k == at {
            if at < l - 1 {
                assert(is_listed_before(starts, earlier[at], earlier[l - 1]));
            }
        } else {
            assert(is_listed_before(starts, earlier[k - 1], earlier[l - 1]));
        }
    }
}

/// The indices of `starts` in the order in which a level lists them.
pub fn listing_order(starts: &Vec<InitialPositionAndMetadata>) -> (order: Vec<usize>)
    ensures
        is_listing_order(order@, starts@),
{
    let mut order: Vec<usize> = Vec::new();
    let mut i: usize = 0;
    while i < starts.len()
        invariant
            i <= starts.len(),
            order@.len() == i,
            forall|k: int| 0 <= k < order@.len() ==> (#[trigger] order@[k]) < i,
            forall|j: int| 0 <= j < i ==> #[trigger] lists(order@, j),
            forall|k: int, l: int|
                0 <= k < l < order@.len() ==> is_listed_before(
                    starts@,
                    #[trigger] order@[k],
                    #[trigger] order@[l],
                ),
        decreases starts.len() - i,
    {
        let mut at: usize = 0;
        while at < order.len() && listed_not_after(&starts[order[at]], &starts[i])
            invariant
                at <= order@.len(),
                i < starts.len(),
                forall|k: int| 0 <= k < order@.len() ==> (#[trigger] order@[k]) < i,
                forall|k: int|
                    0 <= k < at ==> !key_precedes(
                        listing_key(starts@[i as int]),
                        listing_key(starts@[(#[trigger] order@[k]) as int]),
                    ),
            decreases order@.len() - at,
        {
            at += 1;
        }
        let ghost earlier = order@;
        order.insert(at, i);
        proof {
            lemma_insert_keeps_listing_order(earlier, at as int, i, starts@);
            assert forall|j: int| 0 <= j < i + 1 implies #[trigger] lists(order@, j) by {
                if j < i {
                    assert(lists(earlier, j));
                }
            }
        }
        i += 1;
    }
    order
}

/// The order in which a level lists `starts`.
pub open spec fn listing(starts: Seq<InitialPositionAndMetadata>) -> Seq<usize> {
    choose|order: Seq<usize>| is_listing_order(order, starts)
}

proof fn lemma_listing_orders_agree_up_to(
    one: Seq<usize>,
    other: Seq<usize>,
    starts: Seq<InitialPositionAndMetadata>,
    n: int,
)
    requires
        is_listing_order(one, starts),
        is_listing_order(other, starts),
        0 <= n <= starts.len(),
    ensures
        forall|k: int| 0 <= k < n ==> one[k] == other[k],
    decreases n,
{
    if n > 0 {
        lemma_listing_orders_agree_up_to(one, other, starts, n - 1);
        let k = n - 1;
        let a = one[k];
        let b = other[k];
        if a != b {
            assert(lists(other, a as int));
            let p = choose|p: int| 0 <= p < other.len() && (#[trigger] other[p]) as int == a as int;
            assert(lists(one, b as int));
            let q = choose|q: int| 0 <= q < one.len() && (#[trigger] one[q]) as int == b as int;
            if p < k {
                assert(one[p] == other[p]);
                assert(is_listed_before(starts, one[p], one[k]));
            } else if q < k {
                assert(other[q] == one[q]);
                assert(is_listed_before(starts, other[q], other[k]));
            } else {
                assert(is_listed_before(starts, other[k], other[p]));
                assert(is_listed_before(starts, one[k], one[q]));
            }
        }
    }
}

/// There is one order in which a level lists its starts, and no other.
pub proof fn lemma_listing_order_is_unique(
    order: Seq<usize>,
    starts: Seq<InitialPositionAndMetadata>,
)
    requires
        is_listing_order(order, starts),
    ensures
        order == listing(starts),
{
    let other = listing(starts);
    lemma_listing_orders_agree_up_to(order, other, starts, starts.len() as int);
    assert(order =~= other);
}

/// How far the writing of a section has come.
pub struct Writing {
    pub text: Seq<char>,
    /// What was last said of the objects of the section. At the start of a
    /// section it is as if up, 0, 0 and closed had been said.
    pub direction: Direction,
    pub identifier: u16,
    pub level: u16,
    pub open: bool,
    /// The column of the start last written.
    pub last_x: Option<i16>,
}

/// `text`, ended with a new line unless it ends with one.
pub open spec fn on_new_line(text: Seq<char>) -> Seq<char> {
    if text.len() > 0 && text.last() == '\n' {
        text
    } else {
        text.push('\n')
    }
}

/// The text that says whether something is so.
pub open spec fn truth_text(truth: bool) -> Seq<char> {
    if truth {
        "true"@
    } else {
        "false"@
    }
}

/// The text that names `position`: its column and its row with a comma
/// between them.
pub open spec fn position_text(position: Position) -> Seq<char> {
    signed_decimal(position.x as int) + ","@ + signed_decimal(position.y as int)
}

/// The writing once what is said of `start` has been written: each of its
/// direction, identifier and level that is given and is not what was last
/// said, and whether it is open if that is not what was last said, on lines
/// of their own.
pub open spec fn after_metadata(writing: Writing, start: InitialPositionAndMetadata) -> Writing {
    let directed = match start.direction {
        Some(direction) => if direction != writing.direction {
            Writing {
                text: on_new_line(writing.text) + "Direction="@ + direction.spec_name() + "\n"@,
                direction,
                ..writing
            }
        } else {
            writing
        },
        None => writing,
    };
    let identified = match start.identifier {
        Some(identifier) => if identifier != directed.identifier {
            Writing {
                text: on_new_line(directed.text) + "Identifier="@ + decimal(identifier as int)
                    + "\n"@,
                identifier,
                ..directed
            }
        } else {
            directed
        },
        None => directed,
    };
    let levelled = match start.level {
        Some(level) => if level != identified.level {
            Writing {
                text: on_new_line(identified.text) + "Level="@ + decimal(level as int) + "\n"@,
                level,
                ..identified
            }
        } else {
            identified
        },
        None => identified,
    };
    if start.open != levelled.open {
        Writing {
            text: on_new_line(levelled.text) + "Open="@ + truth_text(start.open) + "\n"@,
            open: start.open,
            ..levelled
        }
    } else {
        levelled
    }
}

/// The writing once `start` has been written: what is said of it, and then
/// its position, on the line of the position before it if that is in the
/// same column, and else on a line of its own.
pub open spec fn after_start(writing: Writing, start: InitialPositionAndMetadata) -> Writing {
    let said = after_metadata(writing, start);
    Writing {
        text: if said.text.len() > 0 && said.text.last() == '\n' {
            said.text + "Position="@ + position_text(start.position)
        } else if said.last_x != Some(start.position.x) {
            said.text + "\nPosition="@ + position_text(start.position)
        } else {
            said.text + ";"@ + position_text(start.position)
        },
        last_x: Some(start.position.x),
        ..said
    }
}

/// The writing once the first `n` starts in `order` have been written.
pub open spec fn after_starts(
    writing: Writing,
    starts: Seq<InitialPositionAndMetadata>,
    order: Seq<usize>,
    n: nat,
) -> Writing
    decreases n,
{
    if n == 0 {
        writing
    } else {
        after_start(
            after_starts(writing, starts, order, (n - 1) as nat),
            starts[order[n - 1] as int],
        )
    }
}

/// `text` with the section of the kind `kind` added, which lists `starts` in
/// the order `order`. A kind without starts gets no section.
pub open spec fn with_section(
    text: Seq<char>,
    kind: ObjectType,
    starts: Seq<InitialPositionAndMetadata>,
    order: Seq<usize>,
) -> Seq<char> {
    if starts.len() == 0 {
        text
    } else {
        after_starts(
            Writing {
                text: text + "\n\n["@ + kind.spec_name() + "]\n"@,
                direction: Direction::Up,
                identifier: 0,
                level: 0,
                open: false,
                last_x: None,
            },
            starts,
            order,
            starts.len(),
        ).text
    }
}

/// The start of the text of a level: the section that gives the size of the
/// grid.
pub open spec fn heading(dimensions: Dimensions) -> Seq<char> {
    "[General]\nWidth="@ + signed_decimal(dimensions.width as int) + "\nHeight="@
        + signed_decimal(dimensions.height as int)
}

fn write_position(out: &mut String, position: Position)
    ensures
        final(out)@ == old(out)@ + position_text(position),
        !ends_line(final(out)@),
{
    write_signed(out, position.x);
    out.append(",");
    write_signed(out, position.y);
    assert(out@ =~= old(out)@ + position_text(position));
}

/// The writing in progress.
struct Writer {
    text: String,
    direction: Direction,
    identifier: u16,
    level: u16,
    open: bool,
    last_x: Option<i16>,
    at_line_start: bool,
}

impl Writer {
    spec fn writing(&self) -> Writing {
        Writing {
            text: self.text@,
            direction: self.direction,
            identifier: self.identifier,
            level: self.level,
            open: self.open,
            last_x: self.last_x,
        }
    }

    spec fn is_sound(&self) -> bool {
        self.at_line_start == ends_line(self.text@)
    }
}

fn start_line(text: &mut String, at_line_start: bool)
    requires
        at_line_start == ends_line(old(text)@),
    ensures
        final(text)@ == on_new_line(old(text)@),
        ends_line(final(text)@),
{
    if !at_line_start {
        proof {
            reveal_strlit("\n");
        }
        text.append("\n");
        assert(text@ =~= old(text)@.push('\n'));
    }
}

fn end_line(text: &mut String)
    ensures
        final(text)@ == old(text)@ + "\n"@,
        ends_line(final(text)@),
{
    proof {
        reveal_strlit("\n");
    }
    text.append("\n");
}

fn write_metadata(writer: &mut Writer, start: &InitialPositionAndMetadata)
    requires
        old(writer).is_sound(),
    ensures
        final(writer).is_sound(),
        final(writer).writing() == after_metadata(old(writer).writing(), *start),
{
    if let Some(direction) = start.direction {
        if direction != writer.direction {
            start_line(&mut writer.text, writer.at_line_start);
            writer.text.append("Direction=");
            writer.text.append(direction.name());
            end_line(&mut writer.text);
            writer.direction = direction;
            writer.at_line_start = true;
        }
    }
    if let Some(identifier) = start.identifier {
        if identifier != writer.identifier {
            start_line(&mut writer.text, writer.at_line_start);
            writer.text.append("Identifier=");
            write_decimal(&mut writer.text, identifier as u32);
            end_line(&mut writer.text);
            writer.identifier = identifier;
            writer.at_line_start = true;
        }
    }
    if let Some(level) = start.level {
        if level != writer.level {
            start_line(&mut writer.text, writer.at_line_start);
            writer.text.append("Level=");
            write_decimal(&mut writer.text, level as u32);
            end_line(&mut writer.text);
            writer.level = level;
            writer.at_line_start = true;
        }
    }
    if start.open != writer.open {
        start_line(&mut writer.text, writer.at_line_start);
        writer.text.append("Open=");
        writer.text.append(
            if start.open {
                "true"
            } else {
                "false"
            },
        );
        end_line(&mut writer.text);
        writer.open = start.open;
        writer.at_line_start = true;
    }
}

fn write_start(writer: &mut Writer, start: &InitialPositionAndMetadata)
    requires
        old(writer).is_sound(),
    ensures
        final(writer).is_sound(),
        final(writer).writing() == after_start(old(writer).writing(), *start),
{
    write_metadata(writer, start);
    if writer.at_line_start {
        writer.text.append("Position=");
    } else if writer.last_x != Some(start.position.x) {
        writer.text.append("\nPosition=");
    } else {
        writer.text.append(";");
    }
    write_position(&mut writer.text, start.position);
    writer.last_x = Some(start.position.x);
    writer.at_line_start = false;
}

fn write_section(text: String, kind: ObjectType, starts: &Vec<InitialPositionAndMetadata>) -> (
    result: String)
    ensures
        result@ == with_section(text@, kind, starts@, listing(starts@)),
{
    let order = listing_order(starts);
    proof {
        lemma_listing_order_is_unique(order@, starts@);
    }
    if starts.len() == 0 {
        return text;
    }
    let mut text = text;
    text.append("\n\n[");
    text.append(kind.name());
    proof {
        reveal_strlit("]\n");
    }
    text.append("]\n");
    assert(ends_line(text@)) by {
        assert(text@.last() == "]\n"@[1]);
    }
    let mut writer = Writer {
        text,
        direction: Direction::Up,
        identifier: 0,
        level: 0,
        open: false,
        last_x: None,
        at_line_start: true,
    };
    let ghost first = writer.writing();
    let mut i: usize = 0;
    while i < order.len()
        invariant
            i <= order.len(),
            is_listing_order(order@, starts@),
            writer.is_sound(),
            writer.writing() == after_starts(first, starts@, order@, i as nat),
        decreases order.len() - i,
    {
        write_start(&mut writer, &starts[order[i]]);
        i += 1;
    }
    writer.text
}

/// `text` with the sections of the first `n` kinds of object added, each
/// listing the starts that `objects` holds for its kind.
pub open spec fn with_sections(
    text: Seq<char>,
    objects: Seq<Seq<InitialPositionAndMetadata>>,
    n: nat,
) -> Seq<char>
    decreases n,
{
    if n == 0 {
        text
    } else {
        let earlier = with_sections(text, objects, (n - 1) as nat);
        match ObjectType::from_index((n - 1) as usize) {
            Some(kind) => with_section(earlier, kind, objects[n - 1], listing(objects[n - 1])),
            None => earlier,
        }
    }
}

/// The text that stores a level of the size `dimensions` with the objects
/// `objects`: the section that gives the size, then a section for every kind
/// of which there are objects, in the order of the kinds.
pub open spec fn text_of(
    dimensions: Dimensions,
    objects: Seq<Seq<InitialPositionAndMetadata>>,
) -> Seq<char> {
    with_sections(heading(dimensions), objects, objects.len()) + "\n"@
}

/// What a level says of `object` when it stores it: where it stands and how
/// it faces, the number of a teleporter, the level that an entrance leads to
/// or a gate waits for, and whether a door or gate is open.
pub open spec fn spec_record_of(object: &GameObject) -> InitialPositionAndMetadata {
    InitialPositionAndMetadata {
        position: object.position,
        direction: Some(object.direction),
        identifier: object.teleporter,
        level: match object.entrance {
            Some(level) => Some(level),
            None => match object.openable {
                Some(openable) => openable.level(),
                None => None,
            },
        },
        open: object.openable is Some && !object.massive,
    }
}

/// What a level says of `object` when it stores it.
#[verifier::when_used_as_spec(spec_record_of)]
pub fn record_of(object: &GameObject) -> (record: InitialPositionAndMetadata)
    ensures
        record == spec_record_of(object),
{
    InitialPositionAndMetadata {
        position: object.position,
        direction: Some(object.direction),
        identifier: object.teleporter,
        level: match object.entrance {
            Some(level) => Some(level),
            None => match object.openable {
                Some(openable) => openable.level(),
                None => None,
            },
        },
        open: object.openable.is_some() && !object.massive,
    }
}

/// What a level stores of the first `n` objects for the kind `kind`: those of
/// that kind that stand on the grid.
pub open spec fn stored_starts(
    objects: Seq<GameObject>,
    dimensions: Dimensions,
    kind: ObjectType,
    n: nat,
) -> Seq<InitialPositionAndMetadata>
    decreases n,
{
    if n == 0 {
        Seq::empty()
    } else {
        let earlier = stored_starts(objects, dimensions, kind, (n - 1) as nat);
        if objects[n - 1].object_type == kind && dimensions.contains(objects[n - 1].position) {
            earlier.push(record_of(&objects[n - 1]))
        } else {
            earlier
        }
    }
}

/// The cell of the first entrance among `entrances` that leads to the level
/// `previous`.
pub open spec fn entrance_from(
    entrances: Seq<InitialPositionAndMetadata>,
    previous: u16,
    from: int,
) -> Option<Position>
    decreases entrances.len() - from,
{
    if from < 0 || from >= entrances.len() {
        None
    } else if entrances[from].level == Some(previous) {
        Some(entrances[from].position)
    } else {
        entrance_from(entrances, previous, from + 1)
    }
}

/// The starts `starts`, each moved to `position`.
pub open spec fn moved_to(
    starts: Seq<InitialPositionAndMetadata>,
    position: Position,
) -> Seq<InitialPositionAndMetadata> {
    Seq::new(
        starts.len(),
        |k: int| InitialPositionAndMetadata { position, ..starts[k] },
    )
}

fn find_entrance(entrances: &Vec<InitialPositionAndMetadata>, previous: u16) -> (found: Option<
    Position,
>)
    ensures
        found == entrance_from(entrances@, previous, 0),
{
    let mut i: usize = 0;
    while i < entrances.len()
        invariant
            i <= entrances.len(),
            entrance_from(entrances@, previous, 0) == entrance_from(
                entrances@,
                previous,
                i as int,
            ),
        decreases entrances.len() - i,
    {
        match entrances[i].level {
            Some(level) => {
                if level == previous {
                    return Some(entrances[i].position);
                }
            },
            None => {},
        }
        i += 1;
    }
    None
}

impl Level {
    /// Writes the level as the text that stores it.
    pub fn save(&self) -> (content: String)
        ensures
            content@ == text_of(self.dimensions, lists_of(self.objects@)),
    {
        let mut text = String::new();
        text.append("[General]\nWidth=");
        write_signed(&mut text, self.dimensions.width);
        text.append("\nHeight=");
        write_signed(&mut text, self.dimensions.height);
        assert(text@ =~= heading(self.dimensions));
        let mut i: usize = 0;
        while i < NUM_OBJECT_TYPES
            invariant
                i <= NUM_OBJECT_TYPES,
                text@ == with_sections(
                    heading(self.dimensions),
                    lists_of(self.objects@),
                    i as nat,
                ),
            decreases NUM_OBJECT_TYPES - i,
        {
            if let Some(kind) = ObjectType::from_index(i) {
                if let Some(starts) = self.objects.get(&i) {
                    assert(lists_of(self.objects@)[i as int] == starts@);
                    text = write_section(text, kind, starts);
                } else {
                    assert(lists_of(self.objects@)[i as int].len() == 0);
                }
            }
            i += 1;
        }
        text.append("\n");
        text
    }

    /// The level that stores the objects `objects` on a grid of the size
    /// `dimensions`: each object that stands on the grid under its kind, in
    /// the order of the objects. There is no such level unless exactly one
    /// player stands on the grid.
    pub fn from_objects(dimensions: Dimensions, objects: &Vec<GameObject>) -> (level: Option<
        Level,
    >)
        ensures
            match level {
                Some(level) => {
                    &&& level.dimensions == dimensions
                    &&& forall|kind: ObjectType| #[trigger]
                        level.starts(kind) == stored_starts(
                            objects@,
                            dimensions,
                            kind,
                            objects@.len(),
                        )
                    &&& level.starts(ObjectType::Player).len() == 1
                },
                None => stored_starts(
                    objects@,
                    dimensions,
                    ObjectType::Player,
                    objects@.len(),
                ).len() != 1,
            },
    {
        let mut level = Level::new(dimensions);
        let mut i: usize = 0;
        while i < objects.len()
            invariant
                i <= objects.len(),
                level.dimensions == dimensions,
                forall|kind: ObjectType| #[trigger]
                    level.starts(kind) == stored_starts(objects@, dimensions, kind, i as nat),
            decreases objects.len() - i,
        {
            let object = &objects[i];
            let ghost was = level;
            if dimensions.contains(object.position) {
                let mut record: Vec<InitialPositionAndMetadata> = Vec::new();
                record.push(record_of(object));
                add_starts(&mut level.objects, object.object_type, record);
                proof {
                    assert forall|kind: ObjectType| #[trigger]
                        level.starts(kind) == stored_starts(
                            objects@,
                            dimensions,
                            kind,
                            (i + 1) as nat,
                        ) by {
                        assert(was.starts(kind) == stored_starts(
                            objects@,
                            dimensions,
                            kind,
                            i as nat,
                        ));
                        if kind != object.object_type {
                            assert(kind.index() != object.object_type.index());
                        } else {
                            assert(was.starts(kind) + record@ =~= was.starts(kind).push(
                                record_of(object),
                            ));
                        }
                    }
                }
            }
            i += 1;
        }
        assert(level.starts(ObjectType::Player) == stored_starts(
            objects@,
            dimensions,
            ObjectType::Player,
            objects@.len(),
        ));
        let one_player = match level.objects.get(&ObjectType::Player.index()) {
            Some(players) => players.len() == 1,
            None => false,
        };
        if one_player {
            Some(level)
        } else {
            None
        }
    }

    /// Lets the players start on the entrance that leads back to where they
    /// come from: on the first entrance to the level `previous_level`, if
    /// there is one.
    pub fn enter_from(&mut self, previous_level: Option<u16>)
        ensures
            final(self).dimensions == old(self).dimensions,
            forall|kind: ObjectType|
                kind != ObjectType::Player ==> #[trigger] final(self).starts(kind) == old(self).starts(kind),
            final(self).starts(ObjectType::Player) == (match previous_level {
                Some(previous) => match entrance_from(
                    old(self).starts(ObjectType::Entrance),
                    previous,
                    0,
                ) {
                    Some(position) => moved_to(old(self).starts(ObjectType::Player), position),
                    None => old(self).starts(ObjectType::Player),
                },
                None => old(self).starts(ObjectType::Player),
            }),
    {
        let previous = match previous_level {
            Some(previous) => previous,
            None => {
                return ;
            },
        };
        let ghost before = self.objects@;
        let found = match self.objects.get(&ObjectType::Entrance.index()) {
            Some(entrances) => find_entrance(entrances, previous),
            None => None,
        };
        let position = match found {
            Some(position) => position,
            None => {
                return ;
            },
        };
        let players = match self.objects.remove(&ObjectType::Player.index()) {
            Some(players) => players,
            None => {
                assert(moved_to(lists_of(before)[ObjectType::Player.index() as int], position)
                    =~= lists_of(before)[ObjectType::Player.index() as int]);
                assert(self.objects@ =~= before);
                return ;
            },
        };
        let mut moved: Vec<InitialPositionAndMetadata> = Vec::new();
        let mut i: usize = 0;
        while i < players.len()
            invariant
                i <= players.len(),
                moved@.len() == i,
                forall|k: int|
                    0 <= k < i ==> #[trigger] moved@[k] == (InitialPositionAndMetadata {
                        position,
                        ..players@[k]
                    }),
            decreases players.len() - i,
        {
            let player = players[i];
            moved.push(InitialPositionAndMetadata { position, ..player });
            i += 1;
        }
        assert(moved@ =~= moved_to(lists_of(before)[ObjectType::Player.index() as int], position));
        self.objects.insert(ObjectType::Player.index(), moved);
        assert forall|kind: ObjectType| kind != ObjectType::Player implies #[trigger] self.starts(
            kind,
        ) == lists_of(before)[kind.index() as int] by {
            assert(kind.index() != ObjectType::Player.index());
        }
    }
}

} // verus!
