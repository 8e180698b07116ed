//! The text form of a snapshot. A snapshot is first laid out as named
//! entries, which the `ron` crate then writes and reads.

use crate::error::PipelineError;
use crate::prefab::{PlanetPrefab, Prefab, Record, StarPrefab};
use crate::snapshot::Snapshot;
use crate::world::{MoonOf, Quat, Resource, ResourceKind, StellarBodyOf, Transform, Vec3};
use vstd::prelude::*;

verus! {

/// A resource in a save file: the name of its kind, and its value.
pub type PlainResource = (String, u64);

/// A record in a save file: the name of its prefab kind; its eleven
/// numbers, each with its name (the old identifier, then the parts of the
/// transform as bit patterns); and its links, each with its name.
pub type PlainRecord = (String, Vec<(String, u64)>, Vec<(String, Option<u64>)>);

/// A snapshot as it stands in a save file: what is handed to and taken
/// from `ron`.
pub type PlainSnapshot = (Vec<PlainResource>, Vec<PlainRecord>);

/// What a `PlainResource` holds.
pub type ResourceView = (Seq<char>, u64);

/// What a `PlainRecord` holds.
pub type RecordView = (Seq<char>, Seq<(Seq<char>, u64)>, Seq<(Seq<char>, Option<u64>)>);

/// What a `PlainSnapshot` holds.
pub type SnapshotView = (Seq<ResourceView>, Seq<RecordView>);

#[verifier::external_type_specification]
#[verifier::external_body]
pub struct ExRonError(ron::Error);

#[verifier::external_type_specification]
#[verifier::external_body]
pub struct ExRonSpannedError(ron::de::SpannedError);

/// The text that `ron` writes for a plain snapshot in its pretty layout with
/// `"\n"` as the line break, or nothing where it refuses the value.
pub uninterp spec fn ron_pretty(value: SnapshotView) -> Option<Seq<char>>;

/// The plain snapshot that `ron` reads from a text, or nothing where the
/// text is not one.
pub uninterp spec fn ron_parsed(text: Seq<char>) -> Option<SnapshotView>;

/// Calls `ron::ser::to_string_pretty` with the default pretty layout, the
/// line break fixed to `"\n"`. Trusted: the text depends on the value alone,
/// so it is given the name `ron_pretty`; nothing is claimed of what it holds.
#[verifier::external_body]
fn ron_write(value: &PlainSnapshot) -> (r: Result<String, ron::Error>)
    ensures
        match r {
            Ok(text) => ron_pretty(value.deep_view()) == Some(text@),
            Err(_) => ron_pretty(value.deep_view()) is None,
        },
{
    ron::ser::to_string_pretty(value, ron::ser::PrettyConfig::default().new_line("\n"))
}

/// Calls `ron::from_str` for a plain snapshot. Trusted: the outcome depends
/// on the text alone, so it is given the name `ron_parsed`; nothing is
/// claimed of which texts are accepted.
#[verifier::external_body]
fn ron_read(text: &str) -> (r: Result<PlainSnapshot, ron::de::SpannedError>)
    ensures
        match r {
            Ok(value) => ron_parsed(text@) == Some(value.deep_view()),
            Err(_) => ron_parsed(text@) is None,
        },
{
    ron::from_str::<PlainSnapshot>(text)
}

/// The name of a resource kind in a save file.
pub open spec fn kind_name(kind: ResourceKind) -> Seq<char> {
    match kind {
        ResourceKind::Time => "Time"@,
        ResourceKind::FixedTime => "FixedTime"@,
        ResourceKind::RealTime => "RealTime"@,
        ResourceKind::VirtualTime => "VirtualTime"@,
        ResourceKind::AmbientLight => "AmbientLight"@,
        ResourceKind::ClearColor => "ClearColor"@,
    }
}

pub open spec fn kind_of_name(name: Seq<char>) -> Option<ResourceKind> {
    if name == "Time"@ {
        Some(ResourceKind::Time)
    } else if name == "FixedTime"@ {
        Some(ResourceKind::FixedTime)
    } else if name == "RealTime"@ {
        Some(ResourceKind::RealTime)
    } else if name == "VirtualTime"@ {
        Some(ResourceKind::VirtualTime)
    } else if name == "AmbientLight"@ {
        Some(ResourceKind::AmbientLight)
    } else if name == "ClearColor"@ {
        Some(ResourceKind::ClearColor)
    } else {
        None
    }
}

pub open spec fn plain_resource(resource: Resource) -> ResourceView {
    (kind_name(resource.kind), resource.value)
}

pub open spec fn resource_of(plain: ResourceView) -> Option<Resource> {
    match kind_of_name(plain.0) {
        Some(kind) => Some(Resource { kind, value: plain.1 }),
        None => None,
    }
}

/// How many numbers a record has.
pub const NUMBERS: usize = 11;

/// The names of a record's numbers, in their order.
pub open spec fn number_names() -> Seq<Seq<char>> {
    seq![
        "source"@,
        "translation.x"@,
        "translation.y"@,
        "translation.z"@,
        "rotation.x"@,
        "rotation.y"@,
        "rotation.z"@,
        "rotation.w"@,
        "scale.x"@,
        "scale.y"@,
        "scale.z"@,
    ]
}

/// A record's numbers, in their order.
pub open spec fn number_values(source: u64, t: Transform) -> Seq<u64> {
    seq![
        source,
        t.translation.x as u64,
        t.translation.y as u64,
        t.translation.z as u64,
        t.rotation.x as u64,
        t.rotation.y as u64,
        t.rotation.z as u64,
        t.rotation.w as u64,
        t.scale.x as u64,
        t.scale.y as u64,
        t.scale.z as u64,
    ]
}

pub open spec fn plain_numbers(source: u64, t: Transform) -> Seq<(Seq<char>, u64)> {
    Seq::new(NUMBERS as nat, |i: int| (number_names()[i], number_values(source, t)[i]))
}

/// The numbers are the eleven of a record, each under its name, and each
/// part of the transform fits in 32 bits.
pub open spec fn valid_numbers(plain: Seq<(Seq<char>, u64)>) -> bool {
    &&& plain.len() == NUMBERS
    &&& forall|i: int|
        0 <= i < NUMBERS ==> (#[trigger] plain[i]).0 == number_names()[i] && (i >= 1 ==> plain[i].1
            <= u32::MAX)
}

pub open spec fn transform_of(plain: Seq<(Seq<char>, u64)>) -> Transform {
    Transform {
        translation: Vec3 { x: plain[1].1 as u32, y: plain[2].1 as u32, z: plain[3].1 as u32 },
        rotation: Quat {
            x: plain[4].1 as u32,
            y: plain[5].1 as u32,
            z: plain[6].1 as u32,
            w: plain[7].1 as u32,
        },
        scale: Vec3 { x: plain[8].1 as u32, y: plain[9].1 as u32, z: plain[10].1 as u32 },
    }
}

pub open spec fn plain_links(moon_of: Option<u64>, star_of: Option<u64>) -> Seq<
    (Seq<char>, Option<u64>),
> {
    seq![("moon_of"@, moon_of), ("star_of"@, star_of)]
}

/// The links are the two of a planet, each under its name.
pub open spec fn valid_links(plain: Seq<(Seq<char>, Option<u64>)>) -> bool {
    plain.len() == 2 && plain[0].0 == "moon_of"@ && plain[1].0 == "star_of"@
}

pub open spec fn plain_record(record: Record) -> RecordView {
    match record.prefab {
        Prefab::Planet(p) => (
            "PlanetPrefab"@,
            plain_numbers(record.source, p.transform),
            plain_links(p.moon_host(), p.star_host()),
        ),
        Prefab::Star(s) => ("StarPrefab"@, plain_numbers(record.source, s.transform), Seq::empty()),
    }
}

/// The record that an entry of a save file stands for. It stands for one
/// where its numbers are valid and it is a `PlanetPrefab` with valid links
/// or a `StarPrefab` with no links.
pub open spec fn record_of(plain: RecordView) -> Option<Record> {
    if !valid_numbers(plain.1) {
        None
    } else if plain.0 == "PlanetPrefab"@ && valid_links(plain.2) {
        Some(
            Record {
                source: plain.1[0].1,
                prefab: Prefab::Planet(
                    PlanetPrefab {
                        transform: transform_of(plain.1),
                        moon_of: match plain.2[0].1 {
                            Some(id) => Some(MoonOf(id)),
                            None => None,
                        },
                        star_of: match plain.2[1].1 {
                            Some(id) => Some(StellarBodyOf(id)),
                            None => None,
                        },
                    },
                ),
            },
        )
    } else if plain.0 == "StarPrefab"@ && plain.2.len() == 0 {
        Some(
            Record {
                source: plain.1[0].1,
                prefab: Prefab::Star(StarPrefab { transform: transform_of(plain.1) }),
            },
        )
    } else {
        None
    }
}

/// A snapshot's resources and records as they stand in a save file.
pub open spec fn plain_of(resources: Seq<Resource>, records: Seq<Record>) -> SnapshotView {
    (
        resources.map_values(|r: Resource| plain_resource(r)),
        records.map_values(|r: Record| plain_record(r)),
    )
}

/// Every entry stands for a resource or a record.
pub open spec fn valid_plain(plain: SnapshotView) -> bool {
    &&& forall|i: int| 0 <= i < plain.0.len() ==> resource_of(#[trigger] plain.0[i]) is Some
    &&& forall|i: int| 0 <= i < plain.1.len() ==> record_of(#[trigger] plain.1[i]) is Some
}

pub open spec fn resources_of(plain: Seq<ResourceView>) -> Seq<Resource> {
    plain.map_values(|p: ResourceView| resource_of(p).unwrap())
}

pub open spec fn records_of(plain: Seq<RecordView>) -> Seq<Record> {
    plain.map_values(|p: RecordView| record_of(p).unwrap())
}

/// Whether the string is the given name.
pub fn is_named(s: &String, name: &str) -> (r: bool)
    ensures
        r == (s@ == name@),
{
    let name = name.to_owned();
    *s == name
}

/// The name of the record's number at position `i`.
pub fn number_name(i: usize) -> (r: &'static str)
    requires
        i < NUMBERS,
    ensures
        r@ == number_names()[i as int],
{
    if i == 0 {
        "source"
    } else if i == 1 {
        "translation.x"
    } else if i == 2 {
        "translation.y"
    } else if i == 3 {
        "translation.z"
    } else if i == 4 {
        "rotation.x"
    } else if i == 5 {
        "rotation.y"
    } else if i == 6 {
        "rotation.z"
    } else if i == 7 {
        "rotation.w"
    } else if i == 8 {
        "scale.x"
    } else if i == 9 {
        "scale.y"
    } else {
        "scale.z"
    }
}

impl ResourceKind {
    pub fn name(&self) -> (r: &'static str)
        ensures
            r@ == kind_name(*self),
    {
        match self {
            ResourceKind::Time => "Time",
            ResourceKind::FixedTime => "FixedTime",
            ResourceKind::RealTime => "RealTime",
            ResourceKind::VirtualTime => "VirtualTime",
            ResourceKind::AmbientLight => "AmbientLight",
            ResourceKind::ClearColor => "ClearColor",
        }
    }

    pub fn from_name(name: &String) -> (r: Option<ResourceKind>)
        ensures
            r == kind_of_name(name@),
    {
        if is_named(name, "Time") {
            Some(ResourceKind::Time)
        } else if is_named(name, "FixedTime") {
            Some(ResourceKind::FixedTime)
        } else if is_named(name, "RealTime") {
            Some(ResourceKind::RealTime)
        } else if is_named(name, "VirtualTime") {
            Some(ResourceKind::VirtualTime)
        } else if is_named(name, "AmbientLight") {
            Some(ResourceKind::AmbientLight)
        } else if is_named(name, "ClearColor") {
            Some(ResourceKind::ClearColor)
        } else {
            None
        }
    }
}

impl Resource {
    pub fn to_plain(&self) -> (r: PlainResource)
        ensures
            r.deep_view() == plain_resource(*self),
    {
        (self.kind.name().to_owned(), self.value)
    }

    pub fn from_plain(plain: &PlainResource) -> (r: Option<Resource>)
        ensures
            r == resource_of(plain.deep_view()),
    {
        match ResourceKind::from_name(&plain.0) {
            Some(kind) => Some(Resource { kind, value: plain.1 }),
            None => None,
        }
    }
}

/// The eleven numbers of a record, each under its name.
pub fn numbers_to_plain(source: u64, t: &Transform) -> (r: Vec<(String, u64)>)
    ensures
        r.deep_view() == plain_numbers(source, *t),
{
    let mut values: Vec<u64> = Vec::new();
    values.push(source);
    values.push(t.translation.x as u64);
    values.push(t.translation.y as u64);
    values.push(t.translation.z as u64);
    values.push(t.rotation.x as u64);
    values.push(t.rotation.y as u64);
    values.push(t.rotation.z as u64);
    values.push(t.rotation.w as u64);
    values.push(t.scale.x as u64);
    values.push(t.scale.y as u64);
    values.push(t.scale.z as u64);
    assert(values@ =~= number_values(source, *t));
    let mut numbers: Vec<(String, u64)> = Vec::new();
    let mut i: usize = 0;
    while i < NUMBERS
        invariant
            i <= NUMBERS,
            values@ == number_values(source, *t),
            numbers@.len() == i,
            forall|j: int|
                0 <= j < i ==> (#[trigger] numbers@[j]).0@ == number_names()[j] && numbers@[j].1
                    == values@[j],
        decreases NUMBERS - i,
    {
        numbers.push((number_name(i).to_owned(), values[i]));
        i += 1;
    }
    assert(numbers.deep_view() =~= plain_numbers(source, *t));
    numbers
}

/// Whether the numbers are valid, and the transform that they hold.
pub fn numbers_from_plain(plain: &Vec<(String, u64)>) -> (r: Option<Transform>)
    ensures
        match r {
            Some(t) => valid_numbers(plain.deep_view()) && t == transform_of(plain.deep_view()),
            None => !valid_numbers(plain.deep_view()),
        },
{
    if plain.len() != NUMBERS {
        return None;
    }
    let ghost view = plain.deep_view();
    let mut i: usize = 0;
    while i < NUMBERS
        invariant
            i <= NUMBERS,
            plain@.len() == NUMBERS,
            view == plain.deep_view(),
            forall|j: int|
                0 <= j < i ==> (#[trigger] view[j]).0 == number_names()[j] && (j >= 1 ==> view[j].1
                    <= u32::MAX),
        decreases NUMBERS - i,
    {
        assert(view[i as int] == (plain@[i as int].0@, plain@[i as int].1));
        if !is_named(&plain[i].0, number_name(i)) {
            return None;
        }
        if i >= 1 && plain[i].1 > 0xffff_ffff {
            return None;
        }
        i += 1;
    }
    proof {
        assert forall|j: int| 0 <= j < NUMBERS implies (#[trigger] view[j]).1 == plain@[j].1 by {}
    }
    Some(
        Transform {
            translation: Vec3 {
                x: plain[1].1 as u32,
                y: plain[2].1 as u32,
                z: plain[3].1 as u32,
            },
            rotation: Quat {
                x: plain[4].1 as u32,
                y: plain[5].1 as u32,
                z: plain[6].1 as u32,
                w: plain[7].1 as u32,
            },
            scale: Vec3 { x: plain[8].1 as u32, y: plain[9].1 as u32, z: plain[10].1 as u32 },
        },
    )
}

impl Record {
    pub fn to_plain(&self) -> (r: PlainRecord)
        ensures
            r.deep_view() == plain_record(*self),
    {
        match self.prefab {
            Prefab::Planet(p) => {
                let moon = match p.moon_of {
                    Some(m) => Some(m.0),
                    None => None,
                };
                let star = match p.star_of {
                    Some(s) => Some(s.0),
                    None => None,
                };
                let mut links: Vec<(String, Option<u64>)> = Vec::new();
                links.push(("moon_of".to_owned(), moon));
                links.push(("star_of".to_owned(), star));
                assert(links.deep_view() =~= plain_links(p.moon_host(), p.star_host()));
                ("PlanetPrefab".to_owned(), numbers_to_plain(self.source, &p.transform), links)
            },
            Prefab::Star(s) => {
                let links: Vec<(String, Option<u64>)> = Vec::new();
                assert(links.deep_view() =~= Seq::<(Seq<char>, Option<u64>)>::empty());
                ("StarPrefab".to_owned(), numbers_to_plain(self.source, &s.transform), links)
            },
        }
    }

    pub fn from_plain(plain: &PlainRecord) -> (r: Option<Record>)
        ensures
            r == record_of(plain.deep_view()),
    {
        let transform = match numbers_from_plain(&plain.1) {
            Some(t) => t,
            None => {
                return None;
            },
        };
        let source = plain.1[0].1;
        let ghost links = plain.2.deep_view();
        assert(plain.1.deep_view()[0] == (plain.1@[0].0@, plain.1@[0].1));
        if is_named(&plain.0, "PlanetPrefab") && plain.2.len() == 2 && is_named(
            &plain.2[0].0,
            "moon_of",
        ) && is_named(&plain.2[1].0, "star_of") {
            assert(links[0] == (plain.2@[0].0@, plain.2@[0].1));
            assert(links[1] == (plain.2@[1].0@, plain.2@[1].1));
            let moon_of = match plain.2[0].1 {
                Some(id) => Some(MoonOf(id)),
                None => None,
            };
            let star_of = match plain.2[1].1 {
                Some(id) => Some(StellarBodyOf(id)),
                None => None,
            };
            Some(
                Record { source, prefab: Prefab::Planet(PlanetPrefab { transform, moon_of, star_of }) },
            )
        } else if is_named(&plain.0, "StarPrefab") && plain.2.len() == 0 {
            proof {
                if plain.2@.len() == 2 {
                    assert(links[0] == (plain.2@[0].0@, plain.2@[0].1));
                    assert(links[1] == (plain.2@[1].0@, plain.2@[1].1));
                }
            }
            Some(Record { source, prefab: Prefab::Star(StarPrefab { transform }) })
        } else {
            proof {
                if plain.2@.len() == 2 {
                    assert(links[0] == (plain.2@[0].0@, plain.2@[0].1));
                    assert(links[1] == (plain.2@[1].0@, plain.2@[1].1));
                }
            }
            None
        }
    }
}

impl Snapshot {
    /// The snapshot as it stands in a save file.
    pub fn to_plain(&self) -> (r: PlainSnapshot)
        ensures
            r.deep_view() == plain_of(self.resources@, self.records@),
    {
        let mut resources: Vec<PlainResource> = Vec::new();
        let mut i: usize = 0;
        while i < self.resources.len()
            invariant
                i <= self.resources@.len(),
                resources@.len() == i,
                forall|j: int|
                    0 <= j < i ==> (#[trigger] resources@[j]).deep_view() == plain_resource(
                        self.resources@[j],
                    ),
            decreases self.resources@.len() - i,
        {
            resources.push(self.resources[i].to_plain());
            i += 1;
        }
        let mut records: Vec<PlainRecord> = Vec::new();
        let mut i: usize = 0;
        while i < self.records.len()
            invariant
                i <= self.records@.len(),
                records@.len() == i,
                forall|j: int|
                    0 <= j < i ==> (#[trigger] records@[j]).deep_view() == plain_record(
                        self.records@[j],
                    ),
            decreases self.records@.len() - i,
        {
            records.push(self.records[i].to_plain());
            i += 1;
        }
        proof {
            let want = plain_of(self.resources@, self.records@);
            assert(resources.deep_view() =~= want.0);
            assert(records.deep_view() =~= want.1);
        }
        (resources, records)
    }

    /// The snapshot that the entries of a save file stand for. It fails,
    /// with a loading error, exactly where an entry stands for nothing.
    pub fn from_plain(plain: &PlainSnapshot) -> (r: Result<Snapshot, PipelineError>)
        ensures
            match r {
                Ok(s) => {
                    &&& valid_plain(plain.deep_view())
                    &&& s.resources@ == resources_of(plain.deep_view().0)
                    &&& s.records@ == records_of(plain.deep_view().1)
                },
                Err(e) => e == PipelineError::Loading && !valid_plain(plain.deep_view()),
            },
    {
        let ghost view = plain.deep_view();
        let mut resources: Vec<Resource> = Vec::new();
        let mut i: usize = 0;
        while i < plain.0.len()
            invariant
                i <= plain.0@.len(),
                view == plain.deep_view(),
                resources@.len() == i,
                forall|j: int| 0 <= j < i ==> resource_of(#[trigger] view.0[j]) == Some(resources@[j]),
            decreases plain.0@.len() - i,
        {
            assert(view.0[i as int] == plain.0@[i as int].deep_view());
            match Resource::from_plain(&plain.0[i]) {
                Some(resource) => {
                    resources.push(resource);
                },
                None => {
                    return Err(PipelineError::Loading);
                },
            }
            i += 1;
        }
        let mut records: Vec<Record> = Vec::new();
        let mut i: usize = 0;
        while i < plain.1.len()
            invariant
                i <= plain.1@.len(),
                view == plain.deep_view(),
                records@.len() == i,
                forall|j: int| 0 <= j < i ==> record_of(#[trigger] view.1[j]) == Some(records@[j]),
            decreases plain.1@.len() - i,
        {
            assert(view.1[i as int] == plain.1@[i as int].deep_view());
            match Record::from_plain(&plain.1[i]) {
                Some(record) => {
                    records.push(record);
                },
                None => {
                    return Err(PipelineError::Loading);
                },
            }
            i += 1;
        }
        proof {
            assert(resources@ =~= resources_of(view.0));
            assert(records@ =~= records_of(view.1));
        }
        Ok(Snapshot { resources, records })
    }
}

/// The text codec of the save files.
pub struct RONFormat;

impl RONFormat {
    /// The ending of a save file's name.
    pub fn extension() -> (r: &'static str)
        ensures
            r@ == ".ron"@,
    {
        ".ron"
    }

    /// Writes the snapshot as text: the text that `ron` gives for its
    /// entries, or a saving error where `ron` refuses them.
    pub fn serialize(value: &Snapshot) -> (r: Result<String, PipelineError>)
        ensures
            match ron_pretty(plain_of(value.resources@, value.records@)) {
                Some(text) => r matches Ok(out) && out@ == text,
                None => r == Err::<String, PipelineError>(PipelineError::Saving),
            },
    {
        let plain = value.to_plain();
        match ron_write(&plain) {
            Ok(text) => Ok(text),
            Err(_) => Err(PipelineError::Saving),
        }
    }

    /// Reads a snapshot from text. It fails, with a loading error, where
    /// `ron` does not read entries of the snapshot's shape from the text,
    /// and where an entry stands for no resource or record.
    pub fn deserialize(text: &str) -> (r: Result<Snapshot, PipelineError>)
        ensures
            match r {
                Ok(s) => {
                    &&& ron_parsed(text@) matches Some(plain)
                    &&& valid_plain(plain)
                    &&& s.resources@ == resources_of(plain.0)
                    &&& s.records@ == records_of(plain.1)
                },
                Err(e) => {
                    &&& e == PipelineError::Loading
                    &&& match ron_parsed(text@) {
                        Some(plain) => !valid_plain(plain),
                        None => true,
                    }
                },
            },
    {
        match ron_read(text) {
            Ok(plain) => Snapshot::from_plain(&plain),
            Err(_) => Err(PipelineError::Loading),
        }
    }
}

} // verus!
