//! What holds of saving and loading as a whole.

use crate::format::{
    plain_of, plain_record, plain_resource, record_of, records_of, resource_of, resources_of,
    valid_plain,
};
use crate::pipeline::{captured_records, captured_resources, clock_kinds};
use crate::prefab::{PrefabKind, Record};
use crate::snapshot::{
    allowed, extracted, extractor, lemma_remap_covers, remap_of, restored, spared, survivors,
};
use crate::world::{
    bodies_of, body_of_host, ids_fresh, moon_of_host, moons_of, Entity, Resource, ResourceKind,
    World,
};
use vstd::prelude::*;

verus! {

/// Where the entries of a `filter_map` come from: `origin[k]` is the
/// position in `s` of the item that gave entry `k`. Positions go up
/// strictly, and every item that gives an entry has one.
pub proof fn lemma_filter_map_origin<A, B>(s: Seq<A>, f: spec_fn(A) -> Option<B>) -> (origin: Seq<
    int,
>)
    ensures
        origin.len() == s.filter_map(f).len(),
        forall|k: int|
            0 <= k < origin.len() ==> 0 <= #[trigger] origin[k] < s.len() && f(s[origin[k]])
                == Some(s.filter_map(f)[k]),
        forall|a: int, b: int|
            0 <= a < b < origin.len() ==> #[trigger] origin[a] < #[trigger] origin[b],
        forall|j: int|
            0 <= j < s.len() && f(#[trigger] s[j]) is Some ==> exists|k: int|
                0 <= k < origin.len() && origin[k] == j,
    decreases s.len(),
{
    if s.len() == 0 {
        Seq::empty()
    } else {
        let rest = s.drop_last();
        let before = lemma_filter_map_origin(rest, f);
        let origin = match f(s.last()) {
            Some(_) => before.push(s.len() - 1),
            None => before,
        };
        assert forall|j: int| 0 <= j < s.len() && f(#[trigger] s[j]) is Some implies exists|
            k: int,
        |
            0 <= k < origin.len() && origin[k] == j by {
            if j < s.len() - 1 {
                assert(rest[j] == s[j]);
                let k = choose|k: int| 0 <= k < before.len() && before[k] == j;
                assert(origin[k] == j);
            } else {
                assert(origin[origin.len() - 1] == j);
            }
        }
        assert forall|k: int| 0 <= k < origin.len() implies 0 <= #[trigger] origin[k] < s.len()
            && f(s[origin[k]]) == Some(s.filter_map(f)[k]) by {
            if k < before.len() {
                assert(rest[before[k]] == s[before[k]]);
            }
        }
        origin
    }
}

/// The reverse collection of moons is the mirror of the forward links:
/// `id` is among the moons of `host` exactly when an entity `id` holds a
/// `MoonOf` link to `host`.
pub proof fn lemma_moons_mirror_links(entities: Seq<Entity>, host: u64, id: u64)
    ensures
        moons_of(entities, host).contains(id) <==> exists|i: int|
            0 <= i < entities.len() && (#[trigger] entities[i]).id == id && entities[i].moon_host()
                == Some(host),
{
    let f = moon_of_host(host);
    let origin = lemma_filter_map_origin(entities, f);
    let moons = moons_of(entities, host);
    if moons.contains(id) {
        let k = choose|k: int| 0 <= k < moons.len() && moons[k] == id;
        assert(f(entities[origin[k]]) == Some(id));
        assert(entities[origin[k]].id == id);
    }
    if exists|i: int|
        0 <= i < entities.len() && (#[trigger] entities[i]).id == id && entities[i].moon_host()
            == Some(host) {
        let i = choose|i: int|
            0 <= i < entities.len() && (#[trigger] entities[i]).id == id && entities[i].moon_host()
                == Some(host);
        assert(f(entities[i]) is Some);
        let k = choose|k: int| 0 <= k < origin.len() && origin[k] == i;
        assert(moons[k] == id);
    }
}

/// The reverse collection of stellar bodies is the mirror of the forward
/// links: `id` is among the bodies of `host` exactly when an entity `id`
/// holds a `StellarBodyOf` link to `host`.
pub proof fn lemma_bodies_mirror_links(entities: Seq<Entity>, host: u64, id: u64)
    ensures
        bodies_of(entities, host).contains(id) <==> exists|i: int|
            0 <= i < entities.len() && (#[trigger] entities[i]).id == id && entities[i].star_host()
                == Some(host),
{
    let f = body_of_host(host);
    let origin = lemma_filter_map_origin(entities, f);
    let bodies = bodies_of(entities, host);
    if bodies.contains(id) {
        let k = choose|k: int| 0 <= k < bodies.len() && bodies[k] == id;
        assert(f(entities[origin[k]]) == Some(id));
        assert(entities[origin[k]].id == id);
    }
    if exists|i: int|
        0 <= i < entities.len() && (#[trigger] entities[i]).id == id && entities[i].star_host()
            == Some(host) {
        let i = choose|i: int|
            0 <= i < entities.len() && (#[trigger] entities[i]).id == id && entities[i].star_host()
                == Some(host);
        assert(f(entities[i]) is Some);
        let k = choose|k: int| 0 <= k < origin.len() && origin[k] == i;
        assert(bodies[k] == id);
    }
}

/// No capture holds a clock: each captured resource is of a kind that is
/// not a clock.
pub proof fn lemma_capture_holds_no_clock(world: World, i: int)
    requires
        0 <= i < captured_resources(world).len(),
    ensures
        !captured_resources(world)[i].kind.is_clock(),
{
    world.resources@.lemma_filter_pred(allowed(clock_kinds()), i);
    let kind = captured_resources(world)[i].kind;
    assert(!clock_kinds().contains(kind));
    assert(clock_kinds()[0] == ResourceKind::FixedTime);
    assert(clock_kinds()[1] == ResourceKind::Time);
    assert(clock_kinds()[2] == ResourceKind::RealTime);
    assert(clock_kinds()[3] == ResourceKind::VirtualTime);
}

/// A load removes stars and planets only: every other entity of the world
/// is among the survivors.
pub proof fn lemma_others_survive(entities: Seq<Entity>, i: int)
    requires
        0 <= i < entities.len(),
        !entities[i].is_body(),
    ensures
        survivors(entities).contains(entities[i]),
{
    entities.lemma_filter_contains(spared(), i);
}

/// Every survivor of a load was in the world before, and is neither a star
/// nor a planet.
pub proof fn lemma_survivors_are_others(entities: Seq<Entity>, k: int)
    requires
        0 <= k < survivors(entities).len(),
    ensures
        !survivors(entities)[k].is_body(),
        entities.contains(survivors(entities)[k]),
{
    entities.lemma_filter_pred(spared(), k);
    assert(survivors(entities).contains(survivors(entities)[k]));
    entities.lemma_filter_contains_rev(spared(), survivors(entities)[k]);
}

/// Where no two records share an old identifier, the table sends the old
/// identifier of the record at position `k` to `base + k`.
pub proof fn lemma_remap_of_distinct(records: Seq<Record>, base: u64, k: int)
    requires
        0 <= k < records.len(),
        base + records.len() <= u64::MAX,
        forall|a: int, b: int|
            0 <= a < b < records.len() ==> (#[trigger] records[a]).source != (
            #[trigger] records[b]).source,
    ensures
        remap_of(records, base).contains_key(records[k].source),
        remap_of(records, base)[records[k].source] == base + k,
    decreases records.len(),
{
    if k < records.len() - 1 {
        let rest = records.drop_last();
        assert forall|a: int, b: int| 0 <= a < b < rest.len() implies (#[trigger] rest[a]).source
            != (#[trigger] rest[b]).source by {
            assert(rest[a] == records[a]);
            assert(rest[b] == records[b]);
        }
        lemma_remap_of_distinct(rest, base, k);
        assert(rest[k] == records[k]);
        assert(records[k].source != records[records.len() - 1].source);
    }
}

/// After a load every link resolves: a link of a restored entity is the
/// new identifier of the record whose old identifier the saved link named,
/// and the entity restored from that record carries it.
pub proof fn lemma_links_resolve(records: Seq<Record>, base: u64, i: int)
    requires
        0 <= i < records.len(),
        base + records.len() <= u64::MAX,
    ensures
        match restored(records, base)[i].moon_host() {
            Some(h) => {
                &&& base <= h < base + records.len()
                &&& restored(records, base)[h - base].id == h
                &&& records[i].moon_host() == Some(records[h - base].source)
            },
            None => true,
        },
        match restored(records, base)[i].star_host() {
            Some(h) => {
                &&& base <= h < base + records.len()
                &&& restored(records, base)[h - base].id == h
                &&& records[i].star_host() == Some(records[h - base].source)
            },
            None => true,
        },
{
    if let Some(old_id) = records[i].moon_host() {
        if remap_of(records, base).contains_key(old_id) {
            lemma_remap_covers(records, base, old_id);
        }
    }
    if let Some(old_id) = records[i].star_host() {
        if remap_of(records, base).contains_key(old_id) {
            lemma_remap_covers(records, base, old_id);
        }
    }
}

/// The records of a capture come from distinct entities: `origin[k]` is
/// the position in the world of the entity behind record `k`, and no two
/// records share an old identifier.
pub proof fn lemma_capture_origin(world: World) -> (origin: Seq<int>)
    requires
        ids_fresh(world.entities@, world.next_id),
    ensures
        origin.len() == captured_records(world).len(),
        forall|k: int|
            0 <= k < origin.len() ==> {
                &&& 0 <= #[trigger] origin[k] < world.entities@.len()
                &&& captured_records(world)[k].source == world.entities@[origin[k]].id
                &&& Record::extracted(PrefabKind::Planet, world.entities@[origin[k]]) == Some(
                    captured_records(world)[k],
                ) || Record::extracted(PrefabKind::Star, world.entities@[origin[k]]) == Some(
                    captured_records(world)[k],
                )
            },
        forall|a: int, b: int|
            0 <= a < b < origin.len() ==> (#[trigger] captured_records(world)[a]).source != (
            #[trigger] captured_records(world)[b]).source,
        forall|j: int|
            0 <= j < world.entities@.len() && (#[trigger] world.entities@[j]).is_body()
                && world.entities@[j].transform is Some ==> exists|k: int|
                0 <= k < origin.len() && origin[k] == j,
{
    let entities = world.entities@;
    let planets = extracted(entities, PrefabKind::Planet);
    let stars = extracted(entities, PrefabKind::Star);
    let from_planets = lemma_filter_map_origin(entities, extractor(PrefabKind::Planet));
    let from_stars = lemma_filter_map_origin(entities, extractor(PrefabKind::Star));
    let origin = from_planets + from_stars;
    let records = captured_records(world);
    assert forall|k: int| 0 <= k < origin.len() implies {
        &&& 0 <= #[trigger] origin[k] < entities.len()
        &&& records[k].source == entities[origin[k]].id
        &&& Record::extracted(PrefabKind::Planet, entities[origin[k]]) == Some(records[k])
            || Record::extracted(PrefabKind::Star, entities[origin[k]]) == Some(records[k])
        &&& (k < planets.len() <==> entities[origin[k]].kind is Planet)
    } by {
        if k < planets.len() {
            assert(origin[k] == from_planets[k]);
            assert(extractor(PrefabKind::Planet)(entities[from_planets[k]]) == Some(planets[k]));
        } else {
            let m = k - planets.len();
            assert(origin[k] == from_stars[m]);
            assert(extractor(PrefabKind::Star)(entities[from_stars[m]]) == Some(stars[m]));
        }
    }
    assert forall|a: int, b: int| 0 <= a < b < origin.len() implies (#[trigger] records[a]).source
        != (#[trigger] records[b]).source by {
        let x = origin[a];
        let y = origin[b];
        if a < planets.len() && b < planets.len() {
            assert(from_planets[a] < from_planets[b]);
        } else if a >= planets.len() {
            assert(from_stars[a - planets.len()] < from_stars[b - planets.len()]);
        } else {
            assert(entities[x].kind is Planet);
            assert(!(entities[y].kind is Planet));
            assert(x != y);
        }
        if x < y {
            assert(entities[x].id != entities[y].id);
        } else {
            assert(entities[y].id != entities[x].id);
        }
    }
    assert forall|j: int|
        0 <= j < entities.len() && (#[trigger] entities[j]).is_body() && entities[j].transform
            is Some implies exists|k: int| 0 <= k < origin.len() && origin[k] == j by {
        if entities[j].kind is Planet {
            assert(extractor(PrefabKind::Planet)(entities[j]) is Some);
            let k = choose|k: int| 0 <= k < from_planets.len() && from_planets[k] == j;
            assert(origin[k] == j);
        } else {
            assert(extractor(PrefabKind::Star)(entities[j]) is Some);
            let m = choose|m: int| 0 <= m < from_stars.len() && from_stars[m] == j;
            assert(origin[planets.len() + m] == j);
        }
    }
    origin
}

/// Saving a world and loading the capture gives every captured body back.
/// Let record `k` of the capture be that of the entity at position `j` of
/// the world. It returns under the identifier `base + k` with its kind of
/// body and its transform, bit for bit. Each of its links that named the
/// entity behind a record `m` now names `base + m`; a link that named an
/// entity behind no record comes back empty, and so does an empty one.
pub proof fn lemma_round_trip(world: World, base: u64, j: int, k: int, m: int)
    requires
        ids_fresh(world.entities@, world.next_id),
        base + captured_records(world).len() <= u64::MAX,
        0 <= k < captured_records(world).len(),
        0 <= m < captured_records(world).len(),
        0 <= j < world.entities@.len(),
        world.entities@[j].id == captured_records(world)[k].source,
    ensures
        ({
            let records = captured_records(world);
            let after = restored(records, base);
            let was = world.entities@[j];
            &&& after[k].id == base + k
            &&& after[k].transform == was.transform
            &&& after[k].kind is Star <==> was.kind is Star
            &&& after[k].kind is Planet <==> was.kind is Planet
            &&& was.moon_host() == Some(records[m].source) ==> after[k].moon_host() == Some(
                (base + m) as u64,
            )
            &&& was.star_host() == Some(records[m].source) ==> after[k].star_host() == Some(
                (base + m) as u64,
            )
            &&& was.moon_host() is None ==> after[k].moon_host() is None
            &&& was.star_host() is None ==> after[k].star_host() is None
            &&& (was.moon_host() matches Some(h) && forall|i: int|
                0 <= i < records.len() ==> (#[trigger] records[i]).source != h)
                ==> after[k].moon_host() is None
            &&& (was.star_host() matches Some(h) && forall|i: int|
                0 <= i < records.len() ==> (#[trigger] records[i]).source != h)
                ==> after[k].star_host() is None
        }),
{
    let records = captured_records(world);
    let entities = world.entities@;
    let origin = lemma_capture_origin(world);
    if origin[k] < j {
        assert(entities[origin[k]].id != entities[j].id);
    } else if j < origin[k] {
        assert(entities[j].id != entities[origin[k]].id);
    }
    let was = entities[j];
    lemma_remap_of_distinct(records, base, m);
    if let Some(h) = was.moon_host() {
        if remap_of(records, base).contains_key(h) {
            lemma_remap_covers(records, base, h);
        }
    }
    if let Some(h) = was.star_host() {
        if remap_of(records, base).contains_key(h) {
            lemma_remap_covers(records, base, h);
        }
    }
}

/// Laying a snapshot out as named entries loses nothing: the entries are
/// valid and stand for the same resources and records.
pub proof fn lemma_plain_round_trip(resources: Seq<Resource>, records: Seq<Record>)
    ensures
        valid_plain(plain_of(resources, records)),
        resources_of(plain_of(resources, records).0) == resources,
        records_of(plain_of(resources, records).1) == records,
{
    reveal_strlit("Time");
    reveal_strlit("FixedTime");
    reveal_strlit("RealTime");
    reveal_strlit("VirtualTime");
    reveal_strlit("AmbientLight");
    reveal_strlit("ClearColor");
    reveal_strlit("PlanetPrefab");
    reveal_strlit("StarPrefab");
    let plain = plain_of(resources, records);
    assert forall|i: int| 0 <= i < resources.len() implies resource_of(#[trigger] plain.0[i])
        == Some(resources[i]) by {
        assert(plain.0[i] == plain_resource(resources[i]));
        assert("Time"@.len() == 4);
        assert("FixedTime"@.len() == 9);
        assert("RealTime"@.len() == 8);
        assert("VirtualTime"@.len() == 11);
        assert("AmbientLight"@.len() == 12);
        assert("ClearColor"@.len() == 10);
    }
    assert forall|i: int| 0 <= i < records.len() implies record_of(#[trigger] plain.1[i]) == Some(
        records[i],
    ) by {
        assert(plain.1[i] == plain_record(records[i]));
        assert("PlanetPrefab"@.len() == 12);
        assert("StarPrefab"@.len() == 10);
    }
    assert(resources_of(plain.0) =~= resources);
    assert(records_of(plain.1) =~= records);
}

} // verus!
