use orbit_save::error::PipelineError;
use orbit_save::format::{is_named, number_name, RONFormat};
use orbit_save::pipeline::{setup, PlanetPipeline};
use orbit_save::prefab::{PlanetPrefab, Prefab, PrefabKind, Record, StarPrefab};
use orbit_save::snapshot::{Snapshot, SnapshotBuilder};
use orbit_save::world::{
    Asset, Entity, Kind, MoonOf, OrbitingMoons, Quat, Resource, ResourceKind, StellarBodies,
    StellarBodyOf, Transform, Vec3, World,
};

fn bits(x: f32) -> u32 {
    x.to_bits()
}

fn transform(x: f32, y: f32, z: f32, scale: f32) -> Transform {
    Transform::from_xyz_scaled(bits(x), bits(y), bits(z), bits(scale))
}

fn world_with_camera() -> World {
    let mut world = World::new();
    world.spawn(Kind::Other, Some(transform(0.0, 73.0, 13.0, 1.0)), None);
    setup(&mut world);
    world
}

#[test]
fn setup_spawns_star_planet_and_moon() {
    let mut world = World::new();
    setup(&mut world);
    assert_eq!(world.next_id, 3);
    assert_eq!(world.entities.len(), 3);
    assert_eq!(
        world.entities[0],
        Entity {
            id: 0,
            kind: Kind::Star,
            transform: Some(transform(12.0, 0.0, 13.0, 0.2)),
            scene: Some(Asset::Star),
        }
    );
    assert_eq!(
        world.entities[1],
        Entity {
            id: 1,
            kind: Kind::Planet { moon_of: None, star_of: Some(StellarBodyOf(0)) },
            transform: Some(transform(0.0, 0.0, 0.0, 0.15)),
            scene: Some(Asset::Planet),
        }
    );
    assert_eq!(
        world.entities[2],
        Entity {
            id: 2,
            kind: Kind::Planet { moon_of: Some(MoonOf(1)), star_of: Some(StellarBodyOf(0)) },
            transform: Some(transform(-8.0, 23.0, 13.0, 0.05)),
            scene: Some(Asset::Moon),
        }
    );
}

#[test]
fn transform_has_identity_rotation() {
    let t = transform(1.0, 2.0, 3.0, 0.5);
    assert_eq!(t.translation.x, bits(1.0));
    assert_eq!(t.translation.y, bits(2.0));
    assert_eq!(t.translation.z, bits(3.0));
    assert_eq!(t.rotation.x, bits(0.0));
    assert_eq!(t.rotation.y, bits(0.0));
    assert_eq!(t.rotation.z, bits(0.0));
    assert_eq!(t.rotation.w, bits(1.0));
    assert_eq!(t.scale.x, bits(0.5));
    assert_eq!(t.scale.y, bits(0.5));
    assert_eq!(t.scale.z, bits(0.5));
}

#[test]
fn save_then_load_rebuilds_the_system_under_new_ids() {
    let mut world = world_with_camera();
    let pipeline = PlanetPipeline;
    let text = pipeline.save(&world).unwrap();
    assert_eq!(pipeline.load(&mut world, &text), Ok(()));

    // camera (0) stays; planet, moon, star come back as 4, 5, 6
    assert_eq!(world.next_id, 7);
    assert_eq!(world.entities.len(), 4);
    assert_eq!(world.entities[0].id, 0);
    assert_eq!(world.entities[0].kind, Kind::Other);
    assert_eq!(
        world.entities[1],
        Entity {
            id: 4,
            kind: Kind::Planet { moon_of: None, star_of: Some(StellarBodyOf(6)) },
            transform: Some(transform(0.0, 0.0, 0.0, 0.15)),
            scene: Some(Asset::Planet),
        }
    );
    assert_eq!(
        world.entities[2],
        Entity {
            id: 5,
            kind: Kind::Planet { moon_of: Some(MoonOf(4)), star_of: Some(StellarBodyOf(6)) },
            transform: Some(transform(-8.0, 23.0, 13.0, 0.05)),
            scene: Some(Asset::Moon),
        }
    );
    assert_eq!(
        world.entities[3],
        Entity {
            id: 6,
            kind: Kind::Star,
            transform: Some(transform(12.0, 0.0, 13.0, 0.2)),
            scene: Some(Asset::Star),
        }
    );
    let stars = world.entities.iter().filter(|e| e.kind == Kind::Star).count();
    assert_eq!(stars, 1);
}

#[test]
fn reverse_collections_follow_the_links_after_load() {
    let mut world = world_with_camera();
    assert_eq!(world.orbiting_moons(2), OrbitingMoons(vec![3]));
    assert_eq!(world.stellar_bodies(1), StellarBodies(vec![2, 3]));
    let pipeline = PlanetPipeline;
    let text = pipeline.save(&world).unwrap();
    pipeline.load(&mut world, &text).unwrap();
    assert_eq!(world.orbiting_moons(4), OrbitingMoons(vec![5]));
    assert_eq!(world.stellar_bodies(6), StellarBodies(vec![4, 5]));
    // nothing is left under the old identifiers
    assert_eq!(world.orbiting_moons(2), OrbitingMoons(vec![]));
    assert_eq!(world.stellar_bodies(1), StellarBodies(vec![]));
    for e in world.entities.iter() {
        if let Some(MoonOf(host)) = e.moon_of() {
            assert!(world.contains(host));
            assert!(world.orbiting_moons(host).0.contains(&e.id));
        }
        if let Some(StellarBodyOf(host)) = e.star_of() {
            assert!(world.contains(host));
            assert!(world.stellar_bodies(host).0.contains(&e.id));
        }
    }
}

#[test]
fn capture_leaves_the_clocks_out() {
    let mut world = World::new();
    world.insert_resource(ResourceKind::FixedTime, 7);
    world.insert_resource(ResourceKind::AmbientLight, 15);
    world.insert_resource(ResourceKind::Time, 8);
    world.insert_resource(ResourceKind::RealTime, 9);
    world.insert_resource(ResourceKind::ClearColor, 1);
    world.insert_resource(ResourceKind::VirtualTime, 10);
    let snapshot = PlanetPipeline.capture(SnapshotBuilder::new(&world));
    assert_eq!(
        snapshot.resources,
        vec![
            Resource { kind: ResourceKind::AmbientLight, value: 15 },
            Resource { kind: ResourceKind::ClearColor, value: 1 },
        ]
    );
    assert!(snapshot.resources.iter().all(|r| r.kind != ResourceKind::FixedTime));
    assert_eq!(world.resources.len(), 6);
}

#[test]
fn builder_honours_any_denylist() {
    let mut world = World::new();
    world.insert_resource(ResourceKind::FixedTime, 7);
    world.insert_resource(ResourceKind::AmbientLight, 15);
    let all = SnapshotBuilder::new(&world).extract_all_resources().build();
    assert_eq!(all.resources.len(), 2);
    let none = SnapshotBuilder::new(&world)
        .filter(vec![ResourceKind::AmbientLight, ResourceKind::FixedTime])
        .extract_all_resources()
        .build();
    assert!(none.resources.is_empty());
    let one = SnapshotBuilder::new(&world)
        .filter(vec![ResourceKind::FixedTime])
        .extract_all_resources()
        .build();
    assert_eq!(one.resources, vec![Resource { kind: ResourceKind::AmbientLight, value: 15 }]);
    assert_eq!(PlanetPipeline::deny_list().len(), 4);
}

#[test]
fn malformed_text_is_a_loading_error_and_changes_nothing() {
    let mut world = world_with_camera();
    let before = world.clone();
    let pipeline = PlanetPipeline;
    assert_eq!(pipeline.load(&mut world, "([(4, 1)], [(0, 1, "), Err(PipelineError::Loading));
    assert_eq!(world, before);
    assert_eq!(pipeline.load(&mut world, ""), Err(PipelineError::Loading));
    assert_eq!(world, before);
    assert_eq!(pipeline.load(&mut world, "([(4, 1)], [])"), Err(PipelineError::Loading));
    assert_eq!(world, before);
    assert_eq!(RONFormat::deserialize("not a snapshot"), Err(PipelineError::Loading));
}

#[test]
fn truncated_save_is_a_loading_error() {
    let mut world = world_with_camera();
    let before = world.clone();
    let pipeline = PlanetPipeline;
    let text = pipeline.save(&world).unwrap();
    let cut = &text[..text.len() / 2];
    assert_eq!(pipeline.load(&mut world, cut), Err(PipelineError::Loading));
    assert_eq!(world, before);
}

fn plain_numbers(source: u64, parts: [u64; 10]) -> Vec<(String, u64)> {
    let names = [
        "translation.x",
        "translation.y",
        "translation.z",
        "rotation.x",
        "rotation.y",
        "rotation.z",
        "rotation.w",
        "scale.x",
        "scale.y",
        "scale.z",
    ];
    let mut numbers = vec![("source".to_string(), source)];
    for (name, part) in names.iter().zip(parts.iter()) {
        numbers.push((name.to_string(), *part));
    }
    numbers
}

fn plain_links(moon_of: Option<u64>, star_of: Option<u64>) -> Vec<(String, Option<u64>)> {
    vec![("moon_of".to_string(), moon_of), ("star_of".to_string(), star_of)]
}

#[test]
fn entries_that_stand_for_nothing_are_a_loading_error() {
    let parts = [1, 2, 3, 4, 5, 6, 7, 8, 9, 10];
    let star = ("StarPrefab".to_string(), plain_numbers(9, parts), vec![]);
    let planet = ("PlanetPrefab".to_string(), plain_numbers(8, parts), plain_links(Some(9), None));
    let t = Transform {
        translation: Vec3 { x: 1, y: 2, z: 3 },
        rotation: Quat { x: 4, y: 5, z: 6, w: 7 },
        scale: Vec3 { x: 8, y: 9, z: 10 },
    };
    let good = Snapshot::from_plain(&(
        vec![("ClearColor".to_string(), 3)],
        vec![star.clone(), planet.clone()],
    ))
    .unwrap();
    assert_eq!(good.resources, vec![Resource { kind: ResourceKind::ClearColor, value: 3 }]);
    assert_eq!(
        good.records,
        vec![
            Record { source: 9, prefab: Prefab::Star(StarPrefab { transform: t }) },
            Record {
                source: 8,
                prefab: Prefab::Planet(PlanetPrefab {
                    transform: t,
                    moon_of: Some(MoonOf(9)),
                    star_of: None,
                }),
            },
        ]
    );

    let bad_records = |record| Snapshot::from_plain(&(vec![], vec![record]));
    // unknown prefab kind
    let mut r = star.clone();
    r.0 = "CometPrefab".to_string();
    assert_eq!(bad_records(r), Err(PipelineError::Loading));
    // a star with links, a planet without
    let mut r = star.clone();
    r.2 = plain_links(None, None);
    assert_eq!(bad_records(r), Err(PipelineError::Loading));
    let mut r = planet.clone();
    r.2 = vec![];
    assert_eq!(bad_records(r), Err(PipelineError::Loading));
    // links under the wrong names
    let mut r = planet.clone();
    r.2 = vec![("star_of".to_string(), None), ("moon_of".to_string(), None)];
    assert_eq!(bad_records(r), Err(PipelineError::Loading));
    // a number missing, misnamed, or too wide for 32 bits
    let mut r = star.clone();
    r.1.pop();
    assert_eq!(bad_records(r), Err(PipelineError::Loading));
    let mut r = star.clone();
    r.1[3].0 = "translation.w".to_string();
    assert_eq!(bad_records(r), Err(PipelineError::Loading));
    let mut r = star.clone();
    r.1[10].1 = 1 << 32;
    assert_eq!(bad_records(r), Err(PipelineError::Loading));
    let mut r = star.clone();
    r.1[10].1 = (1 << 32) - 1;
    r.1[0].1 = u64::MAX;
    assert!(bad_records(r).is_ok());
    // unknown resource kind
    assert_eq!(
        Snapshot::from_plain(&(vec![("Gravity".to_string(), 0)], vec![])),
        Err(PipelineError::Loading)
    );
    let mut world = World::new();
    let text = "([(\"Gravity\", 0)], [])";
    assert_eq!(PlanetPipeline.load(&mut world, text), Err(PipelineError::Loading));
    assert_eq!(world, World::new());
}

#[test]
fn hand_written_text_is_read() {
    let text = "([(\"AmbientLight\", 15)], [
        (\"StarPrefab\", [(\"source\", 40), (\"translation.x\", 1), (\"translation.y\", 2),
            (\"translation.z\", 3), (\"rotation.x\", 0), (\"rotation.y\", 0), (\"rotation.z\", 0),
            (\"rotation.w\", 1065353216), (\"scale.x\", 7), (\"scale.y\", 8), (\"scale.z\", 9)], []),
        (\"PlanetPrefab\", [(\"source\", 41), (\"translation.x\", 0), (\"translation.y\", 0),
            (\"translation.z\", 0), (\"rotation.x\", 0), (\"rotation.y\", 0), (\"rotation.z\", 0),
            (\"rotation.w\", 1065353216), (\"scale.x\", 1), (\"scale.y\", 1), (\"scale.z\", 1)],
            [(\"moon_of\", None), (\"star_of\", Some(40))]),
    ])";
    let mut world = World::new();
    assert_eq!(PlanetPipeline.load(&mut world, text), Ok(()));
    assert_eq!(world.resources, vec![Resource { kind: ResourceKind::AmbientLight, value: 15 }]);
    assert_eq!(world.entities.len(), 2);
    assert_eq!(world.entities[0].kind, Kind::Star);
    assert_eq!(
        world.entities[0].transform,
        Some(Transform {
            translation: Vec3 { x: 1, y: 2, z: 3 },
            rotation: Quat { x: 0, y: 0, z: 0, w: 1.0f32.to_bits() },
            scale: Vec3 { x: 7, y: 8, z: 9 },
        })
    );
    assert_eq!(
        world.entities[1].kind,
        Kind::Planet { moon_of: None, star_of: Some(StellarBodyOf(0)) }
    );
}

#[test]
fn entity_without_transform_is_not_captured() {
    let mut world = World::new();
    let star = world.spawn(Kind::Star, None, Some(Asset::Star));
    let planet = world.spawn(
        Kind::Planet { moon_of: None, star_of: Some(StellarBodyOf(star)) },
        None,
        Some(Asset::Planet),
    );
    let moon = world.spawn(
        Kind::Planet { moon_of: Some(MoonOf(planet)), star_of: None },
        Some(transform(1.0, 2.0, 3.0, 1.0)),
        Some(Asset::Moon),
    );
    assert_eq!(PlanetPrefab::extract(&world.entities[1]), None);
    assert_eq!(StarPrefab::extract(&world.entities[0]), None);
    assert_eq!(Record::extract(PrefabKind::Star, &world.entities[2]), None);
    let snapshot = PlanetPipeline.capture(SnapshotBuilder::new(&world));
    assert_eq!(
        snapshot.records,
        vec![Record {
            source: moon,
            prefab: Prefab::Planet(PlanetPrefab {
                transform: transform(1.0, 2.0, 3.0, 1.0),
                moon_of: Some(MoonOf(planet)),
                star_of: None,
            }),
        }]
    );
}

#[test]
fn link_to_an_uncaptured_entity_is_dropped_on_load() {
    let mut world = World::new();
    let planet = world.spawn(Kind::Planet { moon_of: None, star_of: None }, None, None);
    world.spawn(
        Kind::Planet { moon_of: Some(MoonOf(planet)), star_of: None },
        Some(transform(1.0, 2.0, 3.0, 1.0)),
        Some(Asset::Moon),
    );
    let text = PlanetPipeline.save(&world).unwrap();
    PlanetPipeline.load(&mut world, &text).unwrap();
    assert_eq!(
        world.entities,
        vec![Entity {
            id: 2,
            kind: Kind::Planet { moon_of: None, star_of: None },
            transform: Some(transform(1.0, 2.0, 3.0, 1.0)),
            scene: Some(Asset::Planet),
        }]
    );
}

#[test]
fn spawn_drops_a_link_to_a_missing_entity() {
    let mut world = World::new();
    let id = world.spawn(
        Kind::Planet { moon_of: Some(MoonOf(40)), star_of: Some(StellarBodyOf(41)) },
        None,
        None,
    );
    assert_eq!(id, 0);
    assert_eq!(world.entities[0].kind, Kind::Planet { moon_of: None, star_of: None });
    assert!(world.contains(0));
    assert!(!world.contains(40));
}

#[test]
fn load_spares_what_is_neither_star_nor_planet() {
    let mut world = World::new();
    let camera = world.spawn(Kind::Other, Some(transform(0.0, 73.0, 13.0, 1.0)), None);
    setup(&mut world);
    let panel = world.spawn(Kind::Other, None, None);
    let empty = Snapshot { resources: vec![], records: vec![] };
    assert_eq!(PlanetPipeline.apply(&mut world, &empty), Ok(()));
    let ids: Vec<u64> = world.entities.iter().map(|e| e.id).collect();
    assert_eq!(ids, vec![camera, panel]);
    assert_eq!(world.next_id, 5);

    let mut world = world_with_camera();
    world.despawn_bodies();
    assert_eq!(world.entities.len(), 1);
    assert_eq!(world.entities[0].id, 0);
}

#[test]
fn apply_fails_when_identifiers_run_out() {
    let mut world = World::new();
    world.next_id = u64::MAX;
    let record = Record {
        source: 0,
        prefab: Prefab::Star(StarPrefab { transform: transform(0.0, 0.0, 0.0, 1.0) }),
    };
    let snapshot = Snapshot { resources: vec![], records: vec![record] };
    let before = world.clone();
    assert_eq!(snapshot.apply(&mut world), Err(PipelineError::Apply));
    assert_eq!(world, before);
    world.next_id = u64::MAX - 1;
    assert_eq!(snapshot.apply(&mut world), Ok(()));
    assert_eq!(world.next_id, u64::MAX);
    assert_eq!(world.entities[0].id, u64::MAX - 1);
}

#[test]
fn later_record_wins_a_shared_old_identifier() {
    let t = transform(0.0, 0.0, 0.0, 1.0);
    let planet = |moon_of| Record {
        source: 7,
        prefab: Prefab::Planet(PlanetPrefab { transform: t, moon_of, star_of: None }),
    };
    let snapshot = Snapshot {
        resources: vec![],
        records: vec![planet(None), planet(None), planet(Some(MoonOf(7)))],
    };
    let mut world = World::new();
    snapshot.apply(&mut world).unwrap();
    assert_eq!(world.entities[2].moon_of(), Some(MoonOf(2)));
    assert_eq!(world.entities[2].scene, Some(Asset::Moon));
}

#[test]
fn text_round_trip_gives_the_snapshot_back() {
    let mut world = world_with_camera();
    world.insert_resource(ResourceKind::AmbientLight, 15);
    let snapshot = PlanetPipeline.capture(SnapshotBuilder::new(&world));
    let text = RONFormat::serialize(&snapshot).unwrap();
    assert_ne!(text, "");
    assert!(text.contains('\n'));
    assert!(!text.contains('\r'));
    assert_eq!(RONFormat::deserialize(&text), Ok(snapshot.clone()));
    assert_eq!(Snapshot::from_plain(&snapshot.to_plain()), Ok(snapshot));
}

#[test]
fn text_of_a_small_snapshot() {
    let snapshot = Snapshot {
        resources: vec![Resource { kind: ResourceKind::ClearColor, value: 2 }],
        records: vec![],
    };
    let text = RONFormat::serialize(&snapshot).unwrap();
    assert_eq!(text, "([\n    (\"ClearColor\", 2),\n], [])");
    assert_eq!(RONFormat::deserialize("([(\"ClearColor\",2)],[])"), Ok(snapshot));
}

#[test]
fn names_and_codes() {
    assert_eq!(RONFormat::extension(), ".ron");
    assert_eq!(PlanetPipeline.key(), "pronytic");
    assert_eq!(PlanetPipeline.file_name(), "pronytic.ron");
    assert_eq!(Asset::Star.path(), "star.glb");
    assert_eq!(Asset::Planet.path(), "planet.glb");
    assert_eq!(Asset::Moon.path(), "moon.glb");
    assert_eq!(PipelineError::Saving.message(), "saving failed");
    assert_eq!(PipelineError::Loading.message(), "loading failed");
    assert_eq!(PipelineError::Apply.message(), "applying the snapshot failed");
    let kinds = [
        ResourceKind::Time,
        ResourceKind::FixedTime,
        ResourceKind::RealTime,
        ResourceKind::VirtualTime,
        ResourceKind::AmbientLight,
        ResourceKind::ClearColor,
    ];
    let names = ["Time", "FixedTime", "RealTime", "VirtualTime", "AmbientLight", "ClearColor"];
    for (kind, name) in kinds.iter().zip(names.iter()) {
        assert_eq!(kind.name(), *name);
        assert_eq!(ResourceKind::from_name(&name.to_string()), Some(*kind));
    }
    assert_eq!(ResourceKind::from_name(&"time".to_string()), None);
    for i in 0..11 {
        assert_eq!(number_name(i), plain_numbers(0, [0; 10])[i].0);
    }
    assert!(is_named(&"source".to_string(), "source"));
    assert!(!is_named(&"source".to_string(), "sourc"));
}

#[test]
fn status_follows_the_links() {
    let mut world = World::new();
    assert_eq!(world.check_moon_status(), "I want my moon back >:[");
    assert_eq!(world.check_star_status(), "I want my star back >:[");
    setup(&mut world);
    assert_eq!(world.check_moon_status(), "I have a moon XD");
    assert_eq!(world.check_star_status(), "I have a star XD");
    world.spawn(Kind::Planet { moon_of: Some(MoonOf(1)), star_of: None }, None, None);
    assert_eq!(world.check_moon_status(), "I want my moon back >:[");
    assert_eq!(world.check_star_status(), "I have a star XD");
    world.despawn_bodies();
    assert_eq!(world.check_moon_status(), "I want my moon back >:[");
    assert_eq!(world.check_star_status(), "I want my star back >:[");

    let mut world = World::new();
    let star = world.spawn(Kind::Star, None, None);
    world.spawn(Kind::Planet { moon_of: None, star_of: Some(StellarBodyOf(star)) }, None, None);
    assert_eq!(world.check_star_status(), "I want my star back >:[");
}

#[test]
fn map_entities_rewrites_or_drops() {
    let mut table = std::collections::HashMap::new();
    table.insert(10u64, 20u64);
    let mut prefab = PlanetPrefab {
        transform: transform(0.0, 0.0, 0.0, 1.0),
        moon_of: Some(MoonOf(10)),
        star_of: Some(StellarBodyOf(11)),
    };
    prefab.map_entities(&table);
    assert_eq!(prefab.moon_of, Some(MoonOf(20)));
    assert_eq!(prefab.star_of, None);
    let mut star = StarPrefab { transform: transform(1.0, 0.0, 0.0, 1.0) };
    star.map_entities(&table);
    assert_eq!(star, StarPrefab { transform: transform(1.0, 0.0, 0.0, 1.0) });
    assert_eq!(orbit_save::prefab::get_mapped(&table, 10), Some(20));
    assert_eq!(orbit_save::prefab::get_mapped(&table, 20), None);
}

#[test]
fn insert_resource_replaces_the_value_of_its_kind() {
    let mut world = World::new();
    world.insert_resource(ResourceKind::AmbientLight, 15);
    world.insert_resource(ResourceKind::ClearColor, 1);
    world.insert_resource(ResourceKind::AmbientLight, 16);
    assert_eq!(
        world.resources,
        vec![
            Resource { kind: ResourceKind::AmbientLight, value: 16 },
            Resource { kind: ResourceKind::ClearColor, value: 1 },
        ]
    );
}

#[test]
fn load_sets_the_saved_resources_and_keeps_the_clocks() {
    let mut world = World::new();
    world.insert_resource(ResourceKind::Time, 100);
    world.insert_resource(ResourceKind::AmbientLight, 15);
    let text = PlanetPipeline.save(&world).unwrap();
    world.insert_resource(ResourceKind::Time, 200);
    world.insert_resource(ResourceKind::AmbientLight, 3);
    world.insert_resource(ResourceKind::ClearColor, 9);
    PlanetPipeline.load(&mut world, &text).unwrap();
    assert_eq!(
        world.resources,
        vec![
            Resource { kind: ResourceKind::Time, value: 200 },
            Resource { kind: ResourceKind::AmbientLight, value: 15 },
            Resource { kind: ResourceKind::ClearColor, value: 9 },
        ]
    );
}

#[test]
fn prefab_spawn_fills_the_target_entity_only() {
    let mut world = World::new();
    let first = world.spawn_empty();
    let second = world.spawn_empty();
    assert_eq!(world.entities[1], Entity { id: 1, kind: Kind::Other, transform: None, scene: None });
    let t = transform(1.0, 2.0, 3.0, 1.0);
    StarPrefab { transform: t }.spawn(first, &mut world);
    assert_eq!(
        world.entities[0],
        Entity { id: first, kind: Kind::Star, transform: Some(t), scene: Some(Asset::Star) }
    );
    assert_eq!(world.entities[1].kind, Kind::Other);
    let planet = PlanetPrefab { transform: t, moon_of: None, star_of: Some(StellarBodyOf(first)) };
    Record { source: 77, prefab: Prefab::Planet(planet) }.spawn(second, &mut world);
    assert_eq!(
        world.entities[1],
        Entity {
            id: second,
            kind: Kind::Planet { moon_of: None, star_of: Some(StellarBodyOf(first)) },
            transform: Some(t),
            scene: Some(Asset::Planet),
        }
    );
    let moon = PlanetPrefab { transform: t, moon_of: Some(MoonOf(second)), star_of: None };
    moon.spawn(first, &mut world);
    assert_eq!(world.entities[0].scene, Some(Asset::Moon));
    assert_eq!(world.entities.len(), 2);
    assert_eq!(world.next_id, 2);
}

#[test]
fn bit_patterns_survive_the_text() {
    let odd = Transform::from_xyz_scaled(f32::NAN.to_bits(), (-0.0f32).to_bits(), u32::MAX, 1);
    let mut world = World::new();
    world.spawn(Kind::Star, Some(odd), None);
    let text = PlanetPipeline.save(&world).unwrap();
    PlanetPipeline.load(&mut world, &text).unwrap();
    assert_eq!(world.entities.len(), 1);
    assert_eq!(world.entities[0].id, 1);
    assert_eq!(world.entities[0].transform, Some(odd));
}

#[test]
fn saved_text_names_its_fields() {
    let mut world = World::new();
    setup(&mut world);
    let text = PlanetPipeline.save(&world).unwrap();
    for name in ["PlanetPrefab", "StarPrefab", "source", "translation.x", "rotation.w", "scale.z", "moon_of", "star_of"] {
        assert!(text.contains(&format!("\"{name}\"")), "{name} is missing");
    }
    assert!(text.contains("(\"moon_of\", Some(1))"));
    assert!(text.contains("(\"star_of\", Some(0))"));
    assert!(text.contains("(\"moon_of\", None)"));
    assert!(text.contains(&format!("(\"scale.x\", {})", 0.2f32.to_bits())));
}

#[test]
fn despawn_takes_the_links_to_the_entity_with_it() {
    let mut world = world_with_camera();
    // camera 0, star 1, planet 2, moon 3
    assert!(world.despawn(2));
    assert!(!world.despawn(2));
    assert!(!world.contains(2));
    assert_eq!(world.entities.len(), 3);
    assert_eq!(world.entities[2].id, 3);
    assert_eq!(
        world.entities[2].kind,
        Kind::Planet { moon_of: None, star_of: Some(StellarBodyOf(1)) }
    );
    assert_eq!(world.check_moon_status(), "I want my moon back >:[");
    assert_eq!(world.check_star_status(), "I want my star back >:[");
    assert_eq!(world.stellar_bodies(1), StellarBodies(vec![3]));
    assert!(world.despawn(1));
    assert_eq!(world.entities[1].kind, Kind::Planet { moon_of: None, star_of: None });
    assert_eq!(world.stellar_bodies(1), StellarBodies(vec![]));
    assert_eq!(world.next_id, 4);
    assert!(world.despawn(0));
    assert_eq!(world.entities.len(), 1);
    assert!(!world.despawn(9));
}
