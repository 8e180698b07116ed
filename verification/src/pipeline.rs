//! The save slot of the solar system: what is captured, how it is written,
//! and how it is put back.

use crate::error::PipelineError;
use crate::format::{
    plain_of, records_of, resources_of, ron_parsed, ron_pretty, valid_plain, RONFormat,
};
use crate::prefab::{PrefabKind, Record};
use crate::snapshot::{extracted, restored, retained, survivors, Snapshot, SnapshotBuilder};
use crate::world::{
    put_all, Asset, Entity, Kind, MoonOf, Resource, ResourceKind, StellarBodyOf, Transform, World,
    ZERO,
};
use vstd::prelude::*;
use vstd::string::StringExecFns;

verus! {

broadcast use vstd::seq::Seq::lemma_filter_pred;

/// The clock kinds, which are never captured.
pub open spec fn clock_kinds() -> Seq<ResourceKind> {
    seq![
        ResourceKind::FixedTime,
        ResourceKind::Time,
        ResourceKind::RealTime,
        ResourceKind::VirtualTime,
    ]
}

/// The resources that a capture of the world holds: all but the clocks.
pub open spec fn captured_resources(world: World) -> Seq<Resource> {
    retained(world.resources@, clock_kinds())
}

/// The records that a capture of the world holds: the planets and moons in
/// world order, then the stars in world order.
pub open spec fn captured_records(world: World) -> Seq<Record> {
    extracted(world.entities@, PrefabKind::Planet) + extracted(world.entities@, PrefabKind::Star)
}

/// The one save slot of the solar system.
pub struct PlanetPipeline;

impl PlanetPipeline {
    /// The name of the save slot.
    pub fn key(&self) -> (r: &'static str)
        ensures
            r@ == "pronytic"@,
    {
        "pronytic"
    }

    /// The name of the save file: the key, then the ending of the format.
    pub fn file_name(&self) -> (r: String)
        ensures
            r@ == "pronytic"@ + ".ron"@,
    {
        self.key().to_owned().concat(RONFormat::extension())
    }

    /// The denylist of a capture: the clock kinds.
    pub fn deny_list() -> (r: Vec<ResourceKind>)
        ensures
            r@ == clock_kinds(),
            forall|kind: ResourceKind| kind.is_clock() <==> r@.contains(kind),
    {
        let mut deny: Vec<ResourceKind> = Vec::new();
        deny.push(ResourceKind::FixedTime);
        deny.push(ResourceKind::Time);
        deny.push(ResourceKind::RealTime);
        deny.push(ResourceKind::VirtualTime);
        proof {
            assert(deny@ =~= clock_kinds());
            assert(deny@[0] == ResourceKind::FixedTime);
            assert(deny@[1] == ResourceKind::Time);
            assert(deny@[2] == ResourceKind::RealTime);
            assert(deny@[3] == ResourceKind::VirtualTime);
        }
        deny
    }

    /// Captures the world of the builder: every resource but the clocks,
    /// then the planets and moons, then the stars, after whatever the
    /// builder already holds.
    pub fn capture(&self, builder: SnapshotBuilder) -> (s: Snapshot)
        ensures
            s.resources@ == builder.resources@ + captured_resources(*builder.world),
            s.records@ == builder.records@ + captured_records(*builder.world),
            forall|i: int|
                builder.resources@.len() <= i < s.resources@.len() ==> !(
                #[trigger] s.resources@[i]).kind.is_clock(),
    {
        let s = builder.filter(Self::deny_list()).extract_all_resources().extract_all_prefabs(
            PrefabKind::Planet,
        ).extract_all_prefabs(PrefabKind::Star).build();
        proof {
            let kept = captured_resources(*builder.world);
            assert forall|i: int| builder.resources@.len() <= i < s.resources@.len() implies !(
            #[trigger] s.resources@[i]).kind.is_clock() by {
                let j = i - builder.resources@.len();
                assert(s.resources@[i] == kept[j]);
                assert(!clock_kinds().contains(kept[j].kind));
            }
        }
        s
    }

    /// Puts the snapshot into the world: see `Snapshot::apply`.
    pub fn apply(&self, world: &mut World, snapshot: &Snapshot) -> (r: Result<(), PipelineError>)
        requires
            old(world).well_formed(),
        ensures
            match r {
                Ok(_) => {
                    &&& old(world).next_id + snapshot.records@.len() <= u64::MAX
                    &&& final(world).entities@ == survivors(old(world).entities@) + restored(
                        snapshot.records@,
                        old(world).next_id,
                    )
                    &&& final(world).next_id == old(world).next_id + snapshot.records@.len()
                    &&& final(world).resources@ == put_all(
                        old(world).resources@,
                        snapshot.resources@,
                    )
                    &&& final(world).well_formed()
                },
                Err(e) => {
                    &&& e == PipelineError::Apply
                    &&& old(world).next_id + snapshot.records@.len() > u64::MAX
                    &&& *final(world) == *old(world)
                },
            },
    {
        snapshot.apply(world)
    }

    /// Captures the world and writes the snapshot as text. The world is
    /// only read.
    pub fn save(&self, world: &World) -> (r: Result<String, PipelineError>)
        ensures
            match ron_pretty(plain_of(captured_resources(*world), captured_records(*world))) {
                Some(text) => r matches Ok(out) && out@ == text,
                None => r == Err::<String, PipelineError>(PipelineError::Saving),
            },
    {
        let snapshot = self.capture(SnapshotBuilder::new(world));
        proof {
            assert(snapshot.resources@ =~= captured_resources(*world));
            assert(snapshot.records@ =~= captured_records(*world));
        }
        RONFormat::serialize(&snapshot)
    }

    /// Reads a snapshot from the text and puts it into the world. The text
    /// is read in full before anything is removed: where it is not a
    /// snapshot, the world is left as it was.
    pub fn load(&self, world: &mut World, text: &str) -> (r: Result<(), PipelineError>)
        requires
            old(world).well_formed(),
        ensures
            match r {
                Ok(_) => {
                    &&& ron_parsed(text@) matches Some(plain)
                    &&& valid_plain(plain)
                    &&& old(world).next_id + plain.1.len() <= u64::MAX
                    &&& final(world).entities@ == survivors(old(world).entities@) + restored(
                        records_of(plain.1),
                        old(world).next_id,
                    )
                    &&& final(world).next_id == old(world).next_id + plain.1.len()
                    &&& final(world).resources@ == put_all(
                        old(world).resources@,
                        resources_of(plain.0),
                    )
                    &&& final(world).well_formed()
                },
                Err(e) => {
                    &&& *final(world) == *old(world)
                    &&& match ron_parsed(text@) {
                        Some(plain) => if valid_plain(plain) {
                            e == PipelineError::Apply && old(world).next_id + plain.1.len()
                                > u64::MAX
                        } else {
                            e == PipelineError::Loading
                        },
                        None => e == PipelineError::Loading,
                    }
                },
            },
    {
        match RONFormat::deserialize(text) {
            Ok(snapshot) => self.apply(world, &snapshot),
            Err(e) => Err(e),
        }
    }
}

/// Bit pattern of `12.0`.
pub const TWELVE: u32 = 0x4140_0000;

/// Bit pattern of `13.0`.
pub const THIRTEEN: u32 = 0x4150_0000;

/// Bit pattern of `23.0`.
pub const TWENTY_THREE: u32 = 0x41b8_0000;

/// Bit pattern of `-8.0`.
pub const MINUS_EIGHT: u32 = 0xc100_0000;

/// Bit pattern of `0.2`, the scale of the star.
pub const STAR_SCALE: u32 = 0x3e4c_cccd;

/// Bit pattern of `0.15`, the scale of the planet.
pub const PLANET_SCALE: u32 = 0x3e19_999a;

/// Bit pattern of `0.05`, the scale of the moon.
pub const MOON_SCALE: u32 = 0x3d4c_cccd;

/// The three bodies that `setup` adds, with `base` as the first identifier.
pub open spec fn solar_system(base: u64) -> Seq<Entity> {
    seq![
        Entity {
            id: base,
            kind: Kind::Star,
            transform: Some(Transform::spec_from_xyz_scaled(TWELVE, ZERO, THIRTEEN, STAR_SCALE)),
            scene: Some(Asset::Star),
        },
        Entity {
            id: (base + 1) as u64,
            kind: Kind::Planet { moon_of: None, star_of: Some(StellarBodyOf(base)) },
            transform: Some(Transform::spec_from_xyz_scaled(ZERO, ZERO, ZERO, PLANET_SCALE)),
            scene: Some(Asset::Planet),
        },
        Entity {
            id: (base + 2) as u64,
            kind: Kind::Planet {
                moon_of: Some(MoonOf((base + 1) as u64)),
                star_of: Some(StellarBodyOf(base)),
            },
            transform: Some(
                Transform::spec_from_xyz_scaled(MINUS_EIGHT, TWENTY_THREE, THIRTEEN, MOON_SCALE),
            ),
            scene: Some(Asset::Moon),
        },
    ]
}

/// Adds a star, a planet that orbits the star, and a moon that orbits the
/// planet and the star.
pub fn setup(world: &mut World)
    requires
        old(world).well_formed(),
        old(world).next_id + 3 <= u64::MAX,
    ensures
        final(world).well_formed(),
        final(world).entities@ == old(world).entities@ + solar_system(old(world).next_id),
        final(world).next_id == old(world).next_id + 3,
        final(world).resources == old(world).resources,
{
    let star_transform = Transform::from_xyz_scaled(TWELVE, ZERO, THIRTEEN, STAR_SCALE);
    let star = world.spawn(Kind::Star, Some(star_transform), Some(Asset::Star));
    proof {
        assert(world.entities@[world.entities@.len() - 1].id == star);
    }
    let planet_transform = Transform::from_xyz_scaled(ZERO, ZERO, ZERO, PLANET_SCALE);
    let planet = world.spawn(
        Kind::Planet { moon_of: None, star_of: Some(StellarBodyOf(star)) },
        Some(planet_transform),
        Some(Asset::Planet),
    );
    proof {
        assert(world.entities@[world.entities@.len() - 1].id == planet);
        assert(world.entities@[world.entities@.len() - 2].id == star);
    }
    let moon_transform = Transform::from_xyz_scaled(
        MINUS_EIGHT,
        TWENTY_THREE,
        THIRTEEN,
        MOON_SCALE,
    );
    world.spawn(
        Kind::Planet { moon_of: Some(MoonOf(planet)), star_of: Some(StellarBodyOf(star)) },
        Some(moon_transform),
        Some(Asset::Moon),
    );
    proof {
        assert(world.entities@ =~= old(world).entities@ + solar_system(old(world).next_id));
    }
}

} // verus!
