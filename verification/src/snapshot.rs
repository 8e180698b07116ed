//! Snapshots: capturing the bodies and resources of a world, and applying a
//! snapshot to a world.

use crate::error::PipelineError;
use crate::prefab::{PrefabKind, Record};
use crate::world::{
    ids_fresh, is_live, links_live, put_all, Entity, Kind, Resource, ResourceKind, World,
};
use std::collections::HashMap;
use vstd::prelude::*;

verus! {

broadcast use {
    vstd::std_specs::hash::group_hash_axioms,
    vstd::seq::Seq::lemma_filter_map_take_succ,
    vstd::seq::Seq::lemma_filter_push,
    vstd::seq::Seq::lemma_take_len,
};

/// The saved state of a world: resource values, and one record for each
/// captured body, in capture order.
#[derive(Clone, Debug, PartialEq, Eq)]
pub struct Snapshot {
    pub resources: Vec<Resource>,
    pub records: Vec<Record>,
}

/// The resources whose kind is not on the denylist, in their order.
pub open spec fn retained(resources: Seq<Resource>, deny: Seq<ResourceKind>) -> Seq<Resource> {
    resources.filter(allowed(deny))
}

/// Holds of a resource whose kind is not on the denylist.
pub open spec fn allowed(deny: Seq<ResourceKind>) -> spec_fn(Resource) -> bool {
    |r: Resource| !deny.contains(r.kind)
}

/// Gives the record of the prefab kind for an entity that qualifies.
pub open spec fn extractor(kind: PrefabKind) -> spec_fn(Entity) -> Option<Record> {
    |e: Entity| Record::extracted(kind, e)
}

/// Holds of an entity that is neither a star nor a planet.
pub open spec fn spared() -> spec_fn(Entity) -> bool {
    |e: Entity| !e.is_body()
}

/// The records of one prefab kind, one for each entity that qualifies, in
/// world order.
pub open spec fn extracted(entities: Seq<Entity>, kind: PrefabKind) -> Seq<Record> {
    entities.filter_map(extractor(kind))
}

/// The entities that a load leaves alone: all but the stars and planets.
pub open spec fn survivors(entities: Seq<Entity>) -> Seq<Entity> {
    entities.filter(spared())
}

/// The remap table of a load: the record at position `i` sends its old
/// identifier to `base + i`. Of two records with one old identifier the
/// later one counts.
pub open spec fn remap_of(records: Seq<Record>, base: u64) -> Map<u64, u64>
    decreases records.len(),
{
    if records.len() == 0 {
        Map::empty()
    } else {
        remap_of(records.drop_last(), base).insert(
            records.last().source,
            (base + records.len() - 1) as u64,
        )
    }
}

/// The entities that a load creates: the record at position `i`, with its
/// links seen through the remap table, under the identifier `base + i`.
pub open spec fn restored(records: Seq<Record>, base: u64) -> Seq<Entity> {
    Seq::new(
        records.len(),
        |i: int| records[i].remapped(remap_of(records, base)).spawned((base + i) as u64),
    )
}

/// Every new identifier in the table is that of a record of the snapshot,
/// the one whose old identifier it stands for.
pub proof fn lemma_remap_covers(records: Seq<Record>, base: u64, id: u64)
    requires
        remap_of(records, base).contains_key(id),
        base + records.len() <= u64::MAX,
    ensures
        base <= remap_of(records, base)[id] < base + records.len(),
        records[remap_of(records, base)[id] - base].source == id,
    decreases records.len(),
{
    if records.len() > 0 && records.last().source != id {
        lemma_remap_covers(records.drop_last(), base, id);
    }
}

/// Whether `kind` is on the denylist.
pub fn denied(deny: &Vec<ResourceKind>, kind: ResourceKind) -> (r: bool)
    ensures
        r == deny@.contains(kind),
{
    let mut i: usize = 0;
    while i < deny.len()
        invariant
            i <= deny@.len(),
            forall|j: int| 0 <= j < i ==> deny@[j] != kind,
        decreases deny@.len() - i,
    {
        if deny[i] == kind {
            return true;
        }
        i += 1;
    }
    false
}

/// Builds a snapshot from a world, step by step. It only reads the world.
pub struct SnapshotBuilder<'a> {
    pub world: &'a World,
    pub deny: Vec<ResourceKind>,
    pub resources: Vec<Resource>,
    pub records: Vec<Record>,
}

impl<'a> SnapshotBuilder<'a> {
    /// A builder over `world` with an empty denylist and nothing captured.
    pub fn new(world: &'a World) -> (b: SnapshotBuilder<'a>)
        ensures
            b.world == world,
            b.deny@.len() == 0,
            b.resources@.len() == 0,
            b.records@.len() == 0,
    {
        SnapshotBuilder { world, deny: Vec::new(), resources: Vec::new(), records: Vec::new() }
    }

    /// Sets the denylist: the resource kinds that later steps leave out.
    pub fn filter(self, deny: Vec<ResourceKind>) -> (b: SnapshotBuilder<'a>)
        ensures
            b.world == self.world,
            b.deny == deny,
            b.resources == self.resources,
            b.records == self.records,
    {
        SnapshotBuilder {
            world: self.world,
            deny,
            resources: self.resources,
            records: self.records,
        }
    }

    /// Captures every resource of the world whose kind is not denied.
    pub fn extract_all_resources(self) -> (b: SnapshotBuilder<'a>)
        ensures
            b.world == self.world,
            b.deny == self.deny,
            b.records == self.records,
            b.resources@ == self.resources@ + retained(self.world.resources@, self.deny@),
    {
        let world = self.world;
        let deny = self.deny;
        let mut resources = self.resources;
        let mut i: usize = 0;
        while i < world.resources.len()
            invariant
                i <= world.resources@.len(),
                resources@ == self.resources@ + retained(world.resources@.take(i as int), deny@),
            decreases world.resources@.len() - i,
        {
            proof {
                world.resources@.lemma_take_succ_push(i as int);
            }
            let resource = world.resources[i];
            if !denied(&deny, resource.kind) {
                resources.push(resource);
            }
            i += 1;
        }
        SnapshotBuilder { world, deny, resources, records: self.records }
    }

    /// Captures every entity of the world from which the prefab kind
    /// extracts a record, in world order, after what was captured before.
    pub fn extract_all_prefabs(self, kind: PrefabKind) -> (b: SnapshotBuilder<'a>)
        ensures
            b.world == self.world,
            b.deny == self.deny,
            b.resources == self.resources,
            b.records@ == self.records@ + extracted(self.world.entities@, kind),
    {
        let world = self.world;
        let mut records = self.records;
        let mut i: usize = 0;
        while i < world.entities.len()
            invariant
                i <= world.entities@.len(),
                records@ == self.records@ + extracted(world.entities@.take(i as int), kind),
            decreases world.entities@.len() - i,
        {
            match Record::extract(kind, &world.entities[i]) {
                Some(record) => {
                    records.push(record);
                },
                None => {},
            }
            i += 1;
        }
        SnapshotBuilder { world, deny: self.deny, resources: self.resources, records }
    }

    /// The snapshot of what was captured.
    pub fn build(self) -> (s: Snapshot)
        ensures
            s.resources == self.resources,
            s.records == self.records,
    {
        Snapshot { resources: self.resources, records: self.records }
    }
}

impl World {
    /// Removes every star and planet. All other entities stay, in their
    /// order; resources and the identifier counter do not change.
    pub fn despawn_bodies(&mut self)
        ensures
            final(self).entities@ == survivors(old(self).entities@),
            final(self).resources == old(self).resources,
            final(self).next_id == old(self).next_id,
            ids_fresh(old(self).entities@, old(self).next_id) ==> ids_fresh(
                final(self).entities@,
                final(self).next_id,
            ),
            forall|i: int|
                0 <= i < final(self).entities@.len() ==> !(#[trigger] final(self).entities@[i]).is_body(),
    {
        let ghost before = self.entities@;
        let ghost mut origin: Seq<int> = Seq::empty();
        let mut kept: Vec<Entity> = Vec::new();
        let mut i: usize = 0;
        while i < self.entities.len()
            invariant
                self.entities@ == before,
                i <= before.len(),
                kept@ == survivors(before.take(i as int)),
                origin.len() == kept@.len(),
                forall|k: int|
                    0 <= k < kept@.len() ==> 0 <= #[trigger] origin[k] < i && kept@[k]
                        == before[origin[k]] && !kept@[k].is_body(),
                forall|a: int, b: int|
                    0 <= a < b < kept@.len() ==> #[trigger] origin[a] < #[trigger] origin[b],
            decreases before.len() - i,
        {
            proof {
                before.lemma_take_succ_push(i as int);
            }
            let entity = self.entities[i];
            match entity.kind {
                Kind::Other => {
                    kept.push(entity);
                    proof {
                        origin = origin.push(i as int);
                    }
                },
                _ => {},
            }
            i += 1;
        }
        self.entities = kept;
        proof {
            if ids_fresh(before, self.next_id) {
                assert forall|a: int, b: int| 0 <= a < b < kept@.len() implies (#[trigger] kept@[a]).id
                    != (#[trigger] kept@[b]).id by {
                    assert(origin[a] < origin[b]);
                    assert(before[origin[a]].id != before[origin[b]].id);
                }
                assert forall|a: int| 0 <= a < kept@.len() implies (#[trigger] kept@[a]).id
                    < self.next_id by {
                    assert(before[origin[a]].id < self.next_id);
                }
            }
        }
    }
}

impl Snapshot {
    /// Replaces the stars and planets of `world` by those of the snapshot.
    ///
    /// Every star and planet of the world is removed; all other entities
    /// stay. Each record then gets a fresh, empty entity, the remap table is
    /// filled for all of them, and only then each record has its links
    /// rewritten and its entity brought to life. Last, each resource of the snapshot
    /// is set in the world. Where the world has too few identifiers left
    /// for the records, nothing is changed.
    pub fn apply(&self, world: &mut World) -> (r: Result<(), PipelineError>)
        requires
            old(world).well_formed(),
        ensures
            match r {
                Ok(_) => {
                    &&& old(world).next_id + self.records@.len() <= u64::MAX
                    &&& final(world).entities@ == survivors(old(world).entities@) + restored(
                        self.records@,
                        old(world).next_id,
                    )
                    &&& final(world).next_id == old(world).next_id + self.records@.len()
                    &&& final(world).resources@ == put_all(
                        old(world).resources@,
                        self.resources@,
                    )
                    &&& final(world).well_formed()
                },
                Err(e) => {
                    &&& e == PipelineError::Apply
                    &&& old(world).next_id + self.records@.len() > u64::MAX
                    &&& *final(world) == *old(world)
                },
            },
    {
        let base: u64 = world.next_id;
        let n: usize = self.records.len();
        if n as u64 > u64::MAX - base {
            return Err(PipelineError::Apply);
        }
        world.despawn_bodies();
        let ghost kept = world.entities@;

        let mut table: HashMap<u64, u64> = HashMap::new();
        let mut i: usize = 0;
        while i < n
            invariant
                n == self.records@.len(),
                base + n <= u64::MAX,
                i <= n,
                world.well_formed(),
                world.next_id == base + i,
                world.resources@ == old(world).resources@,
                world.entities@ == kept + half_restored(self.records@, base, 0, i as int),
                table@ == remap_of(self.records@.take(i as int), base),
            decreases n - i,
        {
            proof {
                assert(self.records@.take(i + 1).drop_last() =~= self.records@.take(i as int));
            }
            let id = world.spawn_empty();
            table.insert(self.records[i].source, id);
            proof {
                assert(world.entities@ =~= kept + half_restored(self.records@, base, 0, i + 1));
            }
            i += 1;
        }

        let ghost fresh = restored(self.records@, base);
        let mut i: usize = 0;
        while i < n
            invariant
                n == self.records@.len(),
                base + n <= u64::MAX,
                i <= n,
                table@ == remap_of(self.records@, base),
                fresh == restored(self.records@, base),
                forall|a: int| 0 <= a < kept.len() ==> (#[trigger] kept[a]).id < base,
                world.entities@ == kept + half_restored(self.records@, base, i as int, n as int),
                world.resources@ == old(world).resources@,
                world.next_id == base + n,
            decreases n - i,
        {
            let mut record = self.records[i];
            record.map_entities(&table);
            proof {
                assert(world.entities@[kept.len() + i].id == base + i);
            }
            record.spawn(base + i as u64, world);
            proof {
                assert(world.entities@ =~= kept + half_restored(
                    self.records@,
                    base,
                    i + 1,
                    n as int,
                ));
            }
            i += 1;
        }
        proof {
            assert(world.entities@ =~= kept + fresh);
        }
        let mut i: usize = 0;
        while i < self.resources.len()
            invariant
                i <= self.resources@.len(),
                world.entities@ == kept + fresh,
                world.next_id == base + n,
                world.resources@ == put_all(old(world).resources@, self.resources@.take(i as int)),
            decreases self.resources@.len() - i,
        {
            proof {
                assert(self.resources@.take(i + 1).drop_last() =~= self.resources@.take(i as int));
            }
            let resource = self.resources[i];
            world.insert_resource(resource.kind, resource.value);
            i += 1;
        }
        proof {
            let all = world.entities@;
            assert forall|a: int| 0 <= a < all.len() implies (#[trigger] all[a]).id
                < world.next_id by {
                if a >= kept.len() {
                    assert(all[a] == fresh[a - kept.len()]);
                }
            }
            assert forall|a: int, b: int| 0 <= a < b < all.len() implies (#[trigger] all[a]).id
                != (#[trigger] all[b]).id by {
                if a >= kept.len() {
                    assert(all[a] == fresh[a - kept.len()]);
                }
                if b >= kept.len() {
                    assert(all[b] == fresh[b - kept.len()]);
                }
            }
            assert forall|a: int| 0 <= a < all.len() implies match (#[trigger] all[a]).moon_host() {
                Some(h) => is_live(all, h),
                None => true,
            } && match all[a].star_host() {
                Some(h) => is_live(all, h),
                None => true,
            } by {
                if a >= kept.len() {
                    assert(all[a] == fresh[a - kept.len()]);
                    if let Some(h) = all[a].moon_host() {
                        lemma_restored_live(self.records@, base, kept, h);
                    }
                    if let Some(h) = all[a].star_host() {
                        lemma_restored_live(self.records@, base, kept, h);
                    }
                } else {
                    assert(!all[a].is_body());
                }
            }
        }
        Ok(())
    }
}

/// The entities of a load under way: of `total` fresh entities the first
/// `done` are restored, the others still have nothing on them.
spec fn half_restored(records: Seq<Record>, base: u64, done: int, total: int) -> Seq<Entity> {
    Seq::new(
        total as nat,
        |i: int|
            if i < done {
                restored(records, base)[i]
            } else {
                Entity {
                    id: (base + i) as u64,
                    kind: Kind::Other,
                    transform: None,
                    scene: None,
                }
            },
    )
}

/// A new identifier from the table is live once the records are restored.
proof fn lemma_restored_live(records: Seq<Record>, base: u64, kept: Seq<Entity>, id: u64)
    requires
        base + records.len() <= u64::MAX,
        exists|old_id: u64|
            remap_of(records, base).contains_key(old_id) && remap_of(records, base)[old_id] == id,
    ensures
        is_live(kept + restored(records, base), id),
{
    let old_id = choose|old_id: u64|
        remap_of(records, base).contains_key(old_id) && remap_of(records, base)[old_id] == id;
    lemma_remap_covers(records, base, old_id);
    let all = kept + restored(records, base);
    let k = kept.len() + (id - base);
    assert(all[k] == restored(records, base)[id - base]);
    assert(all[k].id == id);
}

} // verus!
