//! Prefabs: for each kind of body, how to read its saved state off a live
//! entity, how to rewrite the identifiers it holds, and how to bring an
//! entity back from it.

use crate::world::{
    is_live, replaced, Asset, Entity, Kind, MoonOf, StellarBodyOf, Transform, World,
};
use std::collections::HashMap;
use vstd::prelude::*;

verus! {

broadcast use vstd::std_specs::hash::group_hash_axioms;

/// An identifier seen through a remap table: the new identifier where the
/// table covers the old one, nothing where it does not.
pub open spec fn mapped(table: Map<u64, u64>, id: Option<u64>) -> Option<u64> {
    match id {
        Some(old_id) => if table.contains_key(old_id) {
            Some(table[old_id])
        } else {
            None
        },
        None => None,
    }
}

/// Looks `id` up in the remap table.
pub fn get_mapped(mapper: &HashMap<u64, u64>, id: u64) -> (r: Option<u64>)
    ensures
        r == mapped(mapper@, Some(id)),
{
    match mapper.get(&id) {
        Some(new_id) => Some(*new_id),
        None => None,
    }
}

/// The saved state of a planet or a moon. The identifiers in its links are
/// those of the world it was taken from, until `map_entities` rewrites them.
#[derive(Clone, Copy, Debug, PartialEq, Eq)]
pub struct PlanetPrefab {
    pub transform: Transform,
    pub moon_of: Option<MoonOf>,
    pub star_of: Option<StellarBodyOf>,
}

impl PlanetPrefab {
    pub open spec fn moon_host(self) -> Option<u64> {
        match self.moon_of {
            Some(m) => Some(m.0),
            None => None,
        }
    }

    pub open spec fn star_host(self) -> Option<u64> {
        match self.star_of {
            Some(s) => Some(s.0),
            None => None,
        }
    }

    /// What `extract` reads off an entity: a planet with a transform gives
    /// its transform and links, anything else gives nothing.
    pub open spec fn extracted(entity: Entity) -> Option<PlanetPrefab> {
        match (entity.kind, entity.transform) {
            (Kind::Planet { moon_of, star_of }, Some(transform)) => Some(
                PlanetPrefab { transform, moon_of, star_of },
            ),
            _ => None,
        }
    }

    /// The prefab with both links seen through `table`.
    pub open spec fn remapped(self, table: Map<u64, u64>) -> PlanetPrefab {
        PlanetPrefab {
            transform: self.transform,
            moon_of: match mapped(table, self.moon_host()) {
                Some(id) => Some(MoonOf(id)),
                None => None,
            },
            star_of: match mapped(table, self.star_host()) {
                Some(id) => Some(StellarBodyOf(id)),
                None => None,
            },
        }
    }

    /// The live entity that `spawn` makes: a moon's mesh where the prefab
    /// has a `moon_of` link, a planet's mesh where it has none.
    pub open spec fn spawned(self, target: u64) -> Entity {
        Entity {
            id: target,
            kind: Kind::Planet { moon_of: self.moon_of, star_of: self.star_of },
            transform: Some(self.transform),
            scene: Some(if self.moon_of is Some { Asset::Moon } else { Asset::Planet }),
        }
    }

    /// Reads the prefab off a live entity. An entity that is no planet, or
    /// has no transform, gives nothing.
    pub fn extract(entity: &Entity) -> (r: Option<PlanetPrefab>)
        ensures
            r == Self::extracted(*entity),
    {
        match entity.kind {
            Kind::Planet { moon_of, star_of } => match entity.transform {
                Some(transform) => Some(PlanetPrefab { transform, moon_of, star_of }),
                None => None,
            },
            _ => None,
        }
    }

    /// Rewrites both links through the remap table. A link whose identifier
    /// the table does not cover is dropped.
    pub fn map_entities(&mut self, mapper: &HashMap<u64, u64>)
        ensures
            *final(self) == old(self).remapped(mapper@),
    {
        self.moon_of = match self.moon_of {
            Some(m) => match get_mapped(mapper, m.0) {
                Some(id) => Some(MoonOf(id)),
                None => None,
            },
            None => None,
        };
        self.star_of = match self.star_of {
            Some(s) => match get_mapped(mapper, s.0) {
                Some(id) => Some(StellarBodyOf(id)),
                None => None,
            },
            None => None,
        };
    }

    /// Brings the entity `target`, which is in the world, to life: it
    /// becomes a planet with the prefab's transform and links, and with the
    /// mesh of a moon or of a planet.
    pub fn spawn(self, target: u64, world: &mut World)
        requires
            is_live(old(world).entities@, target),
        ensures
            final(world).entities@ == replaced(old(world).entities@, self.spawned(target)),
            final(world).resources == old(world).resources,
            final(world).next_id == old(world).next_id,
    {
        let scene = match self.moon_of {
            Some(_) => Asset::Moon,
            None => Asset::Planet,
        };
        world.insert(
            Entity {
                id: target,
                kind: Kind::Planet { moon_of: self.moon_of, star_of: self.star_of },
                transform: Some(self.transform),
                scene: Some(scene),
            },
        );
    }
}

/// The saved state of a star.
#[derive(Clone, Copy, Debug, PartialEq, Eq)]
pub struct StarPrefab {
    pub transform: Transform,
}

impl StarPrefab {
    /// What `extract` reads off an entity: a star with a transform gives
    /// its transform, anything else gives nothing.
    pub open spec fn extracted(entity: Entity) -> Option<StarPrefab> {
        match (entity.kind, entity.transform) {
            (Kind::Star, Some(transform)) => Some(StarPrefab { transform }),
            _ => None,
        }
    }

    /// The live entity that `spawn` makes.
    pub open spec fn spawned(self, target: u64) -> Entity {
        Entity {
            id: target,
            kind: Kind::Star,
            transform: Some(self.transform),
            scene: Some(Asset::Star),
        }
    }

    /// Reads the prefab off a live entity. An entity that is no star, or
    /// has no transform, gives nothing.
    pub fn extract(entity: &Entity) -> (r: Option<StarPrefab>)
        ensures
            r == Self::extracted(*entity),
    {
        match entity.kind {
            Kind::Star => match entity.transform {
                Some(transform) => Some(StarPrefab { transform }),
                None => None,
            },
            _ => None,
        }
    }

    /// A star holds no identifiers: nothing changes.
    pub fn map_entities(&mut self, mapper: &HashMap<u64, u64>)
        ensures
            *final(self) == *old(self),
    {
    }

    /// Brings the entity `target`, which is in the world, to life: it
    /// becomes a star with the prefab's transform and the mesh of a star.
    pub fn spawn(self, target: u64, world: &mut World)
        requires
            is_live(old(world).entities@, target),
        ensures
            final(world).entities@ == replaced(old(world).entities@, self.spawned(target)),
            final(world).resources == old(world).resources,
            final(world).next_id == old(world).next_id,
    {
        world.insert(
            Entity {
                id: target,
                kind: Kind::Star,
                transform: Some(self.transform),
                scene: Some(Asset::Star),
            },
        );
    }
}

/// The kinds of prefab that a snapshot can hold.
#[derive(Clone, Copy, Debug, PartialEq, Eq)]
pub enum PrefabKind {
    Planet,
    Star,
}

/// A prefab of either kind.
#[derive(Clone, Copy, Debug, PartialEq, Eq)]
pub enum Prefab {
    Planet(PlanetPrefab),
    Star(StarPrefab),
}

/// One entry of a snapshot: a prefab and the identifier that its entity had
/// when it was captured.
#[derive(Clone, Copy, Debug, PartialEq, Eq)]
pub struct Record {
    pub source: u64,
    pub prefab: Prefab,
}

impl Record {
    /// What `extract` reads off an entity for the given prefab kind.
    pub open spec fn extracted(kind: PrefabKind, entity: Entity) -> Option<Record> {
        match kind {
            PrefabKind::Planet => match PlanetPrefab::extracted(entity) {
                Some(p) => Some(Record { source: entity.id, prefab: Prefab::Planet(p) }),
                None => None,
            },
            PrefabKind::Star => match StarPrefab::extracted(entity) {
                Some(s) => Some(Record { source: entity.id, prefab: Prefab::Star(s) }),
                None => None,
            },
        }
    }

    /// The planet that the record's `moon_of` link names, if it has one.
    pub open spec fn moon_host(self) -> Option<u64> {
        match self.prefab {
            Prefab::Planet(p) => p.moon_host(),
            Prefab::Star(_) => None,
        }
    }

    /// The star that the record's `star_of` link names, if it has one.
    pub open spec fn star_host(self) -> Option<u64> {
        match self.prefab {
            Prefab::Planet(p) => p.star_host(),
            Prefab::Star(_) => None,
        }
    }

    /// The record with the links of its prefab seen through `table`.
    pub open spec fn remapped(self, table: Map<u64, u64>) -> Record {
        Record {
            source: self.source,
            prefab: match self.prefab {
                Prefab::Planet(p) => Prefab::Planet(p.remapped(table)),
                Prefab::Star(s) => Prefab::Star(s),
            },
        }
    }

    /// The live entity that `spawn` makes of `target`.
    pub open spec fn spawned(self, target: u64) -> Entity {
        match self.prefab {
            Prefab::Planet(p) => p.spawned(target),
            Prefab::Star(s) => s.spawned(target),
        }
    }

    /// Reads the record of the given kind off an entity, if it is of that
    /// kind and has a transform.
    pub fn extract(kind: PrefabKind, entity: &Entity) -> (r: Option<Record>)
        ensures
            r == Self::extracted(kind, *entity),
    {
        match kind {
            PrefabKind::Planet => match PlanetPrefab::extract(entity) {
                Some(p) => Some(Record { source: entity.id, prefab: Prefab::Planet(p) }),
                None => None,
            },
            PrefabKind::Star => match StarPrefab::extract(entity) {
                Some(s) => Some(Record { source: entity.id, prefab: Prefab::Star(s) }),
                None => None,
            },
        }
    }

    /// Rewrites the identifiers that the prefab holds through the remap table.
    pub fn map_entities(&mut self, mapper: &HashMap<u64, u64>)
        ensures
            *final(self) == old(self).remapped(mapper@),
    {
        match self.prefab {
            Prefab::Planet(p) => {
                let mut p = p;
                p.map_entities(mapper);
                self.prefab = Prefab::Planet(p);
            },
            Prefab::Star(s) => {
                let mut s = s;
                s.map_entities(mapper);
                self.prefab = Prefab::Star(s);
            },
        }
    }

    /// Brings the entity `target`, which is in the world, to life, by the
    /// prefab's kind.
    pub fn spawn(self, target: u64, world: &mut World)
        requires
            is_live(old(world).entities@, target),
        ensures
            final(world).entities@ == replaced(old(world).entities@, self.spawned(target)),
            final(world).resources == old(world).resources,
            final(world).next_id == old(world).next_id,
    {
        match self.prefab {
            Prefab::Planet(p) => p.spawn(target, world),
            Prefab::Star(s) => s.spawn(target, world),
        }
    }
}

} // verus!
