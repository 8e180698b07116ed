//! The live world: entities, their kinds and relationship links, and the
//! global resources.

use vstd::prelude::*;

verus! {

broadcast use {
    vstd::seq::Seq::lemma_filter_map_take_succ,
    vstd::seq::Seq::lemma_filter_push,
    vstd::seq::Seq::lemma_take_len,
};

/// Three coordinates, each held as the bit pattern of a 32-bit float.
#[derive(Clone, Copy, Debug, PartialEq, Eq)]
pub struct Vec3 {
    pub x: u32,
    pub y: u32,
    pub z: u32,
}

/// A rotation, each part held as the bit pattern of a 32-bit float.
#[derive(Clone, Copy, Debug, PartialEq, Eq)]
pub struct Quat {
    pub x: u32,
    pub y: u32,
    pub z: u32,
    pub w: u32,
}

/// Position, rotation and scale of a body. The values are carried as bit
/// patterns, so a transform that is saved and restored is the same bit for bit.
#[derive(Clone, Copy, Debug, PartialEq, Eq)]
pub struct Transform {
    pub translation: Vec3,
    pub rotation: Quat,
    pub scale: Vec3,
}

/// Bit pattern of `0.0`.
pub const ZERO: u32 = 0x0000_0000;

/// Bit pattern of `1.0`.
pub const ONE: u32 = 0x3f80_0000;

impl Transform {
    /// The transform at `(x, y, z)` with no rotation and the same `scale`
    /// along each axis.
    pub fn from_xyz_scaled(x: u32, y: u32, z: u32, scale: u32) -> (r: Transform)
        ensures
            r == Self::spec_from_xyz_scaled(x, y, z, scale),
    {
        Transform {
            translation: Vec3 { x, y, z },
            rotation: Quat { x: ZERO, y: ZERO, z: ZERO, w: ONE },
            scale: Vec3 { x: scale, y: scale, z: scale },
        }
    }

    /// What `from_xyz_scaled` returns.
    pub open spec fn spec_from_xyz_scaled(x: u32, y: u32, z: u32, scale: u32) -> Transform {
        Transform {
            translation: Vec3 { x, y, z },
            rotation: Quat { x: ZERO, y: ZERO, z: ZERO, w: ONE },
            scale: Vec3 { x: scale, y: scale, z: scale },
        }
    }
}

/// Forward link from a moon to the planet it orbits.
#[derive(Clone, Copy, Debug, PartialEq, Eq)]
pub struct MoonOf(pub u64);

/// Forward link from a body to the star it orbits.
#[derive(Clone, Copy, Debug, PartialEq, Eq)]
pub struct StellarBodyOf(pub u64);

/// The moons of one planet: the reverse of `MoonOf`, in world order.
#[derive(Clone, Debug, PartialEq, Eq)]
pub struct OrbitingMoons(pub Vec<u64>);

/// The bodies of one star: the reverse of `StellarBodyOf`, in world order.
#[derive(Clone, Debug, PartialEq, Eq)]
pub struct StellarBodies(pub Vec<u64>);

/// The mesh that a body is drawn with.
#[derive(Clone, Copy, Debug, PartialEq, Eq)]
pub enum Asset {
    Star,
    Planet,
    Moon,
}

impl Asset {
    /// The file that holds the mesh.
    pub fn path(&self) -> (r: &'static str)
        ensures
            r@ == match *self {
                Asset::Star => "star.glb"@,
                Asset::Planet => "planet.glb"@,
                Asset::Moon => "moon.glb"@,
            },
    {
        match self {
            Asset::Star => "star.glb",
            Asset::Planet => "planet.glb",
            Asset::Moon => "moon.glb",
        }
    }
}

/// What an entity is. A planet and a moon share the `Planet` kind: a moon is
/// a planet with a `moon_of` link. Anything else in the world (a camera, a
/// light, a panel) is `Other`.
#[derive(Clone, Copy, Debug, PartialEq, Eq)]
pub enum Kind {
    Other,
    Star,
    Planet { moon_of: Option<MoonOf>, star_of: Option<StellarBodyOf> },
}

/// One entity of the world: its identifier and what is on it.
#[derive(Clone, Copy, Debug, PartialEq, Eq)]
pub struct Entity {
    pub id: u64,
    pub kind: Kind,
    pub transform: Option<Transform>,
    pub scene: Option<Asset>,
}

impl Entity {
    /// A star or a planet: what saving captures and loading replaces.
    pub open spec fn is_body(self) -> bool {
        !(self.kind is Other)
    }

    /// The planet that this entity's `MoonOf` link names, if it has one.
    pub open spec fn moon_host(self) -> Option<u64> {
        match self.kind {
            Kind::Planet { moon_of: Some(m), .. } => Some(m.0),
            _ => None,
        }
    }

    /// The star that this entity's `StellarBodyOf` link names, if it has one.
    pub open spec fn star_host(self) -> Option<u64> {
        match self.kind {
            Kind::Planet { star_of: Some(s), .. } => Some(s.0),
            _ => None,
        }
    }

    /// The entity's `MoonOf` link.
    pub fn moon_of(&self) -> (r: Option<MoonOf>)
        ensures
            match r {
                Some(m) => self.moon_host() == Some(m.0),
                None => self.moon_host() is None,
            },
    {
        match self.kind {
            Kind::Planet { moon_of, .. } => moon_of,
            _ => None,
        }
    }

    /// The entity's `StellarBodyOf` link.
    pub fn star_of(&self) -> (r: Option<StellarBodyOf>)
        ensures
            match r {
                Some(s) => self.star_host() == Some(s.0),
                None => self.star_host() is None,
            },
    {
        match self.kind {
            Kind::Planet { star_of, .. } => star_of,
            _ => None,
        }
    }
}

/// The kinds of global resource that a world can hold.
#[derive(Clone, Copy, Debug, PartialEq, Eq, Structural)]
pub enum ResourceKind {
    Time,
    FixedTime,
    RealTime,
    VirtualTime,
    AmbientLight,
    ClearColor,
}

impl ResourceKind {
    /// Clocks are transient: a saved clock would be stale when restored.
    pub open spec fn is_clock(self) -> bool {
        self is Time || self is FixedTime || self is RealTime || self is VirtualTime
    }
}

/// A global resource: its kind and its value.
#[derive(Clone, Copy, Debug, PartialEq, Eq)]
pub struct Resource {
    pub kind: ResourceKind,
    pub value: u64,
}

/// The live world: its entities in the order they were made, its
/// resources, and the identifier that the next entity gets.
#[derive(Clone, Debug, PartialEq, Eq)]
pub struct World {
    pub entities: Vec<Entity>,
    pub resources: Vec<Resource>,
    pub next_id: u64,
}

/// No two entities share an identifier, and each is below `next`.
pub open spec fn ids_fresh(entities: Seq<Entity>, next: u64) -> bool {
    &&& forall|i: int| 0 <= i < entities.len() ==> (#[trigger] entities[i]).id < next
    &&& forall|i: int, j: int|
        0 <= i < j < entities.len() ==> (#[trigger] entities[i]).id != (#[trigger] entities[j]).id
}

/// Whether an entity with this identifier is among `entities`.
pub open spec fn is_live(entities: Seq<Entity>, id: u64) -> bool {
    exists|i: int| 0 <= i < entities.len() && (#[trigger] entities[i]).id == id
}

/// Every relationship link points to an entity of the same sequence.
pub open spec fn links_live(entities: Seq<Entity>) -> bool {
    forall|i: int|
        0 <= i < entities.len() ==> {
            &&& match (#[trigger] entities[i]).moon_host() {
                Some(h) => is_live(entities, h),
                None => true,
            }
            &&& match entities[i].star_host() {
                Some(h) => is_live(entities, h),
                None => true,
            }
        }
}

/// The entities that orbit `host` as moons, by identifier, in world order.
pub open spec fn moons_of(entities: Seq<Entity>, host: u64) -> Seq<u64> {
    entities.filter_map(moon_of_host(host))
}

/// Picks the identifier of an entity whose `MoonOf` names `host`.
pub open spec fn moon_of_host(host: u64) -> spec_fn(Entity) -> Option<u64> {
    |e: Entity| if e.moon_host() == Some(host) { Some(e.id) } else { None::<u64> }
}

/// Picks the identifier of an entity whose `StellarBodyOf` names `host`.
pub open spec fn body_of_host(host: u64) -> spec_fn(Entity) -> Option<u64> {
    |e: Entity| if e.star_host() == Some(host) { Some(e.id) } else { None::<u64> }
}

/// The entities that orbit `host` as stellar bodies, by identifier, in world order.
pub open spec fn bodies_of(entities: Seq<Entity>, host: u64) -> Seq<u64> {
    entities.filter_map(body_of_host(host))
}

/// How many entities hold a `MoonOf` link.
pub open spec fn moon_links(entities: Seq<Entity>) -> nat {
    entities.filter(|e: Entity| e.moon_host() is Some).len()
}

/// How many entities hold a `StellarBodyOf` link.
pub open spec fn star_links(entities: Seq<Entity>) -> nat {
    entities.filter(|e: Entity| e.star_host() is Some).len()
}

/// The entities with `entity` in the place of the one that has its
/// identifier.
pub open spec fn replaced(entities: Seq<Entity>, entity: Entity) -> Seq<Entity> {
    entities.map_values(|e: Entity| if e.id == entity.id { entity } else { e })
}

/// The entity with each of its links to `id` taken out.
pub open spec fn unlinked(entity: Entity, id: u64) -> Entity {
    match entity.kind {
        Kind::Planet { moon_of, star_of } => Entity {
            id: entity.id,
            kind: Kind::Planet {
                moon_of: if entity.moon_host() == Some(id) { None } else { moon_of },
                star_of: if entity.star_host() == Some(id) { None } else { star_of },
            },
            transform: entity.transform,
            scene: entity.scene,
        },
        _ => entity,
    }
}

/// Drops the entity `id` and takes the links to it off the others.
pub open spec fn remover(id: u64) -> spec_fn(Entity) -> Option<Entity> {
    |e: Entity| if e.id == id { None } else { Some(unlinked(e, id)) }
}

/// The entities without the one that has the identifier `id`, and without
/// the links to it.
pub open spec fn without(entities: Seq<Entity>, id: u64) -> Seq<Entity> {
    entities.filter_map(remover(id))
}

/// Whether the resource at position `i` is of the given kind.
pub open spec fn has_kind(resources: Seq<Resource>, i: int, kind: ResourceKind) -> bool {
    resources[i].kind == kind
}

/// The resources with `resource` set: it takes the place of each one of its
/// kind, or comes last where there is none.
pub open spec fn put(resources: Seq<Resource>, resource: Resource) -> Seq<Resource> {
    if exists|j: int| 0 <= j < resources.len() && has_kind(resources, j, resource.kind) {
        resources.map_values(|r: Resource| if r.kind == resource.kind { resource } else { r })
    } else {
        resources.push(resource)
    }
}

/// The resources with each of `values` set, in their order.
pub open spec fn put_all(resources: Seq<Resource>, values: Seq<Resource>) -> Seq<Resource>
    decreases values.len(),
{
    if values.len() == 0 {
        resources
    } else {
        put(put_all(resources, values.drop_last()), values.last())
    }
}

impl World {
    /// Identifiers are unique and below the counter, and every link points
    /// to an entity of the world.
    pub open spec fn well_formed(&self) -> bool {
        &&& ids_fresh(self.entities@, self.next_id)
        &&& links_live(self.entities@)
    }

    /// The empty world.
    pub fn new() -> (w: World)
        ensures
            w.well_formed(),
            w.entities@.len() == 0,
            w.resources@.len() == 0,
            w.next_id == 0,
    {
        World { entities: Vec::new(), resources: Vec::new(), next_id: 0 }
    }

    /// Whether an entity with this identifier is in the world.
    pub fn contains(&self, id: u64) -> (r: bool)
        ensures
            r == is_live(self.entities@, id),
    {
        let mut i: usize = 0;
        while i < self.entities.len()
            invariant
                i <= self.entities@.len(),
                forall|j: int| 0 <= j < i ==> (#[trigger] self.entities@[j]).id != id,
            decreases self.entities@.len() - i,
        {
            if self.entities[i].id == id {
                return true;
            }
            i += 1;
        }
        false
    }

    /// Adds an entity of the given kind under a fresh identifier and returns
    /// the identifier. A link to an entity that is not in the world is
    /// dropped rather than kept dangling.
    pub fn spawn(&mut self, kind: Kind, transform: Option<Transform>, scene: Option<Asset>) -> (id:
        u64)
        requires
            old(self).well_formed(),
            old(self).next_id < u64::MAX,
        ensures
            final(self).well_formed(),
            id == old(self).next_id,
            final(self).next_id == id + 1,
            final(self).resources == old(self).resources,
            final(self).entities@ == old(self).entities@.push(
                (Entity { id, kind: Self::resolved(old(self).entities@, kind), transform, scene }),
            ),
    {
        let id: u64 = self.next_id;
        let kind = match kind {
            Kind::Planet { moon_of, star_of } => {
                let moon_of = match moon_of {
                    Some(m) => if self.contains(m.0) { Some(m) } else { None },
                    None => None,
                };
                let star_of = match star_of {
                    Some(s) => if self.contains(s.0) { Some(s) } else { None },
                    None => None,
                };
                Kind::Planet { moon_of, star_of }
            },
            other => other,
        };
        let entity = Entity { id, kind, transform, scene };
        self.entities.push(entity);
        self.next_id = id + 1;
        proof {
            let before = old(self).entities@;
            let after = self.entities@;
            assert forall|i: int| 0 <= i < after.len() implies match (#[trigger] after[i]).moon_host() {
                Some(h) => is_live(after, h),
                None => true,
            } && match after[i].star_host() {
                Some(h) => is_live(after, h),
                None => true,
            } by {
                if let Some(h) = after[i].moon_host() {
                    let k = choose|k: int| 0 <= k < before.len() && (#[trigger] before[k]).id == h;
                    assert(after[k].id == h);
                }
                if let Some(h) = after[i].star_host() {
                    let k = choose|k: int| 0 <= k < before.len() && (#[trigger] before[k]).id == h;
                    assert(after[k].id == h);
                }
            }
        }
        id
    }

    /// The kind with each link to an entity outside `entities` taken out.
    pub open spec fn resolved(entities: Seq<Entity>, kind: Kind) -> Kind {
        match kind {
            Kind::Planet { moon_of, star_of } => Kind::Planet {
                moon_of: match moon_of {
                    Some(m) => if is_live(entities, m.0) { Some(m) } else { None },
                    None => None,
                },
                star_of: match star_of {
                    Some(s) => if is_live(entities, s.0) { Some(s) } else { None },
                    None => None,
                },
            },
            other => other,
        }
    }

    /// Adds an entity with nothing on it under a fresh identifier, and
    /// returns the identifier.
    pub fn spawn_empty(&mut self) -> (id: u64)
        requires
            old(self).well_formed(),
            old(self).next_id < u64::MAX,
        ensures
            final(self).well_formed(),
            id == old(self).next_id,
            final(self).next_id == id + 1,
            final(self).resources == old(self).resources,
            final(self).entities@ == old(self).entities@.push(
                (Entity { id, kind: Kind::Other, transform: None, scene: None }),
            ),
    {
        self.spawn(Kind::Other, None, None)
    }

    /// Puts `entity` in the place of the entity that has its identifier.
    pub fn insert(&mut self, entity: Entity)
        requires
            is_live(old(self).entities@, entity.id),
        ensures
            final(self).entities@ == replaced(old(self).entities@, entity),
            final(self).resources == old(self).resources,
            final(self).next_id == old(self).next_id,
    {
        let mut i: usize = 0;
        while i < self.entities.len()
            invariant
                self.resources == old(self).resources,
                self.next_id == old(self).next_id,
                self.entities@.len() == old(self).entities@.len(),
                i <= self.entities@.len(),
                forall|j: int|
                    0 <= j < i ==> self.entities@[j] == if old(self).entities@[j].id == entity.id {
                        entity
                    } else {
                        old(self).entities@[j]
                    },
                forall|j: int|
                    i <= j < self.entities@.len() ==> self.entities@[j] == old(self).entities@[j],
            decreases self.entities@.len() - i,
        {
            if self.entities[i].id == entity.id {
                self.entities.set(i, entity);
            }
            i += 1;
        }
        proof {
            assert(self.entities@ =~= replaced(old(self).entities@, entity));
        }
    }

    /// Removes the entity `id`, if it is in the world, and says whether it
    /// was. The links that named it go with it, so that its moons and
    /// bodies lose their host rather than point at nothing.
    pub fn despawn(&mut self, id: u64) -> (r: bool)
        ensures
            r == is_live(old(self).entities@, id),
            final(self).entities@ == without(old(self).entities@, id),
            final(self).resources == old(self).resources,
            final(self).next_id == old(self).next_id,
            old(self).well_formed() ==> final(self).well_formed(),
    {
        let ghost before = self.entities@;
        let ghost mut origin: Seq<int> = Seq::empty();
        let ghost mut place: Seq<int> = Seq::empty();
        let mut kept: Vec<Entity> = Vec::new();
        let mut found = false;
        let mut i: usize = 0;
        while i < self.entities.len()
            invariant
                self.entities@ == before,
                self.resources == old(self).resources,
                self.next_id == old(self).next_id,
                i <= before.len(),
                kept@ == without(before.take(i as int), id),
                found <==> exists|j: int| 0 <= j < i && (#[trigger] before[j]).id == id,
                origin.len() == kept@.len(),
                place.len() == i,
                forall|k: int|
                    0 <= k < kept@.len() ==> 0 <= #[trigger] origin[k] < i && kept@[k] == unlinked(
                        before[origin[k]],
                        id,
                    ),
                forall|a: int, b: int|
                    0 <= a < b < kept@.len() ==> #[trigger] origin[a] < #[trigger] origin[b],
                forall|j: int|
                    0 <= j < i && before[j].id != id ==> 0 <= #[trigger] place[j] < kept@.len()
                        && origin[place[j]] == j,
            decreases before.len() - i,
        {
            let entity = self.entities[i];
            if entity.id == id {
                found = true;
                proof {
                    place = place.push(0);
                }
            } else {
                let kind = match entity.kind {
                    Kind::Planet { moon_of, star_of } => {
                        let moon_of = match moon_of {
                            Some(m) => if m.0 == id { None } else { Some(m) },
                            None => None,
                        };
                        let star_of = match star_of {
                            Some(s) => if s.0 == id { None } else { Some(s) },
                            None => None,
                        };
                        Kind::Planet { moon_of, star_of }
                    },
                    other => other,
                };
                proof {
                    place = place.push(kept@.len() as int);
                    origin = origin.push(i as int);
                }
                kept.push(
                    Entity { id: entity.id, kind, transform: entity.transform, scene: entity.scene },
                );
            }
            i += 1;
        }
        self.entities = kept;
        proof {
            if old(self).well_formed() {
                assert forall|a: int, b: int| 0 <= a < b < kept@.len() implies (
                #[trigger] kept@[a]).id != (#[trigger] kept@[b]).id by {
                    assert(origin[a] < origin[b]);
                    assert(before[origin[a]].id != before[origin[b]].id);
                }
                assert forall|a: int| 0 <= a < kept@.len() implies (#[trigger] kept@[a]).id
                    < self.next_id by {
                    assert(before[origin[a]].id < self.next_id);
                }
                assert forall|a: int| 0 <= a < kept@.len() implies match (
                #[trigger] kept@[a]).moon_host() {
                    Some(h) => is_live(kept@, h),
                    None => true,
                } && match kept@[a].star_host() {
                    Some(h) => is_live(kept@, h),
                    None => true,
                } by {
                    let was = before[origin[a]];
                    if let Some(h) = kept@[a].moon_host() {
                        assert(was.moon_host() == Some(h));
                        let j = choose|j: int| 0 <= j < before.len() && (#[trigger] before[j]).id == h;
                        assert(kept@[place[j]].id == h);
                    }
                    if let Some(h) = kept@[a].star_host() {
                        assert(was.star_host() == Some(h));
                        let j = choose|j: int| 0 <= j < before.len() && (#[trigger] before[j]).id == h;
                        assert(kept@[place[j]].id == h);
                    }
                }
            }
        }
        found
    }

    /// Sets the resource of the given kind: the value replaces the one that
    /// the world holds for that kind, or is added where it holds none.
    pub fn insert_resource(&mut self, kind: ResourceKind, value: u64)
        ensures
            final(self).entities == old(self).entities,
            final(self).next_id == old(self).next_id,
            final(self).resources@ == put(old(self).resources@, (Resource { kind, value })),
    {
        let resource = Resource { kind, value };
        let mut found = false;
        let mut i: usize = 0;
        while i < self.resources.len()
            invariant
                self.entities == old(self).entities,
                self.next_id == old(self).next_id,
                self.resources@.len() == old(self).resources@.len(),
                i <= self.resources@.len(),
                found <==> exists|j: int| 0 <= j < i && has_kind(old(self).resources@, j, kind),
                forall|j: int|
                    0 <= j < i ==> self.resources@[j] == if has_kind(old(self).resources@, j, kind) {
                        resource
                    } else {
                        old(self).resources@[j]
                    },
                forall|j: int|
                    i <= j < self.resources@.len() ==> self.resources@[j] == old(
                        self,
                    ).resources@[j],
            decreases self.resources@.len() - i,
        {
            if self.resources[i].kind == kind {
                self.resources.set(i, resource);
                found = true;
                assert(has_kind(old(self).resources@, i as int, kind));
            }
            i += 1;
        }
        if !found {
            self.resources.push(resource);
        }
        proof {
            let before = old(self).resources@;
            if found {
                let j = choose|j: int| 0 <= j < before.len() && has_kind(before, j, kind);
                assert(has_kind(before, j, resource.kind));
                assert(self.resources@ =~= before.map_values(
                    |r: Resource| if r.kind == resource.kind { resource } else { r },
                ));
            } else {
                assert forall|j: int| 0 <= j < before.len() implies !has_kind(
                    before,
                    j,
                    resource.kind,
                ) by {}
                assert(self.resources@ =~= before.push(resource));
            }
        }
    }

    /// The moons of `host`: exactly the entities whose `MoonOf` names it.
    pub fn orbiting_moons(&self, host: u64) -> (r: OrbitingMoons)
        ensures
            r.0@ == moons_of(self.entities@, host),
    {
        let mut out: Vec<u64> = Vec::new();
        let mut i: usize = 0;
        while i < self.entities.len()
            invariant
                i <= self.entities@.len(),
                out@ == moons_of(self.entities@.take(i as int), host),
            decreases self.entities@.len() - i,
        {
            let e = self.entities[i];
            match e.moon_of() {
                Some(m) => {
                    if m.0 == host {
                        out.push(e.id);
                    }
                },
                None => {},
            }
            i += 1;
        }
        OrbitingMoons(out)
    }

    /// The bodies of `host`: exactly the entities whose `StellarBodyOf` names it.
    pub fn stellar_bodies(&self, host: u64) -> (r: StellarBodies)
        ensures
            r.0@ == bodies_of(self.entities@, host),
    {
        let mut out: Vec<u64> = Vec::new();
        let mut i: usize = 0;
        while i < self.entities.len()
            invariant
                i <= self.entities@.len(),
                out@ == bodies_of(self.entities@.take(i as int), host),
            decreases self.entities@.len() - i,
        {
            let e = self.entities[i];
            match e.star_of() {
                Some(s) => {
                    if s.0 == host {
                        out.push(e.id);
                    }
                },
                None => {},
            }
            i += 1;
        }
        StellarBodies(out)
    }

    /// The status line of the moon: content where exactly one entity of
    /// the world holds a `MoonOf` link, unhappy otherwise.
    pub fn check_moon_status(&self) -> (r: &'static str)
        ensures
            r@ == if moon_links(self.entities@) == 1 {
                "I have a moon XD"@
            } else {
                "I want my moon back >:["@
            },
    {
        let mut count: usize = 0;
        let mut i: usize = 0;
        while i < self.entities.len()
            invariant
                i <= self.entities@.len(),
                count == moon_links(self.entities@.take(i as int)),
                count <= i,
            decreases self.entities@.len() - i,
        {
            proof {
                self.entities@.lemma_take_succ_push(i as int);
            }
            if self.entities[i].moon_of().is_some() {
                count += 1;
            }
            i += 1;
        }
        if count == 1 {
            "I have a moon XD"
        } else {
            "I want my moon back >:["
        }
    }

    /// The status line of the star: content where more than one entity of
    /// the world holds a `StellarBodyOf` link, unhappy otherwise.
    pub fn check_star_status(&self) -> (r: &'static str)
        ensures
            r@ == if star_links(self.entities@) > 1 {
                "I have a star XD"@
            } else {
                "I want my star back >:["@
            },
    {
        let mut count: usize = 0;
        let mut i: usize = 0;
        while i < self.entities.len()
            invariant
                i <= self.entities@.len(),
                count == star_links(self.entities@.take(i as int)),
                count <= i,
            decreases self.entities@.len() - i,
        {
            proof {
                self.entities@.lemma_take_succ_push(i as int);
            }
            if self.entities[i].star_of().is_some() {
                count += 1;
            }
            i += 1;
        }
        if count > 1 {
            "I have a star XD"
        } else {
            "I want my star back >:["
        }
    }
}

} // verus!
