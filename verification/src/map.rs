//! Authoritative entity-to-coordinate mapping with bounds and
//! collision-layer movement validation.
//!
//! The [`SpatialMap`] owns both directions of the spatial state: where an
//! entity stands, and which entities occupy a cell.  Its contracts are
//! stated over a [`MapModel`]: the grid dimensions together with the
//! finite map from entities to coordinates.  Movement is validated and
//! applied exclusively by the map phase of a tick, which drains the
//! map's channel in first-in first-out order.

use vstd::prelude::*;

use crate::assoc::{
    assoc_map, lemma_assoc_dom, lemma_assoc_push, lemma_assoc_remove, lemma_assoc_value,
    lemma_unique_prepend, lemma_unique_push, lemma_unique_remove, unique_keys,
};
use crate::coord::Coordinate;
use crate::lock::{RLock, WLock};
use crate::message::{Message, MessageQueue, MessageReceiver, MessageSender};
use std::sync::mpsc::SyncSender;

verus! {

/// Opaque stable identifier of a simulated object; carries no data of
/// its own and serves only as a key.
#[derive(Clone, Copy, Debug, PartialEq, Eq, Structural, Hash)]
pub struct Entity(pub u64);

/// Cell an entity should occupy when it first enters the world.
#[derive(Clone, Copy, Debug, PartialEq, Eq, Structural, Hash)]
pub struct InitialPosition(pub Coordinate);

/// Marker recording that an entity has been placed on the map.
#[derive(Clone, Copy, Debug, PartialEq, Eq, Structural, Hash)]
pub struct Position;

/// Tag grouping entities for collision purposes.
#[derive(Clone, Copy, Debug, PartialEq, Eq, Structural, Hash)]
pub struct CollisionLayer(pub i32);

/// Collision tags attached to one entity; an entity without this
/// component never takes part in collision checks.  The tags form a
/// set: no tag is held twice.
#[derive(Debug)]
pub struct CollisionLayers(Vec<CollisionLayer>);

impl View for CollisionLayers {
    type V = Seq<CollisionLayer>;

    closed spec fn view(&self) -> Seq<CollisionLayer> {
        self.0@
    }
}

/// Two tag sets share at least one tag.
pub open spec fn layers_intersect(a: Seq<CollisionLayer>, b: Seq<CollisionLayer>) -> bool {
    exists|i: int, j: int| 0 <= i < a.len() && 0 <= j < b.len() && a[i] == b[j]
}

/// Membership over a pushed tag.
proof fn lemma_tag_contains_push(s: Seq<CollisionLayer>, tag: CollisionLayer)
    ensures
        forall|l: CollisionLayer| #[trigger] s.push(tag).contains(l) <==> (s.contains(l) || l
            == tag),
{
    assert forall|l: CollisionLayer| #[trigger] s.push(tag).contains(l) implies (s.contains(l) || l
        == tag) by {
        let i = choose|i: int| 0 <= i < s.push(tag).len() && s.push(tag)[i] == l;
        if i < s.len() {
            assert(s[i] == l);
        }
    }
    assert forall|l: CollisionLayer| s.contains(l) || l == tag implies #[trigger] s.push(
        tag,
    ).contains(l) by {
        if s.contains(l) {
            let i = choose|i: int| 0 <= i < s.len() && s[i] == l;
            assert(s.push(tag)[i] == l);
        } else {
            assert(s.push(tag)[s.len() as int] == l);
        }
    }
}

impl CollisionLayers {
    /// No tag is held twice.
    #[verifier::type_invariant]
    spec fn wf(&self) -> bool {
        forall|i: int, j: int| 0 <= i < j < self.0@.len() ==> self.0@[i] != self.0@[j]
    }

    /// Collects the given tags into a component: the same members,
    /// with duplicates collapsed.
    pub fn new(layers: Vec<CollisionLayer>) -> (c: CollisionLayers)
        ensures
            forall|l: CollisionLayer| #[trigger] c@.contains(l) <==> layers@.contains(l),
            forall|i: int, j: int| 0 <= i < j < c@.len() ==> c@[i] != c@[j],
    {
        let mut distinct: Vec<CollisionLayer> = Vec::new();
        let mut i: usize = 0;
        while i < layers.len()
            invariant
                0 <= i <= layers.len(),
                forall|l: CollisionLayer| #[trigger] distinct@.contains(l) <==> layers@.take(
                    i as int,
                ).contains(l),
                forall|a: int, b: int| 0 <= a < b < distinct@.len() ==> distinct@[a] != distinct@[b],
            decreases layers.len() - i,
        {
            let tag = layers[i];
            let ghost before = distinct@;
            proof {
                assert(layers@.take(i + 1) =~= layers@.take(i as int).push(tag));
                lemma_tag_contains_push(layers@.take(i as int), tag);
            }
            if !contains_tag(&distinct, tag) {
                distinct.push(tag);
                proof {
                    lemma_tag_contains_push(before, tag);
                    assert forall|a: int, b: int|
                        0 <= a < b < distinct@.len() implies distinct@[a] != distinct@[b] by {
                        if b == distinct@.len() - 1 {
                            assert(before.contains(before[a]));
                        }
                    }
                }
            }
            i = i + 1;
        }
        proof {
            assert(layers@.take(layers@.len() as int) =~= layers@);
        }
        CollisionLayers(distinct)
    }

    /// The held tags, each exactly once.
    pub fn tags(&self) -> (t: &Vec<CollisionLayer>)
        ensures
            t@ == self@,
    {
        &self.0
    }

    /// Whether this component carries the given tag.
    pub fn contains(&self, layer: CollisionLayer) -> (r: bool)
        ensures
            r == self@.contains(layer),
    {
        let mut i: usize = 0;
        while i < self.0.len()
            invariant
                0 <= i <= self.0.len(),
                forall|k: int| 0 <= k < i ==> self.0@[k] != layer,
            decreases self.0.len() - i,
        {
            if self.0[i] == layer {
                return true;
            }
            i = i + 1;
        }
        false
    }

    /// Whether this tag set and `other` share a tag.
    pub fn intersects(&self, other: &CollisionLayers) -> (r: bool)
        ensures
            r == layers_intersect(self@, other@),
    {
        let mut i: usize = 0;
        while i < self.0.len()
            invariant
                0 <= i <= self.0.len(),
                forall|a: int, b: int|
                    0 <= a < i && 0 <= b < other.0@.len() ==> self.0@[a] != other.0@[b],
            decreases self.0.len() - i,
        {
            if other.contains(self.0[i]) {
                proof {
                    let j = choose|j: int| 0 <= j < other.0@.len() && other.0@[j] == self.0@[i as int];
                    assert(layers_intersect(self@, other@));
                }
                return true;
            }
            i = i + 1;
        }
        false
    }
}

impl Clone for CollisionLayers {
    /// The clone holds the same tags.
    fn clone(&self) -> (c: Self)
        ensures
            c@ == self@,
    {
        proof {
            use_type_invariant(self);
        }
        let mut tags: Vec<CollisionLayer> = Vec::new();
        let mut i: usize = 0;
        while i < self.0.len()
            invariant
                0 <= i <= self.0.len(),
                tags@ == self.0@.take(i as int),
            decreases self.0.len() - i,
        {
            proof {
                assert(self.0@.take(i + 1) =~= self.0@.take(i as int).push(self.0@[i as int]));
            }
            tags.push(self.0[i]);
            i = i + 1;
        }
        proof {
            assert(tags@ =~= self.0@);
        }
        CollisionLayers(tags)
    }
}

/// Whether the vector holds the given tag.
fn contains_tag(tags: &Vec<CollisionLayer>, tag: CollisionLayer) -> (r: bool)
    ensures
        r == tags@.contains(tag),
{
    let mut i: usize = 0;
    while i < tags.len()
        invariant
            0 <= i <= tags.len(),
            forall|k: int| 0 <= k < i ==> tags@[k] != tag,
        decreases tags.len() - i,
    {
        if tags[i] == tag {
            return true;
        }
        i = i + 1;
    }
    false
}

/// Per-entity collision components, keyed by entity.
pub struct CollisionStore {
    entries: Vec<(Entity, CollisionLayers)>,
}

impl CollisionStore {
    /// No entity holds two entries.
    #[verifier::type_invariant]
    spec fn wf(&self) -> bool {
        unique_keys(self.entries@)
    }

    /// The finite map this store denotes.
    pub closed spec fn model(&self) -> Map<Entity, CollisionLayers> {
        assoc_map(self.entries@)
    }

    /// A store with no components.
    pub fn new() -> (s: CollisionStore)
        ensures
            s.model() == Map::<Entity, CollisionLayers>::empty(),
    {
        let entries: Vec<(Entity, CollisionLayers)> = Vec::new();
        CollisionStore { entries }
    }

    /// Attaches (or replaces) the collision component of one entity.
    #[verifier::loop_isolation(false)]
    pub fn insert(&mut self, entity: Entity, layers: CollisionLayers)
        ensures
            final(self).model() == old(self).model().insert(entity, layers),
    {
        proof {
            use_type_invariant(&*self);
        }
        let mut entries: Vec<(Entity, CollisionLayers)> = Vec::new();
        std::mem::swap(&mut entries, &mut self.entries);
        let ghost s0 = entries@;
        let mut i: usize = 0;
        while i < entries.len()
            invariant
                0 <= i <= entries.len(),
                entries@ == s0,
                unique_keys(s0),
                forall|k: int| 0 <= k < i ==> (#[trigger] s0[k]).0 != entity,
            decreases entries.len() - i,
        {
            if entries[i].0 == entity {
                entries.remove(i);
                entries.insert(0, (entity, layers));
                proof {
                    lemma_assoc_remove(s0, i as int);
                    lemma_unique_remove(s0, i as int);
                    assert(entries@[0] == (entity, layers));
                    assert(entries@.drop_first() =~= s0.remove(i as int));
                    assert(assoc_map(entries@) =~= assoc_map(s0).insert(entity, layers));
                    lemma_unique_prepend(s0.remove(i as int), entity, layers);
                    assert(entries@ =~= seq![(entity, layers)] + s0.remove(i as int));
                }
                self.entries = entries;
                return ;
            }
            i = i + 1;
        }
        entries.insert(0, (entity, layers));
        proof {
            assert(entries@[0] == (entity, layers));
            assert(entries@.drop_first() =~= s0);
            lemma_unique_prepend(s0, entity, layers);
            assert(entries@ =~= seq![(entity, layers)] + s0);
        }
        self.entries = entries;
    }

    /// The collision component of one entity, if it has one.
    pub fn get(&self, entity: Entity) -> (r: Option<&CollisionLayers>)
        ensures
            match r {
                Some(layers) => self.model().dom().contains(entity) && *layers
                    == self.model()[entity],
                None => !self.model().dom().contains(entity),
            },
    {
        proof {
            lemma_assoc_dom(self.entries@);
        }
        let mut i: usize = 0;
        while i < self.entries.len()
            invariant
                0 <= i <= self.entries.len(),
                forall|k: int| 0 <= k < i ==> (#[trigger] self.entries@[k]).0 != entity,
            decreases self.entries.len() - i,
        {
            if self.entries[i].0 == entity {
                proof {
                    lemma_assoc_first_match(self.entries@, i as int);
                }
                return Some(&self.entries[i].1);
            }
            i = i + 1;
        }
        proof {
            lemma_assoc_dom(self.entries@);
        }
        None
    }
}

/// Grid dimensions together with the finite map from entities to
/// coordinates: the mathematical state of a [`SpatialMap`].
pub struct MapModel {
    pub width: int,
    pub height: int,
    pub depth: int,
    pub placed: Map<Entity, Coordinate>,
}

/// Whether a cell named by mathematical integers lies inside the grid.
pub open spec fn in_bounds(m: MapModel, x: int, y: int, z: int) -> bool {
    &&& 0 <= x < m.width
    &&& 0 <= y < m.height
    &&& 0 <= z < m.depth
}

/// Whether the entity stands in the given cell.
pub open spec fn occupies(m: MapModel, e: Entity, c: Coordinate) -> bool {
    m.placed.dom().contains(e) && m.placed[e] == c
}

/// Authoritative bidirectional entity/coordinate state of the bounded
/// grid.  An entity stands in exactly one cell once placed; both
/// lookup directions read the same underlying association.
pub struct SpatialMap {
    width: i32,
    height: i32,
    depth: i32,
    placed: Vec<(Entity, Coordinate)>,
}

impl SpatialMap {
    /// No entity is recorded twice.
    #[verifier::type_invariant]
    spec fn wf(&self) -> bool {
        unique_keys(self.placed@)
    }

    /// The mathematical state this map holds.
    pub closed spec fn model(&self) -> MapModel {
        MapModel {
            width: self.width as int,
            height: self.height as int,
            depth: self.depth as int,
            placed: assoc_map(self.placed@),
        }
    }

    /// An empty map over a `width` by `height` by `depth` grid.
    pub fn new(width: i32, height: i32, depth: i32) -> (m: SpatialMap)
        ensures
            m.model() == (MapModel {
                width: width as int,
                height: height as int,
                depth: depth as int,
                placed: Map::<Entity, Coordinate>::empty(),
            }),
    {
        let placed: Vec<(Entity, Coordinate)> = Vec::new();
        SpatialMap { width, height, depth, placed }
    }

    /// The grid dimensions, as `(width, height, depth)`.
    pub fn dimensions(&self) -> (d: (i32, i32, i32))
        ensures
            d.0 == self.model().width,
            d.1 == self.model().height,
            d.2 == self.model().depth,
    {
        (self.width, self.height, self.depth)
    }

    /// Point-in-time read of where an entity stands; absent when the
    /// entity was never placed.
    pub fn location(&self, entity: Entity) -> (r: Option<Coordinate>)
        ensures
            match r {
                Some(c) => self.model().placed.dom().contains(entity) && c
                    == self.model().placed[entity],
                None => !self.model().placed.dom().contains(entity),
            },
    {
        proof {
            lemma_assoc_dom(self.placed@);
        }
        let mut i: usize = 0;
        while i < self.placed.len()
            invariant
                0 <= i <= self.placed.len(),
                forall|k: int| 0 <= k < i ==> (#[trigger] self.placed@[k]).0 != entity,
            decreases self.placed.len() - i,
        {
            if self.placed[i].0 == entity {
                proof {
                    lemma_assoc_first_match(self.placed@, i as int);
                }
                return Some(self.placed[i].1);
            }
            i = i + 1;
        }
        None
    }

    /// Every entity standing in the given cell; empty when none does.
    /// The order of the returned entities is not specified.
    pub fn entities(&self, location: Coordinate) -> (r: Vec<Entity>)
        ensures
            forall|e: Entity| #[trigger] r@.contains(e) <==> occupies(self.model(), e, location),
            forall|i: int, j: int| 0 <= i < j < r@.len() ==> r@[i] != r@[j],
    {
        proof {
            use_type_invariant(self);
            lemma_assoc_dom(self.placed@);
            lemma_assoc_value(self.placed@);
        }
        let ghost s = self.placed@;
        let mut r: Vec<Entity> = Vec::new();
        let mut i: usize = 0;
        while i < self.placed.len()
            invariant
                0 <= i <= self.placed.len(),
                self.placed@ == s,
                unique_keys(s),
                forall|e: Entity|
                    #[trigger] r@.contains(e) <==> exists|k: int|
                        0 <= k < i && #[trigger] s[k] == (e, location),
                forall|a: int, b: int| 0 <= a < b < r@.len() ==> r@[a] != r@[b],
            decreases self.placed.len() - i,
        {
            let (entity, place) = self.placed[i];
            let ghost r0 = r@;
            if place == location {
                proof {
                    assert forall|a: int| 0 <= a < r0.len() implies r0[a] != entity by {
                        assert(r0.contains(r0[a]));
                        let k = choose|k: int| 0 <= k < i && #[trigger] s[k] == (r0[a], location);
                        assert(s[k].0 != s[i as int].0);
                    }
                }
                r.push(entity);
                proof {
                    assert(s[i as int] == (entity, location));
                    assert forall|e: Entity| #[trigger] r@.contains(e) implies exists|k: int|
                        0 <= k < i + 1 && #[trigger] s[k] == (e, location) by {
                        let a = choose|a: int| 0 <= a < r@.len() && r@[a] == e;
                        if a < r0.len() {
                            assert(r0.contains(e));
                        } else {
                            assert(e == entity);
                        }
                    }
                    assert forall|e: Entity|
                        exists|k: int| 0 <= k < i + 1 && #[trigger] s[k] == (e, location) implies r@
                        .contains(e) by {
                        let k = choose|k: int| 0 <= k < i + 1 && #[trigger] s[k] == (e, location);
                        if k < i {
                            assert(r0.contains(e));
                            let a = choose|a: int| 0 <= a < r0.len() && r0[a] == e;
                            assert(r@[a] == e);
                        } else {
                            assert(r@[r@.len() - 1] == e);
                        }
                    }
                }
            } else {
                proof {
                    assert forall|e: Entity|
                        exists|k: int| 0 <= k < i + 1 && #[trigger] s[k] == (e, location) implies r@
                        .contains(e) by {
                        let k = choose|k: int| 0 <= k < i + 1 && #[trigger] s[k] == (e, location);
                        assert(k != i);
                    }
                }
            }
            i = i + 1;
        }
        proof {
            assert forall|e: Entity| #[trigger] r@.contains(e) implies (
            self.model().placed.dom().contains(e) && self.model().placed[e] == location) by {
                let k = choose|k: int| 0 <= k < s.len() && #[trigger] s[k] == (e, location);
                assert(s[k].0 == e);
                assert(assoc_map(s)[s[k].0] == s[k].1);
            }
            assert forall|e: Entity|
                self.model().placed.dom().contains(e) && self.model().placed[e]
                    == location implies #[trigger] r@.contains(e) by {
                let k = choose|k: int| 0 <= k < s.len() && (#[trigger] s[k]).0 == e;
                assert(assoc_map(s)[s[k].0] == s[k].1);
                assert(s[k] == (e, location));
            }
        }
        r
    }
}

impl SpatialMap {
    /// Moves an entity to a cell (placing it if it was never placed):
    /// the one mutation of the spatial state.  The entity leaves its
    /// previous cell and stands in `location`; everything else is kept.
    #[verifier::loop_isolation(false)]
    pub fn move_entity(&mut self, entity: Entity, location: Coordinate)
        ensures
            final(self).model() == (MapModel {
                width: old(self).model().width,
                height: old(self).model().height,
                depth: old(self).model().depth,
                placed: old(self).model().placed.insert(entity, location),
            }),
    {
        proof {
            use_type_invariant(&*self);
        }
        let mut placed: Vec<(Entity, Coordinate)> = Vec::new();
        std::mem::swap(&mut placed, &mut self.placed);
        let ghost s0 = placed@;
        let mut i: usize = 0;
        while i < placed.len()
            invariant
                0 <= i <= placed.len(),
                placed@ == s0,
                unique_keys(s0),
                self.width == old(self).width,
                self.height == old(self).height,
                self.depth == old(self).depth,
                forall|k: int| 0 <= k < i ==> (#[trigger] s0[k]).0 != entity,
            decreases placed.len() - i,
        {
            if placed[i].0 == entity {
                placed.remove(i);
                placed.push((entity, location));
                proof {
                    lemma_assoc_remove(s0, i as int);
                    lemma_unique_remove(s0, i as int);
                    lemma_assoc_push(s0.remove(i as int), entity, location);
                    lemma_unique_push(s0.remove(i as int), entity, location);
                    assert(assoc_map(placed@) =~= assoc_map(s0).insert(entity, location));
                }
                self.placed = placed;
                return ;
            }
            i = i + 1;
        }
        proof {
            lemma_assoc_push(s0, entity, location);
            lemma_unique_push(s0, entity, location);
        }
        placed.push((entity, location));
        self.placed = placed;
    }

    /// Removes an entity from the map entirely, for when the embedding
    /// world destroys it: exactly its entry disappears, from both
    /// lookup directions at once.  Removing an entity never placed
    /// changes nothing.
    #[verifier::loop_isolation(false)]
    pub fn remove(&mut self, entity: Entity)
        ensures
            final(self).model() == (MapModel {
                width: old(self).model().width,
                height: old(self).model().height,
                depth: old(self).model().depth,
                placed: old(self).model().placed.remove(entity),
            }),
    {
        proof {
            use_type_invariant(&*self);
        }
        let mut placed: Vec<(Entity, Coordinate)> = Vec::new();
        std::mem::swap(&mut placed, &mut self.placed);
        let ghost s0 = placed@;
        let mut i: usize = 0;
        while i < placed.len()
            invariant
                0 <= i <= placed.len(),
                placed@ == s0,
                unique_keys(s0),
                self.width == old(self).width,
                self.height == old(self).height,
                self.depth == old(self).depth,
                forall|k: int| 0 <= k < i ==> (#[trigger] s0[k]).0 != entity,
            decreases placed.len() - i,
        {
            if placed[i].0 == entity {
                placed.remove(i);
                proof {
                    lemma_assoc_remove(s0, i as int);
                    lemma_unique_remove(s0, i as int);
                }
                self.placed = placed;
                return ;
            }
            i = i + 1;
        }
        proof {
            lemma_assoc_dom(s0);
            assert(!assoc_map(s0).dom().contains(entity));
            assert(assoc_map(s0).remove(entity) =~= assoc_map(s0));
        }
        self.placed = placed;
    }

    /// Whether `entity` may enter `location` under the collision rules:
    /// a mover without a collision component always may; otherwise every
    /// occupant of the cell that has a component must share no tag with
    /// the mover.
    pub fn can_move(&self, entity: Entity, location: Coordinate, collision_layers: &CollisionStore) -> (r:
        bool)
        ensures
            r == can_move_spec(self.model(), collision_layers.model(), entity, location),
    {
        let mover = match collision_layers.get(entity) {
            None => { return true; },
            Some(layers) => layers,
        };
        let occupants = self.entities(location);
        let mut i: usize = 0;
        while i < occupants.len()
            invariant
                0 <= i <= occupants.len(),
                collision_layers.model().dom().contains(entity),
                *mover == collision_layers.model()[entity],
                forall|e: Entity|
                    #[trigger] occupants@.contains(e) <==> occupies(self.model(), e, location),
                forall|k: int|
                    0 <= k < i ==> (collision_layers.model().dom().contains(
                        #[trigger] occupants@[k],
                    ) ==> !layers_intersect(
                        collision_layers.model()[entity]@,
                        collision_layers.model()[occupants@[k]]@,
                    )),
            decreases occupants.len() - i,
        {
            let occupant = occupants[i];
            match collision_layers.get(occupant) {
                Some(layers) => {
                    if mover.intersects(layers) {
                        proof {
                            assert(occupants@.contains(occupants@[i as int]));
                        }
                        return false;
                    }
                },
                None => {},
            }
            i = i + 1;
        }
        proof {
            assert forall|other: Entity|
                self.model().placed.dom().contains(other) && self.model().placed[other] == location
                    && collision_layers.model().dom().contains(other) implies !layers_intersect(
                collision_layers.model()[entity]@,
                collision_layers.model()[other]@,
            ) by {
                assert(occupants@.contains(other));
                let k = choose|k: int| 0 <= k < occupants@.len() && occupants@[k] == other;
            }
        }
        true
    }

    /// Resolves, validates and applies one move request; returns whether
    /// it was accepted.  An out-of-bounds destination and a collision are
    /// ordinary negative outcomes: the state is then left unchanged.
    pub fn handle_move(
        &mut self,
        entity: Entity,
        new_location: Coordinate,
        absolute: bool,
        collision_layers: &CollisionStore,
    ) -> (accepted: bool)
        ensures
            ({
                let (m1, ok) = apply_move_spec(
                    old(self).model(),
                    collision_layers.model(),
                    entity,
                    new_location,
                    absolute,
                );
                final(self).model() == m1 && accepted == ok
            }),
    {
        let (x, y, z) = if absolute {
            (new_location.x as i64, new_location.y as i64, new_location.z as i64)
        } else {
            let current = match self.location(entity) {
                Some(c) => c,
                None => Coordinate { x: 0, y: 0, z: 0 },
            };
            (
                current.x as i64 + new_location.x as i64,
                current.y as i64 + new_location.y as i64,
                current.z as i64 + new_location.z as i64,
            )
        };
        if x < 0 || x >= self.width as i64 || y < 0 || y >= self.height as i64 || z < 0 || z
            >= self.depth as i64 {
            return false;
        }
        let destination = Coordinate { x: x as i32, y: y as i32, z: z as i32 };
        if self.can_move(entity, destination, collision_layers) {
            self.move_entity(entity, destination);
            true
        } else {
            false
        }
    }
}

/// Whether `entity` may enter `destination`: true outright when the
/// mover has no collision component, and otherwise exactly when no
/// occupant of the cell holds a component sharing a tag with the
/// mover's.
pub open spec fn can_move_spec(
    m: MapModel,
    layers: Map<Entity, CollisionLayers>,
    entity: Entity,
    destination: Coordinate,
) -> bool {
    if !layers.dom().contains(entity) {
        true
    } else {
        forall|other: Entity|
            occupies(m, other, destination) && layers.dom().contains(other)
                ==> !layers_intersect(layers[entity]@, (#[trigger] layers[other])@)
    }
}

/// Destination of a move request, in mathematical integers: an absolute
/// request names the cell itself, a relative one offsets the mover's
/// current cell (or the origin, for an entity never placed).
pub open spec fn resolved_destination(
    m: MapModel,
    entity: Entity,
    delta: Coordinate,
    absolute: bool,
) -> (int, int, int) {
    if absolute {
        (delta.x as int, delta.y as int, delta.z as int)
    } else {
        let current = if m.placed.dom().contains(entity) {
            m.placed[entity]
        } else {
            Coordinate { x: 0, y: 0, z: 0 }
        };
        (current.x + delta.x, current.y + delta.y, current.z + delta.z)
    }
}

/// One move request against the map state: the destination is resolved,
/// bounds-checked and collision-checked, and the state changes exactly
/// when the request is accepted.
pub open spec fn apply_move_spec(
    m: MapModel,
    layers: Map<Entity, CollisionLayers>,
    entity: Entity,
    delta: Coordinate,
    absolute: bool,
) -> (MapModel, bool) {
    let (x, y, z) = resolved_destination(m, entity, delta, absolute);
    if !in_bounds(m, x, y, z) {
        (m, false)
    } else {
        let destination = Coordinate { x: x as i32, y: y as i32, z: z as i32 };
        if can_move_spec(m, layers, entity, destination) {
            (
                MapModel {
                    width: m.width,
                    height: m.height,
                    depth: m.depth,
                    placed: m.placed.insert(entity, destination),
                },
                true,
            )
        } else {
            (m, false)
        }
    }
}

/// In a scan from the front, the first entry holding a key denotes the
/// key's value in the map.
proof fn lemma_assoc_first_match<K, V>(s: Seq<(K, V)>, i: int)
    requires
        0 <= i < s.len(),
        forall|k: int| 0 <= k < i ==> (#[trigger] s[k]).0 != s[i].0,
    ensures
        assoc_map(s).dom().contains(s[i].0),
        assoc_map(s)[s[i].0] == s[i].1,
    decreases i,
{
    if i == 0 {
    } else {
        assert forall|k: int| 0 <= k < i - 1 implies (#[trigger] s.drop_first()[k]).0 != s
            .drop_first()[i - 1].0 by {
            assert(s.drop_first()[k] == s[k + 1]);
            assert(s.drop_first()[i - 1] == s[i]);
        }
        assert(s.drop_first()[i - 1] == s[i]);
        lemma_assoc_first_match(s.drop_first(), i - 1);
    }
}

#[verifier::external_type_specification]
#[verifier::external_body]
#[verifier::reject_recursive_types(T)]
pub struct ExSyncSender<T>(SyncSender<T>);

/// Command asking the map phase to move an entity.  The destination is
/// absolute or relative to the entity's current cell; an optional
/// one-shot reply channel carries whether the move was applied.
pub enum MapMessage {
    Move {
        entity: Entity,
        new_location: Coordinate,
        absolute: bool,
        reply: Option<SyncSender<bool>>,
    },
}

impl Message for MapMessage {

}

/// The entity a move request concerns.
pub open spec fn message_entity(m: MapMessage) -> Entity {
    match m {
        MapMessage::Move { entity, .. } => entity,
    }
}

/// The requested destination (absolute cell or relative offset).
pub open spec fn message_destination(m: MapMessage) -> Coordinate {
    match m {
        MapMessage::Move { new_location, .. } => new_location,
    }
}

/// Whether the requested destination is absolute.
pub open spec fn message_absolute(m: MapMessage) -> bool {
    match m {
        MapMessage::Move { absolute, .. } => absolute,
    }
}

/// A batch of move requests applied in first-in first-out order: the
/// final state together with the per-request outcomes.
pub open spec fn process_spec(
    m: MapModel,
    layers: Map<Entity, CollisionLayers>,
    messages: Seq<MapMessage>,
) -> (MapModel, Seq<bool>)
    decreases messages.len(),
{
    if messages.len() == 0 {
        (m, Seq::empty())
    } else {
        let (m1, ok) = apply_move_spec(
            m,
            layers,
            message_entity(messages[0]),
            message_destination(messages[0]),
            message_absolute(messages[0]),
        );
        let (m2, rest) = process_spec(m1, layers, messages.drop_first());
        (m2, seq![ok] + rest)
    }
}

/// A batch produces one outcome per request.
pub proof fn lemma_process_spec_len(
    m: MapModel,
    layers: Map<Entity, CollisionLayers>,
    messages: Seq<MapMessage>,
)
    ensures
        process_spec(m, layers, messages).1.len() == messages.len(),
    decreases messages.len(),
{
    if messages.len() > 0 {
        let (m1, ok) = apply_move_spec(
            m,
            layers,
            message_entity(messages[0]),
            message_destination(messages[0]),
            message_absolute(messages[0]),
        );
        lemma_process_spec_len(m1, layers, messages.drop_first());
    }
}

/// Spatial consistency: a placed entity is among the occupants of the
/// cell that its location names, and of no other cell.  Which entities
/// occupy a cell and where an entity stands are two readings of the
/// same state.
pub proof fn lemma_spatial_consistency(m: MapModel, e: Entity, c1: Coordinate, c2: Coordinate)
    ensures
        m.placed.dom().contains(e) ==> occupies(m, e, m.placed[e]),
        occupies(m, e, c1) && occupies(m, e, c2) ==> c1 == c2,
{
}

/// Bounds: a request that resolves outside the grid is rejected and
/// changes nothing, whatever the collision state.
pub proof fn lemma_bounds_rejection(
    m: MapModel,
    layers: Map<Entity, CollisionLayers>,
    entity: Entity,
    delta: Coordinate,
    absolute: bool,
)
    requires
        ({
            let (x, y, z) = resolved_destination(m, entity, delta, absolute);
            !in_bounds(m, x, y, z)
        }),
    ensures
        apply_move_spec(m, layers, entity, delta, absolute) == (m, false),
{
}

/// Collision blocking: a mover with a collision component is blocked by
/// an occupant of the destination whose component shares a tag with the
/// mover's, and is blocked by nobody when no occupant of the cell has a
/// collision component.
pub proof fn lemma_collision_blocking(
    m: MapModel,
    layers: Map<Entity, CollisionLayers>,
    a: Entity,
    b: Entity,
    destination: Coordinate,
)
    requires
        layers.dom().contains(a),
    ensures
        occupies(m, b, destination) && layers.dom().contains(b) && layers_intersect(
            layers[a]@,
            layers[b]@,
        ) ==> !can_move_spec(m, layers, a, destination),
        (forall|other: Entity|
            occupies(m, other, destination) ==> !layers.dom().contains(other)) ==> can_move_spec(
            m,
            layers,
            a,
            destination,
        ),
{
}

/// An entity with no collision component may enter any in-bounds cell,
/// whatever occupies it: its move request is always accepted.
pub proof fn lemma_unlayered_mover_moves(
    m: MapModel,
    layers: Map<Entity, CollisionLayers>,
    entity: Entity,
    delta: Coordinate,
    absolute: bool,
)
    requires
        !layers.dom().contains(entity),
        ({
            let (x, y, z) = resolved_destination(m, entity, delta, absolute);
            in_bounds(m, x, y, z)
        }),
    ensures
        apply_move_spec(m, layers, entity, delta, absolute).1 == true,
        ({
            let (x, y, z) = resolved_destination(m, entity, delta, absolute);
            let destination = Coordinate { x: x as i32, y: y as i32, z: z as i32 };
            apply_move_spec(m, layers, entity, delta, absolute).0 == (MapModel {
                width: m.width,
                height: m.height,
                depth: m.depth,
                placed: m.placed.insert(entity, destination),
            })
        }),
{
}

/// Relies on std's `std::sync::mpsc::SyncSender::try_send` to hand a
/// move outcome to the requester.  A full or disconnected reply channel
/// is deliberately ignored; the call never blocks and never panics.
#[verifier::external_body]
fn reply_send(reply: &SyncSender<bool>, accepted: bool) {
    let _ = reply.try_send(accepted);
}

impl SpatialMap {
    /// Applies a drained batch of move requests in first-in first-out
    /// order; answers each request's reply channel, when one was
    /// supplied, with the outcome also returned here.
    #[verifier::loop_isolation(false)]
    pub fn process_messages(
        &mut self,
        messages: Vec<MapMessage>,
        collision_layers: &CollisionStore,
    ) -> (outcomes: Vec<bool>)
        ensures
            ({
                let (m1, outs) = process_spec(
                    old(self).model(),
                    collision_layers.model(),
                    messages@,
                );
                final(self).model() == m1 && outcomes@ == outs
            }),
    {
        proof {
            lemma_process_spec_len(self.model(), collision_layers.model(), messages@);
        }
        let ghost target = process_spec(self.model(), collision_layers.model(), messages@);
        let mut messages = messages;
        let mut outcomes: Vec<bool> = Vec::new();
        while messages.len() > 0
            invariant
                outcomes@.len() + messages@.len() == target.1.len(),
                process_spec(self.model(), collision_layers.model(), messages@) == (
                target.0,
                target.1.skip(outcomes@.len() as int),
                ),
                outcomes@ == target.1.take(outcomes@.len() as int),
            decreases messages.len(),
        {
            let ghost remaining0 = messages@;
            let ghost n0 = outcomes@.len() as int;
            let message = messages.remove(0);
            let accepted = match message {
                MapMessage::Move { entity, new_location, absolute, reply } => {
                    let accepted = self.handle_move(
                        entity,
                        new_location,
                        absolute,
                        collision_layers,
                    );
                    match reply {
                        Some(reply) => reply_send(&reply, accepted),
                        None => {},
                    }
                    accepted
                },
            };
            outcomes.push(accepted);
            proof {
                assert(messages@ =~= remaining0.drop_first());
                assert(target.1.skip(n0).drop_first() =~= target.1.skip(n0 + 1));
                assert(seq![accepted] + target.1.skip(n0 + 1) =~= target.1.skip(n0));
                assert(target.1[n0] == target.1.skip(n0)[0]);
                assert(target.1.take(n0 + 1) =~= target.1.take(n0).push(target.1[n0]));
                assert(outcomes@ =~= target.1.take(n0 + 1));
            }
        }
        proof {
            assert(outcomes@ =~= target.1);
        }
        outcomes
    }
}

/// The map phase of a tick: owns the authoritative [`SpatialMap`]
/// behind a write lock, hands out read locks and move-request senders,
/// and each run places newly spawned entities and then drains and
/// applies the queued move requests.
pub struct MapSystem {
    sender: MessageSender<MapMessage>,
    receiver: MessageReceiver<MapMessage>,
    map: WLock<SpatialMap>,
}

impl MapSystem {
    /// Builds the map phase over an empty grid whose width, height and
    /// depth come from the x, y and z components of `map_size`, with
    /// the channel through which other systems request moves.
    pub fn new(map_size: Coordinate) -> MapSystem {
        let (sender, receiver) = MessageQueue::new();
        let map = WLock::new(SpatialMap::new(map_size.x, map_size.y, map_size.z));
        MapSystem { sender, receiver, map }
    }

    /// Read-only handle onto the authoritative map, for the phases that
    /// present or inspect positions.
    pub fn map(&self) -> RLock<SpatialMap> {
        self.map.get_reader()
    }

    /// A handle through which any system may request moves.
    pub fn sender(&self) -> MessageSender<MapMessage> {
        self.sender.clone()
    }

    /// One map phase: places entities not yet on the map at their
    /// initial position, then drains the channel and validates and
    /// applies the queued move requests in first-in first-out order,
    /// answering any reply channels.  A thin lock shell: the placement
    /// pass is `SpatialMap::place_spawns` and the drained batch goes
    /// through `SpatialMap::process_messages`, both exactly contracted.
    pub fn run(&mut self, spawns: &Vec<(Entity, InitialPosition)>, collision_layers: &CollisionStore) {
        let (mut map, guard) = self.map.write();
        map.place_spawns(spawns);
        let messages = self.receiver.messages();
        let _outcomes = map.process_messages(messages, collision_layers);
        guard.put(map);
    }
}

/// The initial-placement pass folded over the spawn list, in order:
/// an entity not yet placed enters the map at its initial cell; an
/// entity already placed is left alone.
pub open spec fn spawn_fold(
    placed: Map<Entity, Coordinate>,
    spawns: Seq<(Entity, InitialPosition)>,
) -> Map<Entity, Coordinate>
    decreases spawns.len(),
{
    if spawns.len() == 0 {
        placed
    } else {
        let next = if placed.dom().contains(spawns[0].0) {
            placed
        } else {
            placed.insert(spawns[0].0, spawns[0].1.0)
        };
        spawn_fold(next, spawns.drop_first())
    }
}

impl SpatialMap {
    /// The initial-placement pass: every spawned entity that was never
    /// placed enters the map at its initial cell; entities already on
    /// the map keep their position.
    #[verifier::loop_isolation(false)]
    pub fn place_spawns(&mut self, spawns: &Vec<(Entity, InitialPosition)>)
        ensures
            final(self).model() == (MapModel {
                width: old(self).model().width,
                height: old(self).model().height,
                depth: old(self).model().depth,
                placed: spawn_fold(old(self).model().placed, spawns@),
            }),
    {
        let ghost target = spawn_fold(self.model().placed, spawns@);
        proof {
            assert(spawns@.skip(0) =~= spawns@);
        }
        let mut i: usize = 0;
        while i < spawns.len()
            invariant
                0 <= i <= spawns@.len(),
                self.model().width == old(self).model().width,
                self.model().height == old(self).model().height,
                self.model().depth == old(self).model().depth,
                spawn_fold(self.model().placed, spawns@.skip(i as int)) == target,
            decreases spawns.len() - i,
        {
            let ghost placed0 = self.model().placed;
            let (entity, initial) = spawns[i];
            proof {
                assert(spawns@.skip(i as int)[0] == spawns@[i as int]);
                assert(spawns@.skip(i as int).drop_first() =~= spawns@.skip(i + 1));
            }
            if self.location(entity).is_none() {
                self.move_entity(entity, initial.0);
                proof {
                    assert(self.model().placed == placed0.insert(entity, initial.0));
                }
            }
            i = i + 1;
        }
        proof {
            assert(spawns@.skip(spawns@.len() as int) =~= Seq::<(Entity, InitialPosition)>::empty());
        }
    }
}

impl Clone for SpatialMap {
    /// The clone holds the same mathematical state.
    fn clone(&self) -> (r: Self)
        ensures
            r.model() == self.model(),
    {
        proof {
            use_type_invariant(self);
        }
        let mut placed: Vec<(Entity, Coordinate)> = Vec::new();
        let mut i: usize = 0;
        while i < self.placed.len()
            invariant
                0 <= i <= self.placed.len(),
                placed@ == self.placed@.take(i as int),
            decreases self.placed.len() - i,
        {
            proof {
                assert(self.placed@.take(i + 1) =~= self.placed@.take(i as int).push(
                    self.placed@[i as int],
                ));
            }
            placed.push(self.placed[i]);
            i = i + 1;
        }
        proof {
            assert(placed@ =~= self.placed@);
        }
        SpatialMap { width: self.width, height: self.height, depth: self.depth, placed }
    }
}

} // verus!
