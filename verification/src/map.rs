//! The shared game state as the synchronisation core reads it: the live
//! entities by id, the ids destroyed a moment ago, and the size of the map.

use vstd::prelude::*;
use vstd::std_specs::hash::*;
use std::collections::HashMap;
use std::collections::HashSet;
use crate::wire::value::{WireModel, WireValue, lemma_array_view, models};

verus! {

/// Identifies one entity. An id is given out once and never again.
pub type EntityId = u64;

/// A square of the game grid.
#[derive(Clone, Copy, Debug, PartialEq, Eq, Structural)]
pub struct MapIndex {
    pub x: i64,
    pub y: i64,
}

impl MapIndex {
    /// The square at column `x`, row `y`.
    pub fn new(x: i64, y: i64) -> (index: MapIndex)
        ensures
            index == (MapIndex { x, y }),
    {
        MapIndex { x, y }
    }
}

/// The width and height of the map.
#[derive(Clone, Copy, Debug, PartialEq, Eq, Structural)]
pub struct MapSize {
    pub width: u64,
    pub height: u64,
}

impl MapSize {
    /// The size on the wire: the array `[width, height]`.
    pub open spec fn model(self) -> WireModel {
        WireModel::Array(
            seq![WireModel::Integer(self.width as int), WireModel::Integer(self.height as int)],
        )
    }

    /// The size as a wire value.
    pub fn to_value(&self) -> (value: WireValue)
        ensures
            value@ == self.model(),
    {
        let mut items: Vec<WireValue> = Vec::new();
        items.push(WireValue::Unsigned(self.width));
        items.push(WireValue::Unsigned(self.height));
        proof {
            lemma_array_view(items);
            assert(models(items@) =~= self.model()->Array_0);
        }
        WireValue::Array(items)
    }
}

/// One entity of the game, as far as synchronisation goes.
#[derive(Debug, PartialEq)]
pub struct Entity {
    /// Where the entity stands.
    pub index: MapIndex,
    /// Whether something a client can see has changed since the last
    /// broadcast.
    pub needs_update: bool,
    /// The complete description, sent to a client that learns of the entity.
    pub full: WireValue,
    /// What has changed, sent to a client that knows the entity already.
    pub partial: WireValue,
}

impl Entity {
    /// An entity at `index` with nothing to report yet.
    pub fn new(index: MapIndex, full: WireValue, partial: WireValue) -> (entity: Entity)
        ensures
            entity == (Entity { index, needs_update: false, full, partial }),
    {
        Entity { index, needs_update: false, full, partial }
    }

    /// The record of this entity on the wire: the array `[id, description]`,
    /// with the complete description or only what has changed.
    pub open spec fn serialized(self, id: EntityId, full: bool) -> WireModel {
        WireModel::Array(
            seq![
                WireModel::Integer(id as int),
                if full {
                    self.full@
                } else {
                    self.partial@
                },
            ],
        )
    }

    /// Where the entity stands.
    pub fn index(&self) -> (index: &MapIndex)
        ensures
            *index == self.index,
    {
        &self.index
    }

    /// Whether the entity has changed since the last broadcast.
    pub fn needs_update(&self) -> (dirty: bool)
        ensures
            dirty == self.needs_update,
    {
        self.needs_update
    }

    /// Builds the record of this entity under `id`.
    pub fn serialize(&self, id: EntityId, full: bool) -> (value: WireValue)
        ensures
            value@ == self.serialized(id, full),
    {
        let body = if full {
            self.full.duplicate()
        } else {
            self.partial.duplicate()
        };
        let mut items: Vec<WireValue> = Vec::new();
        items.push(WireValue::Unsigned(id));
        items.push(body);
        proof {
            lemma_array_view(items);
            assert(models(items@) =~= self.serialized(id, full)->Array_0);
        }
        WireValue::Array(items)
    }
}

/// The authoritative state that every client is synchronised against.
pub struct GameMap {
    entities: HashMap<EntityId, Entity>,
    destroyed: HashSet<EntityId>,
    size: MapSize,
    next_id: EntityId,
}

impl GameMap {
    /// The live entities by id.
    pub closed spec fn live(&self) -> Map<EntityId, Entity> {
        self.entities@
    }

    /// The ids destroyed since the registry was last emptied.
    pub closed spec fn gone(&self) -> Set<EntityId> {
        self.destroyed@
    }

    /// The size of the map.
    pub closed spec fn extent(&self) -> MapSize {
        self.size
    }

    /// The ids given out so far are those below this number.
    pub closed spec fn issued(&self) -> nat {
        self.next_id as nat
    }

    /// No id is live and destroyed at once, and every id in use was given
    /// out by this map.
    pub open spec fn well_formed(&self) -> bool {
        &&& forall|id: EntityId| #[trigger] self.live().contains_key(id) ==> id < self.issued()
        &&& forall|id: EntityId| #[trigger] self.gone().contains(id) ==> id < self.issued()
        &&& forall|id: EntityId|
            #![trigger self.live().contains_key(id)]
            #![trigger self.gone().contains(id)]
            !(self.live().contains_key(id) && self.gone().contains(id))
    }

    /// An empty map of the given size.
    pub fn new(size: MapSize) -> (map: GameMap)
        ensures
            map.well_formed(),
            map.live() == Map::<EntityId, Entity>::empty(),
            map.gone() == Set::<EntityId>::empty(),
            map.extent() == size,
            map.issued() == 0,
    {
        GameMap { entities: HashMap::new(), destroyed: HashSet::new(), size, next_id: 0 }
    }

    /// The live entities by id.
    pub fn entities(&self) -> (entities: &HashMap<EntityId, Entity>)
        ensures
            entities@ == self.live(),
    {
        &self.entities
    }

    /// The ids destroyed since the registry was last emptied.
    pub fn destroyed_entities(&self) -> (destroyed: &HashSet<EntityId>)
        ensures
            destroyed@ == self.gone(),
    {
        &self.destroyed
    }

    /// The size of the map.
    pub fn map_size(&self) -> (size: MapSize)
        ensures
            size == self.extent(),
    {
        self.size
    }

    /// The live entity with this id, if there is one.
    pub fn entity_with_id(&self, id: &EntityId) -> (entity: Option<&Entity>)
        ensures
            match entity {
                Some(e) => self.live().contains_key(*id) && *e == self.live()[*id],
                None => !self.live().contains_key(*id),
            },
    {
        broadcast use group_hash_axioms;

        self.entities.get(id)
    }

    /// Brings an entity to life under a fresh id and returns the id; `None`,
    /// with nothing changed, once every id has been given out.
    pub fn spawn(&mut self, entity: Entity) -> (id: Option<EntityId>)
        requires
            old(self).well_formed(),
        ensures
            final(self).well_formed(),
            final(self).extent() == old(self).extent(),
            final(self).gone() == old(self).gone(),
            match id {
                Some(id) => {
                    &&& id == old(self).issued()
                    &&& final(self).issued() == id + 1
                    &&& !old(self).live().contains_key(id)
                    &&& !old(self).gone().contains(id)
                    &&& final(self).live() == old(self).live().insert(id, entity)
                },
                None => {
                    &&& old(self).issued() == u64::MAX
                    &&& final(self).issued() == old(self).issued()
                    &&& final(self).live() == old(self).live()
                },
            },
    {
        broadcast use group_hash_axioms;

        if self.next_id == u64::MAX {
            return None;
        }
        let id = self.next_id;
        self.next_id = id + 1;
        self.entities.insert(id, entity);
        assert(self.live() == old(self).live().insert(id, entity));
        assert(self.gone() == old(self).gone());
        Some(id)
    }

    /// Replaces the live entity `id`; returns whether there was one. Nothing
    /// changes where there was none.
    pub fn update(&mut self, id: EntityId, entity: Entity) -> (found: bool)
        requires
            old(self).well_formed(),
        ensures
            final(self).well_formed(),
            found == old(self).live().contains_key(id),
            final(self).extent() == old(self).extent(),
            final(self).gone() == old(self).gone(),
            final(self).issued() == old(self).issued(),
            final(self).live() == if found {
                old(self).live().insert(id, entity)
            } else {
                old(self).live()
            },
    {
        broadcast use group_hash_axioms;

        if self.entities.contains_key(&id) {
            self.entities.insert(id, entity);
            assert(self.live() == old(self).live().insert(id, entity));
            assert(self.gone() == old(self).gone());
            true
        } else {
            false
        }
    }

    /// Destroys the live entity `id`: it leaves the live entities and enters
    /// the registry of destroyed ids. Returns whether there was one.
    pub fn destroy(&mut self, id: EntityId) -> (found: bool)
        requires
            old(self).well_formed(),
        ensures
            final(self).well_formed(),
            found == old(self).live().contains_key(id),
            final(self).extent() == old(self).extent(),
            final(self).issued() == old(self).issued(),
            final(self).live() == old(self).live().remove(id),
            final(self).gone() == if found {
                old(self).gone().insert(id)
            } else {
                old(self).gone()
            },
    {
        broadcast use group_hash_axioms;

        match self.entities.remove(&id) {
            Some(_) => {
                self.destroyed.insert(id);
                assert(self.live() == old(self).live().remove(id));
                assert(self.gone() == old(self).gone().insert(id));
                true
            },
            None => {
                assert(self.live() == old(self).live());
                assert(self.gone() == old(self).gone());
                false
            },
        }
    }

    /// Empties the registry of destroyed ids. The ids in it stay there from
    /// their destruction until this call, which the simulation makes once
    /// every client has been synchronised: one tick.
    pub fn forget_destroyed(&mut self)
        requires
            old(self).well_formed(),
        ensures
            final(self).well_formed(),
            final(self).extent() == old(self).extent(),
            final(self).issued() == old(self).issued(),
            final(self).live() == old(self).live(),
            final(self).gone() == Set::<EntityId>::empty(),
    {
        self.destroyed.clear();
        assert(self.live() == old(self).live());
    }
}

} // verus!
