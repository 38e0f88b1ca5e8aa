//! The interest set of one client, and the tick that keeps it up to date.
//!
//! Every tick a client is told which entities came into view, which of those
//! it watches have changed, which went out of view and which were
//! destroyed. The ids it has been told of and not yet told are gone form its
//! watched set.

use vstd::prelude::*;
use vstd::slice::slice_to_vec;
use vstd::std_specs::hash::*;
use vstd::std_specs::iter::IteratorSpec;
use std::collections::HashMap;
use std::collections::HashSet;
use crate::map::{Entity, EntityId, GameMap, MapIndex};
use crate::wire::envelope::{UpdateModel, UpdatePayload};
use crate::wire::value::{WireModel, WireValue, models};

verus! {

/// How far a client sees from its spectating point, along each axis.
pub const VIEW_RANGE: i64 = 15;

/// Whether `index` lies in the square window around `base`: at most
/// `VIEW_RANGE` away along each axis, the border included.
pub open spec fn in_view(base: MapIndex, index: MapIndex) -> bool {
    &&& -VIEW_RANGE <= index.x - base.x <= VIEW_RANGE
    &&& -VIEW_RANGE <= index.y - base.y <= VIEW_RANGE
}

/// Whether `id` is a live entity within view of `origin`.
pub open spec fn visible(origin: MapIndex, map: GameMap, id: EntityId) -> bool {
    map.live().contains_key(id) && in_view(origin, map.live()[id].index)
}

/// The spectating point for a tick: the position of the client's player
/// while that entity lives, else the point as it was.
pub open spec fn origin_after(origin: MapIndex, player: Option<EntityId>, map: GameMap) -> MapIndex {
    match player {
        Some(id) if map.live().contains_key(id) => map.live()[id].index,
        _ => origin,
    }
}

/// The entities that come into view: visible and not yet watched.
pub open spec fn appeared_ids(watched: Set<EntityId>, origin: MapIndex, map: GameMap) -> Set<
    EntityId,
> {
    Set::new(|id: EntityId| !watched.contains(id) && visible(origin, map, id))
}

/// The watched entities that are still in view and have changed.
pub open spec fn updated_ids(watched: Set<EntityId>, origin: MapIndex, map: GameMap) -> Set<
    EntityId,
> {
    Set::new(
        |id: EntityId|
            watched.contains(id) && visible(origin, map, id) && map.live()[id].needs_update,
    )
}

/// The watched entities that live on out of view.
pub open spec fn disappeared_ids(watched: Set<EntityId>, origin: MapIndex, map: GameMap) -> Set<
    EntityId,
> {
    Set::new(
        |id: EntityId|
            watched.contains(id) && map.live().contains_key(id) && !in_view(
                origin,
                map.live()[id].index,
            ),
    )
}

/// The watched entities that were destroyed.
pub open spec fn destroyed_ids(watched: Set<EntityId>, map: GameMap) -> Set<EntityId> {
    Set::new(
        |id: EntityId|
            watched.contains(id) && !map.live().contains_key(id) && map.gone().contains(id),
    )
}

/// The watched ids that are neither live nor in the registry of destroyed
/// ids: references that outlived what they referred to.
pub open spec fn stale_ids(watched: Set<EntityId>, map: GameMap) -> Set<EntityId> {
    Set::new(
        |id: EntityId|
            watched.contains(id) && !map.live().contains_key(id) && !map.gone().contains(id),
    )
}

/// The watched set after a tick: exactly the visible entities.
pub open spec fn watched_after(origin: MapIndex, map: GameMap) -> Set<EntityId> {
    Set::new(|id: EntityId| visible(origin, map, id))
}

/// What one tick found for one client: five lists of ids, each without
/// repetition and in no particular order.
#[derive(Debug, PartialEq, Eq)]
pub struct Delta {
    /// Came into view.
    pub appeared: Vec<EntityId>,
    /// Watched, still in view, changed.
    pub updated: Vec<EntityId>,
    /// Watched, alive, out of view.
    pub disappeared: Vec<EntityId>,
    /// Watched, destroyed.
    pub destroyed: Vec<EntityId>,
    /// Watched, neither alive nor known as destroyed. These go on no list
    /// that is sent; they are here to be logged.
    pub stale: Vec<EntityId>,
}

impl Delta {
    /// The lists hold exactly what a tick finds for a client that watched
    /// `watched` and sees from `origin`.
    pub open spec fn describes(self, watched: Set<EntityId>, origin: MapIndex, map: GameMap) -> bool {
        &&& self.appeared@.no_duplicates()
        &&& self.updated@.no_duplicates()
        &&& self.disappeared@.no_duplicates()
        &&& self.destroyed@.no_duplicates()
        &&& self.stale@.no_duplicates()
        &&& self.appeared@.to_set() == appeared_ids(watched, origin, map)
        &&& self.updated@.to_set() == updated_ids(watched, origin, map)
        &&& self.disappeared@.to_set() == disappeared_ids(watched, origin, map)
        &&& self.destroyed@.to_set() == destroyed_ids(watched, map)
        &&& self.stale@.to_set() == stale_ids(watched, map)
    }

    /// Whether the four lists that are sent are all empty.
    pub open spec fn is_quiet(self) -> bool {
        &&& self.appeared@.len() == 0
        &&& self.updated@.len() == 0
        &&& self.disappeared@.len() == 0
        &&& self.destroyed@.len() == 0
    }
}

/// The records of the live entities `ids`, in order: complete ones, or only
/// what has changed.
pub open spec fn records(ids: Seq<EntityId>, map: GameMap, full: bool) -> Seq<WireModel> {
    Seq::new(ids.len(), |i: int| map.live()[ids[i]].serialized(ids[i], full))
}

/// What one tick sends to one client, and what it found.
#[derive(Debug, PartialEq)]
pub struct Update {
    /// The body of the update message.
    pub payload: UpdatePayload,
    /// The ids behind the payload, and the stale ids to be logged.
    pub delta: Delta,
}

impl Update {
    /// The payload says what the delta found: the map size, the complete
    /// record of each entity that appeared, the changes of each that was
    /// updated, and the ids of those that disappeared or were destroyed, each
    /// list in the order of the delta's.
    pub open spec fn reports(self, map: GameMap) -> bool {
        self.payload@ == (UpdateModel {
            map_size: map.extent(),
            appeared: records(self.delta.appeared@, map, true),
            updated: records(self.delta.updated@, map, false),
            disappeared: self.delta.disappeared@,
            destroyed: self.delta.destroyed@,
        })
    }
}

/// `list` holds, once each, the ids of `from` that `keep` accepts.
pub open spec fn collects(
    list: Seq<EntityId>,
    from: Seq<EntityId>,
    keep: spec_fn(EntityId) -> bool,
) -> bool {
    &&& list.no_duplicates()
    &&& forall|id: EntityId| #[trigger] list.contains(id) <==> from.contains(id) && keep(id)
}

/// Looking at one more id of `from` keeps `collects`: the id is pushed where
/// `keep` accepts it and left out where not.
proof fn lemma_collect_step(
    list: Seq<EntityId>,
    from: Seq<EntityId>,
    i: int,
    keep: spec_fn(EntityId) -> bool,
)
    requires
        0 <= i < from.len(),
        from.no_duplicates(),
        collects(list, from.take(i), keep),
    ensures
        keep(from[i]) ==> collects(list.push(from[i]), from.take(i + 1), keep),
        !keep(from[i]) ==> collects(list, from.take(i + 1), keep),
{
    let x = from[i];
    let prev = from.take(i);
    let next = from.take(i + 1);
    assert(next =~= prev.push(x));
    assert(!prev.contains(x)) by {
        if prev.contains(x) {
            let k = choose|k: int| 0 <= k < prev.len() && prev[k] == x;
            assert(from[k] == from[i]);
        }
    }
    assert forall|id: EntityId| next.contains(id) <==> prev.contains(id) || id == x by {
        if next.contains(id) {
            let k = choose|k: int| 0 <= k < next.len() && next[k] == id;
            if k < i {
                assert(prev[k] == id);
            }
        }
        if prev.contains(id) {
            let k = choose|k: int| 0 <= k < prev.len() && prev[k] == id;
            assert(next[k] == id);
        }
        if id == x {
            assert(next[i] == id);
        }
    }
    if keep(x) {
        let grown = list.push(x);
        assert(!list.contains(x));
        assert forall|id: EntityId| #[trigger] grown.contains(id) <==> next.contains(id) && keep(
            id,
        ) by {
            if grown.contains(id) {
                let k = choose|k: int| 0 <= k < grown.len() && grown[k] == id;
                if k < list.len() {
                    assert(list[k] == id);
                    assert(list.contains(id));
                }
            }
            if list.contains(id) {
                let k = choose|k: int| 0 <= k < list.len() && list[k] == id;
                assert(grown[k] == id);
            }
            if id == x {
                assert(grown[list.len() as int] == id);
            }
        }
        assert(grown.no_duplicates()) by {
            assert forall|a: int, b: int| 0 <= a < grown.len() && 0 <= b < grown.len() && a != b implies grown[a] != grown[b] by {
                if a < list.len() && b < list.len() {
                } else if a < list.len() {
                    assert(list.contains(list[a]));
                } else if b < list.len() {
                    assert(list.contains(list[b]));
                }
            }
        }
    } else {
        assert forall|id: EntityId| #[trigger] list.contains(id) <==> next.contains(id) && keep(
            id,
        ) by {}
    }
}

/// A list that collects from all of `from` holds, as a set, the kept part of
/// `from`.
proof fn lemma_collect_done(
    list: Seq<EntityId>,
    from: Seq<EntityId>,
    keep: spec_fn(EntityId) -> bool,
)
    requires
        collects(list, from.take(from.len() as int), keep),
    ensures
        list.no_duplicates(),
        list.to_set() == Set::new(|id: EntityId| from.to_set().contains(id) && keep(id)),
{
    assert(from.take(from.len() as int) =~= from);
    assert forall|id: EntityId| list.to_set().contains(id) <==> from.to_set().contains(id) && keep(
        id,
    ) by {
        assert(list.to_set().contains(id) <==> list.contains(id));
        assert(from.to_set().contains(id) <==> from.contains(id));
    }
    assert(list.to_set() =~= Set::new(|id: EntityId| from.to_set().contains(id) && keep(id)));
}

/// The ids of a set, each once, in the order the set hands them out.
fn members(set: &HashSet<EntityId>) -> (ids: Vec<EntityId>)
    ensures
        ids@.no_duplicates(),
        ids@.to_set() == set@,
{
    broadcast use group_hash_axioms;

    let mut ids: Vec<EntityId> = Vec::new();
    for id in it: set.iter()
        invariant
            ids@.len() == it.index(),
            forall|j: int| 0 <= j < ids@.len() ==> ids@[j] == *it.seq()[j],
    {
        ids.push(*id);
    }
    assert(ids@ =~= spec_hash_keys_iter(set).remaining().unref());
    ids
}

/// The ids of the live entities, each once, in the order the map hands them
/// out.
fn live_ids(entities: &HashMap<EntityId, Entity>) -> (ids: Vec<EntityId>)
    ensures
        ids@.no_duplicates(),
        ids@.to_set() == entities@.dom(),
{
    broadcast use group_hash_axioms;

    let mut ids: Vec<EntityId> = Vec::new();
    for id in it: entities.keys()
        invariant
            ids@.len() == it.index(),
            forall|j: int| 0 <= j < ids@.len() ==> ids@[j] == *it.seq()[j],
    {
        ids.push(*id);
    }
    assert(ids@ =~= spec_keys_iter(entities).remaining().unref());
    ids
}

/// Takes every id of `ids` out of `set`.
fn remove_all(set: &mut HashSet<EntityId>, ids: &Vec<EntityId>)
    ensures
        final(set)@ == old(set)@.difference(ids@.to_set()),
{
    broadcast use group_hash_axioms;

    let mut i: usize = 0;
    while i < ids.len()
        invariant
            i <= ids.len(),
            set@ == old(set)@.difference(ids@.take(i as int).to_set()),
        decreases ids.len() - i,
    {
        set.remove(&ids[i]);
        proof {
            let before = ids@.take(i as int);
            let after = ids@.take(i + 1);
            assert(after =~= before.push(ids@[i as int]));
            assert forall|id: EntityId| after.to_set().contains(id) <==> before.to_set().contains(
                id,
            ) || id == ids@[i as int] by {
                lemma_push_contains(before, ids@[i as int], id);
            }
            assert(set@ =~= old(set)@.difference(after.to_set()));
        }
        i += 1;
    }
    assert(ids@.take(ids@.len() as int) =~= ids@);
}

/// Puts every id of `ids` into `set`.
fn insert_all(set: &mut HashSet<EntityId>, ids: &Vec<EntityId>)
    ensures
        final(set)@ == old(set)@.union(ids@.to_set()),
{
    broadcast use group_hash_axioms;

    let mut i: usize = 0;
    while i < ids.len()
        invariant
            i <= ids.len(),
            set@ == old(set)@.union(ids@.take(i as int).to_set()),
        decreases ids.len() - i,
    {
        set.insert(ids[i]);
        proof {
            let before = ids@.take(i as int);
            let after = ids@.take(i + 1);
            assert(after =~= before.push(ids@[i as int]));
            assert forall|id: EntityId| after.to_set().contains(id) <==> before.to_set().contains(
                id,
            ) || id == ids@[i as int] by {
                lemma_push_contains(before, ids@[i as int], id);
            }
            assert(set@ =~= old(set)@.union(after.to_set()));
        }
        i += 1;
    }
    assert(ids@.take(ids@.len() as int) =~= ids@);
}

/// A sequence with `x` pushed holds what it held, and `x`.
proof fn lemma_push_contains(s: Seq<EntityId>, x: EntityId, id: EntityId)
    ensures
        s.push(x).to_set().contains(id) <==> s.to_set().contains(id) || id == x,
{
    let grown = s.push(x);
    if grown.contains(id) {
        let k = choose|k: int| 0 <= k < grown.len() && grown[k] == id;
        if k < s.len() {
            assert(s[k] == id);
            assert(s.contains(id));
        }
    }
    if s.contains(id) {
        let k = choose|k: int| 0 <= k < s.len() && s[k] == id;
        assert(grown[k] == id);
    }
    if id == x {
        assert(grown[s.len() as int] == id);
    }
}

/// Builds the record of each of the live entities `ids`.
fn serialize_all(ids: &Vec<EntityId>, map: &GameMap, full: bool) -> (values: Vec<WireValue>)
    requires
        forall|j: int| 0 <= j < ids@.len() ==> map.live().contains_key(#[trigger] ids@[j]),
    ensures
        models(values@) == records(ids@, *map, full),
{
    let mut values: Vec<WireValue> = Vec::new();
    let mut i: usize = 0;
    while i < ids.len()
        invariant
            i <= ids.len(),
            values@.len() == i,
            forall|j: int| 0 <= j < ids@.len() ==> map.live().contains_key(#[trigger] ids@[j]),
            forall|j: int|
                0 <= j < i ==> (#[trigger] values@[j])@ == map.live()[ids@[j]].serialized(
                    ids@[j],
                    full,
                ),
        decreases ids.len() - i,
    {
        let id = ids[i];
        assert(map.live().contains_key(ids@[i as int]));
        if let Some(entity) = map.entity_with_id(&id) {
            values.push(entity.serialize(id, full));
        }
        i += 1;
    }
    assert(models(values@) =~= records(ids@, *map, full));
    values
}

spec fn updated_rule(origin: MapIndex, map: GameMap) -> spec_fn(EntityId) -> bool {
    |id: EntityId| visible(origin, map, id) && map.live()[id].needs_update
}

spec fn disappeared_rule(origin: MapIndex, map: GameMap) -> spec_fn(EntityId) -> bool {
    |id: EntityId| map.live().contains_key(id) && !in_view(origin, map.live()[id].index)
}

spec fn destroyed_rule(map: GameMap) -> spec_fn(EntityId) -> bool {
    |id: EntityId| !map.live().contains_key(id) && map.gone().contains(id)
}

spec fn stale_rule(map: GameMap) -> spec_fn(EntityId) -> bool {
    |id: EntityId| !map.live().contains_key(id) && !map.gone().contains(id)
}

spec fn appeared_rule(watched: Set<EntityId>, origin: MapIndex, map: GameMap) -> spec_fn(
    EntityId,
) -> bool {
    |id: EntityId| !watched.contains(id) && in_view(origin, map.live()[id].index)
}

/// The game's side of one client: what the client watches, where it looks
/// from, and the player entity it controls, if any.
pub struct ClientHandle {
    watching_entities: HashSet<EntityId>,
    /// The point the client sees from. It follows the player while the
    /// player lives and stays where it was after that.
    spectating_index: MapIndex,
    /// The entity that the client controls.
    pub player_id: Option<EntityId>,
}

impl ClientHandle {
    /// The ids the client has been told of and not yet told are gone.
    pub closed spec fn watching(&self) -> Set<EntityId> {
        self.watching_entities@
    }

    /// The point the client sees from.
    pub closed spec fn spectating(&self) -> MapIndex {
        self.spectating_index
    }

    /// The entity that the client controls, if any.
    pub closed spec fn player(&self) -> Option<EntityId> {
        self.player_id
    }

    /// Binds the client to the entity it controls from now on.
    pub fn bind_player(&mut self, id: EntityId)
        ensures
            final(self).watching() == old(self).watching(),
            final(self).spectating() == old(self).spectating(),
            final(self).player() == Some(id),
    {
        self.player_id = Some(id);
    }

    /// The handle of a client that has just connected: it watches nothing,
    /// looks from the origin of the grid and controls no entity.
    pub fn new() -> (handle: ClientHandle)
        ensures
            handle.watching() == Set::<EntityId>::empty(),
            handle.spectating() == (MapIndex { x: 0, y: 0 }),
            handle.player() is None,
    {
        ClientHandle {
            watching_entities: HashSet::new(),
            spectating_index: MapIndex::new(0, 0),
            player_id: None,
        }
    }

    /// Whether the client watches `id`.
    pub fn is_watching(&self, id: EntityId) -> (watched: bool)
        ensures
            watched == self.watching().contains(id),
    {
        broadcast use group_hash_axioms;

        self.watching_entities.contains(&id)
    }

    /// The point the client sees from.
    pub fn spectating_index(&self) -> (index: MapIndex)
        ensures
            index == self.spectating(),
    {
        self.spectating_index
    }

    /// Forgets the player where that entity lives no more.
    pub fn validate_player_ids(&mut self, map: &GameMap)
        ensures
            final(self).watching() == old(self).watching(),
            final(self).spectating() == old(self).spectating(),
            final(self).player() == match old(self).player() {
                Some(id) if map.live().contains_key(id) => Some(id),
                _ => None,
            },
    {
        if let Some(id) = self.player_id {
            if map.entity_with_id(&id).is_none() {
                self.player_id = None;
            }
        }
    }

    /// Whether `index` is within view of `base`.
    pub fn index_in_range(&self, base: &MapIndex, index: &MapIndex) -> (seen: bool)
        ensures
            seen == in_view(*base, *index),
    {
        let dx: i128 = index.x as i128 - base.x as i128;
        let dy: i128 = index.y as i128 - base.y as i128;
        let range: i128 = VIEW_RANGE as i128;
        -range <= dx && dx <= range && -range <= dy && dy <= range
    }

    /// Moves the spectating point to the player, where the player lives.
    fn refresh_spectating(&mut self, map: &GameMap)
        ensures
            final(self).watching() == old(self).watching(),
            final(self).player() == old(self).player(),
            final(self).spectating() == origin_after(
                old(self).spectating(),
                old(self).player(),
                *map,
            ),
    {
        if let Some(id) = self.player_id {
            if let Some(player) = map.entity_with_id(&id) {
                self.spectating_index = player.index;
            }
        }
    }

    /// Sorts the watched ids into changed, out of view, destroyed and stale.
    fn scan_watched(&self, map: &GameMap) -> (lists: (
        Vec<EntityId>,
        Vec<EntityId>,
        Vec<EntityId>,
        Vec<EntityId>,
    ))
        ensures
            lists.0@.no_duplicates(),
            lists.1@.no_duplicates(),
            lists.2@.no_duplicates(),
            lists.3@.no_duplicates(),
            lists.0@.to_set() == updated_ids(self.watching(), self.spectating(), *map),
            lists.1@.to_set() == disappeared_ids(self.watching(), self.spectating(), *map),
            lists.2@.to_set() == destroyed_ids(self.watching(), *map),
            lists.3@.to_set() == stale_ids(self.watching(), *map),
    {
        broadcast use group_hash_axioms;

        let ids = members(&self.watching_entities);
        let mut updated: Vec<EntityId> = Vec::new();
        let mut disappeared: Vec<EntityId> = Vec::new();
        let mut destroyed: Vec<EntityId> = Vec::new();
        let mut stale: Vec<EntityId> = Vec::new();
        let ghost origin = self.spectating();
        let mut i: usize = 0;
        while i < ids.len()
            invariant
                i <= ids.len(),
                ids@.no_duplicates(),
                origin == self.spectating(),
                collects(updated@, ids@.take(i as int), updated_rule(origin, *map)),
                collects(disappeared@, ids@.take(i as int), disappeared_rule(origin, *map)),
                collects(destroyed@, ids@.take(i as int), destroyed_rule(*map)),
                collects(stale@, ids@.take(i as int), stale_rule(*map)),
            decreases ids.len() - i,
        {
            let id = ids[i];
            proof {
                lemma_collect_step(updated@, ids@, i as int, updated_rule(origin, *map));
                lemma_collect_step(disappeared@, ids@, i as int, disappeared_rule(origin, *map));
                lemma_collect_step(destroyed@, ids@, i as int, destroyed_rule(*map));
                lemma_collect_step(stale@, ids@, i as int, stale_rule(*map));
            }
            match map.entity_with_id(&id) {
                Some(entity) => {
                    if self.index_in_range(&self.spectating_index, &entity.index) {
                        if entity.needs_update {
                            updated.push(id);
                        }
                    } else {
                        disappeared.push(id);
                    }
                },
                None => {
                    if map.destroyed_entities().contains(&id) {
                        destroyed.push(id);
                    } else {
                        stale.push(id);
                    }
                },
            }
            i += 1;
        }
        proof {
            lemma_collect_done(updated@, ids@, updated_rule(origin, *map));
            lemma_collect_done(disappeared@, ids@, disappeared_rule(origin, *map));
            lemma_collect_done(destroyed@, ids@, destroyed_rule(*map));
            lemma_collect_done(stale@, ids@, stale_rule(*map));
            assert(updated@.to_set() =~= updated_ids(self.watching(), origin, *map));
            assert(disappeared@.to_set() =~= disappeared_ids(self.watching(), origin, *map));
            assert(destroyed@.to_set() =~= destroyed_ids(self.watching(), *map));
            assert(stale@.to_set() =~= stale_ids(self.watching(), *map));
        }
        (updated, disappeared, destroyed, stale)
    }

    /// Finds the live entities in view that the client does not watch yet.
    fn scan_live(&self, map: &GameMap) -> (appeared: Vec<EntityId>)
        ensures
            appeared@.no_duplicates(),
            appeared@.to_set() == appeared_ids(self.watching(), self.spectating(), *map),
    {
        broadcast use group_hash_axioms;

        let ids = live_ids(map.entities());
        let mut appeared: Vec<EntityId> = Vec::new();
        let ghost origin = self.spectating();
        let ghost watched = self.watching();
        let mut i: usize = 0;
        while i < ids.len()
            invariant
                i <= ids.len(),
                ids@.no_duplicates(),
                ids@.to_set() == map.live().dom(),
                origin == self.spectating(),
                watched == self.watching(),
                collects(appeared@, ids@.take(i as int), appeared_rule(watched, origin, *map)),
            decreases ids.len() - i,
        {
            let id = ids[i];
            proof {
                lemma_collect_step(appeared@, ids@, i as int, appeared_rule(watched, origin, *map));
                assert(ids@.to_set().contains(id));
            }
            if !self.watching_entities.contains(&id) {
                if let Some(entity) = map.entity_with_id(&id) {
                    if self.index_in_range(&self.spectating_index, &entity.index) {
                        appeared.push(id);
                    }
                }
            }
            i += 1;
        }
        proof {
            lemma_collect_done(appeared@, ids@, appeared_rule(watched, origin, *map));
            assert(appeared@.to_set() =~= appeared_ids(watched, origin, *map));
        }
        appeared
    }

    /// Runs one tick for this client. The spectating point follows the
    /// player; the watched ids are sorted into changed, out of view,
    /// destroyed and stale; the entities that came into view are found; and
    /// the watched set becomes exactly the entities in view.
    pub fn synchronize(&mut self, map: &GameMap) -> (delta: Delta)
        ensures
            final(self).player() == old(self).player(),
            final(self).spectating() == origin_after(
                old(self).spectating(),
                old(self).player(),
                *map,
            ),
            delta.describes(old(self).watching(), final(self).spectating(), *map),
            final(self).watching() == watched_after(final(self).spectating(), *map),
    {
        self.refresh_spectating(map);
        let (updated, disappeared, destroyed, stale) = self.scan_watched(map);
        let appeared = self.scan_live(map);
        remove_all(&mut self.watching_entities, &disappeared);
        remove_all(&mut self.watching_entities, &destroyed);
        remove_all(&mut self.watching_entities, &stale);
        insert_all(&mut self.watching_entities, &appeared);
        assert(self.watching() =~= watched_after(self.spectating(), *map));
        Delta { appeared, updated, disappeared, destroyed, stale }
    }

    /// Runs one tick for this client and builds the update to send: the
    /// watched set is brought up to date as `synchronize` does, and the
    /// payload reports what that found.
    pub fn build_update_message(&mut self, map: &GameMap) -> (update: Update)
        ensures
            final(self).player() == old(self).player(),
            final(self).spectating() == origin_after(
                old(self).spectating(),
                old(self).player(),
                *map,
            ),
            final(self).watching() == watched_after(final(self).spectating(), *map),
            update.delta.describes(old(self).watching(), final(self).spectating(), *map),
            update.reports(*map),
    {
        let delta = self.synchronize(map);
        proof {
            let origin = self.spectating();
            let watched = old(self).watching();
            assert forall|j: int| 0 <= j < delta.appeared@.len() implies map.live().contains_key(
                #[trigger] delta.appeared@[j],
            ) by {
                assert(delta.appeared@.to_set().contains(delta.appeared@[j]));
                assert(appeared_ids(watched, origin, *map).contains(delta.appeared@[j]));
            }
            assert forall|j: int| 0 <= j < delta.updated@.len() implies map.live().contains_key(
                #[trigger] delta.updated@[j],
            ) by {
                assert(delta.updated@.to_set().contains(delta.updated@[j]));
                assert(updated_ids(watched, origin, *map).contains(delta.updated@[j]));
            }
        }
        let payload = UpdatePayload {
            map_size: map.map_size(),
            appeared: serialize_all(&delta.appeared, map, true),
            updated: serialize_all(&delta.updated, map, false),
            disappeared: slice_to_vec(delta.disappeared.as_slice()),
            destroyed: slice_to_vec(delta.destroyed.as_slice()),
        };
        Update { payload, delta }
    }
}

/// After a tick a client watches an entity if and only if the entity is
/// alive and within view range of the spectating point, on both axes.
pub proof fn law_watched_is_visible(origin: MapIndex, map: GameMap, id: EntityId)
    ensures
        watched_after(origin, map).contains(id) <==> map.live().contains_key(id) && {
            let at = map.live()[id].index;
            &&& -VIEW_RANGE <= at.x - origin.x <= VIEW_RANGE
            &&& -VIEW_RANGE <= at.y - origin.y <= VIEW_RANGE
        },
{
}

/// The watched set after a tick is the watched set before it, without what
/// the tick found out of view, destroyed or stale, and with what it found
/// newly in view: a client watches what it was told has appeared and was not
/// told is gone.
pub proof fn law_watched_bookkeeping(watched: Set<EntityId>, origin: MapIndex, map: GameMap)
    ensures
        watched_after(origin, map) == watched.difference(
            disappeared_ids(watched, origin, map),
        ).difference(destroyed_ids(watched, map)).difference(stale_ids(watched, map)).union(
            appeared_ids(watched, origin, map),
        ),
{
    assert(watched_after(origin, map) =~= watched.difference(
        disappeared_ids(watched, origin, map),
    ).difference(destroyed_ids(watched, map)).difference(stale_ids(watched, map)).union(
        appeared_ids(watched, origin, map),
    ));
}

/// A list whose ids form the empty set is empty.
proof fn lemma_empty_list(list: Seq<EntityId>)
    requires
        list.to_set() == Set::<EntityId>::empty(),
    ensures
        list.len() == 0,
{
    if list.len() > 0 {
        assert(list.to_set().contains(list[0]));
    }
}

/// A second tick, with nothing changed since the first and no entity in
/// view waiting to be reported as changed, finds nothing: the spectating
/// point stays, the watched set stays, and every list of the second tick is
/// empty. `second` is whatever the second tick found.
pub proof fn law_second_tick_is_quiet(
    watched: Set<EntityId>,
    origin: MapIndex,
    player: Option<EntityId>,
    map: GameMap,
    second: Delta,
)
    requires
        forall|id: EntityId|
            visible(origin_after(origin, player, map), map, id) ==> !map.live()[id].needs_update,
        second.describes(
            watched_after(origin_after(origin, player, map), map),
            origin_after(origin_after(origin, player, map), player, map),
            map,
        ),
    ensures
        origin_after(origin_after(origin, player, map), player, map) == origin_after(
            origin,
            player,
            map,
        ),
        watched_after(origin_after(origin_after(origin, player, map), player, map), map)
            == watched_after(origin_after(origin, player, map), map),
        second.is_quiet(),
        second.stale@.len() == 0,
{
    let first_origin = origin_after(origin, player, map);
    let first_watched = watched_after(first_origin, map);
    assert(origin_after(first_origin, player, map) == first_origin);
    assert(appeared_ids(first_watched, first_origin, map) =~= Set::<EntityId>::empty());
    assert(updated_ids(first_watched, first_origin, map) =~= Set::<EntityId>::empty());
    assert(disappeared_ids(first_watched, first_origin, map) =~= Set::<EntityId>::empty());
    assert(destroyed_ids(first_watched, map) =~= Set::<EntityId>::empty());
    assert(stale_ids(first_watched, map) =~= Set::<EntityId>::empty());
    lemma_empty_list(second.appeared@);
    lemma_empty_list(second.updated@);
    lemma_empty_list(second.disappeared@);
    lemma_empty_list(second.destroyed@);
    lemma_empty_list(second.stale@);
}

/// A watched id that is neither alive nor in the registry of destroyed ids
/// is found stale, stands on none of the lists that are sent, and is
/// watched no more after the tick.
pub proof fn law_stale_is_dropped(
    watched: Set<EntityId>,
    origin: MapIndex,
    map: GameMap,
    id: EntityId,
)
    requires
        watched.contains(id),
        !map.live().contains_key(id),
        !map.gone().contains(id),
    ensures
        stale_ids(watched, map).contains(id),
        !appeared_ids(watched, origin, map).contains(id),
        !updated_ids(watched, origin, map).contains(id),
        !disappeared_ids(watched, origin, map).contains(id),
        !destroyed_ids(watched, map).contains(id),
        !watched_after(origin, map).contains(id),
{
}

} // verus!
