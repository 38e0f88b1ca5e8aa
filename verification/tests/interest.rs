use world_sync::interest::{ClientHandle, VIEW_RANGE};
use world_sync::map::{Entity, EntityId, GameMap, MapIndex, MapSize};
use world_sync::wire::envelope::UpdatePayload;
use world_sync::wire::value::WireValue;

fn text(s: &str) -> WireValue {
    WireValue::String(s.to_string())
}

fn entity_at(x: i64, y: i64) -> Entity {
    Entity::new(MapIndex::new(x, y), text("full"), text("partial"))
}

fn dirty_entity_at(x: i64, y: i64) -> Entity {
    let mut entity = entity_at(x, y);
    entity.needs_update = true;
    entity
}

fn small_map() -> GameMap {
    GameMap::new(MapSize { width: 64, height: 48 })
}

fn sorted(mut ids: Vec<EntityId>) -> Vec<EntityId> {
    ids.sort();
    ids
}

fn record(id: EntityId, body: &str) -> WireValue {
    WireValue::Array(vec![WireValue::Unsigned(id), text(body)])
}

#[test]
fn view_range_is_fifteen() {
    assert_eq!(VIEW_RANGE, 15);
}

#[test]
fn boundary_of_the_view_range() {
    let handle = ClientHandle::new();
    let origin = MapIndex::new(0, 0);
    assert!(handle.index_in_range(&origin, &MapIndex::new(15, 0)));
    assert!(!handle.index_in_range(&origin, &MapIndex::new(16, 0)));
    assert!(handle.index_in_range(&origin, &MapIndex::new(-15, 0)));
    assert!(!handle.index_in_range(&origin, &MapIndex::new(-16, 0)));
    assert!(handle.index_in_range(&origin, &MapIndex::new(0, 15)));
    assert!(!handle.index_in_range(&origin, &MapIndex::new(0, 16)));
    assert!(handle.index_in_range(&origin, &MapIndex::new(0, -15)));
    assert!(!handle.index_in_range(&origin, &MapIndex::new(0, -16)));
}

#[test]
fn view_range_is_a_square_not_a_circle() {
    let handle = ClientHandle::new();
    let origin = MapIndex::new(0, 0);
    assert!(handle.index_in_range(&origin, &MapIndex::new(15, 15)));
    assert!(handle.index_in_range(&origin, &MapIndex::new(-15, 15)));
    assert!(!handle.index_in_range(&origin, &MapIndex::new(15, 16)));
}

#[test]
fn view_range_around_another_base() {
    let handle = ClientHandle::new();
    let base = MapIndex::new(100, -40);
    assert!(handle.index_in_range(&base, &MapIndex::new(115, -55)));
    assert!(handle.index_in_range(&base, &MapIndex::new(85, -25)));
    assert!(!handle.index_in_range(&base, &MapIndex::new(116, -40)));
    assert!(!handle.index_in_range(&base, &MapIndex::new(100, -56)));
}

#[test]
fn view_range_at_the_ends_of_the_grid() {
    let handle = ClientHandle::new();
    let low = MapIndex::new(i64::MIN, i64::MIN);
    let high = MapIndex::new(i64::MAX, i64::MAX);
    assert!(!handle.index_in_range(&low, &high));
    assert!(!handle.index_in_range(&high, &low));
    assert!(handle.index_in_range(&high, &MapIndex::new(i64::MAX - 15, i64::MAX)));
    assert!(!handle.index_in_range(&high, &MapIndex::new(i64::MAX - 16, i64::MAX)));
    assert!(handle.index_in_range(&low, &MapIndex::new(i64::MIN + 15, i64::MIN)));
}

#[test]
fn a_new_handle_watches_nothing() {
    let handle = ClientHandle::new();
    assert_eq!(handle.spectating_index(), MapIndex::new(0, 0));
    assert_eq!(handle.player_id, None);
    assert!(!handle.is_watching(0));
}

#[test]
fn first_tick_reports_what_is_in_view() {
    let mut map = small_map();
    let near = map.spawn(entity_at(15, 0)).unwrap();
    let far = map.spawn(entity_at(16, 0)).unwrap();
    let mut handle = ClientHandle::new();
    let update = handle.build_update_message(&map);
    assert_eq!(update.delta.appeared, vec![near]);
    assert!(update.delta.updated.is_empty());
    assert!(update.delta.disappeared.is_empty());
    assert!(update.delta.destroyed.is_empty());
    assert!(update.delta.stale.is_empty());
    assert!(handle.is_watching(near));
    assert!(!handle.is_watching(far));
}

#[test]
fn the_payload_carries_the_records() {
    let mut map = small_map();
    let id = map.spawn(entity_at(1, 1)).unwrap();
    let mut handle = ClientHandle::new();
    let update = handle.build_update_message(&map);
    assert_eq!(
        update.payload,
        UpdatePayload {
            map_size: MapSize { width: 64, height: 48 },
            appeared: vec![record(id, "full")],
            updated: vec![],
            disappeared: vec![],
            destroyed: vec![],
        }
    );
}

#[test]
fn watched_after_a_tick_is_exactly_what_is_in_view() {
    let mut map = small_map();
    let mut expected = Vec::new();
    let mut others = Vec::new();
    for x in -20i64..=20 {
        let id = map.spawn(entity_at(x, 2 * x)).unwrap();
        if x.abs() <= 15 && (2 * x).abs() <= 15 {
            expected.push(id);
        } else {
            others.push(id);
        }
    }
    let mut handle = ClientHandle::new();
    let update = handle.build_update_message(&map);
    assert_eq!(sorted(update.delta.appeared), expected);
    for id in expected {
        assert!(handle.is_watching(id));
    }
    for id in others {
        assert!(!handle.is_watching(id));
    }
}

#[test]
fn second_tick_without_change_is_quiet() {
    let mut map = small_map();
    let a = map.spawn(entity_at(3, 4)).unwrap();
    let b = map.spawn(entity_at(-7, 9)).unwrap();
    map.spawn(entity_at(40, 40)).unwrap();
    let mut handle = ClientHandle::new();
    handle.build_update_message(&map);
    let second = handle.build_update_message(&map);
    assert!(second.delta.appeared.is_empty());
    assert!(second.delta.updated.is_empty());
    assert!(second.delta.disappeared.is_empty());
    assert!(second.delta.destroyed.is_empty());
    assert!(second.delta.stale.is_empty());
    assert!(second.payload.appeared.is_empty());
    assert!(second.payload.updated.is_empty());
    assert!(handle.is_watching(a));
    assert!(handle.is_watching(b));
}

#[test]
fn an_entity_that_stays_changed_is_reported_each_tick() {
    let mut map = small_map();
    let id = map.spawn(dirty_entity_at(1, 1)).unwrap();
    let mut handle = ClientHandle::new();
    let first = handle.build_update_message(&map);
    assert_eq!(first.delta.appeared, vec![id]);
    assert!(first.delta.updated.is_empty());
    let second = handle.build_update_message(&map);
    assert_eq!(second.delta.updated, vec![id]);
    assert_eq!(second.payload.updated, vec![record(id, "partial")]);
    assert!(second.delta.appeared.is_empty());
}

#[test]
fn a_watched_entity_that_is_clean_adds_nothing() {
    let mut map = small_map();
    let id = map.spawn(entity_at(1, 1)).unwrap();
    let mut handle = ClientHandle::new();
    handle.build_update_message(&map);
    assert!(map.update(id, entity_at(2, 2)));
    let update = handle.build_update_message(&map);
    assert!(update.delta.updated.is_empty());
    assert!(handle.is_watching(id));
}

#[test]
fn an_entity_that_leaves_the_view_disappears() {
    let mut map = small_map();
    let id = map.spawn(entity_at(15, 0)).unwrap();
    let mut handle = ClientHandle::new();
    handle.build_update_message(&map);
    assert!(map.update(id, dirty_entity_at(16, 0)));
    let update = handle.build_update_message(&map);
    assert_eq!(update.delta.disappeared, vec![id]);
    assert_eq!(update.payload.disappeared, vec![id]);
    assert!(update.delta.updated.is_empty());
    assert!(!handle.is_watching(id));
    assert!(map.update(id, entity_at(15, 0)));
    let back = handle.build_update_message(&map);
    assert_eq!(back.delta.appeared, vec![id]);
}

#[test]
fn a_destroyed_entity_is_reported_once() {
    let mut map = small_map();
    let id = map.spawn(entity_at(0, 0)).unwrap();
    let mut handle = ClientHandle::new();
    handle.build_update_message(&map);
    assert!(map.destroy(id));
    let update = handle.build_update_message(&map);
    assert_eq!(update.delta.destroyed, vec![id]);
    assert_eq!(update.payload.destroyed, vec![id]);
    assert!(update.delta.disappeared.is_empty());
    assert!(update.delta.stale.is_empty());
    assert!(!handle.is_watching(id));
    let next = handle.build_update_message(&map);
    assert!(next.delta.destroyed.is_empty());
}

#[test]
fn a_stale_reference_is_dropped_and_listed_for_the_log() {
    let mut map = small_map();
    let id = map.spawn(entity_at(0, 0)).unwrap();
    let other = map.spawn(entity_at(1, 0)).unwrap();
    let mut handle = ClientHandle::new();
    handle.build_update_message(&map);
    assert!(map.destroy(id));
    map.forget_destroyed();
    let update = handle.build_update_message(&map);
    assert_eq!(update.delta.stale, vec![id]);
    assert!(update.delta.appeared.is_empty());
    assert!(update.delta.updated.is_empty());
    assert!(update.delta.disappeared.is_empty());
    assert!(update.delta.destroyed.is_empty());
    assert!(update.payload.disappeared.is_empty());
    assert!(update.payload.destroyed.is_empty());
    assert!(!handle.is_watching(id));
    assert!(handle.is_watching(other));
    let next = handle.build_update_message(&map);
    assert!(next.delta.stale.is_empty());
}

#[test]
fn the_view_follows_the_player() {
    let mut map = small_map();
    let player = map.spawn(entity_at(100, 100)).unwrap();
    let neighbour = map.spawn(entity_at(110, 95)).unwrap();
    let at_origin = map.spawn(entity_at(0, 0)).unwrap();
    let mut handle = ClientHandle::new();
    handle.bind_player(player);
    let update = handle.build_update_message(&map);
    assert_eq!(handle.spectating_index(), MapIndex::new(100, 100));
    assert_eq!(sorted(update.delta.appeared), vec![player, neighbour]);
    assert!(!handle.is_watching(at_origin));
}

#[test]
fn the_view_stays_where_the_player_died() {
    let mut map = small_map();
    let player = map.spawn(entity_at(100, 100)).unwrap();
    let neighbour = map.spawn(entity_at(110, 95)).unwrap();
    let mut handle = ClientHandle::new();
    handle.player_id = Some(player);
    handle.build_update_message(&map);
    assert!(map.destroy(player));
    let update = handle.build_update_message(&map);
    assert_eq!(handle.spectating_index(), MapIndex::new(100, 100));
    assert_eq!(update.delta.destroyed, vec![player]);
    assert!(handle.is_watching(neighbour));
    assert_eq!(handle.player_id, Some(player));
}

#[test]
fn validate_player_ids_forgets_a_dead_player() {
    let mut map = small_map();
    let player = map.spawn(entity_at(5, 5)).unwrap();
    let mut handle = ClientHandle::new();
    handle.bind_player(player);
    handle.validate_player_ids(&map);
    assert_eq!(handle.player_id, Some(player));
    assert!(map.destroy(player));
    handle.validate_player_ids(&map);
    assert_eq!(handle.player_id, None);
    handle.validate_player_ids(&map);
    assert_eq!(handle.player_id, None);
}

#[test]
fn synchronize_gives_the_delta_alone() {
    let mut map = small_map();
    let id = map.spawn(entity_at(0, 1)).unwrap();
    let mut handle = ClientHandle::new();
    let delta = handle.synchronize(&map);
    assert_eq!(delta.appeared, vec![id]);
    assert!(handle.is_watching(id));
}

#[test]
fn lists_hold_no_id_twice() {
    let mut map = small_map();
    for i in 0..50i64 {
        map.spawn(dirty_entity_at(i % 10, i / 10)).unwrap();
    }
    let mut handle = ClientHandle::new();
    let first = handle.build_update_message(&map);
    let mut appeared = first.delta.appeared.clone();
    appeared.sort();
    appeared.dedup();
    assert_eq!(appeared.len(), 50);
    let second = handle.build_update_message(&map);
    let mut updated = second.delta.updated.clone();
    updated.sort();
    updated.dedup();
    assert_eq!(updated.len(), 50);
}
