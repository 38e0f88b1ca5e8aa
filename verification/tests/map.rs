use world_sync::map::{Entity, GameMap, MapIndex, MapSize};
use world_sync::wire::value::WireValue;

fn plain(x: i64, y: i64) -> Entity {
    Entity::new(MapIndex::new(x, y), WireValue::Unsigned(1), WireValue::Nil)
}

#[test]
fn a_new_map_is_empty() {
    let map = GameMap::new(MapSize { width: 3, height: 4 });
    assert!(map.entities().is_empty());
    assert!(map.destroyed_entities().is_empty());
    assert_eq!(map.map_size(), MapSize { width: 3, height: 4 });
    assert!(map.entity_with_id(&0).is_none());
}

#[test]
fn ids_are_given_out_once() {
    let mut map = GameMap::new(MapSize { width: 3, height: 4 });
    let a = map.spawn(plain(0, 0)).unwrap();
    let b = map.spawn(plain(1, 0)).unwrap();
    assert_eq!(a, 0);
    assert_eq!(b, 1);
    assert!(map.destroy(a));
    let c = map.spawn(plain(2, 0)).unwrap();
    assert_eq!(c, 2);
    assert_eq!(map.entities().len(), 2);
}

#[test]
fn entity_with_id_finds_the_live_ones() {
    let mut map = GameMap::new(MapSize { width: 3, height: 4 });
    let a = map.spawn(plain(7, -2)).unwrap();
    assert_eq!(*map.entity_with_id(&a).unwrap().index(), MapIndex::new(7, -2));
    assert!(!map.entity_with_id(&a).unwrap().needs_update());
    assert!(map.entity_with_id(&(a + 1)).is_none());
}

#[test]
fn destroy_moves_the_id_to_the_registry() {
    let mut map = GameMap::new(MapSize { width: 3, height: 4 });
    let a = map.spawn(plain(0, 0)).unwrap();
    assert!(map.destroy(a));
    assert!(map.entity_with_id(&a).is_none());
    assert!(map.destroyed_entities().contains(&a));
    assert!(!map.destroy(a));
    assert!(!map.destroy(99));
    assert!(!map.destroyed_entities().contains(&99));
}

#[test]
fn forget_destroyed_empties_the_registry() {
    let mut map = GameMap::new(MapSize { width: 3, height: 4 });
    let a = map.spawn(plain(0, 0)).unwrap();
    let b = map.spawn(plain(0, 0)).unwrap();
    assert!(map.destroy(a));
    map.forget_destroyed();
    assert!(map.destroyed_entities().is_empty());
    assert!(map.entity_with_id(&b).is_some());
}

#[test]
fn update_replaces_only_live_entities() {
    let mut map = GameMap::new(MapSize { width: 3, height: 4 });
    let a = map.spawn(plain(0, 0)).unwrap();
    assert!(map.update(a, plain(5, 5)));
    assert_eq!(map.entity_with_id(&a).unwrap().index, MapIndex::new(5, 5));
    assert!(!map.update(a + 1, plain(1, 1)));
    assert_eq!(map.entities().len(), 1);
}

#[test]
fn serialize_gives_the_record() {
    let entity = Entity::new(
        MapIndex::new(0, 0),
        WireValue::String("all".to_string()),
        WireValue::String("some".to_string()),
    );
    assert_eq!(
        entity.serialize(9, true),
        WireValue::Array(vec![WireValue::Unsigned(9), WireValue::String("all".to_string())])
    );
    assert_eq!(
        entity.serialize(9, false),
        WireValue::Array(vec![WireValue::Unsigned(9), WireValue::String("some".to_string())])
    );
}

#[test]
fn map_size_on_the_wire() {
    let size = MapSize { width: 640, height: 480 };
    assert_eq!(
        size.to_value(),
        WireValue::Array(vec![WireValue::Unsigned(640), WireValue::Unsigned(480)])
    );
}
