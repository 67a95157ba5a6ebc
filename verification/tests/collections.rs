//! Tests of the keyed collections underlying the managers.

use mmoss::id_map::IdMap;
use mmoss::id_map::IdSet;

#[test]
fn id_map_insert_get_remove() {
    let mut map: IdMap<u32> = IdMap::new();
    assert!(map.is_empty());
    map.insert(1, 10);
    map.insert(2, 20);
    assert_eq!(map.len(), 2);
    assert_eq!(map.get(1), Some(&10));
    assert_eq!(map.get(2), Some(&20));
    assert_eq!(map.get(3), None);
    assert!(map.contains_key(1));
    assert!(!map.contains_key(3));
    assert_eq!(map.remove(1), Some(10));
    assert_eq!(map.remove(1), None);
    assert_eq!(map.len(), 1);
}

#[test]
fn id_map_insert_replaces_in_place() {
    let mut map: IdMap<u32> = IdMap::new();
    map.insert(1, 10);
    map.insert(2, 20);
    map.insert(1, 11);
    assert_eq!(map.len(), 2);
    assert_eq!(map.get(1), Some(&11));
    // The replaced entry keeps its position.
    assert_eq!(map.key_at(0), 1);
    assert_eq!(map.value_at(0), &11);
    assert_eq!(map.key_at(1), 2);
}

#[test]
fn id_set_insert_is_idempotent() {
    let mut set = IdSet::new();
    set.insert(5);
    set.insert(5);
    set.insert(5);
    assert_eq!(set.len(), 1);
    assert!(set.contains(5));
    assert!(!set.contains(6));
    set.insert(6);
    assert_eq!(set.len(), 2);
    assert_eq!(set.at(0), 5);
    assert_eq!(set.at(1), 6);
    set.clear();
    assert_eq!(set.len(), 0);
}
