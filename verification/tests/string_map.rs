use warp_minio::string_map::StringMap;

#[test]
fn new_map_is_empty() {
    let map: StringMap<u32> = StringMap::new();
    assert_eq!(map.len(), 0);
    assert_eq!(map.get("a"), None);
    assert_eq!(map.position("a"), None);
}

#[test]
fn insert_then_get() {
    let mut map: StringMap<u32> = StringMap::new();
    assert_eq!(map.insert("a".to_string(), 1), None);
    assert_eq!(map.insert("b".to_string(), 2), None);
    assert_eq!(map.len(), 2);
    assert_eq!(map.get("a"), Some(&1));
    assert_eq!(map.get("b"), Some(&2));
    assert_eq!(map.get("c"), None);
}

#[test]
fn insert_of_a_stored_key_replaces_in_place() {
    let mut map: StringMap<u32> = StringMap::new();
    map.insert("a".to_string(), 1);
    map.insert("b".to_string(), 2);
    assert_eq!(map.insert("a".to_string(), 10), Some(1));
    assert_eq!(map.len(), 2);
    assert_eq!(map.position("a"), Some(0));
    assert_eq!(map.position("b"), Some(1));
    assert_eq!(map.get("a"), Some(&10));
    assert_eq!(map.key_at(0), "a");
    assert_eq!(*map.value_at(1), 2);
}

#[test]
fn keys_are_compared_exactly() {
    let mut map: StringMap<u32> = StringMap::new();
    map.insert("Key".to_string(), 1);
    assert_eq!(map.get("key"), None);
    assert_eq!(map.get("Key "), None);
    assert_eq!(map.get("Key"), Some(&1));
}

#[test]
fn value_mut_changes_the_stored_value() {
    let mut map: StringMap<u32> = StringMap::new();
    map.insert("a".to_string(), 1);
    *map.value_mut(0) = 5;
    assert_eq!(map.get("a"), Some(&5));
}
