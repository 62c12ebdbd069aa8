use rust_extensions::linq::to_hash_map;

#[test]
fn to_hash_map_keeps_the_last_value_of_a_key() {
    let map = to_hash_map(vec![(1u64, "a"), (2, "b"), (1, "c")], |(key, value)| (key, value));
    assert_eq!(map.len(), 2);
    assert_eq!(map[&1], "c");
    assert_eq!(map[&2], "b");
}

#[test]
fn to_hash_map_of_no_items_is_empty() {
    let items: Vec<u32> = Vec::new();
    let map = to_hash_map(items, |item| (item, item * 2));
    assert!(map.is_empty());
}

#[test]
fn to_hash_map_maps_each_item() {
    let map = to_hash_map(vec!["one".to_string(), "three".to_string()], |item| {
        (item.len(), item)
    });
    assert_eq!(map[&3], "one");
    assert_eq!(map[&5], "three");
}
