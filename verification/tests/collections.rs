use kotlin_multiplatform_coverage::file_set::FileSet;
use kotlin_multiplatform_coverage::string_map::StringMap;

#[test]
fn file_set_holds_each_path_once_in_order() {
    let mut set = FileSet::new();
    assert!(set.is_empty());
    assert_eq!(set.len(), 0);
    assert!(set.insert("b".to_string()));
    assert!(set.insert("a".to_string()));
    assert!(!set.insert("b".to_string()));
    assert_eq!(set.len(), 2);
    assert!(!set.is_empty());
    assert!(set.contains("a"));
    assert!(!set.contains("c"));
    assert_eq!(set.position("a"), Some(1));
    assert_eq!(set.position("c"), None);
    assert_eq!(set.get(0), "b");
    assert_eq!(set.to_vec(), vec!["b".to_string(), "a".to_string()]);
    let again = FileSet::from_paths(&["x".to_string(), "y".to_string(), "x".to_string()]);
    assert_eq!(again.to_vec(), vec!["x".to_string(), "y".to_string()]);
}

#[test]
fn string_map_keeps_keys_in_order_of_first_insertion() {
    let mut map: StringMap<u32> = StringMap::new();
    assert!(map.is_empty());
    map.insert("one".to_string(), 1);
    map.insert("two".to_string(), 2);
    map.insert("one".to_string(), 11);
    assert_eq!(map.len(), 2);
    assert!(!map.is_empty());
    assert_eq!(map.get("one"), Some(&11));
    assert_eq!(map.get("two"), Some(&2));
    assert_eq!(map.get("three"), None);
    assert!(map.contains_key("two"));
    assert!(!map.contains_key("Two"));
    assert_eq!(map.position("two"), Some(1));
    assert_eq!(map.key_at(0), "one");
    assert_eq!(*map.value_at(0), 11);
    assert_eq!(map.replace_at(1, 22), 2);
    assert_eq!(map.get("two"), Some(&22));
    assert_eq!(map.key_at(1), "two");
}
