use loadtest::string_map::StringMap;

#[test]
fn new_map_is_empty() {
    let map = StringMap::new();
    assert!(map.is_empty());
    assert_eq!(map.len(), 0);
    assert!(map.entries().is_empty());
    assert_eq!(map.get(&"k".to_string()), None);
}

#[test]
fn insert_keeps_insertion_order() {
    let mut map = StringMap::new();
    assert_eq!(map.insert("b".to_string(), "2".to_string()), None);
    assert_eq!(map.insert("a".to_string(), "1".to_string()), None);
    assert_eq!(map.insert("c".to_string(), "3".to_string()), None);
    assert_eq!(map.len(), 3);
    assert!(!map.is_empty());
    let expected = vec![
        ("b".to_string(), "2".to_string()),
        ("a".to_string(), "1".to_string()),
        ("c".to_string(), "3".to_string()),
    ];
    assert_eq!(map.entries(), &expected);
}

#[test]
fn insert_replaces_the_value_of_a_present_key_in_place() {
    let mut map = StringMap::new();
    map.insert("a".to_string(), "1".to_string());
    map.insert("b".to_string(), "2".to_string());
    let replaced = map.insert("a".to_string(), "9".to_string());
    assert_eq!(replaced, Some("1".to_string()));
    assert_eq!(map.len(), 2);
    let expected = vec![("a".to_string(), "9".to_string()), ("b".to_string(), "2".to_string())];
    assert_eq!(map.entries(), &expected);
}

#[test]
fn get_finds_the_value_of_a_key() {
    let mut map = StringMap::new();
    map.insert("a".to_string(), "1".to_string());
    map.insert("b".to_string(), "2".to_string());
    assert_eq!(map.get(&"b".to_string()), Some(&"2".to_string()));
    assert_eq!(map.get(&"a".to_string()), Some(&"1".to_string()));
    assert_eq!(map.get(&"c".to_string()), None);
    assert_eq!(map.get(&"".to_string()), None);
}

#[test]
fn keys_stay_unique() {
    let mut map = StringMap::new();
    for round in 0..3 {
        for key in ["x", "y", "z"] {
            map.insert(key.to_string(), format!("{round}"));
        }
    }
    assert_eq!(map.len(), 3);
    let entries = map.entries();
    for first in 0..entries.len() {
        for second in (first + 1)..entries.len() {
            assert_ne!(entries[first].0, entries[second].0);
        }
    }
    assert_eq!(map.get(&"y".to_string()), Some(&"2".to_string()));
}

#[test]
fn clone_has_the_same_entries() {
    let mut map = StringMap::new();
    map.insert("a".to_string(), "1".to_string());
    map.insert("b".to_string(), "2".to_string());
    let copy = map.clone();
    assert_eq!(copy.entries(), map.entries());
    map.insert("c".to_string(), "3".to_string());
    assert_eq!(copy.len(), 2);
}

#[test]
fn empty_key_and_value_are_ordinary() {
    let mut map = StringMap::new();
    assert_eq!(map.insert(String::new(), String::new()), None);
    assert_eq!(map.get(&String::new()), Some(&String::new()));
    assert_eq!(map.insert(String::new(), "v".to_string()), Some(String::new()));
    assert_eq!(map.len(), 1);
}
