use egreet::namemap::NameMap;

#[test]
fn new_map_is_empty() {
    let map: NameMap<String> = NameMap::new();
    assert!(map.is_empty());
    assert_eq!(map.len(), 0);
    assert_eq!(map.get("a"), None);
    assert!(!map.contains_key("a"));
    assert!(map.names().is_empty());
}

#[test]
fn inserted_value_is_found() {
    let mut map: NameMap<u32> = NameMap::new();
    map.insert("one".to_string(), 1);
    map.insert("two".to_string(), 2);
    assert!(!map.is_empty());
    assert_eq!(map.len(), 2);
    assert_eq!(map.get("one"), Some(&1));
    assert_eq!(map.get("two"), Some(&2));
    assert_eq!(map.get("three"), None);
    assert!(map.contains_key("one"));
    assert!(!map.contains_key("On"));
    assert!(!map.contains_key("one "));
}

#[test]
fn later_value_replaces_the_earlier() {
    let mut map: NameMap<String> = NameMap::new();
    map.insert("Test".to_string(), "a".to_string());
    map.insert("Other".to_string(), "b".to_string());
    map.insert("Test".to_string(), "c".to_string());
    assert_eq!(map.len(), 2);
    assert_eq!(map.get("Test"), Some(&"c".to_string()));
    assert_eq!(map.get("Other"), Some(&"b".to_string()));
}

#[test]
fn names_are_listed_once_each() {
    let mut map: NameMap<u32> = NameMap::new();
    map.insert("b".to_string(), 1);
    map.insert("a".to_string(), 2);
    map.insert("b".to_string(), 3);
    map.insert("".to_string(), 4);
    let mut names = map.names();
    names.sort();
    assert_eq!(names, vec!["".to_string(), "a".to_string(), "b".to_string()]);
}

#[test]
fn empty_name_is_a_name() {
    let mut map: NameMap<Vec<String>> = NameMap::new();
    map.insert(String::new(), vec!["x".to_string()]);
    assert_eq!(map.len(), 1);
    assert_eq!(map.get(""), Some(&vec!["x".to_string()]));
}
