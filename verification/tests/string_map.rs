use http_echo::string_map::StringMap;

fn pair(key: &str, value: &str) -> (String, String) {
    (key.to_string(), value.to_string())
}

#[test]
fn new_map_is_empty() {
    let map = StringMap::new();
    assert_eq!(map.len(), 0);
    assert_eq!(map.get(&"k".to_string()), None);
    assert!(map.entries().is_empty());
}

#[test]
fn insert_appends_a_new_key() {
    let mut map = StringMap::new();
    map.insert("a".to_string(), "1".to_string());
    map.insert("b".to_string(), "2".to_string());
    assert_eq!(map.entries(), &vec![pair("a", "1"), pair("b", "2")]);
    assert_eq!(map.get(&"b".to_string()), Some(&"2".to_string()));
}

#[test]
fn insert_replaces_in_place() {
    let mut map = StringMap::new();
    map.insert("a".to_string(), "1".to_string());
    map.insert("b".to_string(), "2".to_string());
    map.insert("a".to_string(), "3".to_string());
    assert_eq!(map.len(), 2);
    assert_eq!(map.entries(), &vec![pair("a", "3"), pair("b", "2")]);
    assert_eq!(map.get(&"a".to_string()), Some(&"3".to_string()));
}

#[test]
fn keys_are_compared_exactly() {
    let mut map = StringMap::new();
    map.insert("Key".to_string(), "1".to_string());
    map.insert("key".to_string(), "2".to_string());
    assert_eq!(map.len(), 2);
    assert_eq!(map.get(&"KEY".to_string()), None);
}

#[test]
fn from_pairs_lets_the_last_value_win() {
    let pairs = vec![pair("x", "1"), pair("y", "2"), pair("x", "3"), pair("z", ""), pair("y", "4")];
    let map = StringMap::from_pairs(&pairs);
    assert_eq!(map.entries(), &vec![pair("x", "3"), pair("y", "4"), pair("z", "")]);
}

#[test]
fn from_pairs_of_nothing_is_empty() {
    let map = StringMap::from_pairs(&Vec::new());
    assert_eq!(map.len(), 0);
}
