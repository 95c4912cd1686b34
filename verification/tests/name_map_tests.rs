use megs::logic::State;
use megs::name_map::NameMap;

#[test]
fn new_map_is_empty() {
    let map: NameMap<u32> = NameMap::new();
    assert_eq!(map.len(), 0);
    assert!(!map.contains_key("a"));
    assert_eq!(map.get("a"), None);
    assert!(map.keys().is_empty());
}

#[test]
fn last_write_wins() {
    let mut map: NameMap<u32> = NameMap::new();
    map.insert("a".to_string(), 1);
    map.insert("b".to_string(), 2);
    map.insert("a".to_string(), 3);
    assert_eq!(map.len(), 2);
    assert_eq!(map.get("a"), Some(&3));
    assert_eq!(map.get("b"), Some(&2));
    assert_eq!(map.get("c"), None);
    assert!(map.contains_key("b"));
    assert!(!map.contains_key("B"));
    let mut keys = map.keys();
    keys.sort();
    assert_eq!(keys, vec!["a", "b"]);
}

#[test]
fn value_is_changed_in_place() {
    let mut map: NameMap<State> = NameMap::new();
    map.insert("clock".to_string(), State::Undefined);
    map.insert("reset".to_string(), State::Low);
    *map.get_mut("clock").unwrap() = State::High;
    assert!(map.get_mut("enable").is_none());
    assert_eq!(map.get("clock"), Some(&State::High));
    assert_eq!(map.get("reset"), Some(&State::Low));
    assert_eq!(map.len(), 2);
}
