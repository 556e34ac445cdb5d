use phaneron_switcher::string_map::StringMap;

fn s(text: &str) -> String {
    text.to_string()
}

#[test]
fn new_map_is_empty() {
    let m: StringMap<u32> = StringMap::new();
    assert_eq!(m.len(), 0);
    assert!(m.get(&s("a")).is_none());
    assert!(!m.contains_key(&s("a")));
}

#[test]
fn get_returns_what_insert_wrote() {
    let mut m: StringMap<u32> = StringMap::new();
    m.insert(s("a"), 1);
    m.insert(s("b"), 2);
    assert_eq!(m.get(&s("a")), Some(&1));
    assert_eq!(m.get(&s("b")), Some(&2));
    assert_eq!(m.get(&s("c")), None);
    assert!(m.contains_key(&s("b")));
    assert_eq!(m.len(), 2);
}

#[test]
fn insert_replaces_and_keeps_place() {
    let mut m: StringMap<u32> = StringMap::new();
    m.insert(s("a"), 1);
    m.insert(s("b"), 2);
    m.insert(s("a"), 3);
    assert_eq!(m.len(), 2);
    assert_eq!(m.get(&s("a")), Some(&3));
    assert_eq!(m.get(&s("b")), Some(&2));
    let (k0, v0) = m.entry_at(0);
    assert_eq!(k0, "a");
    assert_eq!(*v0, 3);
    let (k1, v1) = m.entry_at(1);
    assert_eq!(k1, "b");
    assert_eq!(*v1, 2);
}

#[test]
fn new_keys_are_visited_last() {
    let mut m: StringMap<String> = StringMap::new();
    m.insert(s("z"), s("1"));
    m.insert(s("y"), s("2"));
    m.insert(s("x"), s("3"));
    let keys: Vec<&String> = (0..m.len()).map(|i| m.entry_at(i).0).collect();
    assert_eq!(keys, vec!["z", "y", "x"]);
}
