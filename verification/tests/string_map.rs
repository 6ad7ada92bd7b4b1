use cli_terminal::input::macros::MacroManager;
use cli_terminal::string_map::StringMap;

#[test]
fn string_map_insert_then_get() {
    let mut m = StringMap::new();
    assert!(m.is_empty());
    m.insert("F2".to_string(), "status".to_string());
    assert_eq!(m.get("F2"), Some("status"));
    assert_eq!(m.get("F3"), None);
    assert_eq!(m.len(), 1);
}

#[test]
fn string_map_insert_overwrites_in_place() {
    let mut m = StringMap::new();
    m.insert("a".to_string(), "1".to_string());
    m.insert("b".to_string(), "2".to_string());
    m.insert("a".to_string(), "3".to_string());
    assert_eq!(m.len(), 2);
    assert_eq!(m.get("a"), Some("3"));
    let keys: Vec<&str> = m.entries().iter().map(|(k, _)| k.as_str()).collect();
    assert_eq!(keys, vec!["a", "b"]);
}

#[test]
fn string_map_extend_other_wins() {
    let mut m = StringMap::new();
    m.insert("a".to_string(), "1".to_string());
    m.insert("b".to_string(), "2".to_string());
    let mut other = StringMap::new();
    other.insert("b".to_string(), "20".to_string());
    other.insert("c".to_string(), "30".to_string());
    m.extend(other);
    assert_eq!(m.get("a"), Some("1"));
    assert_eq!(m.get("b"), Some("20"));
    assert_eq!(m.get("c"), Some("30"));
    assert_eq!(m.len(), 3);
}

#[test]
fn string_map_clone_is_equal() {
    let mut m = StringMap::new();
    m.insert("x".to_string(), "y".to_string());
    let c = m.clone();
    assert_eq!(c.get("x"), Some("y"));
    assert_eq!(c.len(), 1);
}

#[test]
fn macros_resolve_and_update() {
    let mut b = StringMap::new();
    b.insert("F2".to_string(), "status".to_string());
    let mut mm = MacroManager::new(b);
    assert_eq!(mm.get("F2"), Some("status"));
    assert_eq!(mm.get("F3"), None);
    let mut b2 = StringMap::new();
    b2.insert("F3".to_string(), "readvolt".to_string());
    mm.update(b2);
    assert_eq!(mm.get("F2"), None);
    assert_eq!(mm.get("F3"), Some("readvolt"));
}
