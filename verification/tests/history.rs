use cli_terminal::input::history::HistoryManager;

fn new_test_manager() -> HistoryManager {
    HistoryManager::new(10, None)
}

#[test]
fn test_add_and_search() {
    let mut hm = new_test_manager();
    hm.add("ls -la");
    hm.add("cargo build");
    hm.add("cargo test");
    let results = hm.search("cargo");
    assert_eq!(results.len(), 2);
}

#[test]
fn test_search_case_insensitive() {
    let mut hm = new_test_manager();
    hm.add("cargo build");
    let results = hm.search("CARGO");
    assert_eq!(results.len(), 1);
    assert_eq!(results[0], "cargo build");
}

#[test]
fn test_search_empty_query() {
    let mut hm = new_test_manager();
    hm.add("ls");
    let results = hm.search("");
    assert_eq!(results.len(), 1);
}

#[test]
fn test_search_no_match() {
    let mut hm = new_test_manager();
    hm.add("cargo build");
    let results = hm.search("python");
    assert_eq!(results.len(), 0);
}

#[test]
fn test_max_size() {
    let mut hm = HistoryManager::new(3, None);
    hm.add("cmd1");
    hm.add("cmd2");
    hm.add("cmd3");
    hm.add("cmd4");
    assert_eq!(hm.entries().len(), 3);
    assert_eq!(hm.entries()[0], "cmd2");
}

#[test]
fn test_add_empty_ignored() {
    let mut hm = new_test_manager();
    hm.add("");
    hm.add("   ");
    assert!(hm.entries().is_empty());
}

#[test]
fn test_last() {
    let mut hm = new_test_manager();
    assert!(hm.last().is_none());
    hm.add("first");
    hm.add("second");
    assert_eq!(hm.last(), Some("second"));
}

#[test]
fn history_test_clear() {
    let mut hm = new_test_manager();
    hm.add("cmd1");
    hm.add("cmd2");
    hm.clear();
    assert!(hm.entries().is_empty());
}

#[test]
fn history_capacity_zero_keeps_nothing() {
    let mut hm = HistoryManager::new(0, None);
    hm.add("cmd1");
    assert!(hm.entries().is_empty());
    assert!(hm.last().is_none());
}

#[test]
fn history_capacity_never_exceeded() {
    let mut hm = HistoryManager::new(2, None);
    for c in ["a", "b", "c", "d", "e"] {
        hm.add(c);
        assert!(hm.entries().len() <= 2);
        assert_eq!(hm.last(), Some(c));
    }
    assert_eq!(hm.entries(), &["d".to_string(), "e".to_string()]);
}

#[test]
fn history_whitespace_kinds_are_blank() {
    let mut hm = new_test_manager();
    hm.add("\t\n \u{3000}");
    assert!(hm.entries().is_empty());
    hm.add(" x ");
    assert_eq!(hm.entries().len(), 1);
    assert_eq!(hm.entries()[0], " x ");
}

#[test]
fn history_search_keeps_order_and_duplicates() {
    let mut hm = new_test_manager();
    hm.add("Make all");
    hm.add("ls");
    hm.add("make test");
    hm.add("Make all");
    let results = hm.search("mAKe");
    assert_eq!(results, vec!["Make all", "make test", "Make all"]);
}

#[test]
fn history_restore_keeps_loaded_entries() {
    let mut hm = HistoryManager::new(1, Some("/tmp/h.json".to_string()));
    hm.restore(vec!["a".to_string(), "b".to_string()]);
    assert_eq!(hm.entries().len(), 2);
    assert_eq!(hm.persist_path(), Some("/tmp/h.json"));
    hm.add("c");
    assert_eq!(hm.entries(), &["b".to_string(), "c".to_string()]);
}
