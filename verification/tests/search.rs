use cli_terminal::output::search::SearchState;

#[test]
fn test_basic_search() {
    let mut search = SearchState::new();
    search.set_query("hello");
    search.execute(&[
        "hello world".to_string(),
        "goodbye".to_string(),
        "hello again".to_string(),
    ]);
    assert_eq!(search.match_count(), 2);
}

#[test]
fn test_no_match() {
    let mut search = SearchState::new();
    search.set_query("xyz");
    search.execute(&["hello world".to_string()]);
    assert_eq!(search.match_count(), 0);
    assert!(!search.active());
}

#[test]
fn test_empty_query() {
    let mut search = SearchState::new();
    search.set_query("");
    assert!(search.query().is_none());
}

#[test]
fn test_next_prev_match() {
    let mut search = SearchState::new();
    search.set_query("foo");
    search.execute(&[
        "foo bar".to_string(),
        "baz".to_string(),
        "foo baz".to_string(),
    ]);
    // After execute, current is at first match. next_match advances.
    assert_eq!(search.next_match(), Some(2)); // advances to second match
    assert_eq!(search.next_match(), Some(0)); // wraps around
    assert_eq!(search.prev_match(), Some(2)); // goes back
}

#[test]
fn test_is_match() {
    let mut search = SearchState::new();
    search.set_query("test");
    search.execute(&[
        "test line".to_string(),
        "no match".to_string(),
        "another test".to_string(),
    ]);
    assert!(search.is_match(0));
    assert!(!search.is_match(1));
    assert!(search.is_match(2));
}

#[test]
fn test_is_current_match() {
    let mut search = SearchState::new();
    search.set_query("foo");
    search.execute(&["foo bar".to_string(), "foo baz".to_string()]);
    // After execute, current is at first match (line 0).
    assert!(search.is_current_match(0));
    assert!(!search.is_current_match(1));
    search.next_match(); // advances to second match (line 1)
    assert!(!search.is_current_match(0));
    assert!(search.is_current_match(1));
}

#[test]
fn search_test_clear() {
    let mut search = SearchState::new();
    search.set_query("foo");
    search.execute(&["foo bar".to_string()]);
    search.clear();
    assert!(!search.active());
    assert_eq!(search.match_count(), 0);
}

#[test]
fn test_special_chars_escaped() {
    let mut search = SearchState::new();
    search.set_query("foo.bar");
    search.execute(&[
        "fooXbar".to_string(),
        "foo.bar".to_string(),
    ]);
    // Should only match the literal "foo.bar", not the regex pattern.
    assert_eq!(search.match_count(), 1);
}

#[test]
fn search_query_is_the_escaped_pattern() {
    let mut search = SearchState::new();
    search.set_query("a+b");
    assert_eq!(search.query(), Some("a\\+b"));
    search.execute(&["aab".to_string(), "a+b!".to_string()]);
    assert_eq!(search.current_match(), Some((1, "a+b!")));
}

#[test]
fn search_without_matches_moves_nowhere() {
    let mut search = SearchState::new();
    assert_eq!(search.next_match(), None);
    assert_eq!(search.prev_match(), None);
    search.set_query("q");
    search.execute(&["x".to_string()]);
    assert_eq!(search.next_match(), None);
    assert_eq!(search.current_match(), None);
}

#[test]
fn search_prev_from_start_wraps_to_last() {
    let mut search = SearchState::new();
    search.set_query("x");
    search.execute(&["x".to_string(), "y".to_string(), "x".to_string(), "x".to_string()]);
    assert_eq!(search.prev_match(), Some(3));
    assert_eq!(search.next_match(), Some(0));
}

#[test]
fn search_next_then_prev_returns() {
    let mut search = SearchState::new();
    search.set_query("m");
    search.execute(&["m1".to_string(), "m2".to_string(), "m3".to_string()]);
    for _ in 0..5 {
        let here = search.current_match().map(|m| m.0);
        search.next_match();
        search.prev_match();
        assert_eq!(search.current_match().map(|m| m.0), here);
        search.next_match();
    }
}

#[test]
fn search_execute_without_query_clears() {
    let mut search = SearchState::new();
    search.execute(&["anything".to_string()]);
    assert_eq!(search.match_count(), 0);
    assert!(!search.active());
}
