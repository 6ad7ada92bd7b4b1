use cli_terminal::output::collapse::CollapseManager;

#[test]
fn collapse_ids_count_up() {
    let mut m = CollapseManager::new();
    assert_eq!(m.add_region(0, 4, "first"), 0);
    assert_eq!(m.add_region(5, 9, "second"), 1);
    assert_eq!(m.regions().len(), 2);
    assert_eq!(m.regions()[1].header, "second");
    assert!(!m.regions()[0].collapsed);
}

#[test]
fn collapse_hides_lines_strictly_inside() {
    let mut m = CollapseManager::new();
    m.add_region(2, 5, "block");
    assert!(!m.is_hidden(3));
    assert_eq!(m.toggle(0), Some(true));
    assert!(!m.is_hidden(2));
    assert!(m.is_hidden(3));
    assert!(m.is_hidden(4));
    assert!(!m.is_hidden(5));
    assert_eq!(m.region_at(2), Some(0));
    assert_eq!(m.region_at(3), None);
    assert_eq!(m.collapsed_header_at(2), Some("block"));
    assert_eq!(m.collapsed_header_at(3), None);
}

#[test]
fn collapse_expanded_region_found_but_no_collapsed_header() {
    let mut m = CollapseManager::new();
    m.add_region(2, 5, "block");
    assert_eq!(m.region_at(2), Some(0));
    assert_eq!(m.collapsed_header_at(2), None);
}

#[test]
fn collapse_region_at_first_with_header_there() {
    let mut m = CollapseManager::new();
    m.add_region(1, 3, "one");
    m.add_region(1, 6, "two");
    m.toggle(1);
    assert_eq!(m.region_at(1), Some(0));
    assert_eq!(m.collapsed_header_at(1), Some("two"));
    assert_eq!(m.region_at(0), None);
}

#[test]
fn collapse_toggle_unknown_id() {
    let mut m = CollapseManager::new();
    assert_eq!(m.toggle(0), None);
    m.add_region(0, 3, "x");
    assert_eq!(m.toggle(1), None);
    assert!(!m.regions()[0].collapsed);
}

#[test]
fn collapse_toggle_twice_restores() {
    let mut m = CollapseManager::new();
    m.add_region(0, 3, "x");
    assert_eq!(m.toggle(0), Some(true));
    assert_eq!(m.toggle(0), Some(false));
    assert!(!m.regions()[0].collapsed);
    assert!(!m.is_hidden(1));
}

#[test]
fn collapse_toggle_last() {
    let mut m = CollapseManager::new();
    assert_eq!(m.toggle_last(), None);
    m.add_region(0, 3, "a");
    m.add_region(4, 8, "b");
    assert_eq!(m.toggle_last(), Some(true));
    assert!(m.regions()[1].collapsed);
    assert!(!m.regions()[0].collapsed);
    assert_eq!(m.toggle_last(), Some(false));
}

#[test]
fn collapse_first_collapsed_header_wins() {
    let mut m = CollapseManager::new();
    m.add_region(1, 3, "one");
    m.add_region(1, 6, "two");
    m.toggle(0);
    m.toggle(1);
    assert_eq!(m.region_at(1), Some(0));
    assert_eq!(m.collapsed_header_at(1), Some("one"));
    assert!(m.is_hidden(5));
}

#[test]
fn collapse_default_is_empty() {
    let m = CollapseManager::default();
    assert!(m.regions().is_empty());
    assert!(!m.is_hidden(0));
}
