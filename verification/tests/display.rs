use cli_terminal::widgets::display::{DisplayWidget, OutputLine};

fn quiet() -> DisplayWidget {
    DisplayWidget::new("[%H:%M:%S]".to_string(), false)
}

#[test]
fn display_lines_in_order() {
    let mut d = quiet();
    assert!(d.is_empty());
    d.add_line("one".to_string());
    d.add_command("> ls".to_string());
    d.add_line("two".to_string());
    assert_eq!(d.len(), 3);
    assert_eq!(d.raw_lines(), vec!["one", "> ls", "two"]);
    assert!(!d.lines()[0].is_command);
    assert!(d.lines()[1].is_command);
    assert!(d.lines()[0].timestamp.is_none());
    assert!(d.lines()[1].timestamp.is_none());
}

#[test]
fn display_message_in_brackets() {
    let mut d = quiet();
    d.add_message("Config reloaded");
    assert_eq!(d.raw_lines(), vec!["[Config reloaded]"]);
    assert!(!d.lines()[0].is_command);
}

#[test]
fn display_command_closes_output_block() {
    let mut d = quiet();
    d.add_command("> a".to_string());
    d.add_line("out1".to_string());
    d.add_line("out2".to_string());
    d.add_line("out3".to_string());
    d.add_command("> b".to_string());
    let regions = d.collapse().regions();
    assert_eq!(regions.len(), 1);
    assert_eq!(regions[0].start, 1);
    assert_eq!(regions[0].end, 4);
    assert_eq!(regions[0].header, "out1");
    assert!(!regions[0].collapsed);
}

#[test]
fn display_single_line_block_not_collapsible() {
    let mut d = quiet();
    d.add_command("> a".to_string());
    d.add_line("only".to_string());
    d.add_command("> b".to_string());
    assert!(d.collapse().regions().is_empty());
}

#[test]
fn display_first_block_starts_at_zero() {
    let mut d = quiet();
    d.add_line("banner".to_string());
    d.add_line("ready".to_string());
    d.add_command("> go".to_string());
    let regions = d.collapse().regions();
    assert_eq!(regions.len(), 1);
    assert_eq!((regions[0].start, regions[0].end), (0, 2));
    assert_eq!(regions[0].header, "banner");
}

#[test]
fn display_header_is_first_forty_chars() {
    let mut d = quiet();
    d.add_command("> a".to_string());
    let long: String = "é".repeat(50);
    d.add_line(long);
    d.add_line("more".to_string());
    d.add_command("> b".to_string());
    let header = &d.collapse().regions()[0].header;
    assert_eq!(header.chars().count(), 40);
    assert_eq!(*header, "é".repeat(40));
}

#[test]
fn display_collapse_manager_toggles() {
    let mut d = quiet();
    d.add_command("> a".to_string());
    d.add_line("x".to_string());
    d.add_line("y".to_string());
    d.add_command("> b".to_string());
    assert_eq!(d.collapse_manager().toggle_last(), Some(true));
    assert!(d.collapse().is_hidden(2));
    assert_eq!(d.collapse().collapsed_header_at(1), Some("x"));
}

#[test]
fn display_export_text() {
    let mut d = quiet();
    d.add_command("> ls".to_string());
    d.add_line("a.txt".to_string());
    assert_eq!(d.export_text(), "> ls\na.txt\n");
    assert_eq!(quiet().export_text(), "");
}

#[test]
fn display_clear_resets() {
    let mut d = quiet();
    d.add_command("> a".to_string());
    d.add_line("x".to_string());
    d.add_line("y".to_string());
    d.add_command("> b".to_string());
    d.clear();
    assert!(d.is_empty());
    assert!(d.collapse().regions().is_empty());
    d.add_line("p".to_string());
    d.add_line("q".to_string());
    d.add_command("> c".to_string());
    assert_eq!(d.collapse().regions()[0].start, 0);
}

#[test]
fn display_timestamps_when_enabled() {
    let mut d = DisplayWidget::new("%H:%M".to_string(), true);
    assert!(d.add_line_checked("stamped".to_string()));
    let ts = d.lines()[0].timestamp.clone().unwrap();
    assert_eq!(ts.len(), 5);
    assert_eq!(&ts[2..3], ":");
    d.add_command("> cmd".to_string());
    assert!(d.lines()[1].timestamp.is_none());
}

#[test]
fn display_checked_refuses_bad_format() {
    let mut d = DisplayWidget::new("%Q".to_string(), true);
    assert!(!d.add_line_checked("x".to_string()));
    assert!(d.is_empty());
    let mut off = DisplayWidget::new("%Q".to_string(), false);
    assert!(off.add_line_checked("x".to_string()));
    assert_eq!(off.len(), 1);
}

#[test]
fn display_update_timestamp_settings_keeps_lines() {
    let mut d = quiet();
    d.add_line("x".to_string());
    d.update_timestamp_settings("%H".to_string(), true);
    assert_eq!(d.timestamp_format(), "%H");
    assert!(d.timestamp_enabled());
    assert_eq!(d.raw_lines(), vec!["x"]);
}

#[test]
fn output_line_constructors() {
    let l = OutputLine::new("x".to_string());
    assert!(!l.is_command && l.timestamp.is_none());
    let c = OutputLine::command("> y".to_string(), Some("t".to_string()));
    assert!(c.is_command);
    assert_eq!(c.timestamp.as_deref(), Some("t"));
}
