use cli_terminal::app::{AppState, Event, KeyCode, KeyInput, KeyMods, Mode};
use cli_terminal::config::manager::{AppConfig, ColorName, HighlightRule, TemplateConfig};
use cli_terminal::output::highlight::{plain_style, StyleSpec};
use cli_terminal::string_map::StringMap;
use cli_terminal::view::{
    decimal_string, input_view, output_rows, output_scroll, scroll_offset, status_line, template_menu, OutputRow,
};
use cli_terminal::widgets::input::InputBuffer;

fn template(label: &str) -> TemplateConfig {
    TemplateConfig { label: label.to_string(), command: label.to_string(), params: Vec::new() }
}

fn state(target: Option<&str>, highlights: Vec<HighlightRule>) -> AppState {
    let config = AppConfig {
        commands: StringMap::new(),
        macros: StringMap::new(),
        templates: vec![template("get_rcm"), template("update_rcm")],
        highlights,
        timestamp_format: "%H".to_string(),
        timestamp_enabled: false,
        history_max_size: 10,
        history_persist: false,
    };
    AppState::new(target.map(|t| t.to_string()), config, "h".to_string())
}

fn key(c: char) -> Event {
    Event::Key(KeyInput {
        code: KeyCode::Char(c),
        mods: KeyMods { control: false, shift: false, alt: false, other: false },
        release: false,
    })
}

fn texts(s: &AppState) -> Vec<String> {
    status_line(s).into_iter().map(|p| p.text).collect()
}

#[test]
fn view_decimal_string() {
    assert_eq!(decimal_string(0), "0");
    assert_eq!(decimal_string(7), "7");
    assert_eq!(decimal_string(1204), "1204");
}

#[test]
fn view_scroll_offset() {
    assert_eq!(scroll_offset(10, 3), 7);
    assert_eq!(scroll_offset(2, 5), 0);
    assert_eq!(scroll_offset(65541, 0), 5);
}

#[test]
fn view_status_line_normal() {
    let s = state(Some("prog"), Vec::new());
    let spans = status_line(&s);
    assert_eq!(texts(&s), vec![" NORMAL ", " | prog"]);
    assert_eq!(
        spans[0].style,
        StyleSpec { fg: Some(ColorName::Black), bg: Some(ColorName::Green), bold: true, underline: false }
    );
    assert_eq!(spans[1].style, plain_style());
    let s = state(None, Vec::new());
    assert_eq!(texts(&s), vec![" NORMAL "]);
}

#[test]
fn view_status_line_output_search() {
    let mut s = state(None, Vec::new());
    for line in ["abc", "xbx", "zzz"] {
        s.try_handle_event(Event::ChildOutput(line.to_string())).unwrap();
    }
    s.try_handle_event(key('/')).unwrap();
    assert_eq!(texts(&s), vec![" OUTPUT SEARCH ", " / "]);
    s.try_handle_event(key('b')).unwrap();
    assert_eq!(s.mode, Mode::OutputSearch);
    assert_eq!(texts(&s), vec![" OUTPUT SEARCH ", " /b ", "  (2 matches)"]);
    assert_eq!(status_line(&s)[1].style.fg, Some(ColorName::Yellow));
}

#[test]
fn view_status_line_history_search() {
    let mut s = state(Some("t"), Vec::new());
    s.try_handle_event(Event::Key(KeyInput {
        code: KeyCode::Char('r'),
        mods: KeyMods { control: true, shift: false, alt: false, other: false },
        release: false,
    }))
    .unwrap();
    assert_eq!(texts(&s), vec![" HISTORY SEARCH ", " ? ", "  (0 matches)", " | t"]);
}

#[test]
fn view_input_split_at_cursor() {
    let mut b = InputBuffer::new();
    for c in "héllo".chars() {
        b.insert(c);
    }
    let v = input_view(&b);
    assert_eq!(v.before, "héllo");
    assert_eq!(v.at_cursor, None);
    assert_eq!(v.after, "");
    b.move_home();
    b.move_right();
    let v = input_view(&b);
    assert_eq!(v.before, "h");
    assert_eq!(v.at_cursor, Some('é'));
    assert_eq!(v.after, "llo");
}

#[test]
fn view_output_rows_highlight_and_collapse() {
    let rule = HighlightRule {
        pattern: "ERR".to_string(),
        fg: Some(ColorName::Red),
        bg: None,
        bold: false,
        underline: false,
    };
    let mut s = state(None, vec![rule]);
    s.display.add_command("> a".to_string());
    s.display.add_line("ERR x".to_string());
    s.display.add_line("ok".to_string());
    s.display.add_command("> b".to_string());
    let rows = output_rows(&s);
    assert_eq!(rows.len(), 4);
    match &rows[1] {
        OutputRow::Line { index, spans } => {
            assert_eq!(*index, 1);
            assert_eq!(spans.len(), 2);
            assert_eq!((spans[0].start, spans[0].end), (0, 3));
            assert_eq!(spans[0].style.fg, Some(ColorName::Red));
            assert_eq!(spans[1].style, plain_style());
        },
        _ => panic!("expected a line"),
    }
    s.display.collapse_manager().toggle_last();
    let rows = output_rows(&s);
    assert_eq!(rows.len(), 3);
    match &rows[1] {
        OutputRow::Collapsed { index, text } => {
            assert_eq!(*index, 1);
            assert_eq!(text, "[+ ERR x]");
        },
        _ => panic!("expected a collapsed header"),
    }
    match &rows[2] {
        OutputRow::Line { index, .. } => assert_eq!(*index, 3),
        _ => panic!("expected a line"),
    }
}

#[test]
fn view_output_rows_search_marks() {
    let mut s = state(None, Vec::new());
    for line in ["foo", "bar", "foo"] {
        s.try_handle_event(Event::ChildOutput(line.to_string())).unwrap();
    }
    s.try_handle_event(key('/')).unwrap();
    s.try_handle_event(key('f')).unwrap();
    let rows = output_rows(&s);
    let bg = |r: &OutputRow| match r {
        OutputRow::Line { spans, .. } => spans[0].style.bg,
        _ => panic!("expected a line"),
    };
    assert_eq!(bg(&rows[0]), Some(ColorName::Magenta));
    assert_eq!(bg(&rows[1]), None);
    assert_eq!(bg(&rows[2]), Some(ColorName::DarkGray));
}

#[test]
fn view_template_menu_geometry() {
    let mut s = state(None, Vec::new());
    s.template_idx = 1;
    let m = template_menu(&s, 80, 24);
    assert_eq!((m.x, m.y, m.width, m.height), (15, 9, 50, 6));
    assert_eq!(m.items[0], ("  get_rcm".to_string(), false));
    assert_eq!(m.items[1], ("► update_rcm".to_string(), true));
    let small = template_menu(&s, 10, 5);
    assert_eq!((small.x, small.y, small.width, small.height), (2, 1, 6, 3));
}

#[test]
fn view_scroll_counts_visible_rows() {
    let mut s = state(None, Vec::new());
    s.display.add_command("> a".to_string());
    for l in ["1", "2", "3", "4"] {
        s.display.add_line(l.to_string());
    }
    s.display.add_command("> b".to_string());
    assert_eq!(output_scroll(&s, 2), 4);
    s.display.collapse_manager().toggle_last();
    assert_eq!(output_rows(&s).len(), 3);
    assert_eq!(output_scroll(&s, 2), 1);
}
