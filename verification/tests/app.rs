use cli_terminal::app::{Action, AppState, Event, KeyCode, KeyInput, KeyMods, Mode};
use cli_terminal::config::manager::{AppConfig, TemplateConfig, TemplateParam};
use cli_terminal::string_map::StringMap;

fn map(pairs: &[(&str, &str)]) -> StringMap {
    let mut m = StringMap::new();
    for (k, v) in pairs {
        m.insert(k.to_string(), v.to_string());
    }
    m
}

fn set_rcm() -> TemplateConfig {
    TemplateConfig {
        label: "set_rcm".to_string(),
        command: "set_rcm {x} {y}".to_string(),
        params: vec![
            TemplateParam { name: "x".to_string(), prompt: None, options: Vec::new(), default: Some("1".to_string()) },
            TemplateParam {
                name: "y".to_string(),
                prompt: Some("Y".to_string()),
                options: vec!["a".to_string(), "b".to_string()],
                default: None,
            },
        ],
    }
}

fn config_with(templates: Vec<TemplateConfig>, ts_format: &str, ts_enabled: bool) -> AppConfig {
    AppConfig {
        commands: map(&[("status", "status"), ("stop", "stop"), ("help", "help")]),
        macros: map(&[("F2", "status")]),
        templates,
        highlights: Vec::new(),
        timestamp_format: ts_format.to_string(),
        timestamp_enabled: ts_enabled,
        history_max_size: 100,
        history_persist: false,
    }
}

fn state() -> AppState {
    AppState::new(Some("target".to_string()), config_with(vec![set_rcm()], "[%H:%M:%S]", false), "h.json".to_string())
}

fn mods(control: bool) -> KeyMods {
    KeyMods { control, shift: false, alt: false, other: false }
}

fn key(code: KeyCode) -> KeyInput {
    KeyInput { code, mods: mods(false), release: false }
}

fn ctrl(c: char) -> KeyInput {
    KeyInput { code: KeyCode::Char(c), mods: mods(true), release: false }
}

fn press(s: &mut AppState, k: KeyInput) -> Vec<Action> {
    s.try_handle_event(Event::Key(k)).expect("key handled")
}

fn type_text(s: &mut AppState, text: &str) {
    for c in text.chars() {
        assert!(press(s, key(KeyCode::Char(c))).is_empty());
    }
}

fn sent(acts: &[Action]) -> Vec<String> {
    acts.iter()
        .map(|a| match a {
            Action::Send(c) => c.clone(),
            Action::Export => "<export>".to_string(),
            Action::ReloadConfig => "<reload>".to_string(),
        })
        .collect()
}

#[test]
fn app_starts_in_normal_mode() {
    let s = state();
    assert_eq!(s.mode, Mode::Normal);
    assert!(s.running);
    assert!(!s.child_alive);
    assert!(s.display.is_empty());
    assert!(s.history.entries().is_empty());
    assert!(s.history.persist_path().is_none());
    assert_eq!(s.templates.templates().len(), 1);
}

#[test]
fn app_history_file_kept_when_persisting() {
    let mut c = config_with(Vec::new(), "%H", false);
    c.history_persist = true;
    let s = AppState::new(None, c, "/tmp/h.json".to_string());
    assert_eq!(s.history.persist_path(), Some("/tmp/h.json"));
}

#[test]
fn app_ctrl_c_exits() {
    let mut s = state();
    assert!(press(&mut s, ctrl('c')).is_empty());
    assert!(!s.running);
}

#[test]
fn app_enter_sends_typed_line() {
    let mut s = state();
    type_text(&mut s, "ls");
    let acts = press(&mut s, key(KeyCode::Enter));
    assert_eq!(sent(&acts), vec!["ls"]);
    assert_eq!(s.history.entries(), &["ls".to_string()]);
    assert_eq!(s.display.raw_lines(), vec!["> ls"]);
    assert!(s.display.lines()[0].is_command);
    assert_eq!(s.input.text(), "");
}

#[test]
fn app_blank_line_sends_nothing() {
    let mut s = state();
    type_text(&mut s, "  ");
    let acts = press(&mut s, key(KeyCode::Enter));
    assert!(acts.is_empty());
    assert!(s.history.entries().is_empty());
    assert!(s.display.is_empty());
    assert_eq!(s.input.text(), "");
}

#[test]
fn app_macro_keys() {
    let mut s = state();
    assert_eq!(sent(&press(&mut s, key(KeyCode::F(2)))), vec!["status"]);
    assert_eq!(s.history.last(), Some("status"));
    assert!(press(&mut s, key(KeyCode::F(3))).is_empty());
    assert!(press(&mut s, key(KeyCode::F(13))).is_empty());
}

#[test]
fn app_reload_and_export_are_asked_of_the_host() {
    let mut s = state();
    assert_eq!(sent(&press(&mut s, ctrl('l'))), vec!["<reload>"]);
    assert_eq!(sent(&press(&mut s, ctrl('e'))), vec!["<export>"]);
    assert!(s.display.is_empty());
}

#[test]
fn app_editing_keys() {
    let mut s = state();
    type_text(&mut s, "abc");
    press(&mut s, key(KeyCode::Left));
    press(&mut s, key(KeyCode::Backspace));
    assert_eq!(s.input.text(), "ac");
    press(&mut s, key(KeyCode::Home));
    press(&mut s, key(KeyCode::Delete));
    assert_eq!(s.input.text(), "c");
    press(&mut s, key(KeyCode::End));
    type_text(&mut s, "d");
    assert_eq!(s.input.text(), "cd");
}

#[test]
fn app_released_key_ignored() {
    let mut s = state();
    let k = KeyInput { code: KeyCode::Char('x'), mods: mods(false), release: true };
    assert!(press(&mut s, k).is_empty());
    assert_eq!(s.input.text(), "");
}

#[test]
fn app_history_search_picks_entry() {
    let mut s = state();
    for cmd in ["cargo build", "ls", "cargo test"] {
        type_text(&mut s, cmd);
        press(&mut s, key(KeyCode::Enter));
    }
    press(&mut s, ctrl('r'));
    assert_eq!(s.mode, Mode::HistorySearch);
    type_text(&mut s, "CAR");
    assert_eq!(s.history_query, "CAR");
    press(&mut s, key(KeyCode::Down));
    assert_eq!(s.history_search_idx, 1);
    press(&mut s, key(KeyCode::Down));
    assert_eq!(s.history_search_idx, 1);
    press(&mut s, key(KeyCode::Up));
    assert_eq!(s.history_search_idx, 0);
    press(&mut s, key(KeyCode::Enter));
    assert_eq!(s.mode, Mode::Normal);
    assert_eq!(s.input.text(), "cargo build");
}

#[test]
fn app_history_search_backspace_and_escape() {
    let mut s = state();
    press(&mut s, ctrl('r'));
    type_text(&mut s, "ab");
    press(&mut s, key(KeyCode::Backspace));
    assert_eq!(s.history_query, "a");
    press(&mut s, key(KeyCode::Enter));
    assert_eq!(s.mode, Mode::Normal);
    assert_eq!(s.input.text(), "");
    press(&mut s, ctrl('r'));
    press(&mut s, key(KeyCode::Esc));
    assert_eq!(s.mode, Mode::Normal);
}

#[test]
fn app_output_search() {
    let mut s = state();
    for line in ["foo 1", "bar", "foo 2"] {
        assert!(s.try_handle_event(Event::ChildOutput(line.to_string())).unwrap().is_empty());
    }
    press(&mut s, key(KeyCode::Char('/')));
    assert_eq!(s.mode, Mode::OutputSearch);
    type_text(&mut s, "fo");
    assert_eq!(s.search.match_count(), 2);
    press(&mut s, key(KeyCode::Char('n')));
    assert_eq!(s.search.current_match().map(|(i, _)| i), Some(2));
    press(&mut s, key(KeyCode::Char('N')));
    assert_eq!(s.search.current_match().map(|(i, _)| i), Some(0));
    press(&mut s, key(KeyCode::Enter));
    assert_eq!(s.mode, Mode::Normal);
    assert!(s.search.active());
    assert!(s.search.is_match(2));
    press(&mut s, key(KeyCode::Esc));
    assert!(!s.search.active());
}

#[test]
fn app_output_search_escape_clears() {
    let mut s = state();
    s.try_handle_event(Event::ChildOutput("foo".to_string())).unwrap();
    press(&mut s, key(KeyCode::Char('/')));
    type_text(&mut s, "f");
    assert_eq!(s.search.match_count(), 1);
    press(&mut s, key(KeyCode::Esc));
    assert_eq!(s.mode, Mode::Normal);
    assert_eq!(s.search.match_count(), 0);
    assert!(s.search.query().is_none());
}

#[test]
fn app_template_form_submits_expanded_command() {
    let mut s = state();
    press(&mut s, key(KeyCode::F(1)));
    assert_eq!(s.mode, Mode::TemplateMenu);
    press(&mut s, key(KeyCode::Enter));
    assert_eq!(s.mode, Mode::TemplateForm);
    {
        let f = s.form.as_ref().unwrap();
        assert_eq!(f.inputs.len(), 2);
        assert_eq!(f.inputs[0].text(), "1");
        assert_eq!(f.inputs[1].text(), "");
    }
    type_text(&mut s, "0");
    press(&mut s, key(KeyCode::Tab));
    press(&mut s, ctrl('d'));
    assert!(s.form.as_ref().unwrap().show_dropdown);
    press(&mut s, key(KeyCode::Tab));
    assert_eq!(s.form.as_ref().unwrap().dropdown_idx, 1);
    press(&mut s, key(KeyCode::Enter));
    {
        let f = s.form.as_ref().unwrap();
        assert!(!f.show_dropdown);
        assert_eq!(f.inputs[1].text(), "b");
    }
    let acts = press(&mut s, key(KeyCode::Enter));
    assert_eq!(sent(&acts), vec!["set_rcm 10 b"]);
    assert_eq!(s.mode, Mode::Normal);
    assert!(s.form.is_none());
    assert_eq!(s.history.last(), Some("set_rcm 10 b"));
}

#[test]
fn app_template_form_escape_returns_to_menu() {
    let mut s = state();
    press(&mut s, key(KeyCode::F(1)));
    press(&mut s, key(KeyCode::Enter));
    press(&mut s, key(KeyCode::BackTab));
    assert_eq!(s.form.as_ref().unwrap().active_input, 1);
    press(&mut s, key(KeyCode::Esc));
    assert_eq!(s.mode, Mode::TemplateMenu);
    assert!(s.form.is_none());
    press(&mut s, key(KeyCode::Esc));
    assert_eq!(s.mode, Mode::Normal);
}

#[test]
fn app_template_menu_without_templates() {
    let mut s = AppState::new(None, config_with(Vec::new(), "%H", false), "h".to_string());
    press(&mut s, key(KeyCode::F(1)));
    assert_eq!(s.mode, Mode::Normal);
    assert_eq!(s.display.raw_lines(), vec!["[No templates configured]"]);
}

#[test]
fn app_autocomplete() {
    let mut s = state();
    type_text(&mut s, "he");
    press(&mut s, key(KeyCode::Tab));
    assert_eq!(s.input.text(), "help");
    assert_eq!(s.input.cursor(), 4);
    let mut s = state();
    type_text(&mut s, "st");
    press(&mut s, key(KeyCode::Tab));
    assert_eq!(s.input.text(), "st");
    assert_eq!(s.display.raw_lines(), vec!["[Matches: status, stop]"]);
    let mut s = state();
    type_text(&mut s, "zz");
    press(&mut s, key(KeyCode::Tab));
    assert_eq!(s.input.text(), "zz");
    assert!(s.display.is_empty());
}

#[test]
fn app_child_output_and_exit() {
    let mut s = state();
    s.child_alive = true;
    assert!(!s.on_child_line("hello".to_string()));
    assert!(s.on_child_line("__CLI_TERMINAL_CHILD_EXITED__".to_string()));
    assert!(!s.child_alive);
    assert_eq!(s.display.raw_lines(), vec!["hello", "[Child process exited]"]);
}

#[test]
fn app_config_reload_keeps_output() {
    let mut s = state();
    s.display.add_line("old".to_string());
    let mut c = config_with(Vec::new(), "%H", false);
    c.macros = map(&[("F4", "readcurr")]);
    assert!(s.try_handle_event(Event::ConfigLoaded(c)).unwrap().is_empty());
    assert_eq!(s.display.raw_lines(), vec!["old", "[Config reloaded]"]);
    assert_eq!(s.display.timestamp_format(), "%H");
    assert_eq!(s.macros.get("F4"), Some("readcurr"));
    assert_eq!(s.macros.get("F2"), None);
    assert!(s.templates.templates().is_empty());
}

#[test]
fn app_export_reports() {
    let mut s = state();
    s.try_handle_event(Event::ExportFinished(Ok("/tmp/out.txt".to_string()))).unwrap();
    s.try_handle_event(Event::ExportFinished(Err("denied".to_string()))).unwrap();
    assert_eq!(
        s.display.raw_lines(),
        vec!["[Output exported to: /tmp/out.txt]", "[Export failed: denied]"]
    );
}

#[test]
fn app_collapse_key_toggles_last_block() {
    let mut s = state();
    press(&mut s, key(KeyCode::Char('C')));
    assert!(s.display.is_empty());
    type_text(&mut s, "a");
    press(&mut s, key(KeyCode::Enter));
    s.try_handle_event(Event::ChildOutput("x".to_string())).unwrap();
    s.try_handle_event(Event::ChildOutput("y".to_string())).unwrap();
    type_text(&mut s, "b");
    press(&mut s, key(KeyCode::Enter));
    press(&mut s, key(KeyCode::Char('C')));
    assert!(s.display.collapse().regions()[0].collapsed);
    assert_eq!(s.display.raw_lines().last().unwrap(), "[Block collapsed]");
    press(&mut s, key(KeyCode::Char('C')));
    assert_eq!(s.display.raw_lines().last().unwrap(), "[Block expanded]");
}

#[test]
fn app_refuses_events_it_cannot_stamp() {
    let mut s = AppState::new(None, config_with(Vec::new(), "%Q", true), "h".to_string());
    assert!(!s.timestamps_usable());
    assert!(s.try_handle_event(Event::ChildOutput("x".to_string())).is_none());
    assert!(s.display.is_empty());
    assert!(s.try_handle_event(Event::Key(key(KeyCode::F(1)))).is_none());
    assert!(s.try_handle_event(Event::Key(key(KeyCode::Char('a')))).is_some());
    assert_eq!(s.input.text(), "a");
}

#[test]
fn app_refuses_config_with_bad_timestamp_format() {
    let mut s = state();
    let c = config_with(Vec::new(), "%Q", true);
    assert!(s.try_handle_event(Event::ConfigLoaded(c)).is_none());
    assert_eq!(s.templates.templates().len(), 1);
}

#[test]
fn app_config_reload_keeps_blocks_and_updates_stamps() {
    let mut s = state();
    type_text(&mut s, "a");
    press(&mut s, key(KeyCode::Enter));
    s.try_handle_event(Event::ChildOutput("x".to_string())).unwrap();
    s.try_handle_event(Event::ChildOutput("y".to_string())).unwrap();
    type_text(&mut s, "b");
    press(&mut s, key(KeyCode::Enter));
    let c = config_with(Vec::new(), "%H:%M", true);
    s.try_handle_event(Event::ConfigLoaded(c)).unwrap();
    assert_eq!(s.display.collapse().regions().len(), 1);
    assert_eq!(s.display.len(), 5);
    assert!(s.display.timestamp_enabled());
    assert!(s.display.lines()[4].timestamp.is_some());
    assert!(s.display.lines()[1].timestamp.is_none());
}
