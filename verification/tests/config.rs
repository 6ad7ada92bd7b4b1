use cli_terminal::config::defaults::{bundled_default_yaml, default_history_cfg, default_timestamp_cfg};
use cli_terminal::config::manager::{
    color_to_str, parse_color, AppConfig, ColorName, HighlightRule, HistoryConfig, RawConfig,
    TemplateConfig, TimestampConfig,
};
use cli_terminal::string_map::StringMap;

const ALL_COLORS: [ColorName; 10] = [
    ColorName::Black,
    ColorName::Red,
    ColorName::Green,
    ColorName::Yellow,
    ColorName::Blue,
    ColorName::Magenta,
    ColorName::Cyan,
    ColorName::Gray,
    ColorName::DarkGray,
    ColorName::White,
];

fn map(pairs: &[(&str, &str)]) -> StringMap {
    let mut m = StringMap::new();
    for (k, v) in pairs {
        m.insert(k.to_string(), v.to_string());
    }
    m
}

fn rule(pattern: &str) -> HighlightRule {
    HighlightRule { pattern: pattern.to_string(), fg: None, bg: None, bold: false, underline: false }
}

fn raw(commands: StringMap, macros: StringMap) -> RawConfig {
    RawConfig {
        commands,
        macros,
        templates: Vec::new(),
        highlights: Vec::new(),
        timestamp: default_timestamp_cfg(),
        history: default_history_cfg(),
    }
}

#[test]
fn parse_color_names() {
    assert_eq!(parse_color("red"), Some(ColorName::Red));
    assert_eq!(parse_color("RED"), Some(ColorName::Red));
    assert_eq!(parse_color("Yellow"), Some(ColorName::Yellow));
    assert_eq!(parse_color("purple"), Some(ColorName::Magenta));
    assert_eq!(parse_color("grey"), Some(ColorName::Gray));
    assert_eq!(parse_color("DarkGray"), Some(ColorName::DarkGray));
    assert_eq!(parse_color("dark_gray"), Some(ColorName::DarkGray));
}

#[test]
fn parse_color_unknown() {
    assert_eq!(parse_color("pink"), None);
    assert_eq!(parse_color(""), None);
    assert_eq!(parse_color("dark gray"), None);
}

#[test]
fn color_names_written_out() {
    assert_eq!(color_to_str(&ColorName::DarkGray), "dark_gray");
    assert_eq!(color_to_str(&ColorName::Magenta), "magenta");
    assert_eq!(color_to_str(&ColorName::Gray), "gray");
}

#[test]
fn color_round_trip() {
    for c in ALL_COLORS {
        assert_eq!(parse_color(color_to_str(&c)), Some(c));
    }
}

#[test]
fn merge_overrides_and_adds_bindings() {
    let mut base = raw(map(&[("help", "help"), ("status", "status")]), map(&[("F2", "status")]));
    let other = raw(map(&[("status", "stat -v"), ("ls", "ls")]), StringMap::new());
    base.merge_with(other);
    assert_eq!(base.commands.get("help"), Some("help"));
    assert_eq!(base.commands.get("status"), Some("stat -v"));
    assert_eq!(base.commands.get("ls"), Some("ls"));
    assert_eq!(base.commands.len(), 3);
    assert_eq!(base.macros.get("F2"), Some("status"));
}

#[test]
fn merge_replaces_lists_only_when_set() {
    let mut base = raw(StringMap::new(), StringMap::new());
    base.highlights.push(rule("ERROR"));
    base.templates.push(TemplateConfig { label: "a".to_string(), command: "a".to_string(), params: Vec::new() });
    let mut other = raw(StringMap::new(), StringMap::new());
    other.highlights.push(rule("WARN"));
    base.merge_with(other);
    assert_eq!(base.highlights.len(), 1);
    assert_eq!(base.highlights[0].pattern, "WARN");
    assert_eq!(base.templates.len(), 1);
    assert_eq!(base.templates[0].label, "a");
}

#[test]
fn merge_timestamp_and_history() {
    let mut base = raw(StringMap::new(), StringMap::new());
    let mut other = raw(StringMap::new(), StringMap::new());
    other.timestamp = TimestampConfig { enabled: false, format: String::new() };
    other.history = HistoryConfig { max_size: 0, persist: false };
    base.merge_with(other);
    assert!(base.timestamp.enabled);
    assert_eq!(base.timestamp.format, "[%H:%M:%S]");
    assert_eq!(base.history.max_size, 1000);
    assert!(base.history.persist);

    let mut other = raw(StringMap::new(), StringMap::new());
    other.timestamp = TimestampConfig { enabled: false, format: "%H".to_string() };
    other.history = HistoryConfig { max_size: 5, persist: false };
    base.merge_with(other);
    assert!(!base.timestamp.enabled);
    assert_eq!(base.timestamp.format, "%H");
    assert_eq!(base.history.max_size, 5);
    assert!(!base.history.persist);
}

#[test]
fn from_raw_flattens() {
    let mut r = raw(map(&[("help", "help")]), map(&[("F3", "readvolt")]));
    r.timestamp = TimestampConfig { enabled: false, format: "%T".to_string() };
    r.history = HistoryConfig { max_size: 7, persist: false };
    let c = AppConfig::from_raw(r);
    assert_eq!(c.commands.get("help"), Some("help"));
    assert_eq!(c.macros.get("F3"), Some("readvolt"));
    assert_eq!(c.timestamp_format, "%T");
    assert!(!c.timestamp_enabled);
    assert_eq!(c.history_max_size, 7);
    assert!(!c.history_persist);
}

#[test]
fn app_config_clone_keeps_everything() {
    let mut r = raw(map(&[("help", "help")]), map(&[("F3", "readvolt")]));
    r.highlights.push(rule("OK"));
    let c = AppConfig::from_raw(r);
    let d = c.clone();
    assert_eq!(d.commands.get("help"), Some("help"));
    assert_eq!(d.macros.get("F3"), Some("readvolt"));
    assert_eq!(d.highlights.len(), 1);
    assert_eq!(d.highlights[0].pattern, "OK");
    assert_eq!(d.timestamp_format, c.timestamp_format);
    assert_eq!(d.history_max_size, c.history_max_size);
}

#[test]
fn bundled_yaml_parses() {
    let v: serde_yaml::Value = serde_yaml::from_str(bundled_default_yaml()).expect("bundled YAML");
    assert!(!v["templates"].as_sequence().unwrap().is_empty());
    assert!(!v["macros"].as_mapping().unwrap().is_empty());
    assert!(!v["commands"].as_mapping().unwrap().is_empty());
    assert!(!v["highlights"].as_sequence().unwrap().is_empty());
}

#[test]
fn bundled_yaml_highlight_colors_are_known() {
    let v: serde_yaml::Value = serde_yaml::from_str(bundled_default_yaml()).expect("bundled YAML");
    for h in v["highlights"].as_sequence().unwrap() {
        if let Some(fg) = h["fg"].as_str() {
            assert!(parse_color(fg).is_some());
        }
    }
}
