use cli_terminal::config::defaults::{
    bundled_default_yaml, default_commands, default_highlights, default_history_cfg,
    default_history_max_size, default_history_persist, default_macros, default_timestamp_cfg,
    default_timestamp_enabled, default_timestamp_format, generate_default_config_yaml,
};

#[test]
fn yaml_contains_command_templates() {
    let yaml = generate_default_config_yaml();
    assert!(yaml.contains("mscontrol"));
    assert!(yaml.contains("get_rcm"));
    assert!(yaml.contains("inject"));
    assert!(yaml.contains("set_rcm"));
}

#[test]
fn generated_yaml_is_bundled_yaml() {
    assert_eq!(generate_default_config_yaml(), bundled_default_yaml());
}

#[test]
fn built_in_defaults() {
    assert!(default_commands().is_empty());
    assert!(default_macros().is_empty());
    assert!(default_highlights().is_empty());
    assert!(default_timestamp_enabled());
    assert_eq!(default_timestamp_format(), "[%H:%M:%S]");
    assert_eq!(default_history_max_size(), 1000);
    assert!(default_history_persist());
    let ts = default_timestamp_cfg();
    assert!(ts.enabled);
    assert_eq!(ts.format, "[%H:%M:%S]");
    let h = default_history_cfg();
    assert_eq!(h.max_size, 1000);
    assert!(h.persist);
}
