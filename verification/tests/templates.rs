use cli_terminal::config::manager::{TemplateConfig, TemplateParam};
use cli_terminal::input::templates::{Template, TemplateManager};

fn param(name: &str) -> TemplateParam {
    TemplateParam { name: name.to_string(), prompt: None, options: Vec::new(), default: None }
}

fn config(label: &str, command: &str, names: &[&str]) -> TemplateConfig {
    TemplateConfig {
        label: label.to_string(),
        command: command.to_string(),
        params: names.iter().map(|n| param(n)).collect(),
    }
}

fn values(pairs: &[(&str, &str)]) -> Vec<(String, String)> {
    pairs.iter().map(|(n, v)| (n.to_string(), v.to_string())).collect()
}

#[test]
fn extract_params_in_order_each_once() {
    let names = Template::extract_params("mscontrol {side} {angle_rate} {side} {deep_rate}");
    assert_eq!(names, vec!["side", "angle_rate", "deep_rate"]);
}

#[test]
fn extract_params_word_characters_only() {
    let names = Template::extract_params("a {x} {not valid} {} {y_2}");
    assert_eq!(names, vec!["x", "y_2"]);
}

#[test]
fn extract_params_none() {
    assert!(Template::extract_params("get_rcm").is_empty());
}

#[test]
fn from_config_drops_repeated_params() {
    let t = Template::from_config(config("t", "run {a} {b}", &["a", "b", "a"]));
    assert_eq!(t.label(), "t");
    assert_eq!(t.command(), "run {a} {b}");
    let names: Vec<&str> = t.params().iter().map(|p| p.name.as_str()).collect();
    assert_eq!(names, vec!["a", "b"]);
}

#[test]
fn from_config_keeps_first_of_repeated_param() {
    let mut first = param("a");
    first.prompt = Some("first".to_string());
    let mut second = param("a");
    second.prompt = Some("second".to_string());
    let t = Template::from_config(TemplateConfig {
        label: "t".to_string(),
        command: "{a}".to_string(),
        params: vec![first, second],
    });
    assert_eq!(t.params().len(), 1);
    assert_eq!(t.params()[0].prompt.as_deref(), Some("first"));
}

#[test]
fn expand_fills_placeholders() {
    let t = Template::from_config(config("set_rcm", "set_rcm {x} {y} {z}", &["x", "y", "z"]));
    assert_eq!(t.expand(&values(&[("x", "1"), ("y", "2"), ("z", "3")])), "set_rcm 1 2 3");
}

#[test]
fn expand_leaves_unmatched_placeholders() {
    let t = Template::from_config(config("set_rcm", "set_rcm {x} {y} {z}", &["x", "y", "z"]));
    assert_eq!(t.expand(&values(&[("x", "1"), ("y", "2")])), "set_rcm 1 2 {z}");
    assert_eq!(t.expand(&[]), "set_rcm {x} {y} {z}");
}

#[test]
fn expand_replaces_every_occurrence() {
    let t = Template::from_config(config("t", "{a}-{a}-{b}", &["a", "b"]));
    assert_eq!(t.expand(&values(&[("a", "x"), ("b", "y")])), "x-x-y");
}

#[test]
fn expand_pairs_apply_in_order() {
    let t = Template::from_config(config("t", "{a}", &["a", "b"]));
    // The value of `a` brings a `{b}`, which the next pair then fills.
    assert_eq!(t.expand(&values(&[("a", "{b}"), ("b", "z")])), "z");
}

#[test]
fn manager_finds_by_label() {
    let m = TemplateManager::new(vec![
        config("get_rcm", "get_rcm", &[]),
        config("inject", "inject {mode}", &["mode"]),
        config("inject", "second", &[]),
    ]);
    assert_eq!(m.templates().len(), 3);
    let t = m.by_label("inject").unwrap();
    assert_eq!(t.command(), "inject {mode}");
    assert!(m.by_label("missing").is_none());
}

#[test]
fn manager_update_replaces_templates() {
    let mut m = TemplateManager::new(vec![config("a", "a", &[])]);
    m.update(vec![config("b", "b {x}", &["x", "x"]), config("c", "c", &[])]);
    assert_eq!(m.templates().len(), 2);
    assert!(m.by_label("a").is_none());
    assert_eq!(m.templates()[0].label(), "b");
    assert_eq!(m.templates()[0].params().len(), 1);
}
