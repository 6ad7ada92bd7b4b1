//! Configuration model: the loaded configuration, how two are merged, and
//! the flattened configuration the application runs with.

use vstd::prelude::*;

use crate::string_map::StringMap;
use crate::text::{ascii_lower, is_ascii_text, lowercase, to_lowercase};

verus! {

/// The colour names a configuration can use.
#[derive(Clone, Copy, Debug, PartialEq, Eq, Structural)]
pub enum ColorName {
    Black,
    Red,
    Green,
    Yellow,
    Blue,
    Magenta,
    Cyan,
    Gray,
    DarkGray,
    White,
}

/// The colour that a lowercase colour name denotes.
pub open spec fn color_named(s: Seq<char>) -> Option<ColorName> {
    if s == "black"@ {
        Some(ColorName::Black)
    } else if s == "red"@ {
        Some(ColorName::Red)
    } else if s == "green"@ {
        Some(ColorName::Green)
    } else if s == "yellow"@ {
        Some(ColorName::Yellow)
    } else if s == "blue"@ {
        Some(ColorName::Blue)
    } else if s == "magenta"@ || s == "purple"@ {
        Some(ColorName::Magenta)
    } else if s == "cyan"@ {
        Some(ColorName::Cyan)
    } else if s == "gray"@ || s == "grey"@ {
        Some(ColorName::Gray)
    } else if s == "darkgray"@ || s == "dark_gray"@ {
        Some(ColorName::DarkGray)
    } else if s == "white"@ {
        Some(ColorName::White)
    } else {
        None
    }
}

/// The name under which a colour is written out.
pub open spec fn color_text(c: ColorName) -> Seq<char> {
    match c {
        ColorName::Black => "black"@,
        ColorName::Red => "red"@,
        ColorName::Green => "green"@,
        ColorName::Yellow => "yellow"@,
        ColorName::Blue => "blue"@,
        ColorName::Magenta => "magenta"@,
        ColorName::Cyan => "cyan"@,
        ColorName::Gray => "gray"@,
        ColorName::DarkGray => "dark_gray"@,
        ColorName::White => "white"@,
    }
}

/// Reading back the name a colour is written out under gives that colour:
/// the name is ASCII and already lowercase, so `parse_color` reads it as it
/// stands.
pub proof fn law_color_round_trip(c: ColorName)
    ensures
        is_ascii_text(color_text(c)),
        ascii_lower(color_text(c)) == color_text(c),
        color_named(ascii_lower(color_text(c))) == Some(c),
{
    reveal_strlit("black");
    reveal_strlit("red");
    reveal_strlit("green");
    reveal_strlit("yellow");
    reveal_strlit("blue");
    reveal_strlit("magenta");
    reveal_strlit("purple");
    reveal_strlit("cyan");
    reveal_strlit("gray");
    reveal_strlit("grey");
    reveal_strlit("darkgray");
    reveal_strlit("dark_gray");
    reveal_strlit("white");
    assert("black"@[0] == 'b');
    assert("red"@[0] == 'r');
    assert("green"@[0] == 'g');
    assert("yellow"@[0] == 'y');
    assert("blue"@[0] == 'b');
    assert("magenta"@[0] == 'm');
    assert("purple"@[0] == 'p');
    assert("cyan"@[0] == 'c');
    assert("gray"@[0] == 'g');
    assert("grey"@[0] == 'g');
    assert("darkgray"@[0] == 'd');
    assert("dark_gray"@[0] == 'd');
    assert("white"@[0] == 'w');
    let t = color_text(c);
    assert(ascii_lower(t) =~= t);
    assert(t[0] == ascii_lower(t)[0]);
}

/// Whether `a` and `b` hold the same characters.
fn str_eq(a: &str, b: &str) -> (r: bool)
    ensures
        r == (a@ == b@),
{
    let x = String::from_str(a);
    let y = String::from_str(b);
    x == y
}

/// The colour a configuration name denotes, ignoring case.
pub fn parse_color(s: &str) -> (c: Option<ColorName>)
    ensures
        c == color_named(lowercase(s@)),
        is_ascii_text(s@) ==> c == color_named(ascii_lower(s@)),
{
    let lower = to_lowercase(s);
    let l = lower.as_str();
    if str_eq(l, "black") {
        Some(ColorName::Black)
    } else if str_eq(l, "red") {
        Some(ColorName::Red)
    } else if str_eq(l, "green") {
        Some(ColorName::Green)
    } else if str_eq(l, "yellow") {
        Some(ColorName::Yellow)
    } else if str_eq(l, "blue") {
        Some(ColorName::Blue)
    } else if str_eq(l, "magenta") || str_eq(l, "purple") {
        Some(ColorName::Magenta)
    } else if str_eq(l, "cyan") {
        Some(ColorName::Cyan)
    } else if str_eq(l, "gray") || str_eq(l, "grey") {
        Some(ColorName::Gray)
    } else if str_eq(l, "darkgray") || str_eq(l, "dark_gray") {
        Some(ColorName::DarkGray)
    } else if str_eq(l, "white") {
        Some(ColorName::White)
    } else {
        None
    }
}

/// The name under which a colour is written out.
pub fn color_to_str(c: &ColorName) -> (s: &'static str)
    ensures
        s@ == color_text(*c),
{
    match c {
        ColorName::Black => "black",
        ColorName::Red => "red",
        ColorName::Green => "green",
        ColorName::Yellow => "yellow",
        ColorName::Blue => "blue",
        ColorName::Magenta => "magenta",
        ColorName::Cyan => "cyan",
        ColorName::Gray => "gray",
        ColorName::DarkGray => "dark_gray",
        ColorName::White => "white",
    }
}

/// A parameter of a command template.
pub struct TemplateParam {
    pub name: String,
    pub prompt: Option<String>,
    pub options: Vec<String>,
    pub default: Option<String>,
}

/// A parameter as plain values.
pub struct TemplateParamView {
    pub name: Seq<char>,
    pub prompt: Option<Seq<char>>,
    pub options: Seq<Seq<char>>,
    pub default: Option<Seq<char>>,
}

pub open spec fn opt_view(o: Option<String>) -> Option<Seq<char>> {
    match o {
        Some(s) => Some(s@),
        None => None,
    }
}

impl View for TemplateParam {
    type V = TemplateParamView;

    open spec fn view(&self) -> TemplateParamView {
        TemplateParamView {
            name: self.name@,
            prompt: opt_view(self.prompt),
            options: self.options@.map_values(|o: String| o@),
            default: opt_view(self.default),
        }
    }
}

/// The views of a list of parameters.
pub open spec fn param_views(ps: Seq<TemplateParam>) -> Seq<TemplateParamView> {
    ps.map_values(|p: TemplateParam| p@)
}

/// A template configuration as plain values.
pub struct TemplateConfigView {
    pub label: Seq<char>,
    pub command: Seq<char>,
    pub params: Seq<TemplateParamView>,
}

impl View for TemplateConfig {
    type V = TemplateConfigView;

    open spec fn view(&self) -> TemplateConfigView {
        TemplateConfigView { label: self.label@, command: self.command@, params: param_views(self.params@) }
    }
}

/// The views of a list of template configurations.
pub open spec fn config_views(cs: Seq<TemplateConfig>) -> Seq<TemplateConfigView> {
    cs.map_values(|c: TemplateConfig| c@)
}

/// A command template as configured: a label, a command with `{param}`
/// placeholders, and its parameters.
pub struct TemplateConfig {
    pub label: String,
    pub command: String,
    pub params: Vec<TemplateParam>,
}

/// A highlight rule: text matching `pattern` gets the given style.
#[derive(Debug)]
pub struct HighlightRule {
    pub pattern: String,
    pub fg: Option<ColorName>,
    pub bg: Option<ColorName>,
    pub bold: bool,
    pub underline: bool,
}

#[derive(Debug)]
pub struct TimestampConfig {
    pub enabled: bool,
    pub format: String,
}

#[derive(Debug, Clone, Copy)]
pub struct HistoryConfig {
    pub max_size: usize,
    pub persist: bool,
}

/// A copy of `v`.
pub fn clone_strings(v: &Vec<String>) -> (r: Vec<String>)
    ensures
        r@ == v@,
{
    let mut out: Vec<String> = Vec::new();
    let mut i: usize = 0;
    while i < v.len()
        invariant
            i <= v@.len(),
            out@ == v@.take(i as int),
        decreases v@.len() - i,
    {
        out.push(v[i].clone());
        proof {
            assert(v@.take(i + 1) =~= v@.take(i as int).push(v@[i as int]));
        }
        i = i + 1;
    }
    proof {
        assert(v@.take(v@.len() as int) =~= v@);
    }
    out
}

/// A copy of an optional string.
pub fn clone_opt_string(s: &Option<String>) -> (r: Option<String>)
    ensures
        r == *s,
{
    match s {
        Some(x) => Some(x.clone()),
        None => None,
    }
}

impl Clone for TemplateParam {
    fn clone(&self) -> (r: Self)
        ensures
            r@ == self@,
    {
        TemplateParam {
            name: self.name.clone(),
            prompt: clone_opt_string(&self.prompt),
            options: clone_strings(&self.options),
            default: clone_opt_string(&self.default),
        }
    }
}

impl Clone for TemplateConfig {
    fn clone(&self) -> (r: Self)
        ensures
            r@ == self@,
    {
        let mut params: Vec<TemplateParam> = Vec::new();
        let mut i: usize = 0;
        while i < self.params.len()
            invariant
                i <= self.params@.len(),
                param_views(params@) == param_views(self.params@.take(i as int)),
            decreases self.params@.len() - i,
        {
            let p = self.params[i].clone();
            let ghost before = params@;
            params.push(p);
            proof {
                assert(param_views(self.params@.take(i + 1)) =~= param_views(self.params@.take(i as int)).push(self.params@[i as int]@));
                assert(param_views(params@) =~= param_views(before).push(p@));
            }
            i = i + 1;
        }
        proof {
            assert(self.params@.take(self.params@.len() as int) =~= self.params@);
        }
        TemplateConfig { label: self.label.clone(), command: self.command.clone(), params }
    }
}

impl Clone for HighlightRule {
    fn clone(&self) -> (r: Self)
        ensures
            r == *self,
    {
        HighlightRule {
            pattern: self.pattern.clone(),
            fg: self.fg,
            bg: self.bg,
            bold: self.bold,
            underline: self.underline,
        }
    }
}

/// A copy of a list of templates.
pub fn clone_templates(v: &Vec<TemplateConfig>) -> (r: Vec<TemplateConfig>)
    ensures
        config_views(r@) == config_views(v@),
{
    let mut out: Vec<TemplateConfig> = Vec::new();
    let mut i: usize = 0;
    while i < v.len()
        invariant
            i <= v@.len(),
            config_views(out@) == config_views(v@.take(i as int)),
        decreases v@.len() - i,
    {
        let c = v[i].clone();
        let ghost before = out@;
        out.push(c);
        proof {
            assert(config_views(v@.take(i + 1)) =~= config_views(v@.take(i as int)).push(v@[i as int]@));
            assert(config_views(out@) =~= config_views(before).push(c@));
        }
        i = i + 1;
    }
    proof {
        assert(v@.take(v@.len() as int) =~= v@);
    }
    out
}

/// A copy of a list of highlight rules.
pub fn clone_highlights(v: &Vec<HighlightRule>) -> (r: Vec<HighlightRule>)
    ensures
        r@ == v@,
{
    let mut out: Vec<HighlightRule> = Vec::new();
    let mut i: usize = 0;
    while i < v.len()
        invariant
            i <= v@.len(),
            out@ == v@.take(i as int),
        decreases v@.len() - i,
    {
        out.push(v[i].clone());
        proof {
            assert(v@.take(i + 1) =~= v@.take(i as int).push(v@[i as int]));
        }
        i = i + 1;
    }
    proof {
        assert(v@.take(v@.len() as int) =~= v@);
    }
    out
}

/// Configuration as loaded from YAML.
pub struct RawConfig {
    pub commands: StringMap,
    pub macros: StringMap,
    pub templates: Vec<TemplateConfig>,
    pub highlights: Vec<HighlightRule>,
    pub timestamp: TimestampConfig,
    pub history: HistoryConfig,
}

/// Parsed configuration, flattened.
pub struct AppConfig {
    pub commands: StringMap,
    pub macros: StringMap,
    pub templates: Vec<TemplateConfig>,
    pub highlights: Vec<HighlightRule>,
    pub timestamp_format: String,
    pub timestamp_enabled: bool,
    pub history_max_size: usize,
    pub history_persist: bool,
}

impl RawConfig {
    /// Merge `other` into `self`, `other` taking priority: its command and
    /// macro bindings are added over ours; its templates, highlights,
    /// timestamp and history settings replace ours when it sets them (a
    /// non-empty list, an enabled timestamp or non-empty format, a non-zero
    /// history size).
    pub fn merge_with(&mut self, other: Self)
        ensures
            final(self).commands.map_view() == if other.commands.pairs().len() > 0 {
                old(self).commands.map_view().union_prefer_right(other.commands.map_view())
            } else {
                old(self).commands.map_view()
            },
            final(self).macros.map_view() == if other.macros.pairs().len() > 0 {
                old(self).macros.map_view().union_prefer_right(other.macros.map_view())
            } else {
                old(self).macros.map_view()
            },
            final(self).templates == if other.templates@.len() > 0 {
                other.templates
            } else {
                old(self).templates
            },
            final(self).highlights == if other.highlights@.len() > 0 {
                other.highlights
            } else {
                old(self).highlights
            },
            final(self).timestamp == if other.timestamp.enabled || other.timestamp.format@.len()
                > 0 {
                other.timestamp
            } else {
                old(self).timestamp
            },
            final(self).history == if other.history.max_size > 0 {
                other.history
            } else {
                old(self).history
            },
    {
        let RawConfig { commands, macros, templates, highlights, timestamp, history } = other;
        if !commands.is_empty() {
            self.commands.extend(commands);
        }
        if !macros.is_empty() {
            self.macros.extend(macros);
        }
        if templates.len() > 0 {
            self.templates = templates;
        }
        if highlights.len() > 0 {
            self.highlights = highlights;
        }
        if timestamp.enabled || !timestamp.format.as_str().is_empty() {
            self.timestamp = timestamp;
        }
        if history.max_size > 0 {
            self.history = history;
        }
    }
}

impl Clone for AppConfig {
    fn clone(&self) -> (r: Self)
        ensures
            r.commands.pairs() == self.commands.pairs(),
            r.macros.pairs() == self.macros.pairs(),
            config_views(r.templates@) == config_views(self.templates@),
            r.highlights@ == self.highlights@,
            r.timestamp_format == self.timestamp_format,
            r.timestamp_enabled == self.timestamp_enabled,
            r.history_max_size == self.history_max_size,
            r.history_persist == self.history_persist,
    {
        let templates = clone_templates(&self.templates);
        let highlights = clone_highlights(&self.highlights);
        AppConfig {
            commands: self.commands.clone(),
            macros: self.macros.clone(),
            templates,
            highlights,
            timestamp_format: self.timestamp_format.clone(),
            timestamp_enabled: self.timestamp_enabled,
            history_max_size: self.history_max_size,
            history_persist: self.history_persist,
        }
    }
}

impl AppConfig {
    /// Flatten a loaded configuration.
    pub fn from_raw(raw: RawConfig) -> (c: Self)
        ensures
            c.commands == raw.commands,
            c.macros == raw.macros,
            c.templates == raw.templates,
            c.highlights == raw.highlights,
            c.timestamp_format == raw.timestamp.format,
            c.timestamp_enabled == raw.timestamp.enabled,
            c.history_max_size == raw.history.max_size,
            c.history_persist == raw.history.persist,
    {
        AppConfig {
            commands: raw.commands,
            macros: raw.macros,
            templates: raw.templates,
            highlights: raw.highlights,
            timestamp_format: raw.timestamp.format,
            timestamp_enabled: raw.timestamp.enabled,
            history_max_size: raw.history.max_size,
            history_persist: raw.history.persist,
        }
    }
}

} // verus!
