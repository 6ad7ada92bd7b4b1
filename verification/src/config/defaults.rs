//! The bundled default configuration and the built-in defaults of each
//! setting.

use vstd::prelude::*;

use crate::config::manager::{HighlightRule, HistoryConfig, TimestampConfig};
use crate::string_map::StringMap;

verus! {

/// The bundled default configuration, as YAML.
pub const DEFAULT_YAML: &'static str = "# cli-terminal configuration
# Commands offered by Tab completion: label -> command.
commands:
  help: \"help\"
  status: \"status\"
  readvolt: \"readvolt\"
  readcurr: \"readcurr\"
  get_rcm: \"get_rcm\"
  update_rcm: \"update_rcm\"

# F-key macros (F2-F12): key -> command sent when pressed.
macros:
  F2: \"status\"
  F3: \"readvolt\"
  F4: \"readcurr\"
  F5: \"get_rcm\"

# Command templates (F1): {name} placeholders are filled from a form.
templates:
  - label: \"mscontrol\"
    command: \"mscontrol {side} {angle_rate} {deep_rate}\"
    params:
      - name: side
        prompt: \"Side\"
        options: [left, right]
        default: \"left\"
      - name: angle_rate
        prompt: \"Angle rate\"
        options: [\"0.5\", \"1.0\", \"1.5\", \"2.0\"]
        default: \"1.0\"
      - name: deep_rate
        prompt: \"Depth rate\"
        options: [\"0.5\", \"1.0\", \"1.5\", \"2.0\"]
        default: \"1.0\"

  - label: \"update_rcm\"
    command: \"update_rcm\"
    params: []

  - label: \"get_rcm\"
    command: \"get_rcm\"
    params: []

  - label: \"set_rcm\"
    command: \"set_rcm {x} {y} {z}\"
    params:
      - name: x
        prompt: \"X\"
      - name: y
        prompt: \"Y\"
      - name: z
        prompt: \"Z\"

  - label: \"inject\"
    command: \"inject {mode} {d_inj}\"
    params:
      - name: mode
        prompt: \"Injection mode\"
        options: [step, continuous]
        default: \"step\"
      - name: d_inj
        prompt: \"Injection volume\"

  - label: \"autoseq\"
    command: \"autoseq {file}\"
    params:
      - name: file
        prompt: \"Sequence file path\"

  - label: \"setcurr\"
    command: \"setcurr {current}\"
    params:
      - name: current
        prompt: \"Current (A)\"

  - label: \"setvolt\"
    command: \"setvolt {voltage}\"
    params:
      - name: voltage
        prompt: \"Voltage (V)\"

# Highlight rules: the first rule that matches a byte styles it.
highlights:
  - pattern: \"ERROR.*\"
    fg: red
    bold: true
  - pattern: \"WARN.*\"
    fg: yellow
  - pattern: \"OK\"
    fg: green
    bold: true
  - pattern: \"^> .*\"
    fg: cyan
  - pattern: \"\\\\[stderr\\\\].*\"
    fg: magenta

timestamp:
  enabled: true
  format: \"[%H:%M:%S]\"

history:
  max_size: 1000
  persist: true
";

/// The bundled default configuration, as YAML.
pub fn bundled_default_yaml() -> (s: &'static str)
    ensures
        s@ == DEFAULT_YAML@,
{
    DEFAULT_YAML
}

/// The default configuration file's text: the bundled YAML.
pub fn generate_default_config_yaml() -> (s: String)
    ensures
        s@ == DEFAULT_YAML@,
{
    String::from_str(DEFAULT_YAML)
}

/// No command bindings.
pub fn default_commands() -> (m: StringMap)
    ensures
        m.map_view() == Map::<Seq<char>, Seq<char>>::empty(),
{
    StringMap::new()
}

/// No macro bindings.
pub fn default_macros() -> (m: StringMap)
    ensures
        m.map_view() == Map::<Seq<char>, Seq<char>>::empty(),
{
    StringMap::new()
}

/// No highlight rules.
pub fn default_highlights() -> (v: Vec<HighlightRule>)
    ensures
        v@.len() == 0,
{
    Vec::new()
}

pub fn default_timestamp_enabled() -> (b: bool)
    ensures
        b,
{
    true
}

pub fn default_timestamp_format() -> (s: String)
    ensures
        s@ == "[%H:%M:%S]"@,
{
    String::from_str("[%H:%M:%S]")
}

pub fn default_history_max_size() -> (n: usize)
    ensures
        n == 1000,
{
    1000
}

pub fn default_history_persist() -> (b: bool)
    ensures
        b,
{
    true
}

pub fn default_timestamp_cfg() -> (c: TimestampConfig)
    ensures
        c.enabled,
        c.format@ == "[%H:%M:%S]"@,
{
    TimestampConfig { enabled: default_timestamp_enabled(), format: default_timestamp_format() }
}

pub fn default_history_cfg() -> (c: HistoryConfig)
    ensures
        c.max_size == 1000,
        c.persist,
{
    HistoryConfig { max_size: default_history_max_size(), persist: default_history_persist() }
}

} // verus!
