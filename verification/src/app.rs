//! The interaction state of the terminal enhancer: modes, key handling, the
//! template form, and what the host must do in response (send a command,
//! export, reload the configuration). The host performs the I/O and feeds
//! the results back as events.

use vstd::prelude::*;

use crate::config::manager::{AppConfig, TemplateParam, TemplateParamView, param_views};
use crate::input::history::{HistoryManager, history_after_add, search_results};
use crate::input::macros::MacroManager;
use crate::input::templates::{Template, TemplateManager, built_from, expand_all};
use crate::output::search::{
    SearchState, search_cleared, search_executed, search_requeried, stepped_next, stepped_prev,
};
use crate::string_map::StringMap;
use crate::text::{chars_of, char_to_string, is_blank, str_is_blank, str_views, string_of};
use crate::widgets::display::{
    DisplayWidget, command_added, line_contents, message_added, line_added, strftime_valid,
    timestamp_format_is_valid,
};
use crate::widgets::input::{
    InputBuffer, after_backspace, after_delete, after_insert, after_move_end, after_move_home,
    after_move_left, after_move_right, cleared,
};

verus! {

/// The default value of a parameter's input: its `default`, or nothing.
pub open spec fn default_text(p: TemplateParamView) -> Seq<char> {
    match p.default {
        Some(d) => d,
        None => Seq::empty(),
    }
}

/// State for the inline parameter form: one input per parameter of the
/// chosen template.
pub struct TemplateForm {
    pub template_idx: usize,
    pub inputs: Vec<InputBuffer>,
    pub active_input: usize,
    pub show_dropdown: bool,
    pub dropdown_idx: usize,
}

/// Set `buf` to hold `s` with the cursor after its last character, by
/// clearing it and typing `s` character by character.
fn set_input_text(buf: &mut InputBuffer, s: &str)
    ensures
        final(buf).state() == (s@, s@.len()),
{
    buf.clear();
    let cs = chars_of(s);
    let mut i: usize = 0;
    while i < cs.len()
        invariant
            cs@ == s@,
            i <= cs@.len(),
            buf.state() == (s@.take(i as int), i as nat),
        decreases cs@.len() - i,
    {
        let ghost before = buf.state();
        buf.insert(cs[i]);
        proof {
            assert(s@.take(i + 1) =~= s@.take(i as int) + seq![cs@[i as int]]);
            assert(before.0.take(before.0.len() as int) =~= before.0);
            assert(before.0.skip(before.0.len() as int) =~= Seq::<char>::empty());
        }
        i = i + 1;
    }
    proof {
        assert(s@.take(cs@.len() as int) =~= s@);
    }
}

impl TemplateForm {
    /// A form for template `template_idx`: one input per parameter, filled
    /// with the parameter's default.
    pub fn new(template_idx: usize, template: &Template) -> (f: Self)
        ensures
            f.template_idx == template_idx,
            f.inputs@.len() == template.params_of().len(),
            forall|i: int|
                0 <= i < f.inputs@.len() ==> (#[trigger] f.inputs@[i]).state() == (
                    default_text(template.params_of()[i]@),
                    default_text(template.params_of()[i]@).len(),
                ),
            f.active_input == 0,
            !f.show_dropdown,
            f.dropdown_idx == 0,
    {
        let params = template.params();
        let mut inputs: Vec<InputBuffer> = Vec::new();
        let mut i: usize = 0;
        while i < params.len()
            invariant
                params@ == template.params_of(),
                i <= params@.len(),
                inputs@.len() == i,
                forall|j: int|
                    0 <= j < i ==> (#[trigger] inputs@[j]).state() == (
                        default_text(params@[j]@),
                        default_text(params@[j]@).len(),
                    ),
            decreases params@.len() - i,
        {
            let mut buf = InputBuffer::new();
            match &params[i].default {
                Some(d) => set_input_text(&mut buf, d.as_str()),
                None => {},
            }
            inputs.push(buf);
            i = i + 1;
        }
        TemplateForm { template_idx, inputs, active_input: 0, show_dropdown: false, dropdown_idx: 0 }
    }

    /// The focused input.
    pub fn active_input(&self) -> (b: &InputBuffer)
        requires
            self.active_input < self.inputs@.len(),
        ensures
            *b == self.inputs@[self.active_input as int],
    {
        &self.inputs[self.active_input]
    }

    /// The focused input, for editing.
    pub fn active_input_mut(&mut self) -> (b: &mut InputBuffer)
        requires
            old(self).active_input < old(self).inputs@.len(),
        ensures
            *b == old(self).inputs@[old(self).active_input as int],
            final(self).inputs@ == old(self).inputs@.update(old(self).active_input as int, *final(b)),
            final(self).template_idx == old(self).template_idx,
            final(self).active_input == old(self).active_input,
            final(self).show_dropdown == old(self).show_dropdown,
            final(self).dropdown_idx == old(self).dropdown_idx,
    {
        &mut self.inputs[self.active_input]
    }

    /// The command of `template` with each parameter's placeholder replaced
    /// by its input's text.
    pub fn submit(&self, template: &Template) -> (cmd: String)
        requires
            self.inputs@.len() == template.params_of().len(),
        ensures
            cmd@ == expand_all(template.command_of(), form_values(template.params_of(), self.inputs@)),
    {
        let params = template.params();
        let mut values: Vec<(String, String)> = Vec::new();
        let mut i: usize = 0;
        while i < self.inputs.len()
            invariant
                params@ == template.params_of(),
                self.inputs@.len() == params@.len(),
                i <= self.inputs@.len(),
                values@.map_values(|p: (String, String)| (p.0@, p.1@)) == form_values(
                    params@,
                    self.inputs@,
                ).take(i as int),
            decreases self.inputs@.len() - i,
        {
            let name = params[i].name.clone();
            let text = String::from_str(self.inputs[i].text());
            let ghost before = values@;
            values.push((name, text));
            proof {
                let fv = form_values(params@, self.inputs@);
                assert(fv.take(i + 1) =~= fv.take(i as int).push(fv[i as int]));
                assert(values@.map_values(|p: (String, String)| (p.0@, p.1@)) =~= before.map_values(
                    |p: (String, String)| (p.0@, p.1@),
                ).push((name@, text@)));
            }
            i = i + 1;
        }
        proof {
            let fv = form_values(params@, self.inputs@);
            assert(fv.take(fv.len() as int) =~= fv);
        }
        template.expand(values.as_slice())
    }
}

/// The (name, text) pairs of a filled form.
pub open spec fn form_values(params: Seq<TemplateParam>, inputs: Seq<InputBuffer>) -> Seq<
    (Seq<char>, Seq<char>),
> {
    Seq::new(inputs.len(), |i: int| (params[i].name@, inputs[i].text_of()))
}

/// The interaction modes.
#[derive(Clone, Copy, Debug, PartialEq, Eq, Structural)]
pub enum Mode {
    Normal,
    HistorySearch,
    OutputSearch,
    TemplateMenu,
    TemplateForm,
}

/// A key, as the terminal reports it.
#[derive(Clone, Copy, Debug, PartialEq, Eq, Structural)]
pub enum KeyCode {
    Char(char),
    F(u8),
    Enter,
    Esc,
    Backspace,
    Delete,
    Left,
    Right,
    Up,
    Down,
    Home,
    End,
    Tab,
    BackTab,
    Other,
}

/// The modifier keys held with a key; `other` stands for any modifier
/// besides Control, Shift and Alt.
#[derive(Clone, Copy, Debug, PartialEq, Eq, Structural)]
pub struct KeyMods {
    pub control: bool,
    pub shift: bool,
    pub alt: bool,
    pub other: bool,
}

/// A key event; `release` marks the release of a key.
#[derive(Clone, Copy, Debug, PartialEq, Eq, Structural)]
pub struct KeyInput {
    pub code: KeyCode,
    pub mods: KeyMods,
    pub release: bool,
}

/// What the host must do after an event.
#[derive(Debug)]
pub enum Action {
    /// Send this command line to the target program (or print it when
    /// there is none).
    Send(String),
    /// Export the output to a file and report the outcome.
    Export,
    /// Load the configuration again and hand it back.
    ReloadConfig,
}

/// Exactly Control is held.
pub open spec fn ctrl_only(m: KeyMods) -> bool {
    m.control && !m.shift && !m.alt && !m.other
}

/// No modifier, or Shift alone, is held.
pub open spec fn plain_or_shift(m: KeyMods) -> bool {
    !m.control && !m.alt && !m.other
}

pub open spec fn is_ctrl_char(k: KeyInput, c: char) -> bool {
    ctrl_only(k.mods) && k.code == KeyCode::Char(c)
}

/// Whether action `a` sends `cmd`.
pub open spec fn sends(a: Action, cmd: Seq<char>) -> bool {
    a matches Action::Send(s) && s@ == cmd
}

/// The actions are exactly: send `cmd`.
pub open spec fn just_sends(acts: Seq<Action>, cmd: Seq<char>) -> bool {
    acts.len() == 1 && sends(acts[0], cmd)
}

/// The name under which a function key's macro is bound: `F2` to `F12`.
pub open spec fn fkey_text(n: u8) -> Seq<char> {
    if n == 2 {
        "F2"@
    } else if n == 3 {
        "F3"@
    } else if n == 4 {
        "F4"@
    } else if n == 5 {
        "F5"@
    } else if n == 6 {
        "F6"@
    } else if n == 7 {
        "F7"@
    } else if n == 8 {
        "F8"@
    } else if n == 9 {
        "F9"@
    } else if n == 10 {
        "F10"@
    } else if n == 11 {
        "F11"@
    } else {
        "F12"@
    }
}

/// The macro name of function key `n`, for 2 <= n <= 12.
fn fkey_name(n: u8) -> (s: &'static str)
    requires
        2 <= n <= 12,
    ensures
        s@ == fkey_text(n),
{
    match n {
        2 => "F2",
        3 => "F3",
        4 => "F4",
        5 => "F5",
        6 => "F6",
        7 => "F7",
        8 => "F8",
        9 => "F9",
        10 => "F10",
        11 => "F11",
        _ => "F12",
    }
}

/// Whether `s` starts with `p`.
pub open spec fn starts_with(s: Seq<char>, p: Seq<char>) -> bool {
    p.len() <= s.len() && s.take(p.len() as int) == p
}

fn str_starts_with(s: &str, p: &str) -> (b: bool)
    ensures
        b == starts_with(s@, p@),
{
    let sc = chars_of(s);
    let pc = chars_of(p);
    if pc.len() > sc.len() {
        return false;
    }
    let mut i: usize = 0;
    while i < pc.len()
        invariant
            sc@ == s@,
            pc@ == p@,
            pc@.len() <= sc@.len(),
            i <= pc@.len(),
            forall|j: int| 0 <= j < i ==> sc@[j] == pc@[j],
        decreases pc@.len() - i,
    {
        if sc[i] != pc[i] {
            proof {
                assert(s@.take(p@.len() as int)[i as int] != p@[i as int]);
            }
            return false;
        }
        i = i + 1;
    }
    proof {
        assert(s@.take(p@.len() as int) =~= p@);
    }
    true
}

/// The macro looked up for function key F`n` is named `F` followed by the
/// decimal digits of `n`.
pub proof fn law_fkey_text_is_f_and_number(n: u8)
    requires
        2 <= n <= 12,
    ensures
        n < 10 ==> fkey_text(n) == seq!['F', ((n as int + 48) as char)],
        n >= 10 ==> fkey_text(n) == seq!['F', '1', ((n as int - 10 + 48) as char)],
{
    reveal_strlit("F2");
    reveal_strlit("F3");
    reveal_strlit("F4");
    reveal_strlit("F5");
    reveal_strlit("F6");
    reveal_strlit("F7");
    reveal_strlit("F8");
    reveal_strlit("F9");
    reveal_strlit("F10");
    reveal_strlit("F11");
    reveal_strlit("F12");
    if n < 10 {
        assert(fkey_text(n) =~= seq!['F', ((n as int + 48) as char)]);
    } else {
        assert(fkey_text(n) =~= seq!['F', '1', ((n as int - 10 + 48) as char)]);
    }
}

/// The completions of `text` are exactly the configured command labels that
/// begin with `text`: a label is offered when its first characters are
/// `text`, and never only because it holds `text` further in.
pub proof fn law_completions_are_prefix_matches(o: AppState, text: Seq<char>, k: Seq<char>)
    ensures
        completions(o, text).contains(k) <==> (crate::string_map::pair_keys(
            o.config.commands.pairs(),
        ).contains(k) && text.len() <= k.len() && k.take(text.len() as int) == text),
{
    let pred = |x: Seq<char>| starts_with(x, text);
    crate::text::lemma_filter_contains_iff(
        crate::string_map::pair_keys(o.config.commands.pairs()),
        pred,
        k,
    );
}

/// `parts` joined with `sep` between neighbours.
pub open spec fn join_with(parts: Seq<Seq<char>>, sep: Seq<char>) -> Seq<char>
    decreases parts.len(),
{
    if parts.len() == 0 {
        Seq::empty()
    } else if parts.len() == 1 {
        parts[0]
    } else {
        join_with(parts.drop_last(), sep) + sep + parts.last()
    }
}

/// `s` without its last character (unchanged when empty).
pub open spec fn without_last(s: Seq<char>) -> Seq<char> {
    if s.len() > 0 {
        s.drop_last()
    } else {
        s
    }
}

fn pop_char(s: &String) -> (r: String)
    ensures
        r@ == without_last(s@),
{
    let mut cs = chars_of(s.as_str());
    if cs.len() > 0 {
        cs.pop();
    }
    string_of(&cs)
}

fn push_char(s: &mut String, c: char)
    ensures
        final(s)@ == old(s)@.push(c),
{
    let one = char_to_string(c);
    s.append(one.as_str());
}

/// The interaction state.
pub struct AppState {
    pub mode: Mode,
    pub target_program: Option<String>,
    pub child_alive: bool,
    pub running: bool,
    pub display: DisplayWidget,
    pub input: InputBuffer,
    pub config: AppConfig,
    pub history: HistoryManager,
    pub macros: MacroManager,
    pub templates: TemplateManager,
    pub search: SearchState,
    /// The query being typed in either search mode.
    pub history_query: String,
    pub history_search_idx: usize,
    pub template_idx: usize,
    pub form: Option<TemplateForm>,
}

/// `n` is `o` with the history and the display updated for sending `cmd`:
/// a blank command changes nothing; otherwise it is added to the history
/// and echoed as `> cmd`.
pub open spec fn sent_fields(o: AppState, n: AppState, cmd: Seq<char>) -> bool {
    if is_blank(cmd) {
        n.history == o.history && n.display == o.display
    } else {
        &&& n.history.entries_of() == history_after_add(
            o.history.entries_of(),
            o.history.max_size_of(),
            cmd,
        )
        &&& n.history.max_size_of() == o.history.max_size_of()
        &&& n.history.persist_path_of() == o.history.persist_path_of()
        &&& command_added(o.display, n.display, "> "@ + cmd)
    }
}

/// The actions of sending `cmd`: none for a blank command, else sending it.
pub open spec fn send_actions(acts: Seq<Action>, cmd: Seq<char>) -> bool {
    if is_blank(cmd) {
        acts.len() == 0
    } else {
        just_sends(acts, cmd)
    }
}

/// `n` is `o` after sending `cmd`.
pub open spec fn command_sent(o: AppState, n: AppState, cmd: Seq<char>, acts: Seq<Action>) -> bool {
    &&& sent_fields(o, n, cmd)
    &&& send_actions(acts, cmd)
    &&& n == (AppState { history: n.history, display: n.display, ..o })
}

/// The command labels that start with `text`, in configuration order.
pub open spec fn completions(o: AppState, text: Seq<char>) -> Seq<Seq<char>> {
    crate::string_map::pair_keys(o.config.commands.pairs()).filter(|k: Seq<char>| starts_with(k, text))
}


/// `n` is `o` stopped.
pub open spec fn exited(o: AppState, n: AppState) -> bool {
    n == (AppState { running: false, ..o })
}

/// `n` is `o` in history search, with an empty query on its first result.
pub open spec fn entered_history_search(o: AppState, n: AppState) -> bool {
    &&& n.history_query@.len() == 0
    &&& n == (AppState {
        mode: Mode::HistorySearch,
        history_query: n.history_query,
        history_search_idx: 0,
        ..o
    })
}

/// `n` is `o` in output search, with an empty query and no search.
pub open spec fn entered_output_search(o: AppState, n: AppState) -> bool {
    &&& n.history_query@.len() == 0
    &&& search_cleared(n.search)
    &&& n == (AppState {
        mode: Mode::OutputSearch,
        history_query: n.history_query,
        search: n.search,
        ..o
    })
}

/// `n` is `o` with the template menu open on its first entry, or, without
/// templates, with a message saying so.
pub open spec fn entered_template_menu(o: AppState, n: AppState) -> bool {
    if o.templates.templates_of().len() == 0 {
        &&& message_added(o.display, n.display, "No templates configured"@)
        &&& n == (AppState { display: n.display, ..o })
    } else {
        n == (AppState { mode: Mode::TemplateMenu, template_idx: 0, ..o })
    }
}

/// `n` is `o` after sending the typed line and clearing the input.
pub open spec fn command_submitted(o: AppState, n: AppState, acts: Seq<Action>) -> bool {
    &&& sent_fields(o, n, o.input.text_of())
    &&& send_actions(acts, o.input.text_of())
    &&& n.input.state() == cleared()
    &&& n == (AppState { history: n.history, display: n.display, input: n.input, ..o })
}

/// `n` is `o` after completing the typed text from the command labels.
pub open spec fn autocompleted(o: AppState, n: AppState) -> bool {
    let text = o.input.text_of();
    let comps = completions(o, text);
    if text.len() == 0 || comps.len() == 0 {
        n == o
    } else if comps.len() == 1 {
        &&& n.input.state() == (comps[0], comps[0].len())
        &&& n == (AppState { input: n.input, ..o })
    } else {
        &&& message_added(o.display, n.display, "Matches: "@ + join_with(comps, ", "@))
        &&& n == (AppState { display: n.display, ..o })
    }
}

/// `n` is `o` with the last output block collapsed or expanded, and a
/// message saying which; nothing changes without blocks.
pub open spec fn collapse_toggled(o: AppState, n: AppState) -> bool {
    if o.display.regions_of().len() == 0 {
        n == o
    } else {
        let last = o.display.regions_of().len() - 1;
        let now_collapsed = !o.display.regions_of()[last].collapsed;
        &&& n.display.regions_of() == crate::output::collapse::flip(o.display.regions_of(), last)
        &&& n.display.lines_of().drop_last() == o.display.lines_of()
        &&& n.display.lines_of().len() == o.display.lines_of().len() + 1
        &&& n.display.lines_of().last().content@ == if now_collapsed {
            "[Block collapsed]"@
        } else {
            "[Block expanded]"@
        }
        &&& !n.display.lines_of().last().is_command
        &&& n.display.timestamp_format_of() == o.display.timestamp_format_of()
        &&& n.display.timestamp_enabled_of() == o.display.timestamp_enabled_of()
        &&& n.display.block_start_of() == o.display.block_start_of()
        &&& n == (AppState { display: n.display, ..o })
    }
}

/// `n` is `o` with the input line in state `e`.
pub open spec fn input_edited(o: AppState, n: AppState, e: crate::widgets::input::EditState) -> bool {
    &&& n.input.state() == e
    &&& n == (AppState { input: n.input, ..o })
}


/// The actions are exactly one `ReloadConfig`.
pub open spec fn just_reload(acts: Seq<Action>) -> bool {
    acts.len() == 1 && acts[0] is ReloadConfig
}

/// The actions are exactly one `Export`.
pub open spec fn just_export(acts: Seq<Action>) -> bool {
    acts.len() == 1 && acts[0] is Export
}

/// `n` (with actions `acts`) is what key `k` makes of `o` in normal mode.
pub open spec fn normal_step(o: AppState, n: AppState, k: KeyInput, acts: Seq<Action>) -> bool {
    if is_ctrl_char(k, 'c') {
        exited(o, n) && acts.len() == 0
    } else if is_ctrl_char(k, 'r') {
        entered_history_search(o, n) && acts.len() == 0
    } else if is_ctrl_char(k, 'l') {
        n == o && just_reload(acts)
    } else if is_ctrl_char(k, 'e') {
        n == o && just_export(acts)
    } else if k.code == KeyCode::Char('/') {
        entered_output_search(o, n) && acts.len() == 0
    } else if k.code == KeyCode::F(1) {
        entered_template_menu(o, n) && acts.len() == 0
    } else if k.code == KeyCode::Enter {
        command_submitted(o, n, acts)
    } else if k.code == KeyCode::Backspace {
        input_edited(o, n, after_backspace(o.input.state())) && acts.len() == 0
    } else if k.code == KeyCode::Delete {
        input_edited(o, n, after_delete(o.input.state())) && acts.len() == 0
    } else if k.code == KeyCode::Left {
        input_edited(o, n, after_move_left(o.input.state())) && acts.len() == 0
    } else if k.code == KeyCode::Right {
        input_edited(o, n, after_move_right(o.input.state())) && acts.len() == 0
    } else if k.code == KeyCode::Home {
        input_edited(o, n, after_move_home(o.input.state())) && acts.len() == 0
    } else if k.code == KeyCode::End {
        input_edited(o, n, after_move_end(o.input.state())) && acts.len() == 0
    } else if k.code == KeyCode::Tab {
        autocompleted(o, n) && acts.len() == 0
    } else if k.code == KeyCode::Esc {
        search_cleared(n.search) && n == (AppState { search: n.search, ..o }) && acts.len() == 0
    } else if k.code == KeyCode::Char('C') {
        collapse_toggled(o, n) && acts.len() == 0
    } else if k.code is Char {
        acts.len() == 0 && if o.input.cursor_of() < usize::MAX {
            input_edited(o, n, after_insert(o.input.state(), k.code->Char_0))
        } else {
            n == o
        }
    } else if k.code is F && 2 <= k.code->F_0 <= 12 {
        let name = fkey_text(k.code->F_0);
        if o.macros.bindings_of().contains_key(name) {
            command_sent(o, n, o.macros.bindings_of()[name], acts)
        } else {
            n == o && acts.len() == 0
        }
    } else {
        n == o && acts.len() == 0
    }
}


/// The history entries that match the query being typed.
pub open spec fn history_hits(o: AppState) -> Seq<Seq<char>> {
    search_results(o.history.entries_of(), o.history_query@)
}

/// `n` (with actions `acts`) is what key `k` makes of `o` in history search.
pub open spec fn history_search_step(o: AppState, n: AppState, k: KeyInput, acts: Seq<Action>) -> bool {
    &&& acts.len() == 0
    &&& if k.code == KeyCode::Enter {
        let hits = history_hits(o);
        if o.history_search_idx < hits.len() {
            let chosen = hits[o.history_search_idx as int];
            &&& n.input.state() == (chosen, chosen.len())
            &&& n == (AppState { mode: Mode::Normal, input: n.input, ..o })
        } else {
            n == (AppState { mode: Mode::Normal, ..o })
        }
    } else if k.code == KeyCode::Esc || is_ctrl_char(k, 'c') {
        n == (AppState { mode: Mode::Normal, ..o })
    } else if k.code == KeyCode::Up && o.history_search_idx > 0 {
        n == (AppState { history_search_idx: (o.history_search_idx - 1) as usize, ..o })
    } else if k.code == KeyCode::Down {
        if o.history_search_idx + 1 < history_hits(o).len() {
            n == (AppState { history_search_idx: (o.history_search_idx + 1) as usize, ..o })
        } else {
            n == o
        }
    } else if k.code == KeyCode::Backspace {
        &&& n.history_query@ == without_last(o.history_query@)
        &&& n == (AppState { history_query: n.history_query, history_search_idx: 0, ..o })
    } else if k.code is Char {
        &&& n.history_query@ == o.history_query@.push(k.code->Char_0)
        &&& n == (AppState { history_query: n.history_query, history_search_idx: 0, ..o })
    } else {
        n == o
    }
}

/// The pattern searched for after typing `q`: the escaped query, when it
/// is not empty and compiles.
pub open spec fn query_pattern(q: Seq<char>) -> Option<Seq<char>> {
    if q.len() > 0 && crate::pattern::regex_compiles(crate::pattern::regex_escaped(q)) {
        Some(crate::pattern::regex_escaped(q))
    } else {
        None
    }
}

/// `s` is the search for `q` over `lines`: its pattern, its matches, and
/// the first match current.
pub open spec fn searched_for(s: SearchState, q: Seq<char>, lines: Seq<Seq<char>>) -> bool {
    &&& s.query_of() == query_pattern(q)
    &&& s.matches_of() == match query_pattern(q) {
        Some(p) => crate::output::search::lines_matching(lines, p),
        None => Seq::<(int, Seq<char>)>::empty(),
    }
    &&& s.current_of() == if s.matches_of().len() > 0 {
        Some(0nat)
    } else {
        None
    }
}

/// `n` (with actions `acts`) is what key `k` makes of `o` in output search.
pub open spec fn output_search_step(o: AppState, n: AppState, k: KeyInput, acts: Seq<Action>) -> bool {
    let lines = line_contents(o.display.lines_of());
    &&& acts.len() == 0
    &&& if k.code == KeyCode::Enter {
        &&& searched_for(n.search, o.history_query@, lines)
        &&& n == (AppState { mode: Mode::Normal, search: n.search, ..o })
    } else if k.code == KeyCode::Esc || is_ctrl_char(k, 'c') {
        &&& search_cleared(n.search)
        &&& n == (AppState { mode: Mode::Normal, search: n.search, ..o })
    } else if plain_or_shift(k.mods) && k.code == KeyCode::Char('n') {
        &&& stepped_next(o.search, n.search)
        &&& n == (AppState { search: n.search, ..o })
    } else if k.code == KeyCode::Char('N') {
        &&& stepped_prev(o.search, n.search)
        &&& n == (AppState { search: n.search, ..o })
    } else if k.code == KeyCode::Backspace {
        &&& n.history_query@ == without_last(o.history_query@)
        &&& searched_for(n.search, n.history_query@, lines)
        &&& n == (AppState { history_query: n.history_query, search: n.search, ..o })
    } else if k.code is Char {
        &&& n.history_query@ == o.history_query@.push(k.code->Char_0)
        &&& searched_for(n.search, n.history_query@, lines)
        &&& n == (AppState { history_query: n.history_query, search: n.search, ..o })
    } else {
        n == o
    }
}

/// `n` is `o` with a form opened for template `idx`, each input holding its
/// parameter's default.
pub open spec fn form_opened(o: AppState, n: AppState, idx: usize) -> bool {
    let t = o.templates.templates_of()[idx as int];
    &&& n.form matches Some(f) && {
        &&& f.template_idx == idx
        &&& f.inputs@.len() == t.params_of().len()
        &&& forall|i: int|
            0 <= i < f.inputs@.len() ==> (#[trigger] f.inputs@[i]).state() == (
                default_text(t.params_of()[i]@),
                default_text(t.params_of()[i]@).len(),
            )
        &&& f.active_input == 0
        &&& !f.show_dropdown
        &&& f.dropdown_idx == 0
    }
    &&& n == (AppState { mode: Mode::TemplateForm, form: n.form, ..o })
}

/// `n` (with actions `acts`) is what key `k` makes of `o` in the template menu.
pub open spec fn template_menu_step(o: AppState, n: AppState, k: KeyInput, acts: Seq<Action>) -> bool {
    let count = o.templates.templates_of().len();
    &&& acts.len() == 0
    &&& if k.code == KeyCode::Enter {
        if o.template_idx < count {
            form_opened(o, n, o.template_idx)
        } else {
            n == o
        }
    } else if k.code == KeyCode::Esc || is_ctrl_char(k, 'c') {
        n == (AppState { mode: Mode::Normal, ..o })
    } else if k.code == KeyCode::Up && o.template_idx > 0 {
        n == (AppState { template_idx: (o.template_idx - 1) as usize, ..o })
    } else if k.code == KeyCode::Down && o.template_idx + 1 < count {
        n == (AppState { template_idx: (o.template_idx + 1) as usize, ..o })
    } else {
        n == o
    }
}


/// The template a form belongs to.
pub open spec fn form_template(o: AppState, f: TemplateForm) -> Template {
    o.templates.templates_of()[f.template_idx as int]
}

/// The option list of the focused parameter of form `f`, if it has one.
pub open spec fn focused_options(o: AppState, f: TemplateForm) -> Option<Seq<Seq<char>>> {
    let params = form_template(o, f).params_of();
    if f.active_input < params.len() {
        Some(str_views(params[f.active_input as int].options@))
    } else {
        None
    }
}

/// Keys on which the form reaches past its inputs or options: choosing a
/// dropdown entry that is out of range, and editing or moving through a
/// form without inputs.
pub open spec fn form_key_fails(o: AppState, k: KeyInput) -> bool {
    o.form matches Some(f) && {
        let opts = focused_options(o, f);
        let handled_first = k.code == KeyCode::Enter || k.code == KeyCode::Esc || is_ctrl_char(k, 'c')
            || is_ctrl_char(k, 'd');
        ||| (k.code == KeyCode::Enter && f.show_dropdown && opts is Some && opts->0.len() > 0
            && f.dropdown_idx >= opts->0.len())
        ||| (f.inputs@.len() == 0 && !handled_first && ((k.code == KeyCode::Tab && !f.show_dropdown)
            || k.code == KeyCode::Backspace || k.code == KeyCode::Delete || k.code == KeyCode::Left
            || k.code == KeyCode::Right || k.code == KeyCode::Home || k.code == KeyCode::End
            || k.code is Char))
    }
}

/// `n` is `o` with form `f` now having the given focus and dropdown state,
/// and inputs `inputs`.
pub open spec fn form_now(
    o: AppState,
    n: AppState,
    f: TemplateForm,
    inputs: Seq<InputBuffer>,
    active: usize,
    show: bool,
    didx: usize,
) -> bool {
    &&& n.form matches Some(g) && {
        &&& g.template_idx == f.template_idx
        &&& g.inputs@ == inputs
        &&& g.active_input == active
        &&& g.show_dropdown == show
        &&& g.dropdown_idx == didx
    }
    &&& n == (AppState { form: n.form, ..o })
}

/// `inputs` is `f`'s inputs with input `a` now in state `e`.
pub open spec fn input_replaced(f: TemplateForm, inputs: Seq<InputBuffer>, a: int, e: crate::widgets::input::EditState) -> bool {
    &&& inputs.len() == f.inputs@.len()
    &&& 0 <= a < inputs.len()
    &&& inputs[a].state() == e
    &&& forall|i: int| 0 <= i < inputs.len() && i != a ==> inputs[i] == f.inputs@[i]
}

/// `n` is `o` with the focused input of form `f` edited into state `e`.
pub open spec fn focused_edited(o: AppState, n: AppState, f: TemplateForm, e: crate::widgets::input::EditState) -> bool {
    n.form matches Some(g) && input_replaced(f, g.inputs@, f.active_input as int, e) && form_now(
        o,
        n,
        f,
        g.inputs@,
        f.active_input,
        f.show_dropdown,
        f.dropdown_idx,
    )
}

/// `n` (with actions `acts`) is what key `k` makes of `o` in the form.
pub open spec fn template_form_step(o: AppState, n: AppState, k: KeyInput, acts: Seq<Action>) -> bool {
    match o.form {
        None => n == (AppState { mode: Mode::Normal, ..o }) && acts.len() == 0,
        Some(f) => {
            let t = form_template(o, f);
            let opts = focused_options(o, f);
            let a = f.active_input as int;
            let cur = f.inputs@[a].state();
            if k.code == KeyCode::Enter {
                if f.show_dropdown {
                    acts.len() == 0 && if opts is Some && opts->0.len() > 0 {
                        let v = opts->0[f.dropdown_idx as int];
                        n.form matches Some(g) && input_replaced(f, g.inputs@, a, (v, v.len()))
                            && form_now(o, n, f, g.inputs@, f.active_input, false, f.dropdown_idx)
                    } else {
                        n == o
                    }
                } else {
                    let cmd = expand_all(t.command_of(), form_values(t.params_of(), f.inputs@));
                    &&& sent_fields(o, n, cmd)
                    &&& send_actions(acts, cmd)
                    &&& n == (AppState {
                        history: n.history,
                        display: n.display,
                        form: None,
                        mode: Mode::Normal,
                        ..o
                    })
                }
            } else if k.code == KeyCode::Esc || is_ctrl_char(k, 'c') {
                n == (AppState { form: None, mode: Mode::TemplateMenu, ..o }) && acts.len() == 0
            } else if is_ctrl_char(k, 'd') {
                acts.len() == 0 && if opts is Some && opts->0.len() > 0 {
                    form_now(o, n, f, f.inputs@, f.active_input, !f.show_dropdown, 0)
                } else {
                    n == o
                }
            } else if k.code == KeyCode::Tab {
                acts.len() == 0 && if f.show_dropdown {
                    let count = match opts {
                        Some(os) => os.len(),
                        None => 0,
                    };
                    if f.dropdown_idx + 1 < count {
                        form_now(o, n, f, f.inputs@, f.active_input, true, (f.dropdown_idx + 1) as usize)
                    } else {
                        n == o
                    }
                } else {
                    form_now(o, n, f, f.inputs@, ((a + 1) % (f.inputs@.len() as int)) as usize, false, f.dropdown_idx)
                }
            } else if k.code == KeyCode::BackTab {
                acts.len() == 0 && form_now(
                    o,
                    n,
                    f,
                    f.inputs@,
                    if a > 0 {
                        (a - 1) as usize
                    } else if f.inputs@.len() > 0 {
                        (f.inputs@.len() - 1) as usize
                    } else {
                        0
                    },
                    f.show_dropdown,
                    f.dropdown_idx,
                )
            } else if k.code == KeyCode::Backspace {
                acts.len() == 0 && focused_edited(o, n, f, after_backspace(cur))
            } else if k.code == KeyCode::Delete {
                acts.len() == 0 && focused_edited(o, n, f, after_delete(cur))
            } else if k.code == KeyCode::Left {
                acts.len() == 0 && focused_edited(o, n, f, after_move_left(cur))
            } else if k.code == KeyCode::Right {
                acts.len() == 0 && focused_edited(o, n, f, after_move_right(cur))
            } else if k.code == KeyCode::Home {
                acts.len() == 0 && focused_edited(o, n, f, after_move_home(cur))
            } else if k.code == KeyCode::End {
                acts.len() == 0 && focused_edited(o, n, f, after_move_end(cur))
            } else if k.code is Char {
                acts.len() == 0 && if cur.1 < usize::MAX {
                    focused_edited(o, n, f, after_insert(cur, k.code->Char_0))
                } else {
                    n == o
                }
            } else {
                n == o && acts.len() == 0
            }
        },
    }
}


/// Whether Tab would list several completions in a message.
pub open spec fn lists_completions(o: AppState) -> bool {
    o.input.text_of().len() > 0 && completions(o, o.input.text_of()).len() > 1
}

/// Whether key `k` in normal mode adds a system message (which needs a
/// timestamp when timestamps are on).
pub open spec fn normal_key_reports(o: AppState, k: KeyInput) -> bool {
    let ctrl_first = is_ctrl_char(k, 'c') || is_ctrl_char(k, 'r') || is_ctrl_char(k, 'l')
        || is_ctrl_char(k, 'e');
    !ctrl_first && ((k.code == KeyCode::F(1) && o.templates.templates_of().len() == 0) || (k.code
        == KeyCode::Tab && lists_completions(o)) || (k.code == KeyCode::Char('C')
        && o.display.regions_of().len() > 0))
}

/// Whether key `k` cannot be handled in state `o`: it would add a message
/// whose timestamp format chrono rejects, or reach past the form's inputs.
pub open spec fn key_fails(o: AppState, k: KeyInput) -> bool {
    !k.release && ((o.mode == Mode::Normal && !o.display.timestamps_ok() && normal_key_reports(
        o,
        k,
    )) || (o.mode == Mode::TemplateForm && form_key_fails(o, k)))
}

/// `n` (with actions `acts`) is what key `k` makes of `o`: released keys are
/// ignored, other keys go to the handler of the current mode.
pub open spec fn key_step(o: AppState, n: AppState, k: KeyInput, acts: Seq<Action>) -> bool {
    if k.release {
        n == o && acts.len() == 0
    } else {
        match o.mode {
            Mode::Normal => normal_step(o, n, k, acts),
            Mode::HistorySearch => history_search_step(o, n, k, acts),
            Mode::OutputSearch => output_search_step(o, n, k, acts),
            Mode::TemplateMenu => template_menu_step(o, n, k, acts),
            Mode::TemplateForm => template_form_step(o, n, k, acts),
        }
    }
}

/// The line the output reader sends when the target program has exited.
pub open spec fn exit_marker() -> Seq<char> {
    "__CLI_TERMINAL_CHILD_EXITED__"@
}

/// `n` is `o` after the target printed `line` (the exit marker ends the
/// child and is reported instead of shown).
pub open spec fn child_line_step(o: AppState, n: AppState, line: Seq<char>, stop: bool) -> bool {
    if line == exit_marker() {
        &&& stop
        &&& message_added(o.display, n.display, "Child process exited"@)
        &&& n == (AppState { child_alive: false, display: n.display, ..o })
    } else {
        &&& !stop
        &&& line_added(o.display, n.display, line)
        &&& n == (AppState { display: n.display, ..o })
    }
}

/// `n` is `o` running with configuration `c`: new macros and templates, and
/// the same output, now stamped with `c`'s timestamp settings, followed by a
/// message that reports the reload.
pub open spec fn config_applied(o: AppState, n: AppState, c: AppConfig) -> bool {
    &&& n.config.commands.pairs() == c.commands.pairs()
    &&& n.config.macros.pairs() == c.macros.pairs()
    &&& crate::config::manager::config_views(n.config.templates@) == crate::config::manager::config_views(c.templates@)
    &&& n.config.highlights@ == c.highlights@
    &&& n.config.timestamp_format == c.timestamp_format
    &&& n.config.timestamp_enabled == c.timestamp_enabled
    &&& n.config.history_max_size == c.history_max_size
    &&& n.config.history_persist == c.history_persist
    &&& n.macros.bindings_of() == c.macros.map_view()
    &&& built_from(n.templates.templates_of(), crate::config::manager::config_views(c.templates@))
    &&& n.display.lines_of().len() == o.display.lines_of().len() + 1
    &&& n.display.lines_of().drop_last() == o.display.lines_of()
    &&& n.display.lines_of().last().content@ == "[Config reloaded]"@
    &&& !n.display.lines_of().last().is_command
    &&& n.display.lines_of().last().timestamp is Some == c.timestamp_enabled
    &&& n.display.timestamp_format_of() == c.timestamp_format@
    &&& n.display.timestamp_enabled_of() == c.timestamp_enabled
    &&& n.display.block_start_of() == o.display.block_start_of()
    &&& n.display.regions_of() == o.display.regions_of()
    &&& n == (AppState {
        config: n.config,
        macros: n.macros,
        templates: n.templates,
        display: n.display,
        ..o
    })
}

/// The message reporting an export: where the output went, or why not.
pub open spec fn export_message(result: Result<Seq<char>, Seq<char>>) -> Seq<char> {
    match result {
        Ok(path) => "Output exported to: "@ + path,
        Err(e) => "Export failed: "@ + e,
    }
}

/// What happened outside, handed back to the state.
pub enum Event {
    /// A key was pressed or released.
    Key(KeyInput),
    /// The target program printed a line.
    ChildOutput(String),
    /// The configuration was loaded again.
    ConfigLoaded(AppConfig),
    /// The export finished: the file written, or the error.
    ExportFinished(Result<String, String>),
}

pub open spec fn result_view(r: Result<String, String>) -> Result<Seq<char>, Seq<char>> {
    match r {
        Ok(p) => Ok(p@),
        Err(e) => Err(e@),
    }
}

/// Whether event `e` cannot be handled in state `o`.
pub open spec fn event_fails(o: AppState, e: Event) -> bool {
    match e {
        Event::Key(k) => key_fails(o, k),
        Event::ChildOutput(_) => !o.display.timestamps_ok(),
        Event::ConfigLoaded(c) => o.form is Some || (c.timestamp_enabled && !strftime_valid(c.timestamp_format@)),
        Event::ExportFinished(_) => !o.display.timestamps_ok(),
    }
}

/// `n` (with actions `acts`) is what event `e` makes of `o`.
pub open spec fn event_step(o: AppState, n: AppState, e: Event, acts: Seq<Action>) -> bool {
    match e {
        Event::Key(k) => key_step(o, n, k, acts),
        Event::ChildOutput(line) => acts.len() == 0 && exists|stop: bool| child_line_step(o, n, line@, stop),
        Event::ConfigLoaded(c) => acts.len() == 0 && config_applied(o, n, c),
        Event::ExportFinished(r) => {
            &&& acts.len() == 0
            &&& message_added(o.display, n.display, export_message(result_view(r)))
            &&& n == (AppState { display: n.display, ..o })
        },
    }
}

impl AppState {
    /// The form, when there is one, belongs to an existing template and has
    /// one input per parameter, with the focus on one of them.
    pub open spec fn wf(&self) -> bool {
        self.form matches Some(f) ==> {
            &&& f.template_idx < self.templates.templates_of().len()
            &&& f.inputs@.len() == self.templates.templates_of()[f.template_idx as int].params_of().len()
            &&& f.inputs@.len() == 0 ==> f.active_input == 0
            &&& f.inputs@.len() > 0 ==> f.active_input < f.inputs@.len()
        }
    }

    /// The state at start-up, with `config` and a history saved to
    /// `history_file` when the configuration asks for it.
    pub fn new(target_program: Option<String>, config: AppConfig, history_file: String) -> (s: Self)
        ensures
            s.wf(),
            s.mode == Mode::Normal,
            s.target_program == target_program,
            !s.child_alive,
            s.running,
            s.display.lines_of().len() == 0,
            s.display.timestamp_format_of() == config.timestamp_format@,
            s.display.timestamp_enabled_of() == config.timestamp_enabled,
            s.input.state() == cleared(),
            s.history.entries_of().len() == 0,
            s.history.max_size_of() == config.history_max_size,
            s.history.persist_path_of() == if config.history_persist {
                Some(history_file@)
            } else {
                None
            },
            s.macros.bindings_of() == config.macros.map_view(),
            built_from(s.templates.templates_of(), crate::config::manager::config_views(config.templates@)),
            search_cleared(s.search),
            s.history_query@.len() == 0,
            s.history_search_idx == 0,
            s.template_idx == 0,
            s.form is None,
            s.config == config,
    {
        let path = if config.history_persist {
            Some(history_file)
        } else {
            None
        };
        let history = HistoryManager::new(config.history_max_size, path);
        let macros = MacroManager::new(config.macros.clone());
        let templates = TemplateManager::new(crate::config::manager::clone_templates(&config.templates));
        let display = DisplayWidget::new(config.timestamp_format.clone(), config.timestamp_enabled);
        AppState {
            mode: Mode::Normal,
            target_program,
            child_alive: false,
            running: true,
            display,
            input: InputBuffer::new(),
            config,
            history,
            macros,
            templates,
            search: SearchState::new(),
            history_query: String::new(),
            history_search_idx: 0,
            template_idx: 0,
            form: None,
        }
    }

    /// Stop the event loop.
    pub fn exit(&mut self)
        ensures
            exited(*old(self), *final(self)),
    {
        self.running = false;
    }

    /// Send `command` to the target: a blank command is ignored; otherwise
    /// it is added to the history and echoed, and the host is asked to send it.
    pub fn send_command(&mut self, command: &str) -> (acts: Vec<Action>)
        ensures
            command_sent(*old(self), *final(self), command@, acts@),
    {
        if str_is_blank(command) {
            return Vec::new();
        }
        self.history.add(command);
        let mut echo = String::from_str("> ");
        echo.append(command);
        self.display.add_command(echo);
        let mut acts: Vec<Action> = Vec::new();
        acts.push(Action::Send(String::from_str(command)));
        acts
    }

    pub fn enter_history_search(&mut self)
        ensures
            entered_history_search(*old(self), *final(self)),
    {
        self.mode = Mode::HistorySearch;
        self.history_query = String::new();
        self.history_search_idx = 0;
    }

    pub fn enter_output_search(&mut self)
        ensures
            entered_output_search(*old(self), *final(self)),
    {
        self.mode = Mode::OutputSearch;
        self.history_query = String::new();
        self.search.set_query("");
        proof {
            reveal_strlit("");
        }
    }

    /// Open the template menu on its first entry, or report that there is
    /// no template.
    pub fn enter_template_menu(&mut self)
        requires
            old(self).display.timestamps_ok() || old(self).templates.templates_of().len() > 0,
        ensures
            entered_template_menu(*old(self), *final(self)),
    {
        if self.templates.templates().len() == 0 {
            self.display.add_message("No templates configured");
            return;
        }
        self.mode = Mode::TemplateMenu;
        self.template_idx = 0;
    }

    /// Send the typed line and clear the input.
    pub fn submit_command(&mut self) -> (acts: Vec<Action>)
        ensures
            command_submitted(*old(self), *final(self), acts@),
    {
        let command = String::from_str(self.input.text());
        let acts = self.send_command(command.as_str());
        self.input.clear();
        acts
    }

    /// Complete the typed text from the configured command labels: a single
    /// label that starts with it replaces it; several are listed.
    pub fn try_autocomplete(&mut self)
        requires
            old(self).display.timestamps_ok() || !lists_completions(*old(self)),
        ensures
            autocompleted(*old(self), *final(self)),
    {
        let text = String::from_str(self.input.text());
        if text.as_str().is_empty() {
            return;
        }
        let found = self.find_completions(&text);
        if found.len() == 1 {
            let only = String::from_str(found[0]);
            set_input_text(&mut self.input, only.as_str());
        } else if found.len() > 1 {
            let mut msg = String::from_str("Matches: ");
            let mut j: usize = 0;
            let ghost names = found@.map_values(|s: &str| s@);
            while j < found.len()
                invariant
                    j <= found@.len(),
                    found@.len() > 1,
                    names == found@.map_values(|s: &str| s@),
                    j == 0 ==> msg@ == "Matches: "@,
                    j > 0 ==> msg@ == "Matches: "@ + join_with(names.take(j as int), ", "@),
                decreases found@.len() - j,
            {
                if j > 0 {
                    msg.append(", ");
                }
                msg.append(found[j]);
                proof {
                    let t = names.take(j + 1);
                    assert(t.drop_last() =~= names.take(j as int));
                    assert(t.last() == found@[j as int]@);
                    if j == 0 {
                        assert(join_with(t, ", "@) == t[0]);
                    }
                }
                j = j + 1;
            }
            proof {
                assert(names.take(found@.len() as int) =~= names);
            }
            self.display.add_message(msg.as_str());
        }
    }

    /// Handle a key in normal mode: editing, submitting, entering the other
    /// modes, and the function-key macros.
    pub fn handle_normal(&mut self, key: KeyInput) -> (acts: Vec<Action>)
        requires
            old(self).display.timestamps_ok() || !normal_key_reports(*old(self), key),
        ensures
            normal_step(*old(self), *final(self), key, acts@),
    {
        let ctrl = key.mods.control && !key.mods.shift && !key.mods.alt && !key.mods.other;
        let mut acts: Vec<Action> = Vec::new();
        match key.code {
            KeyCode::Char(c) if ctrl && c == 'c' => self.exit(),
            KeyCode::Char(c) if ctrl && c == 'r' => self.enter_history_search(),
            KeyCode::Char(c) if ctrl && c == 'l' => acts.push(Action::ReloadConfig),
            KeyCode::Char(c) if ctrl && c == 'e' => acts.push(Action::Export),
            KeyCode::Char('/') => self.enter_output_search(),
            KeyCode::F(1) => self.enter_template_menu(),
            KeyCode::Enter => {
                acts = self.submit_command();
            },
            KeyCode::Backspace => self.input.backspace(),
            KeyCode::Delete => self.input.delete(),
            KeyCode::Left => self.input.move_left(),
            KeyCode::Right => self.input.move_right(),
            KeyCode::Home => self.input.move_home(),
            KeyCode::End => self.input.move_end(),
            KeyCode::Tab => self.try_autocomplete(),
            KeyCode::Esc => self.search.clear(),
            KeyCode::Char('C') => self.toggle_collapse(),
            KeyCode::Char(c) => {
                if self.input.cursor() < usize::MAX {
                    self.input.insert(c);
                }
            },
            _ => {},
        }
        // Macro keys (F2-F12).
        if let KeyCode::F(n) = key.code {
            if 2 <= n && n <= 12 {
                let name = fkey_name(n);
                let found = match self.macros.get(name) {
                    Some(cmd) => Some(String::from_str(cmd)),
                    None => None,
                };
                if let Some(cmd) = found {
                    acts = self.send_command(cmd.as_str());
                }
            }
        }
        acts
    }

    /// Handle a key in history search: type the query, move among the
    /// matching entries, put the chosen one on the input line.
    pub fn handle_history_search(&mut self, key: KeyInput) -> (acts: Vec<Action>)
        ensures
            history_search_step(*old(self), *final(self), key, acts@),
    {
        let ctrl = key.mods.control && !key.mods.shift && !key.mods.alt && !key.mods.other;
        match key.code {
            KeyCode::Enter => {
                let chosen = {
                    let matches = self.history.search(self.history_query.as_str());
                    if self.history_search_idx < matches.len() {
                        Some(String::from_str(matches[self.history_search_idx]))
                    } else {
                        None
                    }
                };
                if let Some(selected) = chosen {
                    set_input_text(&mut self.input, selected.as_str());
                }
                self.mode = Mode::Normal;
            },
            KeyCode::Esc => {
                self.mode = Mode::Normal;
            },
            KeyCode::Char(c) if ctrl && c == 'c' => {
                self.mode = Mode::Normal;
            },
            KeyCode::Up if self.history_search_idx > 0 => {
                self.history_search_idx = self.history_search_idx - 1;
            },
            KeyCode::Down => {
                let count = self.history.search(self.history_query.as_str()).len();
                if self.history_search_idx < count && count - self.history_search_idx > 1 {
                    self.history_search_idx = self.history_search_idx + 1;
                }
            },
            KeyCode::Backspace => {
                self.history_query = pop_char(&self.history_query);
                self.history_search_idx = 0;
            },
            KeyCode::Char(c) => {
                push_char(&mut self.history_query, c);
                self.history_search_idx = 0;
            },
            _ => {},
        }
        Vec::new()
    }

    /// Search the displayed output for the query being typed.
    fn research(&mut self)
        ensures
            searched_for(final(self).search, old(self).history_query@, line_contents(old(self).display.lines_of())),
            *final(self) == (AppState { search: final(self).search, ..*old(self) }),
    {
        self.search.set_query(self.history_query.as_str());
        let lines = self.display.raw_lines();
        self.search.execute(lines.as_slice());
    }

    /// Handle a key in output search: type the query (searching as one
    /// types), step through the matches, or leave.
    pub fn handle_output_search(&mut self, key: KeyInput) -> (acts: Vec<Action>)
        ensures
            output_search_step(*old(self), *final(self), key, acts@),
    {
        let ctrl = key.mods.control && !key.mods.shift && !key.mods.alt && !key.mods.other;
        let plain_or_shift = !key.mods.control && !key.mods.alt && !key.mods.other;
        match key.code {
            KeyCode::Enter => {
                self.research();
                self.mode = Mode::Normal;
            },
            KeyCode::Esc => {
                self.search.clear();
                self.mode = Mode::Normal;
            },
            KeyCode::Char(c) if ctrl && c == 'c' => {
                self.search.clear();
                self.mode = Mode::Normal;
            },
            KeyCode::Char(c) if plain_or_shift && c == 'n' => {
                self.search.next_match();
            },
            KeyCode::Char('N') => {
                self.search.prev_match();
            },
            KeyCode::Backspace => {
                self.history_query = pop_char(&self.history_query);
                self.research();
            },
            KeyCode::Char(c) => {
                push_char(&mut self.history_query, c);
                self.research();
            },
            _ => {},
        }
        Vec::new()
    }

    /// Open the parameter form for template `template_idx`.
    pub fn enter_template_form(&mut self, template_idx: usize)
        requires
            template_idx < old(self).templates.templates_of().len(),
        ensures
            form_opened(*old(self), *final(self), template_idx),
            final(self).wf(),
    {
        let form = {
            let templates = self.templates.templates();
            TemplateForm::new(template_idx, &templates[template_idx])
        };
        self.form = Some(form);
        self.mode = Mode::TemplateForm;
    }

    /// Handle a key in the template menu: move, choose, or leave.
    pub fn handle_template_menu(&mut self, key: KeyInput) -> (acts: Vec<Action>)
        ensures
            template_menu_step(*old(self), *final(self), key, acts@),
            old(self).wf() ==> final(self).wf(),
    {
        let ctrl = key.mods.control && !key.mods.shift && !key.mods.alt && !key.mods.other;
        let count = self.templates.templates().len();
        if key.code == KeyCode::Enter {
            if self.template_idx < count {
                self.enter_template_form(self.template_idx);
            }
        } else if key.code == KeyCode::Esc || (ctrl && key.code == KeyCode::Char('c')) {
            self.mode = Mode::Normal;
        } else if key.code == KeyCode::Up && self.template_idx > 0 {
            self.template_idx = self.template_idx - 1;
        } else if key.code == KeyCode::Down && self.template_idx < count && count - self.template_idx > 1 {
            self.template_idx = self.template_idx + 1;
        }
        Vec::new()
    }

    /// Handle a key in the parameter form: edit the focused input, move
    /// between inputs, pick from the dropdown of options, submit the expanded
    /// command, or go back to the menu.
    pub fn handle_template_form(&mut self, key: KeyInput) -> (acts: Vec<Action>)
        requires
            old(self).wf(),
            !form_key_fails(*old(self), key),
        ensures
            final(self).wf(),
            template_form_step(*old(self), *final(self), key, acts@),
    {
        let ctrl = key.mods.control && !key.mods.shift && !key.mods.alt && !key.mods.other;
        let ghost o = *self;
        let mut form = match self.form.take() {
            Some(f) => f,
            None => {
                self.mode = Mode::Normal;
                return Vec::new();
            },
        };
        let ghost f0 = form;
        let a = form.active_input;
        let (has_param, opt_count) = {
            let templates = self.templates.templates();
            let params = templates[form.template_idx].params();
            if a < params.len() {
                (true, params[a].options.len())
            } else {
                (false, 0)
            }
        };
        proof {
            let t = form_template(o, f0);
            assert(has_param == (a < t.params_of().len()));
            if has_param {
                assert(opt_count == str_views(t.params_of()[a as int].options@).len());
            }
        }
        let mut acts: Vec<Action> = Vec::new();
        if key.code == KeyCode::Enter {
            if form.show_dropdown {
                if has_param && opt_count > 0 {
                    let val = {
                        let templates = self.templates.templates();
                        let params = templates[form.template_idx].params();
                        params[a].options[form.dropdown_idx].clone()
                    };
                    let buf = form.active_input_mut();
                    set_input_text(buf, val.as_str());
                    form.show_dropdown = false;
                }
                self.form = Some(form);
            } else {
                let command = {
                    let templates = self.templates.templates();
                    form.submit(&templates[form.template_idx])
                };
                acts = self.send_command(command.as_str());
                self.mode = Mode::Normal;
            }
        } else if key.code == KeyCode::Esc || (ctrl && key.code == KeyCode::Char('c')) {
            self.mode = Mode::TemplateMenu;
        } else if ctrl && key.code == KeyCode::Char('d') {
            if has_param && opt_count > 0 {
                form.show_dropdown = !form.show_dropdown;
                form.dropdown_idx = 0;
            }
            self.form = Some(form);
        } else if key.code == KeyCode::Tab {
            if form.show_dropdown {
                if form.dropdown_idx < opt_count && opt_count - form.dropdown_idx > 1 {
                    form.dropdown_idx = form.dropdown_idx + 1;
                }
            } else {
                form.active_input = (form.active_input + 1) % form.inputs.len();
            }
            self.form = Some(form);
        } else if key.code == KeyCode::BackTab {
            if form.active_input > 0 {
                form.active_input = form.active_input - 1;
            } else if form.inputs.len() > 0 {
                form.active_input = form.inputs.len() - 1;
            } else {
                form.active_input = 0;
            }
            self.form = Some(form);
        } else if key.code == KeyCode::Backspace {
            form.active_input_mut().backspace();
            self.form = Some(form);
        } else if key.code == KeyCode::Delete {
            form.active_input_mut().delete();
            self.form = Some(form);
        } else if key.code == KeyCode::Left {
            form.active_input_mut().move_left();
            self.form = Some(form);
        } else if key.code == KeyCode::Right {
            form.active_input_mut().move_right();
            self.form = Some(form);
        } else if key.code == KeyCode::Home {
            form.active_input_mut().move_home();
            self.form = Some(form);
        } else if key.code == KeyCode::End {
            form.active_input_mut().move_end();
            self.form = Some(form);
        } else if let KeyCode::Char(c) = key.code {
            if form.inputs[form.active_input].cursor() < usize::MAX {
                form.active_input_mut().insert(c);
            }
            self.form = Some(form);
        } else {
            self.form = Some(form);
        }
        acts
    }

    /// Handle a key: released keys are ignored; others go to the handler of
    /// the current mode.
    pub fn handle_key(&mut self, key: KeyInput) -> (acts: Vec<Action>)
        requires
            old(self).wf(),
            !key_fails(*old(self), key),
        ensures
            final(self).wf(),
            key_step(*old(self), *final(self), key, acts@),
    {
        if key.release {
            return Vec::new();
        }
        match self.mode {
            Mode::Normal => self.handle_normal(key),
            Mode::HistorySearch => self.handle_history_search(key),
            Mode::OutputSearch => self.handle_output_search(key),
            Mode::TemplateMenu => self.handle_template_menu(key),
            Mode::TemplateForm => self.handle_template_form(key),
        }
    }

    /// Whether a new line can get its timestamp (timestamps are off or
    /// their format is one chrono accepts).
    pub fn timestamps_usable(&self) -> (b: bool)
        ensures
            b == self.display.timestamps_ok(),
    {
        !self.display.timestamp_enabled() || timestamp_format_is_valid(self.display.timestamp_format())
    }

    /// Take a line the target program printed. Returns whether it was the
    /// exit marker, after which nothing more comes.
    pub fn on_child_line(&mut self, line: String) -> (stop: bool)
        requires
            old(self).display.timestamps_ok(),
        ensures
            child_line_step(*old(self), *final(self), line@, stop),
    {
        let is_exit = {
            let marker = String::from_str("__CLI_TERMINAL_CHILD_EXITED__");
            line == marker
        };
        if is_exit {
            self.child_alive = false;
            self.display.add_message("Child process exited");
            true
        } else {
            self.display.add_line(line);
            false
        }
    }

    /// Run with a newly loaded configuration.
    pub fn apply_config(&mut self, config: AppConfig)
        requires
            old(self).form is None,
            config.timestamp_enabled ==> strftime_valid(config.timestamp_format@),
        ensures
            config_applied(*old(self), *final(self), config),
    {
        let copy = config.clone();
        let AppConfig {
            commands: _,
            macros,
            templates,
            highlights: _,
            timestamp_format,
            timestamp_enabled,
            history_max_size: _,
            history_persist: _,
        } = config;
        self.config = copy;
        self.macros.update(macros);
        self.templates.update(templates);
        self.display.update_timestamp_settings(timestamp_format, timestamp_enabled);
        self.display.add_message("Config reloaded");
        proof {
            reveal_strlit("Config reloaded");
            reveal_strlit("[Config reloaded]");
            assert(seq!['['] + "Config reloaded"@ + seq![']'] =~= "[Config reloaded]"@);
        }
    }

    /// Report how an export went.
    pub fn export_finished(&mut self, result: Result<String, String>)
        requires
            old(self).display.timestamps_ok(),
        ensures
            message_added(old(self).display, final(self).display, export_message(result_view(result))),
            *final(self) == (AppState { display: final(self).display, ..*old(self) }),
    {
        let mut msg = match &result {
            Ok(_) => String::from_str("Output exported to: "),
            Err(_) => String::from_str("Export failed: "),
        };
        match &result {
            Ok(p) => msg.append(p.as_str()),
            Err(e) => msg.append(e.as_str()),
        }
        self.display.add_message(msg.as_str());
    }

    /// Handle an event.
    pub fn handle_event(&mut self, event: Event) -> (acts: Vec<Action>)
        requires
            old(self).wf(),
            !event_fails(*old(self), event),
        ensures
            final(self).wf(),
            event_step(*old(self), *final(self), event, acts@),
    {
        match event {
            Event::Key(k) => self.handle_key(k),
            Event::ChildOutput(line) => {
                let ghost l = line@;
                let stop = self.on_child_line(line);
                proof {
                    assert(child_line_step(*old(self), *self, l, stop));
                }
                Vec::new()
            },
            Event::ConfigLoaded(c) => {
                self.apply_config(c);
                Vec::new()
            },
            Event::ExportFinished(r) => {
                self.export_finished(r);
                Vec::new()
            },
        }
    }

    /// The command labels that start with `text`, in configuration order.
    fn find_completions(&self, text: &String) -> (found: Vec<&str>)
        ensures
            found@.map_values(|s: &str| s@) == completions(*self, text@),
    {
        let entries = self.config.commands.entries();
        let ghost keys = crate::string_map::pair_keys(crate::string_map::pair_views(entries@));
        let ghost pred = |k: Seq<char>| starts_with(k, text@);
        let mut found: Vec<&str> = Vec::new();
        let mut i: usize = 0;
        while i < entries.len()
            invariant
                i <= entries@.len(),
                keys == crate::string_map::pair_keys(crate::string_map::pair_views(entries@)),
                pred == (|k: Seq<char>| starts_with(k, text@)),
                found@.map_values(|s: &str| s@) == keys.take(i as int).filter(pred),
            decreases entries@.len() - i,
        {
            let label = entries[i].0.as_str();
            let hit = str_starts_with(label, text.as_str());
            proof {
                assert(keys.take(i + 1).drop_last() =~= keys.take(i as int));
                assert(keys.take(i + 1).last() == label@);
                reveal(Seq::filter);
            }
            if hit {
                let ghost before = found@;
                found.push(label);
                proof {
                    assert(found@.map_values(|s: &str| s@) =~= before.map_values(|s: &str| s@).push(
                        label@,
                    ));
                }
            }
            i = i + 1;
        }
        proof {
            assert(keys.take(entries@.len() as int) =~= keys);
        }
        found
    }

    /// Whether key `key` cannot be handled now (see `key_fails`).
    pub fn key_would_fail(&self, key: KeyInput) -> (b: bool)
        requires
            self.wf(),
        ensures
            b == key_fails(*self, key),
    {
        if key.release {
            return false;
        }
        let ctrl = key.mods.control && !key.mods.shift && !key.mods.alt && !key.mods.other;
        match self.mode {
            Mode::Normal => {
                if self.timestamps_usable() {
                    return false;
                }
                if ctrl && (key.code == KeyCode::Char('c') || key.code == KeyCode::Char('r')
                    || key.code == KeyCode::Char('l') || key.code == KeyCode::Char('e')) {
                    return false;
                }
                if key.code == KeyCode::F(1) {
                    self.templates.templates().len() == 0
                } else if key.code == KeyCode::Tab {
                    let text = String::from_str(self.input.text());
                    if text.as_str().is_empty() {
                        false
                    } else {
                        self.find_completions(&text).len() > 1
                    }
                } else if key.code == KeyCode::Char('C') {
                    self.display.collapse().regions().len() > 0
                } else {
                    false
                }
            },
            Mode::TemplateForm => {
                match &self.form {
                    None => false,
                    Some(f) => {
                        let templates = self.templates.templates();
                        let params = templates[f.template_idx].params();
                        let a = f.active_input;
                        let first = key.code == KeyCode::Enter || key.code == KeyCode::Esc || (ctrl && (
                        key.code == KeyCode::Char('c') || key.code == KeyCode::Char('d')));
                        let bad_pick = key.code == KeyCode::Enter && f.show_dropdown && a < params.len()
                            && params[a].options.len() > 0 && f.dropdown_idx >= params[a].options.len();
                        let is_char = match key.code {
                            KeyCode::Char(_) => true,
                            _ => false,
                        };
                        let edits = (key.code == KeyCode::Tab && !f.show_dropdown) || key.code
                            == KeyCode::Backspace || key.code == KeyCode::Delete || key.code
                            == KeyCode::Left || key.code == KeyCode::Right || key.code == KeyCode::Home
                            || key.code == KeyCode::End || is_char;
                        proof {
                            if a < params.len() {
                                assert(str_views(params@[a as int].options@).len() == params@[a as int].options@.len());
                            }
                        }
                        bad_pick || (f.inputs.len() == 0 && !first && edits)
                    },
                }
            },
            _ => false,
        }
    }

    /// Whether event `event` cannot be handled now (see `event_fails`).
    pub fn event_would_fail(&self, event: &Event) -> (b: bool)
        requires
            self.wf(),
        ensures
            b == event_fails(*self, *event),
    {
        match event {
            Event::Key(k) => self.key_would_fail(*k),
            Event::ChildOutput(_) => !self.timestamps_usable(),
            Event::ConfigLoaded(c) => self.form.is_some() || (c.timestamp_enabled
                && !timestamp_format_is_valid(c.timestamp_format.as_str())),
            Event::ExportFinished(_) => !self.timestamps_usable(),
        }
    }

    /// Handle an event unless it cannot be handled (see `event_fails`), in
    /// which case nothing changes and `None` is returned.
    pub fn try_handle_event(&mut self, event: Event) -> (r: Option<Vec<Action>>)
        requires
            old(self).wf(),
        ensures
            final(self).wf(),
            event_fails(*old(self), event) ==> (r is None && *final(self) == *old(self)),
            !event_fails(*old(self), event) ==> (r matches Some(acts) && event_step(
                *old(self),
                *final(self),
                event,
                acts@,
            )),
    {
        if self.event_would_fail(&event) {
            return None;
        }
        Some(self.handle_event(event))
    }

    /// Collapse or expand the most recent output block, and say which.
    pub fn toggle_collapse(&mut self)
        requires
            old(self).display.timestamps_ok() || old(self).display.regions_of().len() == 0,
        ensures
            collapse_toggled(*old(self), *final(self)),
    {
        if self.display.collapse().regions().len() == 0 {
            return;
        }
        let r = self.display.collapse_manager().toggle_last();
        match r {
            Some(true) => self.display.add_message("Block collapsed"),
            Some(false) => self.display.add_message("Block expanded"),
            None => {},
        }
        proof {
            reveal_strlit("Block collapsed");
            reveal_strlit("Block expanded");
            reveal_strlit("[Block collapsed]");
            reveal_strlit("[Block expanded]");
            assert(seq!['['] + "Block collapsed"@ + seq![']'] =~= "[Block collapsed]"@);
            assert(seq!['['] + "Block expanded"@ + seq![']'] =~= "[Block expanded]"@);
        }
    }
}

} // verus!
