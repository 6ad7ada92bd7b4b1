//! What the screen shows, computed from the state: the status line, the
//! input line split at the cursor, the visible output rows with their
//! highlighting, and the template menu.

use vstd::prelude::*;

use crate::app::{AppState, Mode, history_hits};
use crate::config::manager::ColorName;
use crate::output::collapse::{first_collapsed_at, hidden_in};
use crate::output::highlight::{HighlightSpan, StyleSpec, highlight_line, highlight_spans, plain, span_views};
use crate::text::char_to_string;
use crate::widgets::display::line_contents;
use crate::widgets::input::InputBuffer;

verus! {

/// The character of decimal digit `d`.
pub open spec fn digit_char(d: nat) -> char {
    if d == 0 {
        '0'
    } else if d == 1 {
        '1'
    } else if d == 2 {
        '2'
    } else if d == 3 {
        '3'
    } else if d == 4 {
        '4'
    } else if d == 5 {
        '5'
    } else if d == 6 {
        '6'
    } else if d == 7 {
        '7'
    } else if d == 8 {
        '8'
    } else {
        '9'
    }
}

/// The decimal digits of `n`.
pub open spec fn decimal(n: nat) -> Seq<char>
    decreases n,
{
    if n < 10 {
        seq![digit_char(n)]
    } else {
        decimal(n / 10).push(digit_char(n % 10))
    }
}

fn digit(d: usize) -> (c: char)
    requires
        d < 10,
    ensures
        c == digit_char(d as nat),
{
    match d {
        0 => '0',
        1 => '1',
        2 => '2',
        3 => '3',
        4 => '4',
        5 => '5',
        6 => '6',
        7 => '7',
        8 => '8',
        _ => '9',
    }
}

/// `n` written in decimal.
pub fn decimal_string(n: usize) -> (s: String)
    ensures
        s@ == decimal(n as nat),
    decreases n,
{
    if n < 10 {
        char_to_string(digit(n))
    } else {
        let mut s = decimal_string(n / 10);
        let d = char_to_string(digit(n % 10));
        s.append(d.as_str());
        s
    }
}

/// A piece of the status line.
pub struct StatusSpan {
    pub text: String,
    pub style: StyleSpec,
}

/// The label of a mode on the status line.
pub open spec fn mode_label(m: Mode) -> Seq<char> {
    match m {
        Mode::Normal => "NORMAL"@,
        Mode::HistorySearch => "HISTORY SEARCH"@,
        Mode::OutputSearch => "OUTPUT SEARCH"@,
        Mode::TemplateMenu => "TEMPLATE MENU"@,
        Mode::TemplateForm => "TEMPLATE FORM"@,
    }
}

pub open spec fn mode_style() -> StyleSpec {
    StyleSpec { fg: Some(ColorName::Black), bg: Some(ColorName::Green), bold: true, underline: false }
}

pub open spec fn colored(c: ColorName) -> StyleSpec {
    StyleSpec { fg: Some(c), bg: None, bold: false, underline: false }
}

/// The pieces of the status line, as text and style.
pub open spec fn status_pieces(s: AppState) -> Seq<(Seq<char>, StyleSpec)> {
    let mode = seq![(" "@ + mode_label(s.mode) + " "@, mode_style())];
    let search = if s.mode == Mode::OutputSearch {
        let q = seq![(" /"@ + s.history_query@ + " "@, colored(ColorName::Yellow))];
        if s.search.matches_of().len() > 0 {
            q.push(("  ("@ + decimal(s.search.matches_of().len()) + " matches)"@, plain()))
        } else {
            q
        }
    } else {
        Seq::empty()
    };
    let history = if s.mode == Mode::HistorySearch {
        seq![
            (" ?"@ + s.history_query@ + " "@, colored(ColorName::Cyan)),
            ("  ("@ + decimal(history_hits(s).len()) + " matches)"@, plain()),
        ]
    } else {
        Seq::empty()
    };
    let target = match s.target_program {
        Some(t) => seq![(" | "@ + t@, plain())],
        None => Seq::empty(),
    };
    mode + search + history + target
}

pub open spec fn status_views(v: Seq<StatusSpan>) -> Seq<(Seq<char>, StyleSpec)> {
    v.map_values(|p: StatusSpan| (p.text@, p.style))
}

fn style_of(fg: Option<ColorName>, bg: Option<ColorName>, bold: bool) -> (s: StyleSpec)
    ensures
        s == (StyleSpec { fg, bg, bold, underline: false }),
{
    StyleSpec { fg, bg, bold, underline: false }
}

/// `a` followed by `b`.
fn concat3(a: &str, b: &str, c: &str) -> (s: String)
    ensures
        s@ == a@ + b@ + c@,
{
    let mut s = String::from_str(a);
    s.append(b);
    s.append(c);
    s
}

/// The status line: the mode, the query and match count in a search mode,
/// and the target program.
pub fn status_line(s: &AppState) -> (spans: Vec<StatusSpan>)
    ensures
        status_views(spans@) == status_pieces(*s),
{
    let mut spans: Vec<StatusSpan> = Vec::new();
    let label = match s.mode {
        Mode::Normal => "NORMAL",
        Mode::HistorySearch => "HISTORY SEARCH",
        Mode::OutputSearch => "OUTPUT SEARCH",
        Mode::TemplateMenu => "TEMPLATE MENU",
        Mode::TemplateForm => "TEMPLATE FORM",
    };
    spans.push(
        StatusSpan {
            text: concat3(" ", label, " "),
            style: style_of(Some(ColorName::Black), Some(ColorName::Green), true),
        },
    );
    let ghost p = status_pieces(*s);
    proof {
        assert(status_views(spans@) =~= seq![(" "@ + mode_label(s.mode) + " "@, mode_style())]);
    }
    if s.mode == Mode::OutputSearch {
        let ghost before = spans@;
        spans.push(
            StatusSpan {
                text: concat3(" /", s.history_query.as_str(), " "),
                style: style_of(Some(ColorName::Yellow), None, false),
            },
        );
        proof {
            assert(status_views(spans@) =~= status_views(before).push(
                (" /"@ + s.history_query@ + " "@, colored(ColorName::Yellow)),
            ));
        }
        let n = s.search.match_count();
        if n > 0 {
            let count = decimal_string(n);
            let ghost before2 = spans@;
            spans.push(StatusSpan { text: concat3("  (", count.as_str(), " matches)"), style: style_of(None, None, false) });
            proof {
                assert(status_views(spans@) =~= status_views(before2).push(
                    ("  ("@ + decimal(n as nat) + " matches)"@, plain()),
                ));
            }
        }
    }
    if s.mode == Mode::HistorySearch {
        let ghost before = spans@;
        spans.push(
            StatusSpan {
                text: concat3(" ?", s.history_query.as_str(), " "),
                style: style_of(Some(ColorName::Cyan), None, false),
            },
        );
        let n = s.history.search(s.history_query.as_str()).len();
        let count = decimal_string(n);
        spans.push(StatusSpan { text: concat3("  (", count.as_str(), " matches)"), style: style_of(None, None, false) });
        proof {
            assert(status_views(spans@) =~= status_views(before) + seq![
                (" ?"@ + s.history_query@ + " "@, colored(ColorName::Cyan)),
                ("  ("@ + decimal(n as nat) + " matches)"@, plain()),
            ]);
        }
    }
    match &s.target_program {
        Some(t) => {
            let ghost before = spans@;
            spans.push(StatusSpan { text: concat3(" | ", t.as_str(), ""), style: style_of(None, None, false) });
            proof {
                reveal_strlit("");
                assert(status_views(spans@) =~= status_views(before).push((" | "@ + t@, plain())));
            }
        },
        None => {},
    }
    proof {
        assert(status_views(spans@) =~= p);
    }
    spans
}

/// The input line split at the cursor: the text before it, the character
/// under it (if any) and the text after that character.
pub struct InputView {
    pub before: String,
    pub at_cursor: Option<char>,
    pub after: String,
}

/// The input line split at the cursor.
pub fn input_view(buf: &InputBuffer) -> (v: InputView)
    ensures
        ({
            let t = buf.text_of();
            let k = buf.cursor_char();
            &&& v.before@ == t.take(k)
            &&& k < t.len() ==> v.at_cursor == Some(t[k]) && v.after@ == t.skip(k + 1)
            &&& k >= t.len() ==> v.at_cursor is None && v.after@.len() == 0
        }),
{
    let chars = crate::text::chars_of(buf.text());
    let k = buf.cursor_char_index();
    let mut before: Vec<char> = Vec::new();
    let mut i: usize = 0;
    while i < k
        invariant
            i <= k <= chars@.len(),
            before@ == chars@.take(i as int),
        decreases k - i,
    {
        before.push(chars[i]);
        proof {
            assert(chars@.take(i + 1) =~= chars@.take(i as int).push(chars@[i as int]));
        }
        i = i + 1;
    }
    if k < chars.len() {
        let mut after: Vec<char> = Vec::new();
        let mut j: usize = k + 1;
        while j < chars.len()
            invariant
                k + 1 <= j <= chars@.len(),
                after@ == chars@.subrange(k + 1, j as int),
            decreases chars@.len() - j,
        {
            after.push(chars[j]);
            proof {
                assert(chars@.subrange(k + 1, j + 1) =~= chars@.subrange(k + 1, j as int).push(chars@[j as int]));
            }
            j = j + 1;
        }
        proof {
            assert(chars@.subrange(k + 1, chars@.len() as int) =~= chars@.skip(k + 1));
        }
        InputView {
            before: crate::text::string_of(&before),
            at_cursor: Some(chars[k]),
            after: crate::text::string_of(&after),
        }
    } else {
        InputView { before: crate::text::string_of(&before), at_cursor: None, after: String::new() }
    }
}

/// How a line of output stands to the search.
#[derive(Clone, Copy, Debug, PartialEq, Eq, Structural)]
pub enum SearchMark {
    Unmarked,
    Match,
    Current,
}

pub open spec fn line_is_match(s: AppState, line: int) -> bool {
    exists|i: int| 0 <= i < s.search.matches_of().len() && (#[trigger] s.search.matches_of()[i]).0 == line
}

pub open spec fn line_is_current(s: AppState, line: int) -> bool {
    match s.search.current_of() {
        Some(i) => i < s.search.matches_of().len() && s.search.matches_of()[i as int].0 == line,
        None => false,
    }
}

/// The search mark of line `line`: only an active search (a query with
/// matches) marks lines.
pub open spec fn mark_of(s: AppState, line: int) -> SearchMark {
    if s.search.query_of() is Some && s.search.matches_of().len() > 0 {
        if line_is_current(s, line) {
            SearchMark::Current
        } else if line_is_match(s, line) {
            SearchMark::Match
        } else {
            SearchMark::Unmarked
        }
    } else {
        SearchMark::Unmarked
    }
}

/// A style with the search mark applied: the current match gets a magenta
/// background, other matches a dark gray one where they have none.
pub open spec fn marked_style(st: StyleSpec, m: SearchMark) -> StyleSpec {
    match m {
        SearchMark::Current => StyleSpec { bg: Some(ColorName::Magenta), ..st },
        SearchMark::Match => if st.bg is None {
            StyleSpec { bg: Some(ColorName::DarkGray), ..st }
        } else {
            st
        },
        SearchMark::Unmarked => st,
    }
}

pub open spec fn marked_spans(spans: Seq<(int, int, StyleSpec)>, m: SearchMark) -> Seq<(int, int, StyleSpec)> {
    spans.map_values(|p: (int, int, StyleSpec)| (p.0, p.1, marked_style(p.2, m)))
}

/// A visible row of the output: the header of a collapsed block, or a line
/// cut into styled byte ranges.
pub enum OutputRow {
    Collapsed { index: usize, text: String },
    Line { index: usize, spans: Vec<HighlightSpan> },
}

/// A row as plain values: the line index, the header text of a collapsed
/// block (if it is one) and the styled spans of a line.
pub open spec fn row_view(r: OutputRow) -> (int, Option<Seq<char>>, Seq<(int, int, StyleSpec)>) {
    match r {
        OutputRow::Collapsed { index, text } => (index as int, Some(text@), Seq::empty()),
        OutputRow::Line { index, spans } => (index as int, None, span_views(spans@)),
    }
}

pub open spec fn row_views(v: Seq<OutputRow>) -> Seq<(int, Option<Seq<char>>, Seq<(int, int, StyleSpec)>)> {
    v.map_values(|r: OutputRow| row_view(r))
}

/// The rows of the first `n` lines: lines inside a collapsed block are
/// skipped, a collapsed block's header line shows `[+ header]`, other lines
/// are highlighted and marked by the search.
pub open spec fn rows_upto(s: AppState, n: int) -> Seq<(int, Option<Seq<char>>, Seq<(int, int, StyleSpec)>)>
    decreases n,
{
    if n <= 0 {
        Seq::empty()
    } else {
        let before = rows_upto(s, n - 1);
        let i = n - 1;
        let regions = s.display.regions_of();
        if hidden_in(regions, i) {
            before
        } else {
            match first_collapsed_at(regions, i) {
                Some(r) => before.push((i, Some("[+ "@ + regions[r].header@ + "]"@), Seq::empty())),
                None => before.push(
                    (
                        i,
                        None,
                        marked_spans(
                            highlight_spans(s.config.highlights@, s.display.lines_of()[i].content@),
                            mark_of(s, i),
                        ),
                    ),
                ),
            }
        }
    }
}

/// Apply a search mark to spans.
fn mark_spans(spans: Vec<HighlightSpan>, m: SearchMark) -> (r: Vec<HighlightSpan>)
    ensures
        span_views(r@) == marked_spans(span_views(spans@), m),
{
    let mut out: Vec<HighlightSpan> = Vec::new();
    let mut i: usize = 0;
    while i < spans.len()
        invariant
            i <= spans@.len(),
            span_views(out@) == marked_spans(span_views(spans@), m).take(i as int),
        decreases spans@.len() - i,
    {
        let sp = spans[i];
        let mut st = sp.style;
        match m {
            SearchMark::Current => {
                st.bg = Some(ColorName::Magenta);
            },
            SearchMark::Match => {
                if st.bg.is_none() {
                    st.bg = Some(ColorName::DarkGray);
                }
            },
            SearchMark::Unmarked => {},
        }
        let ghost before = out@;
        out.push(HighlightSpan { start: sp.start, end: sp.end, style: st });
        proof {
            let ms = marked_spans(span_views(spans@), m);
            assert(ms.take(i + 1) =~= ms.take(i as int).push(ms[i as int]));
            assert(span_views(out@) =~= span_views(before).push((sp.start as int, sp.end as int, st)));
        }
        i = i + 1;
    }
    proof {
        let ms = marked_spans(span_views(spans@), m);
        assert(ms.take(ms.len() as int) =~= ms);
    }
    out
}

/// The visible rows of the output.
pub fn output_rows(s: &AppState) -> (rows: Vec<OutputRow>)
    ensures
        row_views(rows@) == rows_upto(*s, s.display.lines_of().len() as int),
{
    let lines = s.display.lines();
    let collapse = s.display.collapse();
    let active = s.search.active();
    let mut rows: Vec<OutputRow> = Vec::new();
    let mut i: usize = 0;
    while i < lines.len()
        invariant
            lines@ == s.display.lines_of(),
            collapse.regions_of() == s.display.regions_of(),
            active == (s.search.query_of() is Some && s.search.matches_of().len() > 0),
            i <= lines@.len(),
            row_views(rows@) == rows_upto(*s, i as int),
        decreases lines@.len() - i,
    {
        let ghost before = rows@;
        if collapse.is_hidden(i) {
        } else {
            match collapse.collapsed_header_at(i) {
                Some(h) => {
                    let text = concat3("[+ ", h, "]");
                    rows.push(OutputRow::Collapsed { index: i, text });
                    proof {
                        assert(row_views(rows@) =~= row_views(before).push(row_view(rows@.last())));
                    }
                },
                None => {
                    let spans = highlight_line(lines[i].content.as_str(), s.config.highlights.as_slice(), Some(ColorName::Yellow));
                    let m = if active {
                        if s.search.is_current_match(i) {
                            SearchMark::Current
                        } else if s.search.is_match(i) {
                            SearchMark::Match
                        } else {
                            SearchMark::Unmarked
                        }
                    } else {
                        SearchMark::Unmarked
                    };
                    let marked = mark_spans(spans, m);
                    rows.push(OutputRow::Line { index: i, spans: marked });
                    proof {
                        assert(m == mark_of(*s, i as int));
                        assert(row_views(rows@) =~= row_views(before).push(row_view(rows@.last())));
                    }
                },
            }
        }
        i = i + 1;
    }
    rows
}

/// How far to scroll so that the last lines show: the lines beyond the
/// height, truncated to 16 bits.
pub open spec fn scroll_for(total: nat, height: nat) -> u16 {
    (if total > height {
        total - height
    } else {
        0
    }) as u16
}

/// The scroll offset of the output pane.
pub fn scroll_offset(total: usize, height: u16) -> (off: u16)
    ensures
        off == scroll_for(total as nat, height as nat),
{
    let h = height as usize;
    let rest = if total > h {
        total - h
    } else {
        0
    };
    #[verifier::truncate]
    (rest as u16)
}

/// The scroll offset of the output pane, counted in visible rows: lines
/// hidden inside a collapsed block take no room.
pub fn output_scroll(s: &AppState, height: u16) -> (off: u16)
    ensures
        off == scroll_for(rows_upto(*s, s.display.lines_of().len() as int).len(), height as nat),
{
    let rows = output_rows(s);
    proof {
        assert(row_views(rows@).len() == rows@.len());
    }
    scroll_offset(rows.len(), height)
}

/// The template menu popup: where it stands and its entries, each marked
/// when selected.
pub struct MenuView {
    pub x: u16,
    pub y: u16,
    pub width: u16,
    pub height: u16,
    pub items: Vec<(String, bool)>,
}

/// The entry text of template `label`: a marker for the selected one.
pub open spec fn menu_item(label: Seq<char>, selected: bool) -> Seq<char> {
    (if selected {
        "► "@
    } else {
        "  "@
    }) + label
}

/// The template menu centred in an area `area_w` by `area_h`: at most 50
/// wide and 4 rows taller than the template count, with 4 and 2 cells to
/// spare.
pub fn template_menu(s: &AppState, area_w: u16, area_h: u16) -> (v: MenuView)
    requires
        s.templates.templates_of().len() % 65536 + 4 <= u16::MAX,
    ensures
        ({
            let count = (s.templates.templates_of().len() % 65536) as int;
            let w = if area_w >= 4 { area_w - 4 } else { 0 };
            let h = if area_h >= 2 { area_h - 2 } else { 0 };
            &&& v.width == if 50 <= w { 50 } else { w }
            &&& v.height == if count + 4 <= h { count + 4 } else { h }
            &&& v.x == (area_w - v.width) / 2
            &&& v.y == (area_h - v.height) / 2
            &&& v.items@.len() == s.templates.templates_of().len()
            &&& forall|i: int|
                0 <= i < v.items@.len() ==> (#[trigger] v.items@[i]).0@ == menu_item(
                    s.templates.templates_of()[i].label_of(),
                    i == s.template_idx,
                ) && v.items@[i].1 == (i == s.template_idx)
        }),
{
    let templates = s.templates.templates();
    let spare_w = if area_w >= 4 { area_w - 4 } else { 0 };
    let width = if 50 <= spare_w { 50 } else { spare_w };
    let n = templates.len();
    #[verifier::truncate]
    let count = (n as u16);
    proof {
        assert(count == n % 65536) by (bit_vector)
            requires
                count == n as u16,
        ;
    }
    let spare_h = if area_h >= 2 { area_h - 2 } else { 0 };
    let height = if count + 4 <= spare_h { count + 4 } else { spare_h };
    let x = (area_w - width) / 2;
    let y = (area_h - height) / 2;
    let mut items: Vec<(String, bool)> = Vec::new();
    let mut i: usize = 0;
    while i < templates.len()
        invariant
            templates@ == s.templates.templates_of(),
            i <= templates@.len(),
            items@.len() == i,
            forall|j: int|
                0 <= j < i ==> (#[trigger] items@[j]).0@ == menu_item(
                    templates@[j].label_of(),
                    j == s.template_idx,
                ) && items@[j].1 == (j == s.template_idx),
        decreases templates@.len() - i,
    {
        let selected = i == s.template_idx;
        let marker = if selected { "► " } else { "  " };
        let text = concat3(marker, templates[i].label(), "");
        proof {
            reveal_strlit("");
            assert(text@ =~= menu_item(templates@[i as int].label_of(), selected));
        }
        items.push((text, selected));
        i = i + 1;
    }
    MenuView { x, y, width, height, items }
}

} // verus!
