//! Styling a line of output with the configured highlight rules.

use vstd::prelude::*;
use vstd::string::StringSliceAdditionalSpecFns;

use crate::config::manager::{ColorName, HighlightRule};
use crate::pattern::{regex_compiles, regex_find_ranges, regex_match_ranges};

verus! {

/// A text style: colours and modifiers.
#[derive(Clone, Copy, Debug, PartialEq, Eq, Structural)]
pub struct StyleSpec {
    pub fg: Option<ColorName>,
    pub bg: Option<ColorName>,
    pub bold: bool,
    pub underline: bool,
}

/// The style of unstyled text.
pub open spec fn plain() -> StyleSpec {
    StyleSpec { fg: None, bg: None, bold: false, underline: false }
}

/// The unstyled style.
pub fn plain_style() -> (s: StyleSpec)
    ensures
        s == plain(),
{
    StyleSpec { fg: None, bg: None, bold: false, underline: false }
}

/// The style a rule gives: its colours, bold and underline when set.
pub open spec fn rule_style(rule: HighlightRule) -> StyleSpec {
    StyleSpec { fg: rule.fg, bg: rule.bg, bold: rule.bold, underline: rule.underline }
}

/// A run of equally styled bytes `[start, end)` of a line.
#[derive(Clone, Copy, Debug)]
pub struct HighlightSpan {
    pub start: usize,
    pub end: usize,
    pub style: StyleSpec,
}

/// Whether some range covers byte `b`.
pub open spec fn covers(ranges: Seq<(usize, usize)>, b: int) -> bool {
    exists|m: int| 0 <= m < ranges.len() && (#[trigger] ranges[m]).0 <= b < ranges[m].1
}

/// Whether a match of `rule` covers byte `b` of `text`.
pub open spec fn rule_covers(rule: HighlightRule, text: Seq<char>, b: int) -> bool {
    regex_compiles(rule.pattern@) && covers(regex_match_ranges(rule.pattern@, text), b)
}

/// The style of byte `b` after applying `rules` in order: a byte still
/// unstyled takes the style of a rule that matches it.
pub open spec fn style_at(rules: Seq<HighlightRule>, text: Seq<char>, b: int) -> StyleSpec
    decreases rules.len(),
{
    if rules.len() == 0 {
        plain()
    } else {
        let prev = style_at(rules.drop_last(), text, b);
        if prev == plain() && rule_covers(rules.last(), text, b) {
            rule_style(rules.last())
        } else {
            prev
        }
    }
}

/// The UTF-8 bytes of `text`.
pub open spec fn bytes_of(text: Seq<char>) -> Seq<u8> {
    vstd::utf8::encode_utf8(text)
}

/// The style of each byte of `text`.
pub open spec fn byte_styles(rules: Seq<HighlightRule>, text: Seq<char>) -> Seq<StyleSpec> {
    Seq::new(bytes_of(text).len(), |b: int| style_at(rules, text, b))
}

/// Where the run of styles equal to `st[s]` that goes through `i - 1` ends.
pub open spec fn scan_run(st: Seq<StyleSpec>, i: int, s: int) -> int
    decreases st.len() - i,
{
    if i >= st.len() || st[i] != st[s] {
        i
    } else {
        scan_run(st, i + 1, s)
    }
}

/// The maximal runs of equal styles from `start` to the end.
pub open spec fn runs_from(st: Seq<StyleSpec>, start: int) -> Seq<(int, int)>
    decreases st.len() - start,
{
    if start < 0 || start >= st.len() {
        Seq::empty()
    } else {
        let e = scan_run(st, start + 1, start);
        if e <= start || e > st.len() {
            Seq::empty()
        } else {
            seq![(start, e)] + runs_from(st, e)
        }
    }
}

/// Whether a run can be cut out of the line as text: it is non-empty and
/// both its ends fall on character boundaries.
pub open spec fn cuttable(bytes: Seq<u8>, r: (int, int)) -> bool {
    r.0 < r.1 && vstd::utf8::is_char_boundary(bytes, r.0) && vstd::utf8::is_char_boundary(bytes, r.1)
}

/// The cuttable runs, each with its style.
pub open spec fn kept_runs(runs: Seq<(int, int)>, st: Seq<StyleSpec>, bytes: Seq<u8>) -> Seq<
    (int, int, StyleSpec),
>
    decreases runs.len(),
{
    if runs.len() == 0 {
        Seq::empty()
    } else {
        let before = kept_runs(runs.drop_last(), st, bytes);
        let r = runs.last();
        if cuttable(bytes, r) {
            before.push((r.0, r.1, st[r.0]))
        } else {
            before
        }
    }
}

/// The styled spans of a line: the maximal runs of equally styled bytes
/// that can be cut out as text; the whole line, unstyled, when there is none.
pub open spec fn highlight_spans(rules: Seq<HighlightRule>, text: Seq<char>) -> Seq<
    (int, int, StyleSpec),
> {
    let st = byte_styles(rules, text);
    let kept = kept_runs(runs_from(st, 0), st, bytes_of(text));
    if kept.len() == 0 {
        seq![(0int, bytes_of(text).len() as int, plain())]
    } else {
        kept
    }
}

pub open spec fn span_views(v: Seq<HighlightSpan>) -> Seq<(int, int, StyleSpec)> {
    v.map_values(|s: HighlightSpan| (s.start as int, s.end as int, s.style))
}

/// Every match of `rule` in `text` starts and ends on a character boundary
/// (when its pattern compiles).
spec fn matches_on_boundaries(rule: HighlightRule, text: Seq<char>) -> bool {
    regex_compiles(rule.pattern@) ==> forall|m: int|
        0 <= m < regex_match_ranges(rule.pattern@, text).len() ==> {
            let r = #[trigger] regex_match_ranges(rule.pattern@, text)[m];
            &&& vstd::utf8::is_char_boundary(bytes_of(text), r.0 as int)
            &&& vstd::utf8::is_char_boundary(bytes_of(text), r.1 as int)
        }
}

/// The style of a rule.
pub fn build_style(rule: &HighlightRule) -> (s: StyleSpec)
    ensures
        s == rule_style(*rule),
{
    let mut style = plain_style();
    if let Some(fg) = rule.fg {
        style.fg = Some(fg);
    }
    if let Some(bg) = rule.bg {
        style.bg = Some(bg);
    }
    if rule.bold {
        style.bold = true;
    }
    if rule.underline {
        style.underline = true;
    }
    style
}

/// The style of each byte of `text` after applying `rules`.
fn styles_of(text: &str, rules: &[HighlightRule]) -> (styles: Vec<StyleSpec>)
    ensures
        styles@ == byte_styles(rules@, text@),
        forall|j: int| 0 <= j < rules@.len() ==> matches_on_boundaries(#[trigger] rules@[j], text@),
{
    let bytes = text.as_bytes();
    let n = bytes.len();
    let ghost rs = rules@;
    let ghost tx = text@;
    let mut styles: Vec<StyleSpec> = Vec::new();
    let mut b: usize = 0;
    while b < n
        invariant
            b <= n,
            styles@.len() == b,
            forall|x: int| 0 <= x < b ==> styles@[x] == plain(),
        decreases n - b,
    {
        styles.push(plain_style());
        b = b + 1;
    }
    let mut k: usize = 0;
    while k < rules.len()
        invariant
            n == bytes_of(tx).len(),
            rs == rules@,
            tx == text@,
            k <= rs.len(),
            styles@.len() == n,
            forall|x: int| 0 <= x < n ==> styles@[x] == style_at(rs.take(k as int), tx, x),
            forall|j: int| 0 <= j < k ==> matches_on_boundaries(#[trigger] rs[j], tx),
        decreases rs.len() - k,
    {
        let rule = &rules[k];
        let ghost prev = styles@;
        proof {
            assert(rs.take(k + 1).drop_last() =~= rs.take(k as int));
            assert(rs.take(k + 1).last() == *rule);
        }
        match regex_find_ranges(rule.pattern.as_str(), text) {
            None => {},
            Some(ranges) => {
                proof {
                    assert(matches_on_boundaries(rs[k as int], tx));
                }
                let style = build_style(rule);
                let mut j: usize = 0;
                while j < ranges.len()
                    invariant
                        n == bytes_of(tx).len(),
                        styles@.len() == n,
                        prev.len() == n,
                        j <= ranges@.len(),
                        forall|i: int| 0 <= i < ranges@.len() ==> (#[trigger] ranges@[i]).1 <= n,
                        forall|x: int|
                            0 <= x < n ==> styles@[x] == if prev[x] == plain() && covers(
                                ranges@.take(j as int),
                                x,
                            ) {
                                style
                            } else {
                                prev[x]
                            },
                    decreases ranges@.len() - j,
                {
                    let (s, e) = ranges[j];
                    let mut x: usize = s;
                    proof {
                        assert(ranges@[j as int] == (s, e));
                    }
                    while x < e
                        invariant
                            n == bytes_of(tx).len(),
                            styles@.len() == n,
                            prev.len() == n,
                            e <= n,
                            s <= x,
                            x <= e || x == s,
                            j < ranges@.len(),
                            ranges@[j as int] == (s, e),
                            forall|y: int|
                                0 <= y < n ==> styles@[y] == if prev[y] == plain() && (covers(
                                    ranges@.take(j as int),
                                    y,
                                ) || (s <= y < x)) {
                                    style
                                } else {
                                    prev[y]
                                },
                        decreases e - x,
                    {
                        let ghost before = styles@;
                        if styles[x] == plain_style() {
                            styles.set(x, style);
                        }
                        proof {
                            assert forall|y: int| 0 <= y < n implies styles@[y] == if prev[y]
                                == plain() && (covers(ranges@.take(j as int), y) || (s <= y < x
                                + 1)) {
                                style
                            } else {
                                prev[y]
                            } by {
                                if y != x {
                                    assert(styles@[y] == before[y]);
                                }
                            }
                        }
                        x = x + 1;
                    }
                    proof {
                        let t1 = ranges@.take(j + 1);
                        assert(t1[j as int] == (s, e));
                        assert forall|y: int| 0 <= y < n implies covers(t1, y) == (covers(
                            ranges@.take(j as int),
                            y,
                        ) || (s <= y < e)) by {
                            if covers(ranges@.take(j as int), y) {
                                let m = choose|m: int|
                                    0 <= m < ranges@.take(j as int).len() && (#[trigger] ranges@.take(
                                        j as int,
                                    )[m]).0 <= y < ranges@.take(j as int)[m].1;
                                assert(t1[m] == ranges@.take(j as int)[m]);
                            }
                            if covers(t1, y) && !(s <= y < e) {
                                let m = choose|m: int|
                                    0 <= m < t1.len() && (#[trigger] t1[m]).0 <= y < t1[m].1;
                                assert(m != j);
                                assert(ranges@.take(j as int)[m] == t1[m]);
                            }
                        }
                    }
                    j = j + 1;
                }
                proof {
                    assert(ranges@.take(ranges@.len() as int) =~= ranges@);
                }
            },
        }
        proof {
            assert(matches_on_boundaries(rs[k as int], tx));
        }
        k = k + 1;
    }
    proof {
        assert(rs.take(rs.len() as int) =~= rs);
        assert(styles@ =~= byte_styles(rs, tx));
    }
    styles
}

/// Cut `text` into the maximal runs of bytes of equal style, given that a
/// byte inside a character has the style of the byte before it.
fn cut_runs(text: &str, styles: &Vec<StyleSpec>) -> (spans: Vec<HighlightSpan>)
    requires
        styles@.len() == bytes_of(text@).len(),
        forall|x: int|
            0 < x < styles@.len() && !vstd::utf8::is_char_boundary(bytes_of(text@), x)
                ==> #[trigger] styles@[x] == styles@[x - 1],
    ensures
        span_views(spans@) == kept_runs(runs_from(styles@, 0), styles@, bytes_of(text@)),
        styles@.len() == 0 ==> spans@.len() == 0,
        styles@.len() > 0 ==> {
            &&& spans@.len() >= 1
            &&& spans@[0].start == 0
            &&& spans@.last().end == styles@.len()
        },
        forall|i: int|
            1 <= i < spans@.len() ==> (#[trigger] spans@[i]).start == spans@[i - 1].end
                && spans@[i].style != spans@[i - 1].style,
        forall|i: int| 0 <= i < spans@.len() ==> (#[trigger] spans@[i]).start < spans@[i].end,
        forall|i: int, y: int|
            #![trigger spans@[i], styles@[y]]
            0 <= i < spans@.len() && spans@[i].start <= y < spans@[i].end ==> styles@[y]
                == spans@[i].style,
{
    let n = styles.len();
    let ghost tx = text@;
    proof {
        assert(text.spec_bytes() == bytes_of(tx));
    }
    let ghost st = styles@;
    let ghost bs = bytes_of(tx);
    let mut spans: Vec<HighlightSpan> = Vec::new();
    let mut group_start: usize = 0;
    let mut current = if n > 0 {
        styles[0]
    } else {
        plain_style()
    };
    let ghost mut done: Seq<(int, int)> = Seq::empty();
    let mut i: usize = 0;
    proof {
        lemma_runs_from_start(st);
        vstd::utf8::encode_utf8_valid_utf8(text@);
        vstd::utf8::is_char_boundary_start_end_of_seq(bs);
    }
    while i < n
        invariant
            n == st.len(),
            st == styles@,
            bs == bytes_of(tx),
            text.spec_bytes() == bs,
            group_start <= i <= n,
            n > 0 ==> group_start < n && current == st[group_start as int],
            forall|y: int| group_start <= y < i ==> st[y] == current,
            runs_from(st, 0) == done + runs_from(st, group_start as int),
            n > 0 ==> runs_from(st, group_start as int).len() > 0,
            span_views(spans@) == kept_runs(done, st, bs),
            forall|x: int|
                0 < x < n && !vstd::utf8::is_char_boundary(bs, x) ==> #[trigger] st[x] == st[x - 1],
            vstd::utf8::valid_utf8(bs),
            vstd::utf8::is_char_boundary(bs, group_start as int),
            vstd::utf8::is_char_boundary(bs, n as int),
            spans@.len() == 0 ==> group_start == 0,
            spans@.len() > 0 ==> spans@[0].start == 0 && spans@.last().end == group_start
                && spans@.last().style != current,
            forall|j: int|
                1 <= j < spans@.len() ==> (#[trigger] spans@[j]).start == spans@[j - 1].end
                    && spans@[j].style != spans@[j - 1].style,
            forall|j: int| 0 <= j < spans@.len() ==> (#[trigger] spans@[j]).start < spans@[j].end,
            forall|j: int, y: int|
                #![trigger spans@[j], st[y]]
                0 <= j < spans@.len() && spans@[j].start <= y < spans@[j].end ==> st[y]
                    == spans@[j].style,
        decreases n - i,
    {
        if styles[i] != current {
            proof {
                lemma_scan_run(st, group_start as int, i as int, group_start + 1);
                assert(st[i - 1] == current);
                if !vstd::utf8::is_char_boundary(bs, i as int) {
                    assert(st[i as int] == st[i - 1]);
                }
            }
            let ok = text.is_char_boundary(group_start) && text.is_char_boundary(i);
            let ghost r = (group_start as int, i as int);
            proof {
                assert(runs_from(st, group_start as int) == seq![r] + runs_from(st, i as int));
                assert(done.push(r).drop_last() =~= done);
                assert(done + runs_from(st, group_start as int) =~= done.push(r) + runs_from(st, i as int));
            }
            proof {
                assert(ok && group_start < i);
            }
            if ok && group_start < i {
                let ghost before = spans@;
                spans.push(HighlightSpan { start: group_start, end: i, style: current });
                proof {
                    assert(span_views(spans@) =~= kept_runs(done, st, bs).push(
                        (group_start as int, i as int, current),
                    ));
                    assert forall|j: int, y: int|
                        #![trigger spans@[j], st[y]]
                        0 <= j < spans@.len() && spans@[j].start <= y < spans@[j].end implies st[y]
                            == spans@[j].style by {
                        if j < before.len() {
                            assert(spans@[j] == before[j]);
                        }
                    }
                }
            }
            proof {
                done = done.push(r);
                lemma_runs_nonempty(st, i as int);
            }
            group_start = i;
            current = styles[i];
        }
        i = i + 1;
    }
    if n > group_start {
        proof {
            lemma_scan_run(st, group_start as int, n as int, group_start + 1);
            assert(runs_from(st, n as int) =~= Seq::<(int, int)>::empty());
        }
        let ok = text.is_char_boundary(group_start) && text.is_char_boundary(n);
        proof {
            assert(ok);
        }
        let ghost r = (group_start as int, n as int);
        proof {
            assert(runs_from(st, group_start as int) =~= seq![r]);
            assert(done.push(r).drop_last() =~= done);
            assert(done + runs_from(st, group_start as int) =~= done.push(r));
        }
        if ok {
            let ghost before = spans@;
            spans.push(HighlightSpan { start: group_start, end: n, style: current });
            proof {
                assert(span_views(spans@) =~= kept_runs(done, st, bs).push(
                    (group_start as int, n as int, current),
                ));
                assert forall|j: int, y: int|
                    #![trigger spans@[j], st[y]]
                    0 <= j < spans@.len() && spans@[j].start <= y < spans@[j].end implies st[y]
                        == spans@[j].style by {
                    if j < before.len() {
                        assert(spans@[j] == before[j]);
                    }
                }
            }
        }
        proof {
            done = done.push(r);
        }
    } else {
        proof {
            assert(runs_from(st, group_start as int) =~= Seq::<(int, int)>::empty());
            assert(done + Seq::<(int, int)>::empty() =~= done);
        }
    }
    spans
}

/// Apply highlight rules to a line of text (the first rule that matches a
/// byte styles it) and cut the line into runs of equally styled text. The
/// runs cover the line's bytes in order from the first to the last, each
/// differs in style from the one before, and each byte has its run's style.
/// `_search_fg` is not used.
pub fn highlight_line(text: &str, rules: &[HighlightRule], _search_fg: Option<ColorName>) -> (spans:
    Vec<HighlightSpan>)
    ensures
        span_views(spans@) == highlight_spans(rules@, text@),
        spans@.len() >= 1,
        spans@[0].start == 0,
        spans@.last().end == bytes_of(text@).len(),
        forall|i: int|
            1 <= i < spans@.len() ==> (#[trigger] spans@[i]).start == spans@[i - 1].end
                && spans@[i].style != spans@[i - 1].style,
        bytes_of(text@).len() > 0 ==> forall|i: int|
            0 <= i < spans@.len() ==> (#[trigger] spans@[i]).start < spans@[i].end,
        forall|i: int, b: int|
            #![trigger spans@[i], byte_styles(rules@, text@)[b]]
            0 <= i < spans@.len() && spans@[i].start <= b < spans@[i].end ==> byte_styles(
                rules@,
                text@,
            )[b] == spans@[i].style,
{
    let n = text.as_bytes().len();
    let styles = styles_of(text, rules);
    proof {
        lemma_styles_continue(rules@, text@);
    }
    let mut spans = cut_runs(text, &styles);
    proof {
        let st = styles@;
        assert(st == byte_styles(rules@, text@));
        assert(span_views(spans@) == kept_runs(runs_from(st, 0), st, bytes_of(text@)));
    }
    if spans.len() == 0 {
        spans.push(HighlightSpan { start: 0, end: n, style: plain_style() });
        proof {
            assert(span_views(spans@) =~= seq![(0int, n as int, plain())]);
        }
    }
    spans
}

/// A byte inside a character is covered by a set of ranges that start and
/// end on character boundaries exactly when the byte before it is.
proof fn lemma_covers_continues(ranges: Seq<(usize, usize)>, bs: Seq<u8>, x: int)
    requires
        forall|m: int|
            0 <= m < ranges.len() ==> vstd::utf8::is_char_boundary(bs, (#[trigger] ranges[m]).0 as int)
                && vstd::utf8::is_char_boundary(bs, ranges[m].1 as int),
        0 < x < bs.len(),
        !vstd::utf8::is_char_boundary(bs, x),
    ensures
        covers(ranges, x) == covers(ranges, x - 1),
{
    if covers(ranges, x) {
        let m = choose|m: int| 0 <= m < ranges.len() && (#[trigger] ranges[m]).0 <= x < ranges[m].1;
        assert(ranges[m].0 != x);
        assert(ranges[m].0 <= x - 1 < ranges[m].1);
    }
    if covers(ranges, x - 1) {
        let m = choose|m: int| 0 <= m < ranges.len() && (#[trigger] ranges[m]).0 <= x - 1 < ranges[m].1;
        assert(ranges[m].1 != x);
        assert(ranges[m].0 <= x < ranges[m].1);
    }
}

/// When every rule's matches start and end on character boundaries, a byte
/// inside a character has the style of the byte before it.
proof fn lemma_style_continues(rules: Seq<HighlightRule>, text: Seq<char>, x: int)
    requires
        forall|j: int| 0 <= j < rules.len() ==> matches_on_boundaries(#[trigger] rules[j], text),
        0 < x < bytes_of(text).len(),
        !vstd::utf8::is_char_boundary(bytes_of(text), x),
    ensures
        style_at(rules, text, x) == style_at(rules, text, x - 1),
    decreases rules.len(),
{
    if rules.len() > 0 {
        let init = rules.drop_last();
        assert forall|j: int| 0 <= j < init.len() implies matches_on_boundaries(#[trigger] init[j], text) by {
            assert(init[j] == rules[j]);
        }
        lemma_style_continues(init, text, x);
        let r = rules.last();
        assert(matches_on_boundaries(rules[rules.len() - 1], text));
        if regex_compiles(r.pattern@) {
            lemma_covers_continues(regex_match_ranges(r.pattern@, text), bytes_of(text), x);
        }
    }
}

/// When every rule's matches start and end on character boundaries, the
/// byte styles change only at character boundaries.
proof fn lemma_styles_continue(rules: Seq<HighlightRule>, text: Seq<char>)
    requires
        forall|j: int| 0 <= j < rules.len() ==> matches_on_boundaries(#[trigger] rules[j], text),
    ensures
        forall|x: int|
            0 < x < byte_styles(rules, text).len() && !vstd::utf8::is_char_boundary(bytes_of(text), x)
                ==> #[trigger] byte_styles(rules, text)[x] == byte_styles(rules, text)[x - 1],
{
    assert forall|x: int|
        0 < x < byte_styles(rules, text).len() && !vstd::utf8::is_char_boundary(bytes_of(text), x)
            implies #[trigger] byte_styles(rules, text)[x] == byte_styles(rules, text)[x - 1] by {
        lemma_style_continues(rules, text, x);
    }
}

/// A run that starts at `s`, holds the style of `s` up to `i` and changes
/// (or ends) at `i` is scanned to end at `i`.
proof fn lemma_scan_run(st: Seq<StyleSpec>, s: int, i: int, j: int)
    requires
        0 <= s < j <= i <= st.len(),
        forall|y: int| s <= y < i ==> st[y] == st[s],
        i == st.len() || st[i] != st[s],
    ensures
        scan_run(st, j, s) == i,
    decreases i - j,
{
    if j < i {
        lemma_scan_run(st, s, i, j + 1);
    }
}

/// A run ends after it starts.
proof fn lemma_scan_run_after(st: Seq<StyleSpec>, i: int, s: int)
    ensures
        scan_run(st, i, s) >= i,
    decreases st.len() - i,
{
    if !(i >= st.len() || st[i] != st[s]) {
        lemma_scan_run_after(st, i + 1, s);
    }
}

/// A run that starts inside the styles ends inside them too.
proof fn lemma_scan_run_within(st: Seq<StyleSpec>, i: int, s: int)
    requires
        i <= st.len(),
    ensures
        scan_run(st, i, s) <= st.len(),
    decreases st.len() - i,
{
    if !(i >= st.len() || st[i] != st[s]) {
        lemma_scan_run_within(st, i + 1, s);
    }
}

proof fn lemma_runs_nonempty(st: Seq<StyleSpec>, start: int)
    requires
        0 <= start < st.len(),
    ensures
        runs_from(st, start).len() > 0,
{
    lemma_scan_run_after(st, start + 1, start);
    lemma_scan_run_within(st, start + 1, start);
}

proof fn lemma_runs_from_start(st: Seq<StyleSpec>)
    ensures
        st.len() > 0 ==> runs_from(st, 0).len() > 0,
        runs_from(st, 0) == Seq::<(int, int)>::empty() + runs_from(st, 0),
{
    if st.len() > 0 {
        lemma_runs_nonempty(st, 0);
    }
    assert(Seq::<(int, int)>::empty() + runs_from(st, 0) =~= runs_from(st, 0));
}

/// Once a byte is styled, later rules leave it alone.
proof fn lemma_styled_stays(rules: Seq<HighlightRule>, text: Seq<char>, b: int, k: int)
    requires
        1 <= k <= rules.len(),
        style_at(rules.take(k), text, b) != plain(),
    ensures
        style_at(rules, text, b) == style_at(rules.take(k), text, b),
    decreases rules.len() - k,
{
    if k < rules.len() {
        assert(rules.take(k + 1).drop_last() =~= rules.take(k));
        lemma_styled_stays(rules, text, b, k + 1);
    } else {
        assert(rules.take(k) =~= rules);
    }
}

/// The first rule wins: a byte that the first rule matches keeps that
/// rule's style (when it styles anything), whatever rules follow.
pub proof fn law_first_matching_rule_wins(rules: Seq<HighlightRule>, text: Seq<char>, b: int)
    requires
        rules.len() > 0,
        rule_covers(rules[0], text, b),
        rule_style(rules[0]) != plain(),
    ensures
        style_at(rules, text, b) == rule_style(rules[0]),
{
    let one = rules.take(1);
    assert(one.drop_last() =~= Seq::<HighlightRule>::empty());
    assert(one.last() == rules[0]);
    assert(style_at(one.drop_last(), text, b) == plain());
    assert(style_at(one, text, b) == rule_style(rules[0]));
    lemma_styled_stays(rules, text, b, 1);
}

/// Rules before `m` leave byte `b` unstyled when none of them both matches
/// it and has a style.
proof fn lemma_unstyled_before(rules: Seq<HighlightRule>, text: Seq<char>, b: int, m: int)
    requires
        0 <= m <= rules.len(),
        forall|j: int|
            0 <= j < m ==> !(rule_covers(#[trigger] rules[j], text, b) && rule_style(rules[j])
                != plain()),
    ensures
        style_at(rules.take(m), text, b) == plain(),
    decreases m,
{
    if m > 0 {
        assert(rules.take(m).drop_last() =~= rules.take(m - 1));
        assert(rules.take(m).last() == rules[m - 1]);
        lemma_unstyled_before(rules, text, b, m - 1);
    } else {
        assert(rules.take(0) =~= Seq::<HighlightRule>::empty());
    }
}

/// The first rule that styles a byte wins, wherever it stands in the list:
/// when rule `k` compiles, one of its matches covers byte `b`, it has a
/// style, and no earlier rule both covers `b` and has a style, the byte
/// takes rule `k`'s colours and modifiers.
pub proof fn law_first_styling_rule_wins(rules: Seq<HighlightRule>, text: Seq<char>, b: int, k: int)
    requires
        0 <= k < rules.len(),
        regex_compiles(rules[k].pattern@),
        exists|m: int|
            0 <= m < regex_match_ranges(rules[k].pattern@, text).len() && (#[trigger] regex_match_ranges(
                rules[k].pattern@,
                text,
            )[m]).0 <= b < regex_match_ranges(rules[k].pattern@, text)[m].1,
        !(rules[k].fg is None && rules[k].bg is None && !rules[k].bold && !rules[k].underline),
        forall|j: int|
            0 <= j < k ==> !(regex_compiles((#[trigger] rules[j]).pattern@) && (exists|m: int|
                0 <= m < regex_match_ranges(rules[j].pattern@, text).len() && (#[trigger] regex_match_ranges(
                    rules[j].pattern@,
                    text,
                )[m]).0 <= b < regex_match_ranges(rules[j].pattern@, text)[m].1) && !(rules[j].fg is None
                && rules[j].bg is None && !rules[j].bold && !rules[j].underline)),
    ensures
        style_at(rules, text, b) == (StyleSpec {
            fg: rules[k].fg,
            bg: rules[k].bg,
            bold: rules[k].bold,
            underline: rules[k].underline,
        }),
{
    assert forall|j: int|
        0 <= j < k implies !(rule_covers(#[trigger] rules[j], text, b) && rule_style(rules[j])
            != plain()) by {
        if rule_covers(rules[j], text, b) && rule_style(rules[j]) != plain() {
            let m = choose|m: int|
                0 <= m < regex_match_ranges(rules[j].pattern@, text).len() && (#[trigger] regex_match_ranges(
                    rules[j].pattern@,
                    text,
                )[m]).0 <= b < regex_match_ranges(rules[j].pattern@, text)[m].1;
            assert(regex_match_ranges(rules[j].pattern@, text)[m].0 <= b);
        }
    }
    lemma_unstyled_before(rules, text, b, k);
    assert(rules.take(k + 1).drop_last() =~= rules.take(k));
    assert(rules.take(k + 1).last() == rules[k]);
    assert(rule_covers(rules[k], text, b));
    assert(style_at(rules.take(k + 1), text, b) == rule_style(rules[k]));
    lemma_styled_stays(rules, text, b, k + 1);
}

/// Bytes that no rule matches stay unstyled.
pub proof fn law_unmatched_bytes_plain(rules: Seq<HighlightRule>, text: Seq<char>, b: int)
    requires
        forall|i: int| 0 <= i < rules.len() ==> !rule_covers(#[trigger] rules[i], text, b),
    ensures
        style_at(rules, text, b) == plain(),
    decreases rules.len(),
{
    if rules.len() > 0 {
        assert forall|i: int| 0 <= i < rules.drop_last().len() implies !rule_covers(#[trigger] rules.drop_last()[i], text, b) by {
            assert(rules.drop_last()[i] == rules[i]);
        }
        law_unmatched_bytes_plain(rules.drop_last(), text, b);
        assert(!rule_covers(rules[rules.len() - 1], text, b));
    }
}

} // verus!
