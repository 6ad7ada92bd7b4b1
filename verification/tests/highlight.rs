use cli_terminal::config::manager::{ColorName, HighlightRule};
use cli_terminal::output::highlight::{build_style, highlight_line, plain_style, HighlightSpan, StyleSpec};

fn rule(pattern: &str, fg: ColorName, bold: bool) -> HighlightRule {
    HighlightRule { pattern: pattern.to_string(), fg: Some(fg), bg: None, bold, underline: false }
}

fn fg(c: ColorName, bold: bool) -> StyleSpec {
    StyleSpec { fg: Some(c), bg: None, bold, underline: false }
}

fn runs(spans: &[HighlightSpan]) -> Vec<(usize, usize, StyleSpec)> {
    spans.iter().map(|s| (s.start, s.end, s.style)).collect()
}

#[test]
fn highlight_styles_matching_bytes() {
    let rules = vec![rule("ERROR", ColorName::Red, true)];
    let spans = highlight_line("ERROR here", &rules, Some(ColorName::Yellow));
    assert_eq!(runs(&spans), vec![(0, 5, fg(ColorName::Red, true)), (5, 10, plain_style())]);
}

#[test]
fn highlight_without_match_is_one_plain_span() {
    let rules = vec![rule("ERROR", ColorName::Red, true)];
    let spans = highlight_line("all good", &rules, None);
    assert_eq!(runs(&spans), vec![(0, 8, plain_style())]);
}

#[test]
fn highlight_empty_line() {
    let rules = vec![rule("x", ColorName::Red, false)];
    let spans = highlight_line("", &rules, None);
    assert_eq!(runs(&spans), vec![(0, 0, plain_style())]);
}

#[test]
fn highlight_first_matching_rule_wins() {
    let rules = vec![rule("a+", ColorName::Red, false), rule("b|aa", ColorName::Green, false)];
    let spans = highlight_line("aab", &rules, None);
    assert_eq!(runs(&spans), vec![(0, 2, fg(ColorName::Red, false)), (2, 3, fg(ColorName::Green, false))]);
}

#[test]
fn highlight_skips_invalid_pattern() {
    let rules = vec![rule("(", ColorName::Red, false), rule("x", ColorName::Green, false)];
    let spans = highlight_line("axb", &rules, None);
    assert_eq!(
        runs(&spans),
        vec![(0, 1, plain_style()), (1, 2, fg(ColorName::Green, false)), (2, 3, plain_style())]
    );
}

#[test]
fn highlight_ranges_are_bytes() {
    let rules = vec![rule("OK", ColorName::Green, true)];
    let spans = highlight_line("é OK", &rules, None);
    assert_eq!(runs(&spans), vec![(0, 3, plain_style()), (3, 5, fg(ColorName::Green, true))]);
}

#[test]
fn highlight_every_match_styled() {
    let rules = vec![rule("o", ColorName::Blue, false)];
    let spans = highlight_line("foo bo", &rules, None);
    assert_eq!(
        runs(&spans),
        vec![
            (0, 1, plain_style()),
            (1, 3, fg(ColorName::Blue, false)),
            (3, 5, plain_style()),
            (5, 6, fg(ColorName::Blue, false)),
        ]
    );
}

#[test]
fn build_style_takes_rule_fields() {
    let r = HighlightRule {
        pattern: "x".to_string(),
        fg: None,
        bg: Some(ColorName::Cyan),
        bold: false,
        underline: true,
    };
    assert_eq!(build_style(&r), StyleSpec { fg: None, bg: Some(ColorName::Cyan), bold: false, underline: true });
}
