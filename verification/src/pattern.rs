//! Calls into the `regex` crate, each named by what it returns.

use vstd::prelude::*;

use crate::text::{seq_contains, str_views};

verus! {

/// Whether `Regex::new(pattern)` succeeds.
pub uninterp spec fn regex_compiles(pattern: Seq<char>) -> bool;

/// Whether the regex `pattern` matches somewhere in `text` (`Regex::is_match`).
pub uninterp spec fn regex_matches(pattern: Seq<char>, text: Seq<char>) -> bool;

/// Whether `c` is one of the characters that have a meaning in a regex and
/// that `regex::escape` escapes.
pub open spec fn is_meta_char(c: char) -> bool {
    c == '\\' || c == '.' || c == '+' || c == '*' || c == '?' || c == '(' || c == ')' || c == '|'
        || c == '[' || c == ']' || c == '{' || c == '}' || c == '^' || c == '$' || c == '#' || c
        == '&' || c == '-' || c == '~'
}

/// What `regex::escape(s)` returns: `s` with a backslash before each meta
/// character.
pub open spec fn regex_escaped(s: Seq<char>) -> Seq<char>
    decreases s.len(),
{
    if s.len() == 0 {
        Seq::empty()
    } else {
        regex_escaped(s.drop_last()) + if is_meta_char(s.last()) {
            seq!['\\', s.last()]
        } else {
            seq![s.last()]
        }
    }
}

/// The byte ranges of the successive non-overlapping matches of `pattern` in
/// `text` (`Regex::find_iter`).
pub uninterp spec fn regex_match_ranges(pattern: Seq<char>, text: Seq<char>) -> Seq<(usize, usize)>;

/// For each successive match of `pattern` in `text`, the text of its capture
/// group 1, or `None` where that group took no part (`Regex::captures_iter`
/// then `get(1)`).
pub uninterp spec fn regex_group_one(pattern: Seq<char>, text: Seq<char>) -> Seq<Option<Seq<char>>>;

/// The views of optional strings.
pub open spec fn opt_str_views(v: Seq<Option<String>>) -> Seq<Option<Seq<char>>> {
    v.map_values(|o: Option<String>| match o {
        Some(s) => Some(s@),
        None => None,
    })
}

/// Whether `pattern` compiles.
///
/// Trusted: `regex::Regex::new(pattern).is_ok()`; the contract only names
/// the result, which depends on `pattern` alone.
#[verifier::external_body]
pub(crate) fn regex_is_valid(pattern: &str) -> (b: bool)
    ensures
        b == regex_compiles(pattern@),
{
    regex::Regex::new(pattern).is_ok()
}

/// `s` with every regex meta character escaped.
///
/// Trusted: `regex::escape`, which pushes a backslash before each character
/// for which `regex_syntax::is_meta_character` holds and copies every
/// character. What the escaped pattern matches is stated where it is
/// searched for (`regex_is_match`).
#[verifier::external_body]
pub(crate) fn regex_escape(s: &str) -> (r: String)
    ensures
        r@ == regex_escaped(s@),
{
    regex::escape(s)
}

/// Whether the (compiling) regex `pattern` matches somewhere in `text`.
///
/// Trusted: `regex::Regex::new(pattern)` then `Regex::is_match(text)`. The
/// contract names the result and states what `regex::escape` documents: an
/// escaped string, used as a pattern, matches exactly the texts that contain
/// it literally.
#[verifier::external_body]
pub(crate) fn regex_is_match(pattern: &str, text: &str) -> (b: bool)
    requires
        regex_compiles(pattern@),
    ensures
        b == regex_matches(pattern@, text@),
        forall|lit: Seq<char>| #[trigger] regex_escaped(lit) == pattern@ ==> (b == seq_contains(text@, lit)),
{
    regex::Regex::new(pattern).unwrap().is_match(text)
}

/// The byte ranges of the successive matches of `pattern` in `text`, or
/// `None` when `pattern` does not compile.
///
/// Trusted: `regex::Regex::new(pattern)` then `Regex::find_iter(text)`,
/// each match taken as `(start, end)`. The contract names the result and
/// states what the crate documents of every match: it lies within `text`
/// and both its ends fall on character boundaries.
#[verifier::external_body]
pub(crate) fn regex_find_ranges(pattern: &str, text: &str) -> (r: Option<Vec<(usize, usize)>>)
    ensures
        r is Some <==> regex_compiles(pattern@),
        r matches Some(v) ==> v@ == regex_match_ranges(pattern@, text@),
        r matches Some(v) ==> forall|i: int| 0 <= i < v@.len() ==> {
            let (s, e) = #[trigger] v@[i];
            &&& s <= e <= vstd::utf8::encode_utf8(text@).len()
            &&& vstd::utf8::is_char_boundary(vstd::utf8::encode_utf8(text@), s as int)
            &&& vstd::utf8::is_char_boundary(vstd::utf8::encode_utf8(text@), e as int)
        },
{
    match regex::Regex::new(pattern) {
        Ok(re) => Some(re.find_iter(text).map(|m| (m.start(), m.end())).collect()),
        Err(_) => None,
    }
}

/// Capture group 1 of each successive match of `pattern` in `text`, or
/// `None` when `pattern` does not compile.
///
/// Trusted: `regex::Regex::new(pattern)` then `Regex::captures_iter(text)`
/// and `Captures::get(1)` on each. The contract only names the result.
#[verifier::external_body]
pub(crate) fn regex_capture_group_one(pattern: &str, text: &str) -> (r: Option<Vec<Option<String>>>)
    ensures
        r is Some <==> regex_compiles(pattern@),
        r matches Some(v) ==> opt_str_views(v@) == regex_group_one(pattern@, text@),
{
    match regex::Regex::new(pattern) {
        Ok(re) => Some(re.captures_iter(text).map(|c| c.get(1).map(|m| m.as_str().to_string())).collect()),
        Err(_) => None,
    }
}

} // verus!
