//! Unicode-aware input line with a cursor counted in grapheme clusters.

use unicode_segmentation::UnicodeSegmentation;
use vstd::prelude::*;

use crate::text::{
    is_ascii_text, char_is_whitespace, char_to_string, concat_range, is_white_space, lemma_flatten_len_ge_count,
    lemma_flatten_split, str_views,
};

verus! {

/// The extended grapheme clusters into which
/// `UnicodeSegmentation::graphemes(text, true)` splits `text`.
pub uninterp spec fn grapheme_clusters(text: Seq<char>) -> Seq<Seq<char>>;

/// The extended grapheme clusters of `s`, in order.
///
/// Trusted: `unicode_segmentation::UnicodeSegmentation::graphemes(s, true)`.
/// The contract claims that the clusters are `grapheme_clusters(s@)`, that
/// none is empty and that together, in order, they make up `s`: the
/// iterator hands out consecutive non-empty slices of `s` from its start to
/// its end. Of the boundaries that Unicode's rules choose, it states only
/// those in ASCII text without carriage returns: there every character is a
/// cluster of its own (the crate files all printable ASCII under no
/// category, and control characters other than CR break on both sides).
#[verifier::external_body]
pub(crate) fn split_graphemes(s: &str) -> (clusters: Vec<String>)
    ensures
        str_views(clusters@) == grapheme_clusters(s@),
        str_views(clusters@).flatten() == s@,
        forall|i: int| 0 <= i < clusters@.len() ==> (#[trigger] clusters@[i])@.len() > 0,
        is_ascii_text(s@) && (forall|i: int| 0 <= i < s@.len() ==> #[trigger] s@[i] != '\r')
            ==> str_views(clusters@) == s@.map_values(|c: char| seq![c]),
{
    s.graphemes(true).map(|g| g.to_string()).collect()
}

/// Number of characters in the first `c` clusters of `text`, or the whole
/// length when `text` has no cluster at index `c`.
pub open spec fn cluster_char_offset(text: Seq<char>, c: int) -> int {
    let g = grapheme_clusters(text);
    if 0 <= c < g.len() {
        g.take(c).flatten().len() as int
    } else {
        text.len() as int
    }
}

/// Whether every character of cluster `g` is whitespace.
pub open spec fn all_whitespace(g: Seq<char>) -> bool {
    forall|i: int| 0 <= i < g.len() ==> is_white_space(#[trigger] g[i])
}

/// Whether cluster `g` holds a whitespace character.
pub open spec fn has_whitespace(g: Seq<char>) -> bool {
    exists|i: int| 0 <= i < g.len() && is_white_space(#[trigger] g[i])
}

/// Clusters left after dropping trailing clusters made only of whitespace.
pub open spec fn drop_trailing_space(gs: Seq<Seq<char>>) -> Seq<Seq<char>>
    decreases gs.len(),
{
    if gs.len() > 0 && all_whitespace(gs.last()) {
        drop_trailing_space(gs.drop_last())
    } else {
        gs
    }
}

/// Clusters left after dropping trailing clusters that hold no whitespace.
pub open spec fn drop_trailing_word(gs: Seq<Seq<char>>) -> Seq<Seq<char>>
    decreases gs.len(),
{
    if gs.len() > 0 && !has_whitespace(gs.last()) {
        drop_trailing_word(gs.drop_last())
    } else {
        gs
    }
}

/// The editing state of a line: its characters and the cursor in clusters.
pub type EditState = (Seq<char>, nat);

/// The character index the cursor of `s` addresses.
pub open spec fn offset(s: EditState) -> int {
    cluster_char_offset(s.0, s.1 as int)
}

pub open spec fn after_insert(s: EditState, ch: char) -> EditState {
    (s.0.take(offset(s)) + seq![ch] + s.0.skip(offset(s)), s.1 + 1)
}

pub open spec fn after_backspace(s: EditState) -> EditState {
    if s.1 == 0 {
        s
    } else {
        let before = grapheme_clusters(s.0.take(offset(s)));
        (
            if before.len() == 0 {
                s.0
            } else {
                before.drop_last().flatten() + s.0.skip(offset(s))
            },
            (s.1 - 1) as nat,
        )
    }
}

pub open spec fn after_delete(s: EditState) -> EditState {
    if offset(s) >= s.0.len() {
        s
    } else {
        (s.0.take(offset(s)) + grapheme_clusters(s.0.skip(offset(s))).skip(1).flatten(), s.1)
    }
}

pub open spec fn after_move_left(s: EditState) -> EditState {
    (s.0, if s.1 > 0 { (s.1 - 1) as nat } else { 0 })
}

pub open spec fn after_move_right(s: EditState) -> EditState {
    (s.0, if s.1 < grapheme_clusters(s.0).len() { s.1 + 1 } else { s.1 })
}

pub open spec fn after_move_home(s: EditState) -> EditState {
    (s.0, 0)
}

pub open spec fn after_move_end(s: EditState) -> EditState {
    (s.0, grapheme_clusters(s.0).len())
}

pub open spec fn after_delete_to_start(s: EditState) -> EditState {
    (s.0.skip(offset(s)), 0)
}

pub open spec fn after_delete_to_end(s: EditState) -> EditState {
    (s.0.take(offset(s)), s.1)
}

pub open spec fn after_delete_word(s: EditState) -> EditState {
    if s.1 == 0 {
        s
    } else {
        let kept = drop_trailing_word(drop_trailing_space(grapheme_clusters(s.0.take(offset(s)))));
        (kept.flatten() + s.0.skip(offset(s)), kept.len())
    }
}

pub open spec fn cleared() -> EditState {
    (Seq::empty(), 0)
}

/// Deleting to the start and deleting to the end split the line at the
/// cursor: what the second keeps followed by what the first keeps is the
/// whole line.
pub proof fn law_delete_to_ends_split_line(s: EditState)
    requires
        0 <= offset(s) <= s.0.len(),
    ensures
        after_delete_to_end(s).0 + after_delete_to_start(s).0 == s.0,
        after_delete_to_start(s).1 == 0,
        after_delete_to_end(s).1 == s.1,
{
    assert(s.0.take(offset(s)) + s.0.skip(offset(s)) =~= s.0);
}

/// Input line: the text and a cursor position counted in grapheme clusters.
///
/// The cursor may stand past the last cluster (after an inserted character
/// merged with its neighbour); it then addresses the end of the text.
#[derive(Clone)]
pub struct InputBuffer {
    text: String,
    cursor: usize,
}

impl Default for InputBuffer {
    fn default() -> (b: Self)
        ensures
            b.state() == cleared(),
    {
        Self::new()
    }
}

impl InputBuffer {
    /// The characters of the line.
    pub closed spec fn text_of(&self) -> Seq<char> {
        self.text@
    }

    /// The cursor, in grapheme clusters.
    pub closed spec fn cursor_of(&self) -> nat {
        self.cursor as nat
    }

    /// The character index that the cursor addresses.
    pub open spec fn cursor_char(&self) -> int {
        cluster_char_offset(self.text_of(), self.cursor_of() as int)
    }

    /// The text and the cursor.
    pub open spec fn state(&self) -> EditState {
        (self.text_of(), self.cursor_of())
    }

    pub open spec fn clusters(&self) -> Seq<Seq<char>> {
        grapheme_clusters(self.text_of())
    }

    pub fn new() -> (b: Self)
        ensures
            b.state() == cleared(),
    {
        InputBuffer { text: String::new(), cursor: 0 }
    }

    /// Cursor position in grapheme clusters.
    pub fn cursor(&self) -> (c: usize)
        ensures
            c == self.cursor_of(),
    {
        self.cursor
    }

    /// The clusters of the text and the character index of the cursor.
    fn locate(&self) -> (res: (Vec<String>, usize, usize))
        ensures
            str_views(res.0@) == self.clusters(),
            str_views(res.0@).flatten() == self.text_of(),
            res.1 == if self.cursor < res.0@.len() { self.cursor as int } else { res.0@.len() as int },
            str_views(res.0@).take(res.1 as int).flatten() == self.text_of().take(self.cursor_char()),
            str_views(res.0@).skip(res.1 as int).flatten() == self.text_of().skip(self.cursor_char()),
            res.2 == self.cursor_char(),
            0 <= self.cursor_char() <= self.text_of().len(),
            forall|i: int| 0 <= i < res.0@.len() ==> (#[trigger] res.0@[i])@.len() > 0,
    {
        let clusters = split_graphemes(self.text.as_str());
        let n = clusters.len();
        let c = if self.cursor < n { self.cursor } else { n };
        let prefix = concat_range(&clusters, 0, c);
        proof {
            let vs = str_views(clusters@);
            assert(vs.subrange(0, c as int) =~= vs.take(c as int));
            lemma_flatten_split(vs, c as int);
            assert(vs.take(n as int) =~= vs);
        }
        let k = prefix.unicode_len();
        (clusters, c, k)
    }

    /// Insert a character at the cursor.
    pub fn insert(&mut self, ch: char)
        requires
            old(self).cursor_of() < usize::MAX,
        ensures
            final(self).state() == after_insert(old(self).state(), ch),
            old(self).clusters().len() <= old(self).text_of().len(),
    {
        let (clusters, c, _k) = self.locate();
        proof {
            lemma_flatten_len_ge_count(str_views(clusters@));
        }
        let mut s = concat_range(&clusters, 0, c);
        let one = char_to_string(ch);
        s.append(one.as_str());
        let rest = concat_range(&clusters, c, clusters.len());
        s.append(rest.as_str());
        proof {
            let vs = str_views(clusters@);
            assert(vs.subrange(0, c as int) =~= vs.take(c as int));
            assert(vs.subrange(c as int, vs.len() as int) =~= vs.skip(c as int));
        }
        self.text = s;
        self.cursor = self.cursor + 1;
    }

    /// Delete the grapheme cluster before the cursor (backspace). The cluster
    /// removed is the last cluster of the text before the cursor.
    pub fn backspace(&mut self)
        ensures
            final(self).state() == after_backspace(old(self).state()),
    {
        if self.cursor == 0 {
            return;
        }
        let (clusters, c, _k) = self.locate();
        let before = concat_range(&clusters, 0, c);
        let rest = concat_range(&clusters, c, clusters.len());
        let before_clusters = split_graphemes(before.as_str());
        proof {
            let vs = str_views(clusters@);
            assert(vs.subrange(0, c as int) =~= vs.take(c as int));
            assert(vs.subrange(c as int, vs.len() as int) =~= vs.skip(c as int));
        }
        let m = before_clusters.len();
        if m > 0 {
            let mut s = concat_range(&before_clusters, 0, m - 1);
            s.append(rest.as_str());
            proof {
                let bs = str_views(before_clusters@);
                assert(bs.subrange(0, m - 1) =~= bs.drop_last());
            }
            self.text = s;
        } else {
            proof {
                assert(str_views(before_clusters@).len() == 0);
            }
        }
        self.cursor = self.cursor - 1;
    }

    /// Delete the grapheme cluster at the cursor. The cluster removed is the
    /// first cluster of the text from the cursor on.
    pub fn delete(&mut self)
        ensures
            final(self).state() == after_delete(old(self).state()),
    {
        let (clusters, c, k) = self.locate();
        if c >= clusters.len() {
            proof {
                assert(str_views(clusters@).skip(c as int) =~= Seq::<Seq<char>>::empty());
                assert(self.text_of().skip(k as int).len() == 0);
            }
            return;
        }
        proof {
            let vs = str_views(clusters@);
            assert(vs.skip(c as int) =~= seq![vs[c as int]] + vs.skip(c + 1));
            vstd::seq_lib::lemma_flatten_concat(seq![vs[c as int]], vs.skip(c + 1));
            seq![vs[c as int]].lemma_flatten_one_element();
            assert(clusters@[c as int]@.len() > 0);
        }
        let mut s = concat_range(&clusters, 0, c);
        let after = concat_range(&clusters, c, clusters.len());
        let after_clusters = split_graphemes(after.as_str());
        let m = after_clusters.len();
        proof {
            let vs = str_views(clusters@);
            assert(vs.subrange(0, c as int) =~= vs.take(c as int));
            assert(vs.subrange(c as int, vs.len() as int) =~= vs.skip(c as int));
            if m == 0 {
                assert(str_views(after_clusters@) =~= Seq::<Seq<char>>::empty());
            }
        }
        let tail = concat_range(&after_clusters, 1, m);
        proof {
            let bs = str_views(after_clusters@);
            assert(bs.subrange(1, m as int) =~= bs.skip(1));
        }
        s.append(tail.as_str());
        self.text = s;
    }

    pub fn move_left(&mut self)
        ensures
            final(self).state() == after_move_left(old(self).state()),
    {
        if self.cursor > 0 {
            self.cursor = self.cursor - 1;
        }
    }

    pub fn move_right(&mut self)
        ensures
            final(self).state() == after_move_right(old(self).state()),
    {
        let clusters = split_graphemes(self.text.as_str());
        if self.cursor < clusters.len() {
            self.cursor = self.cursor + 1;
        }
    }

    pub fn move_home(&mut self)
        ensures
            final(self).state() == after_move_home(old(self).state()),
    {
        self.cursor = 0;
    }

    pub fn move_end(&mut self)
        ensures
            final(self).state() == after_move_end(old(self).state()),
    {
        let clusters = split_graphemes(self.text.as_str());
        self.cursor = clusters.len();
    }

    /// Delete from the cursor to the beginning of the line.
    pub fn delete_to_start(&mut self)
        ensures
            final(self).state() == after_delete_to_start(old(self).state()),
    {
        let (clusters, c, _k) = self.locate();
        let rest = concat_range(&clusters, c, clusters.len());
        proof {
            let vs = str_views(clusters@);
            assert(vs.subrange(c as int, vs.len() as int) =~= vs.skip(c as int));
        }
        self.text = rest;
        self.cursor = 0;
    }

    /// Delete from the cursor to the end of the line.
    pub fn delete_to_end(&mut self)
        ensures
            final(self).state() == after_delete_to_end(old(self).state()),
    {
        let (clusters, c, _k) = self.locate();
        let before = concat_range(&clusters, 0, c);
        proof {
            let vs = str_views(clusters@);
            assert(vs.subrange(0, c as int) =~= vs.take(c as int));
        }
        self.text = before;
    }

    /// Delete the word before the cursor: first the whitespace-only clusters
    /// right before it, then the clusters without whitespace before those.
    /// The cursor moves to where the deleted text began.
    pub fn delete_word(&mut self)
        ensures
            final(self).state() == after_delete_word(old(self).state()),
    {
        if self.cursor == 0 {
            return;
        }
        let (clusters, c, _k) = self.locate();
        let before = concat_range(&clusters, 0, c);
        let rest = concat_range(&clusters, c, clusters.len());
        proof {
            let vs = str_views(clusters@);
            assert(vs.subrange(0, c as int) =~= vs.take(c as int));
            assert(vs.subrange(c as int, vs.len() as int) =~= vs.skip(c as int));
        }
        let gs = split_graphemes(before.as_str());
        let ghost all = str_views(gs@);
        let mut n = gs.len();
        proof {
            assert(all.take(n as int) =~= all);
        }
        while n > 0 && all_whitespace_exec(&gs[n - 1])
            invariant
                n <= gs.len(),
                all == str_views(gs@),
                drop_trailing_space(all.take(n as int)) == drop_trailing_space(all),
            decreases n,
        {
            proof {
                assert(all.take(n as int).drop_last() =~= all.take(n - 1));
            }
            n = n - 1;
        }
        let ghost spaced = all.take(n as int);
        proof {
            assert(drop_trailing_space(spaced) == spaced);
        }
        while n > 0 && !has_whitespace_exec(&gs[n - 1])
            invariant
                n <= spaced.len(),
                spaced == all.take(spaced.len() as int),
                all == str_views(gs@),
                spaced.len() <= gs.len(),
                drop_trailing_word(all.take(n as int)) == drop_trailing_word(spaced),
            decreases n,
        {
            proof {
                assert(all.take(n as int).drop_last() =~= all.take(n - 1));
            }
            n = n - 1;
        }
        proof {
            assert(drop_trailing_word(all.take(n as int)) == all.take(n as int));
        }
        let mut s = concat_range(&gs, 0, n);
        proof {
            assert(all.subrange(0, n as int) =~= all.take(n as int));
        }
        s.append(rest.as_str());
        self.text = s;
        self.cursor = n;
    }

    /// Empty the line and put the cursor at its start.
    pub fn clear(&mut self)
        ensures
            final(self).state() == cleared(),
    {
        self.text = String::new();
        self.cursor = 0;
    }

    pub fn text(&self) -> (t: &str)
        ensures
            t@ == self.text_of(),
    {
        self.text.as_str()
    }

    /// Character index of the cursor in the text.
    pub fn cursor_char_index(&self) -> (k: usize)
        ensures
            k == self.cursor_char(),
            k <= self.text_of().len(),
    {
        let (_clusters, _c, k) = self.locate();
        k
    }

    /// Byte index of the cursor in the UTF-8 text.
    pub fn cursor_byte(&self) -> (b: usize)
        ensures
            b == vstd::utf8::encode_utf8(self.text_of().take(self.cursor_char())).len() as usize,
            b <= vstd::utf8::encode_utf8(self.text_of()).len(),
            vstd::utf8::is_char_boundary(vstd::utf8::encode_utf8(self.text_of()), b as int),
    {
        self.cursor_to_byte()
    }

    pub fn is_empty(&self) -> (b: bool)
        ensures
            b == (self.text_of().len() == 0),
    {
        self.text.as_str().is_empty()
    }

    fn cursor_to_byte(&self) -> (b: usize)
        ensures
            b == vstd::utf8::encode_utf8(self.text_of().take(self.cursor_char())).len() as usize,
            b <= vstd::utf8::encode_utf8(self.text_of()).len(),
            vstd::utf8::is_char_boundary(vstd::utf8::encode_utf8(self.text_of()), b as int),
    {
        let (clusters, c, _k) = self.locate();
        let before = concat_range(&clusters, 0, c);
        proof {
            let vs = str_views(clusters@);
            assert(vs.subrange(0, c as int) =~= vs.take(c as int));
            crate::text::lemma_encode_split(self.text_of(), self.cursor_char());
        }
        let total = self.text.as_str().as_bytes().len();
        proof {
            assert(total == vstd::utf8::encode_utf8(self.text_of()).len());
        }
        before.as_str().len()
    }
}

/// Whether every character of `g` is whitespace.
fn all_whitespace_exec(g: &String) -> (b: bool)
    ensures
        b == all_whitespace(g@),
{
    let s = g.as_str();
    let n = s.unicode_len();
    let mut i: usize = 0;
    while i < n
        invariant
            n == g@.len(),
            s@ == g@,
            i <= n,
            forall|j: int| 0 <= j < i ==> is_white_space(#[trigger] g@[j]),
        decreases n - i,
    {
        if !char_is_whitespace(s.get_char(i)) {
            return false;
        }
        i = i + 1;
    }
    true
}

/// Whether some character of `g` is whitespace.
fn has_whitespace_exec(g: &String) -> (b: bool)
    ensures
        b == has_whitespace(g@),
{
    let s = g.as_str();
    let n = s.unicode_len();
    let mut i: usize = 0;
    while i < n
        invariant
            n == g@.len(),
            s@ == g@,
            i <= n,
            forall|j: int| 0 <= j < i ==> !is_white_space(#[trigger] g@[j]),
        decreases n - i,
    {
        if char_is_whitespace(s.get_char(i)) {
            return true;
        }
        i = i + 1;
    }
    false
}

} // verus!
