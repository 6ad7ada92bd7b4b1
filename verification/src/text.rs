//! String helpers shared by the library, stated over `Seq<char>`.

use vstd::prelude::*;

verus! {

/// The character sequences of a sequence of strings.
pub open spec fn str_views(v: Seq<String>) -> Seq<Seq<char>> {
    v.map_values(|s: String| s@)
}

/// A one-character string, made by `char`'s `ToString`.
///
/// Trusted: `<char as ToString>::to_string` returns the string that holds
/// exactly that character.
#[verifier::external_body]
pub(crate) fn char_to_string(c: char) -> (s: String)
    ensures
        s@ == seq![c],
{
    c.to_string()
}

/// Concatenation of `parts[lo..hi]`.
pub fn concat_range(parts: &Vec<String>, lo: usize, hi: usize) -> (s: String)
    requires
        lo <= hi <= parts.len(),
    ensures
        s@ == str_views(parts@).subrange(lo as int, hi as int).flatten(),
{
    let mut s = String::new();
    let mut i = lo;
    while i < hi
        invariant
            lo <= i <= hi <= parts.len(),
            s@ == str_views(parts@).subrange(lo as int, i as int).flatten(),
        decreases hi - i,
    {
        proof {
            let vs = str_views(parts@);
            vs.subrange(lo as int, i as int).lemma_flatten_push(vs[i as int]);
            assert(vs.subrange(lo as int, i as int).push(vs[i as int]) =~= vs.subrange(
                lo as int,
                i + 1,
            ));
        }
        s.append(parts[i].as_str());
        i = i + 1;
    }
    s
}

/// Splitting the flattening of `gs` at part `c` splits the flat sequence at
/// the length of the first `c` parts.
/// The UTF-8 encoding of a text is that of its first `k` characters
/// followed by that of the rest, and the split falls on a character
/// boundary.
pub proof fn lemma_encode_split(s: Seq<char>, k: int)
    requires
        0 <= k <= s.len(),
    ensures
        vstd::utf8::encode_utf8(s) == vstd::utf8::encode_utf8(s.take(k)) + vstd::utf8::encode_utf8(
            s.skip(k),
        ),
        vstd::utf8::is_char_boundary(
            vstd::utf8::encode_utf8(s),
            vstd::utf8::encode_utf8(s.take(k)).len() as int,
        ),
    decreases k,
{
    vstd::utf8::encode_utf8_valid_utf8(s);
    if k == 0 {
        assert(s.take(0) =~= Seq::<char>::empty());
        assert(s.skip(0) =~= s);
        assert(vstd::utf8::encode_utf8(s.take(0)) =~= Seq::<u8>::empty());
        assert(vstd::utf8::encode_utf8(s) =~= vstd::utf8::encode_utf8(s.take(k)) + vstd::utf8::encode_utf8(
            s.skip(k),
        ));
    } else {
        let t = s.drop_first();
        lemma_encode_split(t, k - 1);
        assert(s.take(k).drop_first() =~= t.take(k - 1));
        assert(s.skip(k) =~= t.skip(k - 1));
        assert(s.take(k)[0] == s[0]);
        let head = vstd::utf8::encode_scalar(s[0] as u32);
        let bytes = vstd::utf8::encode_utf8(s);
        assert(vstd::utf8::encode_utf8(s.take(k)) == head + vstd::utf8::encode_utf8(t.take(k - 1)));
        assert(bytes == head + vstd::utf8::encode_utf8(t));
        assert(bytes =~= vstd::utf8::encode_utf8(s.take(k)) + vstd::utf8::encode_utf8(s.skip(k)));
        vstd::utf8::encode_utf8_first_scalar(s);
        assert(vstd::utf8::pop_first_scalar(bytes) =~= vstd::utf8::encode_utf8(t));
        assert(head.len() > 0);
    }
}

/// An element is in a filtered sequence exactly when it is in the sequence
/// and satisfies the predicate.
pub proof fn lemma_filter_contains_iff<A>(s: Seq<A>, pred: spec_fn(A) -> bool, e: A)
    ensures
        s.filter(pred).contains(e) <==> (s.contains(e) && pred(e)),
{
    if s.filter(pred).contains(e) {
        s.lemma_filter_contains_rev(pred, e);
        let i = choose|i: int| 0 <= i < s.filter(pred).len() && s.filter(pred)[i] == e;
        s.lemma_filter_pred(pred, i);
    }
    if s.contains(e) && pred(e) {
        let i = choose|i: int| 0 <= i < s.len() && s[i] == e;
        s.lemma_filter_contains(pred, i);
    }
}

pub proof fn lemma_flatten_split<A>(gs: Seq<Seq<A>>, c: int)
    requires
        0 <= c <= gs.len(),
    ensures
        gs.take(c).flatten() == gs.flatten().take(gs.take(c).flatten().len() as int),
        gs.skip(c).flatten() == gs.flatten().skip(gs.take(c).flatten().len() as int),
        gs.take(c).flatten() + gs.skip(c).flatten() == gs.flatten(),
{
    assert(gs =~= gs.take(c) + gs.skip(c));
    vstd::seq_lib::lemma_flatten_concat(gs.take(c), gs.skip(c));
    let a = gs.take(c).flatten();
    let b = gs.skip(c).flatten();
    assert((a + b).take(a.len() as int) =~= a);
    assert((a + b).skip(a.len() as int) =~= b);
}

/// The characters of `s`, in order.
pub fn chars_of(s: &str) -> (v: Vec<char>)
    ensures
        v@ == s@,
{
    broadcast use vstd::string::group_string_axioms;

    let mut v: Vec<char> = Vec::new();
    for c in it: s.chars()
        invariant
            v@ == it.seq().take(it.index() as int),
    {
        v.push(c);
    }
    v
}

/// The string made of `chars`, in order.
pub fn string_of(chars: &Vec<char>) -> (s: String)
    ensures
        s@ == chars@,
{
    let mut s = String::new();
    let mut i: usize = 0;
    while i < chars.len()
        invariant
            i <= chars@.len(),
            s@ == chars@.take(i as int),
        decreases chars@.len() - i,
    {
        let one = char_to_string(chars[i]);
        s.append(one.as_str());
        proof {
            assert(chars@.take(i + 1) =~= chars@.take(i as int).push(chars@[i as int]));
        }
        i = i + 1;
    }
    proof {
        assert(chars@.take(chars@.len() as int) =~= chars@);
    }
    s
}

/// Whether `needle` occurs in `hay` starting at index `i`.
pub open spec fn occurs_at(hay: Seq<char>, needle: Seq<char>, i: int) -> bool {
    0 <= i && i + needle.len() <= hay.len() && hay.subrange(i, i + needle.len()) == needle
}

/// Whether `needle` occurs somewhere in `hay` (the empty sequence occurs in every sequence).
pub open spec fn seq_contains(hay: Seq<char>, needle: Seq<char>) -> bool {
    exists|i: int| occurs_at(hay, needle, i)
}

/// Whether `needle` occurs at index `i` of `hay`, character by character.
fn occurs_at_exec(hay: &Vec<char>, needle: &Vec<char>, i: usize) -> (b: bool)
    requires
        i + needle@.len() <= hay@.len(),
    ensures
        b == occurs_at(hay@, needle@, i as int),
{
    let hl = hay.len();
    let mut j: usize = 0;
    while j < needle.len()
        invariant
            hl == hay@.len(),
            i + needle@.len() <= hay@.len(),
            j <= needle@.len(),
            forall|k: int| 0 <= k < j ==> hay@[i + k] == needle@[k],
        decreases needle@.len() - j,
    {
        if hay[i + j] != needle[j] {
            proof {
                assert(hay@.subrange(i as int, i + needle@.len())[j as int] != needle@[j as int]);
            }
            return false;
        }
        j = j + 1;
    }
    proof {
        assert(hay@.subrange(i as int, i + needle@.len()) =~= needle@);
    }
    true
}

/// Whether `needle` occurs in `hay`.
pub fn chars_contain(hay: &Vec<char>, needle: &Vec<char>) -> (b: bool)
    ensures
        b == seq_contains(hay@, needle@),
{
    if needle.len() > hay.len() {
        return false;
    }
    let last = hay.len() - needle.len();
    let mut i: usize = 0;
    while i <= last
        invariant
            last == hay@.len() - needle@.len(),
            needle@.len() <= hay@.len(),
            forall|k: int| 0 <= k < i ==> !occurs_at(hay@, needle@, k),
        decreases last + 1 - i,
    {
        if occurs_at_exec(hay, needle, i) {
            return true;
        }
        if i == last {
            return false;
        }
        i = i + 1;
    }
    false
}

/// Whether `needle` occurs in `hay`.
pub fn str_contains(hay: &str, needle: &str) -> (b: bool)
    ensures
        b == seq_contains(hay@, needle@),
{
    let h = chars_of(hay);
    let n = chars_of(needle);
    chars_contain(&h, &n)
}

/// The lowercase form of `s` that `str::to_lowercase` computes (Unicode's
/// lowercase mapping of each character).
pub uninterp spec fn lowercase(s: Seq<char>) -> Seq<char>;

/// Whether every character of `s` is ASCII.
pub open spec fn is_ascii_text(s: Seq<char>) -> bool {
    forall|i: int| 0 <= i < s.len() ==> (#[trigger] s[i] as u32) < 128
}

/// `s` with the ASCII capitals `A` to `Z` turned into `a` to `z`.
pub open spec fn ascii_lower(s: Seq<char>) -> Seq<char> {
    s.map_values(|c: char| if 65 <= (c as u32) <= 90 { ((c as u32) + 32) as char } else { c })
}

/// Lowercase copy of `s`.
///
/// Trusted: `str::to_lowercase`. The contract names the result, which
/// depends on `s` alone, and states what Unicode's lowercase mapping, which
/// the documentation names, does to ASCII text: capitals become small
/// letters and every other character stays.
#[verifier::external_body]
pub(crate) fn to_lowercase(s: &str) -> (r: String)
    ensures
        r@ == lowercase(s@),
        is_ascii_text(s@) ==> r@ == ascii_lower(s@),
{
    s.to_lowercase()
}

/// `s` with every occurrence of the non-empty `pat` replaced by `rep`,
/// occurrences found from left to right without overlap.
pub open spec fn replace_all(s: Seq<char>, pat: Seq<char>, rep: Seq<char>) -> Seq<char>
    recommends
        pat.len() > 0,
    decreases s.len(),
{
    if pat.len() == 0 || s.len() < pat.len() {
        s
    } else if s.take(pat.len() as int) == pat {
        rep + replace_all(s.skip(pat.len() as int), pat, rep)
    } else {
        seq![s[0]] + replace_all(s.skip(1), pat, rep)
    }
}

/// `s` with every occurrence of the non-empty `pat` replaced by `rep`, as
/// `str::replace` does.
pub fn replace_str(s: &str, pat: &str, rep: &str) -> (r: String)
    requires
        pat@.len() > 0,
    ensures
        r@ == replace_all(s@, pat@, rep@),
{
    let sc = chars_of(s);
    let pc = chars_of(pat);
    let mut out = String::new();
    let mut i: usize = 0;
    let n = sc.len();
    let m = pc.len();
    proof {
        assert(sc@.skip(0) =~= sc@);
    }
    while m <= n - i
        invariant
            n == sc@.len(),
            m == pc@.len(),
            m > 0,
            sc@ == s@,
            pc@ == pat@,
            i <= n,
            out@ + replace_all(sc@.skip(i as int), pc@, rep@) == replace_all(s@, pat@, rep@),
        decreases n - i,
    {
        let ghost rest = sc@.skip(i as int);
        if occurs_at_exec(&sc, &pc, i) {
            proof {
                assert(rest.take(m as int) =~= sc@.subrange(i as int, i + m));
                assert(rest.skip(m as int) =~= sc@.skip(i + m));
                assert(out@ + (rep@ + replace_all(sc@.skip(i + m), pc@, rep@)) =~= out@ + rep@
                    + replace_all(sc@.skip(i + m), pc@, rep@));
            }
            out.append(rep);
            i = i + m;
        } else {
            proof {
                assert(rest.take(m as int) =~= sc@.subrange(i as int, i + m));
                assert(rest.skip(1) =~= sc@.skip(i + 1));
                assert(rest[0] == sc@[i as int]);
                assert(out@ + (seq![sc@[i as int]] + replace_all(sc@.skip(i + 1), pc@, rep@))
                    =~= out@.push(sc@[i as int]) + replace_all(sc@.skip(i + 1), pc@, rep@));
            }
            let one = char_to_string(sc[i]);
            out.append(one.as_str());
            i = i + 1;
        }
    }
    let tail = string_of_range(&sc, i);
    proof {
        assert(replace_all(sc@.skip(i as int), pc@, rep@) == sc@.skip(i as int));
    }
    out.append(tail.as_str());
    out
}

/// The string made of `chars[lo..]`.
fn string_of_range(chars: &Vec<char>, lo: usize) -> (s: String)
    requires
        lo <= chars@.len(),
    ensures
        s@ == chars@.skip(lo as int),
{
    let mut s = String::new();
    let mut i: usize = lo;
    while i < chars.len()
        invariant
            lo <= i <= chars@.len(),
            s@ == chars@.subrange(lo as int, i as int),
        decreases chars@.len() - i,
    {
        let one = char_to_string(chars[i]);
        s.append(one.as_str());
        proof {
            assert(chars@.subrange(lo as int, i + 1) =~= chars@.subrange(lo as int, i as int).push(
                chars@[i as int],
            ));
        }
        i = i + 1;
    }
    proof {
        assert(chars@.subrange(lo as int, chars@.len() as int) =~= chars@.skip(lo as int));
    }
    s
}

/// Unicode's `White_Space` property, which `char::is_whitespace` tests.
pub open spec fn is_white_space(c: char) -> bool {
    let u = c as u32;
    (0x9 <= u <= 0xD) || u == 0x20 || u == 0x85 || u == 0xA0 || u == 0x1680 || (0x2000 <= u
        <= 0x200A) || u == 0x2028 || u == 0x2029 || u == 0x202F || u == 0x205F || u == 0x3000
}

/// Whether `c` has Unicode's `White_Space` property.
pub fn char_is_whitespace(c: char) -> (b: bool)
    ensures
        b == is_white_space(c),
{
    let u = c as u32;
    (0x9 <= u && u <= 0xD) || u == 0x20 || u == 0x85 || u == 0xA0 || u == 0x1680 || (0x2000 <= u
        && u <= 0x200A) || u == 0x2028 || u == 0x2029 || u == 0x202F || u == 0x205F || u == 0x3000
}

/// Whether every character of `s` is whitespace, which is when
/// `s.trim()` is empty.
pub open spec fn is_blank(s: Seq<char>) -> bool {
    forall|i: int| 0 <= i < s.len() ==> is_white_space(#[trigger] s[i])
}

/// Whether every character of `s` is whitespace.
pub fn str_is_blank(s: &str) -> (b: bool)
    ensures
        b == is_blank(s@),
{
    let cs = chars_of(s);
    let mut i: usize = 0;
    while i < cs.len()
        invariant
            cs@ == s@,
            i <= cs@.len(),
            forall|j: int| 0 <= j < i ==> is_white_space(#[trigger] s@[j]),
        decreases cs@.len() - i,
    {
        if !char_is_whitespace(cs[i]) {
            return false;
        }
        i = i + 1;
    }
    true
}

/// An element is in `s.push(x)` exactly when it is `x` or in `s`.
pub proof fn lemma_push_contains<A>(s: Seq<A>, x: A, n: A)
    ensures
        s.push(x).contains(n) <==> (s.contains(n) || n == x),
{
    if s.contains(n) {
        let j = choose|j: int| 0 <= j < s.len() && s[j] == n;
        assert(s.push(x)[j] == n);
    }
    if n == x {
        assert(s.push(x)[s.len() as int] == n);
    }
    if s.push(x).contains(n) && n != x {
        let j = choose|j: int| 0 <= j < s.push(x).len() && s.push(x)[j] == n;
        assert(s[j] == n);
    }
}

/// Flattening parts that are all non-empty gives at least one element per part.
pub proof fn lemma_flatten_len_ge_count<A>(gs: Seq<Seq<A>>)
    requires
        forall|i: int| 0 <= i < gs.len() ==> (#[trigger] gs[i]).len() > 0,
    ensures
        gs.flatten().len() >= gs.len(),
    decreases gs.len(),
{
    if gs.len() > 0 {
        lemma_flatten_len_ge_count(gs.drop_last());
        gs.drop_last().lemma_flatten_push(gs.last());
        assert(gs.drop_last().push(gs.last()) =~= gs);
        assert(gs[gs.len() - 1].len() > 0);
    }
}

} // verus!
