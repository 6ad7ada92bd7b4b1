//! Literal search over a snapshot of output lines, with a current match
//! that moves forwards and backwards cyclically.

use vstd::prelude::*;

use crate::pattern::{regex_compiles, regex_escape, regex_escaped, regex_is_match, regex_is_valid, regex_matches};
use crate::text::{seq_contains, str_views};

verus! {

/// The lines (with their indices) that satisfy `pred`, in order.
pub open spec fn lines_where(lines: Seq<Seq<char>>, pred: spec_fn(Seq<char>) -> bool) -> Seq<(int, Seq<char>)>
    decreases lines.len(),
{
    if lines.len() == 0 {
        Seq::empty()
    } else {
        let before = lines_where(lines.drop_last(), pred);
        if pred(lines.last()) {
            before.push((lines.len() - 1, lines.last()))
        } else {
            before
        }
    }
}

/// The lines that the regex `pattern` matches.
pub open spec fn lines_matching(lines: Seq<Seq<char>>, pattern: Seq<char>) -> Seq<(int, Seq<char>)> {
    lines_where(lines, |t: Seq<char>| regex_matches(pattern, t))
}

/// The lines that contain `lit` literally.
pub open spec fn lines_containing(lines: Seq<Seq<char>>, lit: Seq<char>) -> Seq<(int, Seq<char>)> {
    lines_where(lines, |t: Seq<char>| seq_contains(t, lit))
}

/// The match after `cur` among `n` matches, wrapping around.
pub open spec fn next_index(cur: Option<nat>, n: nat) -> nat {
    match cur {
        None => 0,
        Some(i) => ((i as int + 1) % (n as int)) as nat,
    }
}

/// The match before `cur` among `n` matches, wrapping around.
pub open spec fn prev_index(cur: Option<nat>, n: nat) -> nat {
    match cur {
        None => (n - 1) as nat,
        Some(i) => ((i as int + n as int - 1) % (n as int)) as nat,
    }
}

pub open spec fn match_views(v: Seq<(usize, String)>) -> Seq<(int, Seq<char>)> {
    v.map_values(|m: (usize, String)| (m.0 as int, m.1@))
}

/// `new` is `old` moved to the next match (nothing changes without matches).
pub open spec fn stepped_next(old: SearchState, new: SearchState) -> bool {
    &&& new.query_of() == old.query_of()
    &&& new.matches_of() == old.matches_of()
    &&& new.current_of() == if old.matches_of().len() == 0 {
        old.current_of()
    } else {
        Some(next_index(old.current_of(), old.matches_of().len()))
    }
}

/// `new` is `old` moved to the previous match (nothing changes without matches).
pub open spec fn stepped_prev(old: SearchState, new: SearchState) -> bool {
    &&& new.query_of() == old.query_of()
    &&& new.matches_of() == old.matches_of()
    &&& new.current_of() == if old.matches_of().len() == 0 {
        old.current_of()
    } else {
        Some(prev_index(old.current_of(), old.matches_of().len()))
    }
}

/// `s` has no query, no matches and no current match.
pub open spec fn search_cleared(s: SearchState) -> bool {
    &&& s.query_of() is None
    &&& s.matches_of() == Seq::<(int, Seq<char>)>::empty()
    &&& s.current_of() is None
}

/// `s` holds the query `query` (searched for literally), with no matches yet.
pub open spec fn search_requeried(s: SearchState, query: Seq<char>) -> bool {
    &&& query.len() == 0 ==> s.query_of() is None
    &&& query.len() > 0 ==> s.query_of() == if regex_compiles(regex_escaped(query)) {
        Some(regex_escaped(query))
    } else {
        None
    }
    &&& s.matches_of() == Seq::<(int, Seq<char>)>::empty()
    &&& s.current_of() is None
}

/// `new` is `old` after searching `lines`: the matching lines, the first
/// of them current.
pub open spec fn search_executed(old: SearchState, new: SearchState, lines: Seq<Seq<char>>) -> bool {
    &&& new.query_of() == old.query_of()
    &&& old.query_of() is None ==> new.matches_of() == Seq::<(int, Seq<char>)>::empty()
    &&& old.query_of() matches Some(p) ==> new.matches_of() == lines_matching(lines, p)
    &&& new.current_of() == if new.matches_of().len() > 0 {
        Some(0nat)
    } else {
        None
    }
}

/// Search state over a fixed snapshot of lines.
pub struct SearchState {
    query: Option<String>,
    matches: Vec<(usize, String)>,
    current: Option<usize>,
}

impl SearchState {
    /// The compiled pattern (the escaped query), if any.
    pub closed spec fn query_of(&self) -> Option<Seq<char>> {
        match self.query {
            Some(q) => Some(q@),
            None => None,
        }
    }

    /// The matching lines, with their indices, in order.
    pub closed spec fn matches_of(&self) -> Seq<(int, Seq<char>)> {
        match_views(self.matches@)
    }

    /// The position of the current match among the matches.
    pub closed spec fn current_of(&self) -> Option<nat> {
        match self.current {
            Some(i) => Some(i as nat),
            None => None,
        }
    }

    #[verifier::type_invariant]
    closed spec fn consistent(&self) -> bool {
        &&& self.current matches Some(i) ==> i < self.matches@.len()
        &&& self.query matches Some(q) ==> regex_compiles(q@)
    }

    pub fn new() -> (s: Self)
        ensures
            search_cleared(s),
    {
        let s = SearchState { query: None, matches: Vec::new(), current: None };
        proof {
            assert(s.matches_of() =~= Seq::<(int, Seq<char>)>::empty());
        }
        s
    }

    /// Search for `query` literally: regex meta characters in it are
    /// escaped. An empty query clears the search. Earlier matches are
    /// dropped until the next `execute`.
    pub fn set_query(&mut self, query: &str)
        ensures
            query@.len() == 0 ==> final(self).query_of() is None,
            query@.len() > 0 ==> final(self).query_of() == if regex_compiles(regex_escaped(query@)) {
                Some(regex_escaped(query@))
            } else {
                None
            },
            final(self).matches_of() == Seq::<(int, Seq<char>)>::empty(),
            final(self).current_of() is None,
            search_requeried(*final(self), query@),
    {
        if query.is_empty() {
            self.clear();
            return;
        }
        let pattern = regex_escape(query);
        let valid = regex_is_valid(pattern.as_str());
        if valid {
            *self = SearchState { query: Some(pattern), matches: Vec::new(), current: None };
        } else {
            *self = SearchState { query: None, matches: Vec::new(), current: None };
        }
        proof {
            assert(self.matches_of() =~= Seq::<(int, Seq<char>)>::empty());
        }
    }

    /// Find the matches of the query in `lines`; the first match, if any,
    /// becomes current.
    pub fn execute(&mut self, lines: &[String])
        ensures
            final(self).query_of() == old(self).query_of(),
            old(self).query_of() is None ==> final(self).matches_of() == Seq::<
                (int, Seq<char>),
            >::empty(),
            old(self).query_of() matches Some(p) ==> final(self).matches_of() == lines_matching(
                str_views(lines@),
                p,
            ),
            old(self).query_of() matches Some(p) ==> forall|lit: Seq<char>|
                #[trigger] regex_escaped(lit) == p ==> final(self).matches_of() == lines_containing(
                    str_views(lines@),
                    lit,
                ),
            final(self).current_of() == if final(self).matches_of().len() > 0 {
                Some(0nat)
            } else {
                None
            },
            search_executed(*old(self), *final(self), str_views(lines@)),
    {
        proof {
            use_type_invariant(&*self);
        }
        let pattern = match &self.query {
            None => {
                *self = SearchState { query: None, matches: Vec::new(), current: None };
                proof {
                    assert(self.matches_of() =~= Seq::<(int, Seq<char>)>::empty());
                }
                return;
            },
            Some(p) => p.as_str(),
        };
        let ghost ls = str_views(lines@);
        let mut found: Vec<(usize, String)> = Vec::new();
        let mut i: usize = 0;
        while i < lines.len()
            invariant
                i <= lines@.len(),
                ls == str_views(lines@),
                regex_compiles(pattern@),
                match_views(found@) == lines_matching(ls.take(i as int), pattern@),
                forall|lit: Seq<char>|
                    #[trigger] regex_escaped(lit) == pattern@ ==> match_views(found@)
                        == lines_containing(ls.take(i as int), lit),
            decreases lines@.len() - i,
        {
            let line = lines[i].as_str();
            let hit = regex_is_match(pattern, line);
            let ghost before = found@;
            proof {
                assert(ls.take(i + 1).drop_last() =~= ls.take(i as int));
                assert(ls.take(i + 1).last() == line@);
            }
            if hit {
                found.push((i, String::from_str(line)));
                proof {
                    assert(match_views(found@) =~= match_views(before).push((i as int, line@)));
                }
            }
            i = i + 1;
        }
        proof {
            assert(ls.take(lines@.len() as int) =~= ls);
        }
        let n = found.len();
        let kept = String::from_str(pattern);
        *self = SearchState {
            query: Some(kept),
            matches: found,
            current: if n == 0 {
                None
            } else {
                Some(0)
            },
        };
    }

    /// Move to the next match (wrapping around) and return its line index.
    pub fn next_match(&mut self) -> (r: Option<usize>)
        ensures
            final(self).query_of() == old(self).query_of(),
            final(self).matches_of() == old(self).matches_of(),
            old(self).matches_of().len() == 0 ==> r is None && final(self).current_of()
                == old(self).current_of(),
            old(self).matches_of().len() > 0 ==> {
                let idx = next_index(old(self).current_of(), old(self).matches_of().len());
                &&& final(self).current_of() == Some(idx)
                &&& r == Some(old(self).matches_of()[idx as int].0 as usize)
            },
            stepped_next(*old(self), *final(self)),
    {
        proof {
            use_type_invariant(&*self);
        }
        let n = self.matches.len();
        if n == 0 {
            return None;
        }
        let idx = match self.current {
            None => 0,
            Some(i) => (i + 1) % n,
        };
        self.current = Some(idx);
        Some(self.matches[idx].0)
    }

    /// Move to the previous match (wrapping around) and return its line index.
    pub fn prev_match(&mut self) -> (r: Option<usize>)
        ensures
            final(self).query_of() == old(self).query_of(),
            final(self).matches_of() == old(self).matches_of(),
            old(self).matches_of().len() == 0 ==> r is None && final(self).current_of()
                == old(self).current_of(),
            old(self).matches_of().len() > 0 ==> {
                let idx = prev_index(old(self).current_of(), old(self).matches_of().len());
                &&& final(self).current_of() == Some(idx)
                &&& r == Some(old(self).matches_of()[idx as int].0 as usize)
            },
            stepped_prev(*old(self), *final(self)),
    {
        proof {
            use_type_invariant(&*self);
        }
        let n = self.matches.len();
        if n == 0 {
            return None;
        }
        let idx = match self.current {
            None => n - 1,
            Some(i) => if i == 0 {
                n - 1
            } else {
                i - 1
            },
        };
        proof {
            if let Some(i) = self.current {
                if i == 0 {
                    assert((i + n - 1) % (n as int) == n - 1) by (nonlinear_arith)
                        requires
                            i == 0,
                            n > 0,
                    ;
                } else {
                    assert((i + n - 1) % (n as int) == i - 1) by (nonlinear_arith)
                        requires
                            0 < i < n,
                    ;
                }
            }
        }
        self.current = Some(idx);
        Some(self.matches[idx].0)
    }

    /// The compiled pattern: the escaped query.
    pub fn query(&self) -> (q: Option<&str>)
        ensures
            match q {
                Some(s) => self.query_of() == Some(s@),
                None => self.query_of() is None,
            },
    {
        match &self.query {
            Some(q) => Some(q.as_str()),
            None => None,
        }
    }

    pub fn match_count(&self) -> (n: usize)
        ensures
            n == self.matches_of().len(),
    {
        self.matches.len()
    }

    /// The line index and text of the current match.
    pub fn current_match(&self) -> (r: Option<(usize, &str)>)
        ensures
            match self.current_of() {
                Some(i) => r matches Some(m) && i < self.matches_of().len() && m.0 == self.matches_of()[i as int].0
                    && m.1@ == self.matches_of()[i as int].1,
                None => r is None,
            },
    {
        proof {
            use_type_invariant(self);
        }
        match self.current {
            Some(i) => Some((self.matches[i].0, self.matches[i].1.as_str())),
            None => None,
        }
    }

    /// Whether there is a query with at least one match.
    pub fn active(&self) -> (b: bool)
        ensures
            b == (self.query_of() is Some && self.matches_of().len() > 0),
    {
        self.query.is_some() && self.matches.len() > 0
    }

    /// Drop the query, the matches and the current match.
    pub fn clear(&mut self)
        ensures
            search_cleared(*final(self)),
    {
        *self = SearchState { query: None, matches: Vec::new(), current: None };
        proof {
            assert(self.matches_of() =~= Seq::<(int, Seq<char>)>::empty());
        }
    }

    /// Whether line `line_idx` is a match.
    pub fn is_match(&self, line_idx: usize) -> (b: bool)
        ensures
            b == exists|i: int| 0 <= i < self.matches_of().len() && (#[trigger] self.matches_of()[i]).0 == line_idx,
    {
        let mut i: usize = 0;
        while i < self.matches.len()
            invariant
                i <= self.matches@.len(),
                forall|j: int| 0 <= j < i ==> (#[trigger] self.matches@[j]).0 != line_idx,
            decreases self.matches@.len() - i,
        {
            if self.matches[i].0 == line_idx {
                proof {
                    assert(self.matches_of()[i as int].0 == line_idx);
                }
                return true;
            }
            i = i + 1;
        }
        proof {
            assert forall|j: int| 0 <= j < self.matches_of().len() implies (#[trigger] self.matches_of()[j]).0 != line_idx by {
                assert(self.matches_of()[j].0 == self.matches@[j].0);
            }
        }
        false
    }

    /// Whether line `line_idx` is the current match.
    pub fn is_current_match(&self, line_idx: usize) -> (b: bool)
        ensures
            b == match self.current_of() {
                Some(i) => i < self.matches_of().len() && self.matches_of()[i as int].0 == line_idx,
                None => false,
            },
    {
        proof {
            use_type_invariant(self);
        }
        match self.current {
            Some(i) => self.matches[i].0 == line_idx,
            None => false,
        }
    }
}

impl Default for SearchState {
    fn default() -> (s: Self)
        ensures
            search_cleared(s),
    {
        Self::new()
    }
}

/// Moving to the next match and then to the previous one comes back to the
/// match one started from.
pub proof fn law_next_then_prev_returns(i: nat, n: nat)
    requires
        i < n,
    ensures
        prev_index(Some(next_index(Some(i), n)), n) == i,
{
    let j = next_index(Some(i), n);
    if i + 1 < n {
        assert((i as int + 1) % (n as int) == i + 1) by (nonlinear_arith)
            requires
                i + 1 < n,
        ;
        assert((j as int + n as int - 1) % (n as int) == i) by (nonlinear_arith)
            requires
                j == i + 1,
                j < n,
        ;
    } else {
        assert((i as int + 1) % (n as int) == 0) by (nonlinear_arith)
            requires
                i + 1 == n,
        ;
        assert((n as int - 1) % (n as int) == n - 1) by (nonlinear_arith)
            requires
                n > 0,
        ;
    }
}

/// Moving to the previous match and then to the next one comes back to the
/// match one started from.
pub proof fn law_prev_then_next_returns(i: nat, n: nat)
    requires
        i < n,
    ensures
        next_index(Some(prev_index(Some(i), n)), n) == i,
{
    let j = prev_index(Some(i), n);
    if i > 0 {
        assert((i as int + n as int - 1) % (n as int) == i - 1) by (nonlinear_arith)
            requires
                0 < i < n,
        ;
        assert((j as int + 1) % (n as int) == i) by (nonlinear_arith)
            requires
                j == i - 1,
                i < n,
        ;
    } else {
        assert((i as int + n as int - 1) % (n as int) == n - 1) by (nonlinear_arith)
            requires
                i == 0,
                n > 0,
        ;
        assert((j as int + 1) % (n as int) == 0) by (nonlinear_arith)
            requires
                j == n - 1,
                n > 0,
        ;
    }
}

/// Every next or previous step stays among the matches.
pub proof fn law_steps_stay_in_range(cur: Option<nat>, n: nat)
    requires
        n > 0,
        cur matches Some(i) ==> i < n,
    ensures
        next_index(cur, n) < n,
        prev_index(cur, n) < n,
{
    if let Some(i) = cur {
        assert((i as int + 1) % (n as int) < n) by (nonlinear_arith)
            requires
                n > 0,
        ;
        assert((i as int + n as int - 1) % (n as int) < n) by (nonlinear_arith)
            requires
                n > 0,
                i < n,
        ;
    }
}

} // verus!
