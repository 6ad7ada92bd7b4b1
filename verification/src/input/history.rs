//! Command history with case-insensitive search.

use vstd::prelude::*;

use crate::text::{is_blank, lowercase, seq_contains, str_contains, str_is_blank, str_views, to_lowercase};

verus! {

/// Whether `entry` contains `query`, ignoring case.
pub open spec fn matches_query(entry: Seq<char>, query: Seq<char>) -> bool {
    seq_contains(lowercase(entry), lowercase(query))
}

/// The entries that contain `query` ignoring case, in history order.
pub open spec fn search_results(entries: Seq<Seq<char>>, query: Seq<char>) -> Seq<Seq<char>> {
    entries.filter(|e: Seq<char>| matches_query(e, query))
}

/// The history after adding `command` to `entries` with capacity `max_size`:
/// blank commands are ignored, and the oldest entry is dropped when the
/// history grows past `max_size`.
pub open spec fn history_after_add(entries: Seq<Seq<char>>, max_size: nat, command: Seq<char>) -> Seq<
    Seq<char>,
> {
    if is_blank(command) {
        entries
    } else if entries.len() + 1 > max_size {
        entries.push(command).drop_first()
    } else {
        entries.push(command)
    }
}

/// Command history, oldest first.
pub struct HistoryManager {
    entries: Vec<String>,
    max_size: usize,
    persist_path: Option<String>,
}

impl HistoryManager {
    /// The commands, oldest first.
    pub closed spec fn entries_of(&self) -> Seq<Seq<char>> {
        str_views(self.entries@)
    }

    pub closed spec fn max_size_of(&self) -> nat {
        self.max_size as nat
    }

    pub closed spec fn persist_path_of(&self) -> Option<Seq<char>> {
        match self.persist_path {
            Some(p) => Some(p@),
            None => None,
        }
    }

    /// An empty history that keeps at most `max_size` commands and is saved
    /// to `persist_path`, if any.
    pub fn new(max_size: usize, persist_path: Option<String>) -> (h: Self)
        ensures
            h.entries_of() == Seq::<Seq<char>>::empty(),
            h.max_size_of() == max_size,
            h.persist_path_of() == match persist_path {
                Some(p) => Some(p@),
                None => None::<Seq<char>>,
            },
    {
        let h = HistoryManager { entries: Vec::new(), max_size, persist_path };
        proof {
            assert(h.entries_of() =~= Seq::<Seq<char>>::empty());
        }
        h
    }

    /// Where the history is saved, if anywhere.
    pub fn persist_path(&self) -> (p: Option<&str>)
        ensures
            match p {
                Some(s) => self.persist_path_of() == Some(s@),
                None => self.persist_path_of() is None,
            },
    {
        match &self.persist_path {
            Some(p) => Some(p.as_str()),
            None => None,
        }
    }

    /// Replace the entries with loaded ones, as they are (the capacity is
    /// applied by later additions only).
    pub fn restore(&mut self, commands: Vec<String>)
        ensures
            final(self).entries_of() == str_views(commands@),
            final(self).max_size_of() == old(self).max_size_of(),
            final(self).persist_path_of() == old(self).persist_path_of(),
    {
        self.entries = commands;
    }

    /// Append `command` unless it is blank; drop the oldest entry when the
    /// history grows past its capacity.
    pub fn add(&mut self, command: &str)
        ensures
            final(self).entries_of() == history_after_add(
                old(self).entries_of(),
                old(self).max_size_of(),
                command@,
            ),
            final(self).max_size_of() == old(self).max_size_of(),
            final(self).persist_path_of() == old(self).persist_path_of(),
    {
        if str_is_blank(command) {
            return;
        }
        self.entries.push(String::from_str(command));
        proof {
            assert(str_views(self.entries@) =~= old(self).entries_of().push(command@));
        }
        if self.entries.len() > self.max_size {
            self.entries.remove(0);
            proof {
                assert(str_views(self.entries@) =~= old(self).entries_of().push(command@).drop_first());
            }
        }
    }

    /// The entries that contain `query`, ignoring case, oldest first.
    pub fn search(&self, query: &str) -> (r: Vec<&str>)
        ensures
            r@.map_values(|s: &str| s@) == search_results(self.entries_of(), query@),
    {
        let q = to_lowercase(query);
        let mut out: Vec<&str> = Vec::new();
        let mut i: usize = 0;
        while i < self.entries.len()
            invariant
                i <= self.entries@.len(),
                q@ == lowercase(query@),
                out@.map_values(|s: &str| s@) == search_results(
                    self.entries_of().take(i as int),
                    query@,
                ),
            decreases self.entries@.len() - i,
        {
            let e = self.entries[i].as_str();
            let lowered = to_lowercase(e);
            let hit = str_contains(lowered.as_str(), q.as_str());
            proof {
                let es = self.entries_of();
                assert(es.take(i + 1).drop_last() =~= es.take(i as int));
                assert(es.take(i + 1).last() == e@);
                reveal(Seq::filter);
            }
            if hit {
                let ghost before = out@;
                out.push(e);
                proof {
                    assert(out@.map_values(|s: &str| s@) =~= before.map_values(|s: &str| s@).push(e@));
                }
            }
            i = i + 1;
        }
        proof {
            assert(self.entries_of().take(self.entries@.len() as int) =~= self.entries_of());
        }
        out
    }

    pub fn entries(&self) -> (r: &[String])
        ensures
            str_views(r@) == self.entries_of(),
    {
        self.entries.as_slice()
    }

    /// The most recent command.
    pub fn last(&self) -> (r: Option<&str>)
        ensures
            self.entries_of().len() == 0 ==> r is None,
            self.entries_of().len() > 0 ==> (r matches Some(s) && s@ == self.entries_of().last()),
    {
        if self.entries.len() == 0 {
            None
        } else {
            Some(self.entries[self.entries.len() - 1].as_str())
        }
    }

    pub fn clear(&mut self)
        ensures
            final(self).entries_of() == Seq::<Seq<char>>::empty(),
            final(self).max_size_of() == old(self).max_size_of(),
            final(self).persist_path_of() == old(self).persist_path_of(),
    {
        self.entries = Vec::new();
        proof {
            assert(str_views(self.entries@) =~= Seq::<Seq<char>>::empty());
        }
    }
}

/// Adding a command never makes a history that was within its capacity
/// exceed it.
pub proof fn law_add_keeps_capacity(entries: Seq<Seq<char>>, max_size: nat, command: Seq<char>)
    requires
        entries.len() <= max_size,
    ensures
        history_after_add(entries, max_size, command).len() <= max_size,
{
}

/// A non-blank command added to a history with room for at least one entry
/// becomes its most recent entry.
pub proof fn law_add_then_last(entries: Seq<Seq<char>>, max_size: nat, command: Seq<char>)
    requires
        !is_blank(command),
        max_size > 0,
    ensures
        history_after_add(entries, max_size, command).len() > 0,
        history_after_add(entries, max_size, command).last() == command,
{
}

/// Search returns exactly the entries that contain the query ignoring case,
/// each as often as it occurs, in history order: every result matches, and
/// every matching entry is among the results.
pub proof fn law_search_sound_and_complete(entries: Seq<Seq<char>>, query: Seq<char>)
    ensures
        forall|i: int|
            0 <= i < search_results(entries, query).len() ==> matches_query(
                #[trigger] search_results(entries, query)[i],
                query,
            ),
        forall|i: int|
            0 <= i < entries.len() && matches_query(entries[i], query) ==> search_results(
                entries,
                query,
            ).contains(#[trigger] entries[i]),
{
    let pred = |e: Seq<char>| matches_query(e, query);
    assert forall|i: int| 0 <= i < search_results(entries, query).len() implies matches_query(
        #[trigger] search_results(entries, query)[i],
        query,
    ) by {
        entries.lemma_filter_pred(pred, i);
    }
    assert forall|i: int| 0 <= i < entries.len() && matches_query(entries[i], query) implies search_results(
        entries,
        query,
    ).contains(#[trigger] entries[i]) by {
        entries.lemma_filter_contains(pred, i);
    }
}

/// Search finds an entry exactly when the lowercased query occurs at some
/// position of the lowercased entry, as a run of consecutive characters
/// (anywhere, not only at the start).
pub proof fn law_search_finds_entries_containing_query(
    entries: Seq<Seq<char>>,
    query: Seq<char>,
    e: Seq<char>,
)
    ensures
        search_results(entries, query).contains(e) <==> (entries.contains(e) && exists|i: int|
            0 <= i && i + lowercase(query).len() <= lowercase(e).len() && #[trigger] lowercase(
                e,
            ).subrange(i, i + lowercase(query).len()) == lowercase(query)),
{
    let pred = |x: Seq<char>| matches_query(x, query);
    crate::text::lemma_filter_contains_iff(entries, pred, e);
    let le = lowercase(e);
    let lq = lowercase(query);
    if seq_contains(le, lq) {
        let i = choose|i: int| crate::text::occurs_at(le, lq, i);
        assert(0 <= i && i + lq.len() <= le.len() && le.subrange(i, i + lq.len()) == lq);
    }
    if exists|i: int| 0 <= i && i + lq.len() <= le.len() && #[trigger] le.subrange(i, i + lq.len()) == lq {
        let i = choose|i: int| 0 <= i && i + lq.len() <= le.len() && #[trigger] le.subrange(i, i + lq.len()) == lq;
        assert(crate::text::occurs_at(le, lq, i));
    }
}

} // verus!
