//! A map from strings to strings that keeps its keys in insertion order.

use vstd::prelude::*;

verus! {

/// The map that a list of key/value pairs describes, later pairs winning.
pub open spec fn pairs_map(ps: Seq<(Seq<char>, Seq<char>)>) -> Map<Seq<char>, Seq<char>>
    decreases ps.len(),
{
    if ps.len() == 0 {
        Map::empty()
    } else {
        pairs_map(ps.drop_last()).insert(ps.last().0, ps.last().1)
    }
}

/// The keys of a list of pairs, in order.
pub open spec fn pair_keys(ps: Seq<(Seq<char>, Seq<char>)>) -> Seq<Seq<char>> {
    ps.map_values(|p: (Seq<char>, Seq<char>)| p.0)
}

pub open spec fn pair_views(v: Seq<(String, String)>) -> Seq<(Seq<char>, Seq<char>)> {
    v.map_values(|p: (String, String)| (p.0@, p.1@))
}

/// A string-to-string map: each key once, in the order keys were first added.
pub struct StringMap {
    entries: Vec<(String, String)>,
}

impl StringMap {
    /// The key/value pairs in insertion order.
    pub closed spec fn pairs(&self) -> Seq<(Seq<char>, Seq<char>)> {
        pair_views(self.entries@)
    }

    /// No key occurs twice.
    #[verifier::type_invariant]
    closed spec fn keys_distinct(&self) -> bool {
        pair_keys(self.pairs()).no_duplicates()
    }

    /// The map that the pairs describe.
    pub open spec fn map_view(&self) -> Map<Seq<char>, Seq<char>> {
        pairs_map(self.pairs())
    }

    pub fn new() -> (m: Self)
        ensures
            m.pairs() == Seq::<(Seq<char>, Seq<char>)>::empty(),
            m.map_view() == Map::<Seq<char>, Seq<char>>::empty(),
    {
        let m = StringMap { entries: Vec::new() };
        proof {
            assert(m.pairs() =~= Seq::<(Seq<char>, Seq<char>)>::empty());
        }
        m
    }

    pub fn len(&self) -> (n: usize)
        ensures
            n == self.pairs().len(),
    {
        self.entries.len()
    }

    pub fn is_empty(&self) -> (b: bool)
        ensures
            b == (self.pairs().len() == 0),
    {
        self.entries.len() == 0
    }

    /// The pairs in insertion order.
    pub fn entries(&self) -> (r: &[(String, String)])
        ensures
            pair_views(r@) == self.pairs(),
    {
        self.entries.as_slice()
    }

    fn into_entries(self) -> (v: Vec<(String, String)>)
        ensures
            pair_views(v@) == self.pairs(),
    {
        self.entries
    }

    /// The value stored for `key`.
    pub fn get(&self, key: &str) -> (r: Option<&str>)
        ensures
            r matches Some(v) ==> self.map_view().contains_key(key@) && self.map_view()[key@] == v@,
            r is None ==> !self.map_view().contains_key(key@),
    {
        proof {
            use_type_invariant(self);
        }
        let k = String::from_str(key);
        match find_key(&self.entries, &k) {
            Some(i) => {
                proof {
                    lemma_pairs_map_at(self.pairs(), i as int);
                }
                Some(self.entries[i].1.as_str())
            },
            None => {
                proof {
                    lemma_pairs_map_dom(self.pairs(), key@);
                }
                None
            },
        }
    }

    /// Set the value of `key`, keeping its place if it is already present and
    /// adding it at the end otherwise.
    pub fn insert(&mut self, key: String, value: String)
        ensures
            final(self).map_view() == old(self).map_view().insert(key@, value@),
            pair_keys(old(self).pairs()).contains(key@) ==> pair_keys(final(self).pairs())
                == pair_keys(old(self).pairs()),
            !pair_keys(old(self).pairs()).contains(key@) ==> pair_keys(final(self).pairs())
                == pair_keys(old(self).pairs()).push(key@),
    {
        proof {
            use_type_invariant(&*self);
        }
        let mut entries: Vec<(String, String)> = Vec::new();
        std::mem::swap(&mut entries, &mut self.entries);
        let ghost ops = pair_views(entries@);
        match find_key(&entries, &key) {
            Some(i) => {
                let ghost k = key@;
                let ghost v = value@;
                entries.set(i, (key, value));
                proof {
                    assert(pair_views(entries@) =~= ops.update(i as int, (k, v)));
                    assert(pair_keys(pair_views(entries@)) =~= pair_keys(ops));
                    assert(pair_keys(ops)[i as int] == k);
                    lemma_pairs_map_update(ops, i as int, v);
                }
            },
            None => {
                let ghost k = key@;
                let ghost v = value@;
                entries.push((key, value));
                proof {
                    assert(pair_views(entries@) =~= ops.push((k, v)));
                    assert(pair_views(entries@).drop_last() =~= ops);
                    assert(pair_keys(pair_views(entries@)) =~= pair_keys(ops).push(k));
                }
            },
        }
        self.entries = entries;
    }

    /// Insert every pair of `other`, in its order; its values win.
    pub fn extend(&mut self, other: StringMap)
        ensures
            final(self).map_view() == old(self).map_view().union_prefer_right(other.map_view()),
    {
        let ghost ops = other.pairs();
        let mut rest = other.into_entries();
        let mut done: Vec<(String, String)> = Vec::new();
        proof {
            assert(pair_views(rest@) =~= ops);
            assert(old(self).map_view().union_prefer_right(pairs_map(Seq::empty())) =~= old(self).map_view());
        }
        // Take the pairs from the back, then insert them from the front.
        while rest.len() > 0
            invariant
                pair_views(rest@) + pair_views(done@).reverse() == ops,
            decreases rest@.len(),
        {
            let p = rest.pop().unwrap();
            let ghost before = done@;
            done.push(p);
            proof {
                assert(pair_views(done@).reverse() =~= seq![pair_views(done@).last()] + pair_views(before).reverse());
            }
        }
        proof {
            assert(pair_views(rest@) =~= Seq::<(Seq<char>, Seq<char>)>::empty());
        }
        let ghost start = self.map_view();
        let ghost total = done@.len();
        while done.len() > 0
            invariant
                done@.len() <= total,
                pair_views(done@).reverse() == ops.skip(total - done@.len()),
                total == ops.len(),
                self.map_view() == start.union_prefer_right(pairs_map(ops.take(total - done@.len()))),
            decreases done@.len(),
        {
            let ghost idx = total - done@.len();
            let (k, v) = done.pop().unwrap();
            proof {
                assert(ops[idx] == (k@, v@)) by {
                    assert(pair_views(done@.push((k, v))).reverse()[0] == ops.skip(idx)[0]);
                }
                assert(ops.take(idx + 1).drop_last() =~= ops.take(idx));
                assert(pair_views(done@).reverse() =~= ops.skip(idx + 1)) by {
                    assert(ops.skip(idx + 1) =~= ops.skip(idx).drop_first());
                    assert(pair_views(done@.push((k, v))).reverse().drop_first() =~= pair_views(done@).reverse());
                }
                assert(start.union_prefer_right(pairs_map(ops.take(idx))).insert(k@, v@) =~= start.union_prefer_right(pairs_map(ops.take(idx)).insert(k@, v@)));
            }
            self.insert(k, v);
        }
        proof {
            assert(ops.take(total as int) =~= ops);
        }
    }
}

impl Clone for StringMap {
    /// A copy with the same pairs in the same order.
    fn clone(&self) -> (r: Self)
        ensures
            r.pairs() == self.pairs(),
    {
        proof {
            use_type_invariant(self);
        }
        let mut entries: Vec<(String, String)> = Vec::new();
        let mut i: usize = 0;
        while i < self.entries.len()
            invariant
                i <= self.entries@.len(),
                pair_views(entries@) == pair_views(self.entries@.take(i as int)),
            decreases self.entries@.len() - i,
        {
            let k = self.entries[i].0.clone();
            let v = self.entries[i].1.clone();
            entries.push((k, v));
            proof {
                assert(pair_views(self.entries@.take(i + 1)) =~= pair_views(self.entries@.take(i as int)).push(
                    (self.entries@[i as int].0@, self.entries@[i as int].1@),
                ));
                assert(pair_views(entries@) =~= pair_views(self.entries@.take(i as int)).push(
                    (self.entries@[i as int].0@, self.entries@[i as int].1@),
                ));
            }
            i = i + 1;
        }
        proof {
            assert(self.entries@.take(self.entries@.len() as int) =~= self.entries@);
        }
        StringMap { entries }
    }
}

/// Index of `key` among the pairs, if present.
fn find_key(entries: &Vec<(String, String)>, key: &String) -> (r: Option<usize>)
    ensures
        r matches Some(i) ==> i < entries@.len() && pair_views(entries@)[i as int].0 == key@,
        r is None ==> !pair_keys(pair_views(entries@)).contains(key@),
{
    let mut i: usize = 0;
    while i < entries.len()
        invariant
            i <= entries@.len(),
            forall|j: int| 0 <= j < i ==> entries@[j].0@ != key@,
        decreases entries@.len() - i,
    {
        if entries[i].0 == *key {
            return Some(i);
        }
        i = i + 1;
    }
    proof {
        let ks = pair_keys(pair_views(entries@));
        if ks.contains(key@) {
            let j = choose|j: int| 0 <= j < ks.len() && #[trigger] ks[j] == key@;
            assert(entries@[j].0@ == key@);
        }
    }
    None
}

/// With no duplicate keys, pair `i` gives the map's value for its key.
pub proof fn lemma_pairs_map_at(ps: Seq<(Seq<char>, Seq<char>)>, i: int)
    requires
        pair_keys(ps).no_duplicates(),
        0 <= i < ps.len(),
    ensures
        pairs_map(ps).contains_key(ps[i].0),
        pairs_map(ps)[ps[i].0] == ps[i].1,
    decreases ps.len(),
{
    if i < ps.len() - 1 {
        let init = ps.drop_last();
        assert(pair_keys(init) =~= pair_keys(ps).drop_last());
        assert(pair_keys(ps)[i] != pair_keys(ps)[ps.len() - 1]);
        lemma_pairs_map_at(init, i);
    }
}

/// The map's keys are exactly the keys of the pairs.
pub proof fn lemma_pairs_map_dom(ps: Seq<(Seq<char>, Seq<char>)>, k: Seq<char>)
    ensures
        pairs_map(ps).contains_key(k) <==> pair_keys(ps).contains(k),
    decreases ps.len(),
{
    if ps.len() > 0 {
        let init = ps.drop_last();
        lemma_pairs_map_dom(init, k);
        assert(pair_keys(init) =~= pair_keys(ps).drop_last());
        if pair_keys(init).contains(k) {
            let j = choose|j: int| 0 <= j < pair_keys(init).len() && #[trigger] pair_keys(init)[j] == k;
            assert(pair_keys(ps)[j] == k);
        }
        if pair_keys(ps).contains(k) && ps.last().0 != k {
            let j = choose|j: int| 0 <= j < pair_keys(ps).len() && #[trigger] pair_keys(ps)[j] == k;
            assert(j != ps.len() - 1);
            assert(pair_keys(init)[j] == k);
        }
        if ps.last().0 == k {
            assert(pair_keys(ps)[ps.len() - 1] == k);
        }
    }
}

/// Replacing the value of pair `i` sets the value of its key.
pub proof fn lemma_pairs_map_update(ps: Seq<(Seq<char>, Seq<char>)>, i: int, v: Seq<char>)
    requires
        pair_keys(ps).no_duplicates(),
        0 <= i < ps.len(),
    ensures
        pairs_map(ps.update(i, (ps[i].0, v))) == pairs_map(ps).insert(ps[i].0, v),
    decreases ps.len(),
{
    let qs = ps.update(i, (ps[i].0, v));
    if i == ps.len() - 1 {
        assert(qs.drop_last() =~= ps.drop_last());
        assert(pairs_map(qs) =~= pairs_map(ps).insert(ps[i].0, v));
    } else {
        let init = ps.drop_last();
        assert(pair_keys(init) =~= pair_keys(ps).drop_last());
        assert(qs.drop_last() =~= init.update(i, (ps[i].0, v)));
        lemma_pairs_map_update(init, i, v);
        assert(pair_keys(ps)[i] != pair_keys(ps)[ps.len() - 1]);
        assert(pairs_map(qs) =~= pairs_map(ps).insert(ps[i].0, v));
    }
}

} // verus!
