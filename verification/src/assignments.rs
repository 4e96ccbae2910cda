//! Which tags each patch carries: a map from a patch's path, relative to
//! the library folder, to the names of its tags in the order they were
//! given. Held as a list of entries whose keys are distinct.
use vstd::prelude::*;
use crate::text::{str_eq, text_less, text_lt, lemma_text_less_order};

verus! {

/// The texts of a list of strings.
pub open spec fn names_view(v: Seq<String>) -> Seq<Seq<char>> {
    v.map_values(|s: String| s@)
}

/// The map that a list of entries stands for; a later entry for a key
/// replaces an earlier one.
pub open spec fn entry_map(s: Seq<(String, Vec<String>)>) -> Map<Seq<char>, Seq<Seq<char>>>
    decreases s.len(),
{
    if s.len() == 0 {
        Map::empty()
    } else {
        entry_map(s.drop_last()).insert(s.last().0@, names_view(s.last().1@))
    }
}

/// No two entries have the same key.
pub open spec fn keys_distinct(s: Seq<(String, Vec<String>)>) -> bool {
    forall|i: int, j: int| 0 <= i < j < s.len() ==> s[i].0@ != s[j].0@
}

/// A path has an entry in the map exactly when some entry of the list
/// has it as key.
pub proof fn lemma_entry_map_domain(s: Seq<(String, Vec<String>)>, k: Seq<char>)
    ensures
        entry_map(s).contains_key(k) <==> exists|i: int| 0 <= i < s.len() && s[i].0@ == k,
    decreases s.len(),
{
    if s.len() > 0 {
        lemma_entry_map_domain(s.drop_last(), k);
        if entry_map(s.drop_last()).contains_key(k) {
            let i = choose|i: int| 0 <= i < s.drop_last().len() && s.drop_last()[i].0@ == k;
            assert(s[i].0@ == k);
        }
        if exists|i: int| 0 <= i < s.len() && s[i].0@ == k {
            let i = choose|i: int| 0 <= i < s.len() && s[i].0@ == k;
            if i < s.len() - 1 {
                assert(s.drop_last()[i].0@ == k);
            }
        }
    }
}

/// With distinct keys, the map gives each entry's key that entry's names.
pub proof fn lemma_entry_map_at(s: Seq<(String, Vec<String>)>, i: int)
    requires
        keys_distinct(s),
        0 <= i < s.len(),
    ensures
        entry_map(s).contains_key(s[i].0@),
        entry_map(s)[s[i].0@] == names_view(s[i].1@),
    decreases s.len(),
{
    if i < s.len() - 1 {
        lemma_entry_map_at(s.drop_last(), i);
    }
}

/// With distinct keys, dropping an entry from the list drops its key from
/// the map.
pub proof fn lemma_entry_map_remove(s: Seq<(String, Vec<String>)>, i: int)
    requires
        keys_distinct(s),
        0 <= i < s.len(),
    ensures
        entry_map(s.remove(i)) == entry_map(s).remove(s[i].0@),
    decreases s.len(),
{
    let k = s[i].0@;
    if i == s.len() - 1 {
        assert(s.remove(i) =~= s.drop_last());
        lemma_entry_map_domain(s.drop_last(), k);
        assert(!entry_map(s.drop_last()).contains_key(k));
        assert(entry_map(s.remove(i)) =~= entry_map(s).remove(k));
    } else {
        let d = s.drop_last();
        lemma_entry_map_remove(d, i);
        assert(s.remove(i) =~= d.remove(i).push(s.last()));
        assert(s.remove(i).drop_last() =~= d.remove(i));
        assert(s.last().0@ != k);
        assert(entry_map(s.remove(i)) =~= entry_map(s).remove(k));
    }
}

/// The keys of the entries come in strictly increasing order.
pub open spec fn keys_ordered(s: Seq<(String, Vec<String>)>) -> bool {
    forall|i: int, j: int| 0 <= i < j < s.len() ==> text_less(#[trigger] s[i].0@, #[trigger] s[j].0@)
}

/// Putting an entry whose key no other entry has anywhere in the list adds
/// that key to the map.
pub proof fn lemma_entry_map_insert(s: Seq<(String, Vec<String>)>, p: int, e: (String, Vec<String>))
    requires
        0 <= p <= s.len(),
        forall|i: int| 0 <= i < s.len() ==> #[trigger] s[i].0@ != e.0@,
    ensures
        entry_map(s.insert(p, e)) == entry_map(s).insert(e.0@, names_view(e.1@)),
    decreases s.len(),
{
    if p == s.len() {
        assert(s.insert(p, e) =~= s.push(e));
        assert(s.push(e).drop_last() =~= s);
    } else {
        let d = s.drop_last();
        lemma_entry_map_insert(d, p, e);
        assert(s.insert(p, e).drop_last() =~= d.insert(p, e));
        assert(s.insert(p, e).last() == s.last());
        assert(s.last().0@ != e.0@);
        assert(entry_map(s.insert(p, e)) =~= entry_map(s).insert(e.0@, names_view(e.1@)));
    }
}

/// Tag names by patch path, with at most one entry per path.
pub struct Assignments {
    pub entries: Vec<(String, Vec<String>)>,
}

impl Assignments {
    /// The map from patch path to tag names.
    pub open spec fn view(&self) -> Map<Seq<char>, Seq<Seq<char>>> {
        entry_map(self.entries@)
    }

    /// At most one entry per path, the entries in increasing order of path.
    pub open spec fn wf(&self) -> bool {
        &&& keys_distinct(self.entries@)
        &&& keys_ordered(self.entries@)
    }

    /// Every path that has an entry carries at least one tag name.
    pub open spec fn no_empty_lists(&self) -> bool {
        forall|k: Seq<char>| #[trigger] self@.contains_key(k) ==> self@[k].len() > 0
    }

    /// No assignments at all.
    pub fn new() -> (a: Assignments)
        ensures
            a.wf(),
            a@ == Map::<Seq<char>, Seq<Seq<char>>>::empty(),
    {
        Assignments { entries: Vec::new() }
    }

    /// Position of the entry for `rel`, if there is one.
    fn find(&self, rel: &str) -> (r: Option<usize>)
        ensures
            match r {
                Some(i) => i < self.entries@.len() && self.entries@[i as int].0@ == rel@,
                None => forall|i: int|
                    0 <= i < self.entries@.len() ==> #[trigger] self.entries@[i].0@ != rel@,
            },
    {
        let n = self.entries.len();
        let mut i: usize = 0;
        while i < n
            invariant
                n == self.entries@.len(),
                i <= n,
                forall|j: int| 0 <= j < i ==> #[trigger] self.entries@[j].0@ != rel@,
            decreases n - i,
        {
            if str_eq(self.entries[i].0.as_str(), rel) {
                return Some(i);
            }
            i = i + 1;
        }
        None
    }

    /// The tag names of `rel`, if it has an entry.
    pub fn get(&self, rel: &str) -> (r: Option<&Vec<String>>)
        requires
            self.wf(),
        ensures
            match r {
                Some(v) => self@.contains_key(rel@) && self@[rel@] == names_view(v@),
                None => !self@.contains_key(rel@),
            },
    {
        proof {
            lemma_entry_map_domain(self.entries@, rel@);
        }
        match self.find(rel) {
            Some(i) => {
                proof {
                    lemma_entry_map_at(self.entries@, i as int);
                }
                Some(&self.entries[i].1)
            },
            None => None,
        }
    }

    /// Removes the entry of `rel` and hands back its names, if it had one.
    pub fn take(&mut self, rel: &str) -> (r: Option<Vec<String>>)
        requires
            old(self).wf(),
        ensures
            final(self).wf(),
            final(self)@ == old(self)@.remove(rel@),
            match r {
                Some(v) => old(self)@.contains_key(rel@) && old(self)@[rel@] == names_view(v@),
                None => !old(self)@.contains_key(rel@),
            },
    {
        proof {
            lemma_entry_map_domain(self.entries@, rel@);
        }
        match self.find(rel) {
            Some(i) => {
                proof {
                    lemma_entry_map_at(self.entries@, i as int);
                    lemma_entry_map_remove(self.entries@, i as int);
                }
                let ghost before = self.entries@;
                let (_, names) = self.entries.remove(i);
                assert(self.entries@ =~= before.remove(i as int));
                assert forall|a: int, b: int| 0 <= a < b < self.entries@.len() implies text_less(
                    #[trigger] self.entries@[a].0@,
                    #[trigger] self.entries@[b].0@,
                ) by {
                    let a2 = if a < i { a } else { a + 1 };
                    let b2 = if b < i { b } else { b + 1 };
                    assert(self.entries@[a] == before[a2] && self.entries@[b] == before[b2]);
                }
                Some(names)
            },
            None => {
                assert(self@ =~= old(self)@.remove(rel@));
                None
            },
        }
    }

    /// Sets the names of `rel`, replacing any it had; the entry goes where
    /// its path belongs in the order.
    pub fn insert(&mut self, rel: String, names: Vec<String>)
        requires
            old(self).wf(),
        ensures
            final(self).wf(),
            final(self)@ == old(self)@.insert(rel@, names_view(names@)),
    {
        let _ = self.take(rel.as_str());
        let ghost mid = self.entries@;
        proof {
            lemma_entry_map_domain(mid, rel@);
        }
        assert(forall|i: int| 0 <= i < mid.len() ==> #[trigger] mid[i].0@ != rel@);
        let n = self.entries.len();
        let mut p: usize = 0;
        while p < n && !text_lt(rel.as_str(), self.entries[p].0.as_str())
            invariant
                n == self.entries@.len(),
                self.entries@ == mid,
                p <= n,
                forall|i: int| 0 <= i < p ==> !text_less(rel@, #[trigger] mid[i].0@),
            decreases n - p,
        {
            p = p + 1;
        }
        proof {
            assert forall|i: int| 0 <= i < p implies text_less(#[trigger] mid[i].0@, rel@) by {
                lemma_text_less_order(mid[i].0@, rel@, rel@);
            }
            if p < n {
                assert forall|i: int| p <= i < n implies text_less(rel@, #[trigger] mid[i].0@) by {
                    if i > p {
                        lemma_text_less_order(rel@, mid[p as int].0@, mid[i].0@);
                    }
                }
            }
        }
        let ghost e = (rel, names);
        self.entries.insert(p, (rel, names));
        proof {
            let s = self.entries@;
            assert(s =~= mid.insert(p as int, e));
            lemma_entry_map_insert(mid, p as int, e);
            assert forall|a: int, b: int| 0 <= a < b < s.len() implies text_less(
                #[trigger] s[a].0@,
                #[trigger] s[b].0@,
            ) by {
                if a < p && b < p {
                } else if a < p && b == p {
                } else if a < p {
                    assert(s[b] == mid[b - 1]);
                    assert(text_less(mid[a].0@, mid[b - 1].0@));
                } else if a == p {
                    assert(s[b] == mid[b - 1]);
                } else {
                    assert(s[a] == mid[a - 1] && s[b] == mid[b - 1]);
                }
            }
            assert forall|a: int, b: int| 0 <= a < b < s.len() implies s[a].0@ != s[b].0@ by {
                lemma_text_less_order(s[a].0@, s[b].0@, s[b].0@);
            }
        }
        assert(self@ =~= old(self)@.insert(rel@, names_view(names@)));
    }
}

} // verus!
