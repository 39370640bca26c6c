//! A map from parameter names to text values, kept as a list of entries whose
//! names are distinct. Inserting a name that is present replaces its value.

use vstd::prelude::*;

verus! {

/// Whether no two entries share a name.
pub open spec fn keys_distinct(s: Seq<(String, String)>) -> bool {
    forall|i: int, j: int|
        0 <= i < s.len() && 0 <= j < s.len() && i != j ==> #[trigger] s[i].0@ != #[trigger] s[j].0@
}

/// The map that a list of entries stands for.
pub open spec fn map_of_entries(s: Seq<(String, String)>) -> Map<Seq<char>, Seq<char>>
    decreases s.len(),
{
    if s.len() == 0 {
        Map::empty()
    } else {
        map_of_entries(s.drop_last()).insert(s.last().0@, s.last().1@)
    }
}

/// A name is in the map exactly when some entry carries it, and then the map gives
/// that entry's value.
pub proof fn lemma_map_of_entries(s: Seq<(String, String)>, k: Seq<char>)
    requires
        keys_distinct(s),
    ensures
        map_of_entries(s).contains_key(k) <==> exists|i: int| 0 <= i < s.len() && #[trigger] s[i].0@ == k,
        forall|i: int| 0 <= i < s.len() && #[trigger] s[i].0@ == k ==> map_of_entries(s)[k] == s[i].1@,
    decreases s.len(),
{
    if s.len() > 0 {
        let p = s.drop_last();
        assert(keys_distinct(p)) by {
            assert forall|i: int, j: int|
                0 <= i < p.len() && 0 <= j < p.len() && i != j implies #[trigger] p[i].0@ != #[trigger] p[j].0@ by {
                assert(p[i] == s[i]);
                assert(p[j] == s[j]);
            }
        }
        lemma_map_of_entries(p, k);
        if exists|i: int| 0 <= i < s.len() && #[trigger] s[i].0@ == k {
            let w = choose|i: int| 0 <= i < s.len() && #[trigger] s[i].0@ == k;
            if w < p.len() {
                assert(p[w] == s[w]);
            }
        }
        if exists|i: int| 0 <= i < p.len() && #[trigger] p[i].0@ == k {
            let w = choose|i: int| 0 <= i < p.len() && #[trigger] p[i].0@ == k;
            assert(s[w] == p[w]);
        }
        assert forall|i: int| 0 <= i < s.len() && #[trigger] s[i].0@ == k implies map_of_entries(s)[k]
            == s[i].1@ by {
            if i < p.len() {
                assert(p[i] == s[i]);
                assert(s.last().0@ != k);
            }
        }
    }
}

/// A map from parameter names to text values.
#[derive(Debug, Clone, PartialEq)]
pub struct ParamMap {
    entries: Vec<(String, String)>,
}

impl View for ParamMap {
    type V = Map<Seq<char>, Seq<char>>;

    closed spec fn view(&self) -> Map<Seq<char>, Seq<char>> {
        map_of_entries(self.entries@)
    }
}

impl ParamMap {
    /// The map's entries are distinct by name.
    pub closed spec fn wf(&self) -> bool {
        keys_distinct(self.entries@)
    }

    /// The number of entries.
    pub closed spec fn count(&self) -> nat {
        self.entries@.len()
    }

    /// An empty map.
    pub fn new() -> (m: ParamMap)
        ensures
            m.wf(),
            m@ == Map::<Seq<char>, Seq<char>>::empty(),
            m.count() == 0,
    {
        ParamMap { entries: Vec::new() }
    }

    /// The position of the entry named `key`, if there is one.
    fn position(&self, key: &str) -> (r: Option<usize>)
        requires
            self.wf(),
        ensures
            match r {
                Some(i) => i < self.entries@.len() && self.entries@[i as int].0@ == key@,
                None => forall|i: int| 0 <= i < self.entries@.len() ==> #[trigger] self.entries@[i].0@ != key@,
            },
    {
        let n = self.entries.len();
        let mut i: usize = 0;
        while i < n
            invariant
                n == self.entries@.len(),
                i <= n,
                forall|j: int| 0 <= j < i ==> #[trigger] self.entries@[j].0@ != key@,
            decreases n - i,
        {
            if crate::text::str_eq(self.entries[i].0.as_str(), key) {
                return Some(i);
            }
            i = i + 1;
        }
        None
    }

    /// The value stored under `key`.
    pub fn get(&self, key: &str) -> (r: Option<&String>)
        requires
            self.wf(),
        ensures
            match r {
                Some(v) => self@.contains_key(key@) && self@[key@] == v@,
                None => !self@.contains_key(key@),
            },
    {
        proof {
            lemma_map_of_entries(self.entries@, key@);
        }
        match self.position(key) {
            Some(i) => Some(&self.entries[i].1),
            None => None,
        }
    }

    /// Whether `key` has a value.
    pub fn contains_key(&self, key: &str) -> (r: bool)
        requires
            self.wf(),
        ensures
            r == self@.contains_key(key@),
    {
        proof {
            lemma_map_of_entries(self.entries@, key@);
        }
        self.position(key).is_some()
    }

    /// The names in the map, each once, in the order they were first inserted.
    pub fn keys(&self) -> (r: Vec<String>)
        requires
            self.wf(),
        ensures
            r@.len() == self.count(),
            forall|k: int| 0 <= k < r@.len() ==> self@.contains_key(#[trigger] r@[k]@),
            forall|q: Seq<char>| self@.contains_key(q) ==> exists|k: int| 0 <= k < r@.len() && #[trigger] r@[k]@ == q,
    {
        let mut out: Vec<String> = Vec::new();
        let n = self.entries.len();
        let mut i: usize = 0;
        while i < n
            invariant
                n == self.entries@.len(),
                i <= n,
                out@.len() == i,
                forall|k: int| 0 <= k < i ==> #[trigger] out@[k]@ == self.entries@[k].0@,
            decreases n - i,
        {
            out.push(self.entries[i].0.clone());
            i = i + 1;
        }
        proof {
            assert forall|k: int| 0 <= k < out@.len() implies self@.contains_key(#[trigger] out@[k]@) by {
                lemma_map_of_entries(self.entries@, out@[k]@);
            }
            assert forall|q: Seq<char>| self@.contains_key(q) implies exists|k: int|
                0 <= k < out@.len() && #[trigger] out@[k]@ == q by {
                lemma_map_of_entries(self.entries@, q);
                let t = choose|t: int| 0 <= t < self.entries@.len() && #[trigger] self.entries@[t].0@ == q;
                assert(out@[t]@ == q);
            }
        }
        out
    }

    /// The number of names in the map.
    pub fn len(&self) -> (n: usize)
        requires
            self.wf(),
        ensures
            n == self.count(),
            n == self@.dom().len(),
    {
        proof {
            self.lemma_dom_len();
        }
        self.entries.len()
    }

    /// Whether the map has no entries.
    pub fn is_empty(&self) -> (r: bool)
        requires
            self.wf(),
        ensures
            r == (self@.dom().len() == 0),
    {
        proof {
            self.lemma_dom_len();
        }
        self.entries.len() == 0
    }

    /// The domain of the map has as many names as there are entries.
    proof fn lemma_dom_len(&self)
        requires
            self.wf(),
        ensures
            self@.dom().finite(),
            self@.dom().len() == self.entries@.len(),
    {
        lemma_dom_len_entries(self.entries@);
    }

    /// Stores `value` under `key`, replacing any earlier value.
    pub fn insert(&mut self, key: String, value: String)
        requires
            old(self).wf(),
        ensures
            final(self).wf(),
            final(self)@ == old(self)@.insert(key@, value@),
    {
        proof {
            lemma_map_of_entries(self.entries@, key@);
        }
        match self.position(key.as_str()) {
            Some(i) => {
                let ghost before = self.entries@;
                let ghost k = key@;
                let ghost v = value@;
                self.entries.set(i, (key, value));
                proof {
                    let after = self.entries@;
                    assert(keys_distinct(after)) by {
                        assert forall|a: int, b: int|
                            0 <= a < after.len() && 0 <= b < after.len() && a != b implies #[trigger] after[a].0@
                            != #[trigger] after[b].0@ by {
                            if a != i && b != i {
                                assert(after[a] == before[a]);
                                assert(after[b] == before[b]);
                            } else if a == i {
                                assert(after[b] == before[b]);
                                assert(before[i as int].0@ == k);
                            } else {
                                assert(after[a] == before[a]);
                                assert(before[i as int].0@ == k);
                            }
                        }
                    }
                    assert(map_of_entries(after) =~= map_of_entries(before).insert(k, v)) by {
                        assert forall|q: Seq<char>| #![auto]
                            map_of_entries(after).contains_key(q) == map_of_entries(before).insert(k, v).contains_key(q) by {
                            lemma_map_of_entries(after, q);
                            lemma_map_of_entries(before, q);
                            if exists|t: int| 0 <= t < after.len() && #[trigger] after[t].0@ == q {
                                let t = choose|t: int| 0 <= t < after.len() && #[trigger] after[t].0@ == q;
                                if t != i {
                                    assert(after[t] == before[t]);
                                }
                            }
                            if exists|t: int| 0 <= t < before.len() && #[trigger] before[t].0@ == q {
                                let t = choose|t: int| 0 <= t < before.len() && #[trigger] before[t].0@ == q;
                                if t != i {
                                    assert(after[t] == before[t]);
                                } else {
                                    assert(after[i as int].0@ == k);
                                }
                            }
                        }
                        assert forall|q: Seq<char>| #[trigger] map_of_entries(after).contains_key(q) implies map_of_entries(after)[q]
                            == map_of_entries(before).insert(k, v)[q] by {
                            lemma_map_of_entries(after, q);
                            lemma_map_of_entries(before, q);
                            let t = choose|t: int| 0 <= t < after.len() && #[trigger] after[t].0@ == q;
                            if t != i {
                                assert(after[t] == before[t]);
                            } else {
                                assert(after[i as int] == (key, value));
                            }
                        }
                    }
                }
            },
            None => {
                let ghost before = self.entries@;
                self.entries.push((key, value));
                proof {
                    let after = self.entries@;
                    assert(after.drop_last() == before);
                    assert(keys_distinct(after)) by {
                        assert forall|a: int, b: int|
                            0 <= a < after.len() && 0 <= b < after.len() && a != b implies #[trigger] after[a].0@
                            != #[trigger] after[b].0@ by {
                            if a < before.len() {
                                assert(after[a] == before[a]);
                            }
                            if b < before.len() {
                                assert(after[b] == before[b]);
                            }
                        }
                    }
                }
            },
        }
    }
}

/// The domain of the map of distinct entries has one name per entry.
pub proof fn lemma_dom_len_entries(s: Seq<(String, String)>)
    requires
        keys_distinct(s),
    ensures
        map_of_entries(s).dom().finite(),
        map_of_entries(s).dom().len() == s.len(),
    decreases s.len(),
{
    if s.len() > 0 {
        let p = s.drop_last();
        assert(keys_distinct(p)) by {
            assert forall|i: int, j: int|
                0 <= i < p.len() && 0 <= j < p.len() && i != j implies #[trigger] p[i].0@ != #[trigger] p[j].0@ by {
                assert(p[i] == s[i]);
                assert(p[j] == s[j]);
            }
        }
        lemma_dom_len_entries(p);
        lemma_map_of_entries(p, s.last().0@);
        if map_of_entries(p).contains_key(s.last().0@) {
            let w = choose|i: int| 0 <= i < p.len() && #[trigger] p[i].0@ == s.last().0@;
            assert(p[w] == s[w]);
            assert(s[s.len() - 1].0@ == s.last().0@);
        }
    }
}

} // verus!
