//! Lists of entries keyed by text, each key once: the map they stand for, and
//! the insertion, lookup and removal that keep keys distinct.

use vstd::prelude::*;
use crate::text::str_eq;

verus! {

/// The view of a list of (key text, value) entries.
pub open spec fn keyed_views<V>(s: Seq<(String, V)>) -> Seq<(Seq<char>, V)> {
    s.map_values(|p: (String, V)| (p.0@, p.1))
}

/// The map from key to value that a list of entries gives: a later entry with the
/// same key replaces an earlier one.
pub open spec fn keyed_map<V>(s: Seq<(Seq<char>, V)>) -> Map<Seq<char>, V>
    decreases s.len(),
{
    if s.len() == 0 {
        Map::empty()
    } else {
        keyed_map(s.drop_last()).insert(s.last().0, s.last().1)
    }
}

/// Whether no two entries share a key.
pub open spec fn keys_distinct<V>(s: Seq<(Seq<char>, V)>) -> bool {
    forall|i: int, j: int| 0 <= i < s.len() && 0 <= j < s.len() && i != j ==> #[trigger] s[i].0 != #[trigger] s[j].0
}

/// A key is in the map of a list with distinct keys exactly when an entry carries
/// it, and the map gives that entry's value.
pub proof fn lemma_keyed_map<V>(s: Seq<(Seq<char>, V)>, k: Seq<char>)
    requires
        keys_distinct(s),
    ensures
        keyed_map(s).contains_key(k) <==> exists|i: int| 0 <= i < s.len() && #[trigger] s[i].0 == k,
        forall|i: int| 0 <= i < s.len() && #[trigger] s[i].0 == k ==> keyed_map(s)[k] == s[i].1,
    decreases s.len(),
{
    if s.len() > 0 {
        let p = s.drop_last();
        assert(keys_distinct(p)) by {
            assert forall|i: int, j: int| 0 <= i < p.len() && 0 <= j < p.len() && i != j implies #[trigger] p[i].0
                != #[trigger] p[j].0 by {
                assert(p[i] == s[i]);
                assert(p[j] == s[j]);
            }
        }
        lemma_keyed_map(p, k);
        if exists|i: int| 0 <= i < s.len() && #[trigger] s[i].0 == k {
            let w = choose|i: int| 0 <= i < s.len() && #[trigger] s[i].0 == k;
            if w < p.len() {
                assert(p[w] == s[w]);
            }
        }
        if exists|i: int| 0 <= i < p.len() && #[trigger] p[i].0 == k {
            let w = choose|i: int| 0 <= i < p.len() && #[trigger] p[i].0 == k;
            assert(s[w] == p[w]);
        }
        assert forall|i: int| 0 <= i < s.len() && #[trigger] s[i].0 == k implies keyed_map(s)[k] == s[i].1 by {
            if i < p.len() {
                assert(p[i] == s[i]);
            }
        }
    }
}

/// The map of a list with distinct keys has one entry per element.
pub proof fn lemma_keyed_map_len<V>(s: Seq<(Seq<char>, V)>)
    requires
        keys_distinct(s),
    ensures
        keyed_map(s).dom().finite(),
        keyed_map(s).dom().len() == s.len(),
    decreases s.len(),
{
    if s.len() > 0 {
        let p = s.drop_last();
        assert(keys_distinct(p)) by {
            assert forall|i: int, j: int| 0 <= i < p.len() && 0 <= j < p.len() && i != j implies #[trigger] p[i].0
                != #[trigger] p[j].0 by {
                assert(p[i] == s[i]);
                assert(p[j] == s[j]);
            }
        }
        lemma_keyed_map_len(p);
        lemma_keyed_map(p, s.last().0);
        if keyed_map(p).contains_key(s.last().0) {
            let w = choose|i: int| 0 <= i < p.len() && #[trigger] p[i].0 == s.last().0;
            assert(p[w] == s[w]);
        }
    }
}

/// The position of the entry with key `key`.
pub fn find_keyed<V>(entries: &Vec<(String, V)>, key: &str) -> (r: Option<usize>)
    ensures
        match r {
            Some(p) => p < entries@.len() && keyed_views(entries@)[p as int].0 == key@,
            None => forall|q: int| 0 <= q < entries@.len() ==> #[trigger] keyed_views(entries@)[q].0 != key@,
        },
{
    let m = entries.len();
    let mut p: usize = 0;
    while p < m
        invariant
            m == entries@.len(),
            p <= m,
            forall|q: int| 0 <= q < p ==> #[trigger] keyed_views(entries@)[q].0 != key@,
        decreases m - p,
    {
        assert(keyed_views(entries@)[p as int].0 == entries@[p as int].0@);
        if str_eq(entries[p].0.as_str(), key) {
            return Some(p);
        }
        p = p + 1;
    }
    None
}

/// Stores `value` under `key`, replacing the value an entry with that key had.
pub fn put_keyed<V>(entries: &mut Vec<(String, V)>, key: String, value: V)
    requires
        keys_distinct(keyed_views(old(entries)@)),
    ensures
        keys_distinct(keyed_views(final(entries)@)),
        keyed_map(keyed_views(final(entries)@)) == keyed_map(keyed_views(old(entries)@)).insert(key@, value),
{
    let ghost before = keyed_views(entries@);
    let ghost item = (key@, value);
    proof {
        lemma_keyed_map(before, key@);
    }
    match find_keyed(entries, key.as_str()) {
        Some(p) => {
            entries.set(p, (key, value));
            proof {
                let after = keyed_views(entries@);
                assert(after =~= before.update(p as int, item));
                assert(keys_distinct(after)) by {
                    assert forall|a: int, b: int| 0 <= a < after.len() && 0 <= b < after.len() && a != b implies #[trigger] after[a].0
                        != #[trigger] after[b].0 by {
                        assert(after[a].0 == before[a].0);
                        assert(after[b].0 == before[b].0);
                    }
                }
                assert(keyed_map(after) =~= keyed_map(before).insert(item.0, item.1)) by {
                    assert forall|q: Seq<char>| #![auto]
                        keyed_map(after).contains_key(q) == keyed_map(before).insert(item.0, item.1).contains_key(q) by {
                        lemma_keyed_map(after, q);
                        lemma_keyed_map(before, q);
                        if exists|t: int| 0 <= t < after.len() && #[trigger] after[t].0 == q {
                            let t = choose|t: int| 0 <= t < after.len() && #[trigger] after[t].0 == q;
                            assert(before[t].0 == q);
                        }
                        if exists|t: int| 0 <= t < before.len() && #[trigger] before[t].0 == q {
                            let t = choose|t: int| 0 <= t < before.len() && #[trigger] before[t].0 == q;
                            assert(after[t].0 == q);
                        }
                    }
                    assert forall|q: Seq<char>| #[trigger] keyed_map(after).contains_key(q) implies keyed_map(after)[q]
                        == keyed_map(before).insert(item.0, item.1)[q] by {
                        lemma_keyed_map(after, q);
                        lemma_keyed_map(before, q);
                        let t = choose|t: int| 0 <= t < after.len() && #[trigger] after[t].0 == q;
                        assert(after[p as int] == item);
                        if t != p {
                            assert(after[t] == before[t]);
                            assert(q != item.0);
                            assert(keyed_map(before)[q] == before[t].1);
                        }
                    }
                }
            }
        },
        None => {
            entries.push((key, value));
            proof {
                let after = keyed_views(entries@);
                assert(after =~= before.push(item));
                assert(after.drop_last() == before);
                assert(keys_distinct(after)) by {
                    assert forall|a: int, b: int| 0 <= a < after.len() && 0 <= b < after.len() && a != b implies #[trigger] after[a].0
                        != #[trigger] after[b].0 by {
                        if a < before.len() {
                            assert(after[a] == before[a]);
                        }
                        if b < before.len() {
                            assert(after[b] == before[b]);
                        }
                    }
                }
            }
        },
    }
}

/// Removes the entry with key `key`; whether there was one.
pub fn remove_keyed<V>(entries: &mut Vec<(String, V)>, key: &str) -> (r: bool)
    requires
        keys_distinct(keyed_views(old(entries)@)),
    ensures
        keys_distinct(keyed_views(final(entries)@)),
        r == keyed_map(keyed_views(old(entries)@)).contains_key(key@),
        keyed_map(keyed_views(final(entries)@)) == keyed_map(keyed_views(old(entries)@)).remove(key@),
{
    let ghost before = keyed_views(entries@);
    proof {
        lemma_keyed_map(before, key@);
    }
    match find_keyed(entries, key) {
        Some(p) => {
            entries.remove(p);
            proof {
                let r = keyed_views(entries@);
                assert(r =~= before.remove(p as int));
                assert(keys_distinct(r)) by {
                    assert forall|a: int, b: int| 0 <= a < r.len() && 0 <= b < r.len() && a != b implies #[trigger] r[a].0
                        != #[trigger] r[b].0 by {
                        let a2 = if a < p { a } else { a + 1 };
                        let b2 = if b < p { b } else { b + 1 };
                        assert(r[a] == before[a2]);
                        assert(r[b] == before[b2]);
                    }
                }
                assert forall|q: Seq<char>| #![auto]
                    keyed_map(r).contains_key(q) == keyed_map(before).remove(key@).contains_key(q) by {
                    lemma_keyed_map(r, q);
                    lemma_keyed_map(before, q);
                    if exists|t: int| 0 <= t < r.len() && #[trigger] r[t].0 == q {
                        let t = choose|t: int| 0 <= t < r.len() && #[trigger] r[t].0 == q;
                        let t2 = if t < p { t } else { t + 1 };
                        assert(r[t] == before[t2]);
                        assert(t2 != p);
                    }
                    if q != key@ && exists|t: int| 0 <= t < before.len() && #[trigger] before[t].0 == q {
                        let t = choose|t: int| 0 <= t < before.len() && #[trigger] before[t].0 == q;
                        if t < p {
                            assert(r[t] == before[t]);
                        } else {
                            assert(r[t - 1] == before[t]);
                        }
                    }
                }
                assert forall|q: Seq<char>| #[trigger] keyed_map(r).contains_key(q) implies keyed_map(r)[q]
                    == keyed_map(before).remove(key@)[q] by {
                    lemma_keyed_map(r, q);
                    lemma_keyed_map(before, q);
                    let t = choose|t: int| 0 <= t < r.len() && #[trigger] r[t].0 == q;
                    let t2 = if t < p { t } else { t + 1 };
                    assert(r[t] == before[t2]);
                }
                assert(keyed_map(r) =~= keyed_map(before).remove(key@));
            }
            true
        },
        None => {
            proof {
                assert(keyed_map(before) =~= keyed_map(before).remove(key@));
            }
            false
        },
    }
}

/// Replacing the value of an entry replaces the value its key maps to.
pub proof fn lemma_keyed_map_set<V>(s: Seq<(Seq<char>, V)>, p: int, v: V)
    requires
        keys_distinct(s),
        0 <= p < s.len(),
    ensures
        keys_distinct(s.update(p, (s[p].0, v))),
        keyed_map(s.update(p, (s[p].0, v))) == keyed_map(s).insert(s[p].0, v),
{
    let item = (s[p].0, v);
    let after = s.update(p, item);
    assert(keys_distinct(after)) by {
        assert forall|a: int, b: int| 0 <= a < after.len() && 0 <= b < after.len() && a != b implies #[trigger] after[a].0
            != #[trigger] after[b].0 by {
            assert(after[a].0 == s[a].0);
            assert(after[b].0 == s[b].0);
        }
    }
    assert forall|q: Seq<char>| #![auto] keyed_map(after).contains_key(q) == keyed_map(s).insert(item.0, item.1).contains_key(q) by {
        lemma_keyed_map(after, q);
        lemma_keyed_map(s, q);
        if exists|t: int| 0 <= t < after.len() && #[trigger] after[t].0 == q {
            let t = choose|t: int| 0 <= t < after.len() && #[trigger] after[t].0 == q;
            assert(s[t].0 == q);
        }
        if exists|t: int| 0 <= t < s.len() && #[trigger] s[t].0 == q {
            let t = choose|t: int| 0 <= t < s.len() && #[trigger] s[t].0 == q;
            assert(after[t].0 == q);
        }
    }
    assert forall|q: Seq<char>| #[trigger] keyed_map(after).contains_key(q) implies keyed_map(after)[q] == keyed_map(
        s,
    ).insert(item.0, item.1)[q] by {
        lemma_keyed_map(after, q);
        lemma_keyed_map(s, q);
        let t = choose|t: int| 0 <= t < after.len() && #[trigger] after[t].0 == q;
        assert(after[p] == item);
        if t != p {
            assert(after[t] == s[t]);
            assert(q != item.0);
            assert(keyed_map(s)[q] == s[t].1);
        }
    }
    assert(keyed_map(after) =~= keyed_map(s).insert(item.0, item.1));
}

/// The keys of a list of entries with distinct keys, each once.
pub fn keys_of<V>(entries: &Vec<(String, V)>) -> (r: Vec<String>)
    requires
        keys_distinct(keyed_views(entries@)),
    ensures
        forall|i: int, j: int| 0 <= i < r@.len() && 0 <= j < r@.len() && i != j ==> #[trigger] r@[i]@ != #[trigger] r@[j]@,
        forall|i: int| 0 <= i < r@.len() ==> keyed_map(keyed_views(entries@)).contains_key(#[trigger] r@[i]@),
        forall|k: Seq<char>| #[trigger] keyed_map(keyed_views(entries@)).contains_key(k) ==> exists|i: int|
            0 <= i < r@.len() && #[trigger] r@[i]@ == k,
{
    let ghost kv = keyed_views(entries@);
    let n = entries.len();
    let mut out: Vec<String> = Vec::new();
    let mut i: usize = 0;
    while i < n
        invariant
            n == entries@.len(),
            kv == keyed_views(entries@),
            keys_distinct(kv),
            i <= n,
            out@.len() == i,
            forall|j: int| 0 <= j < i ==> #[trigger] out@[j]@ == kv[j].0,
        decreases n - i,
    {
        out.push(entries[i].0.clone());
        i = i + 1;
    }
    proof {
        assert forall|a: int, b: int| 0 <= a < out@.len() && 0 <= b < out@.len() && a != b implies #[trigger] out@[a]@
            != #[trigger] out@[b]@ by {
            assert(out@[a]@ == kv[a].0);
            assert(out@[b]@ == kv[b].0);
        }
        assert forall|a: int| 0 <= a < out@.len() implies keyed_map(kv).contains_key(#[trigger] out@[a]@) by {
            assert(out@[a]@ == kv[a].0);
            lemma_keyed_map(kv, kv[a].0);
        }
        assert forall|k: Seq<char>| #[trigger] keyed_map(kv).contains_key(k) implies exists|a: int|
            0 <= a < out@.len() && #[trigger] out@[a]@ == k by {
            lemma_keyed_map(kv, k);
            let t = choose|t: int| 0 <= t < kv.len() && #[trigger] kv[t].0 == k;
            assert(out@[t]@ == kv[t].0);
        }
    }
    out
}

} // verus!
