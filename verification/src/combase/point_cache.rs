//! Real-time point data and the cache that keeps the latest value of each point,
//! keyed by the point's identifier text.

use vstd::prelude::*;
use crate::text::str_eq;
use std::time::SystemTime;

verus! {

/// Real-time data point representation.
#[derive(Debug, Clone)]
pub struct PointData {
    /// Point identifier
    pub id: String,
    /// Point name
    pub name: String,
    /// Point value as text
    pub value: String,
    /// Time of the value
    pub timestamp: SystemTime,
    /// Engineering unit
    pub unit: String,
    /// Point description
    pub description: String,
}

/// What a data point holds, its texts as character sequences.
pub struct PointDataView {
    pub id: Seq<char>,
    pub name: Seq<char>,
    pub value: Seq<char>,
    pub timestamp: SystemTime,
    pub unit: Seq<char>,
    pub description: Seq<char>,
}

impl View for PointData {
    type V = PointDataView;

    open spec fn view(&self) -> PointDataView {
        PointDataView {
            id: self.id@,
            name: self.name@,
            value: self.value@,
            timestamp: self.timestamp,
            unit: self.unit@,
            description: self.description@,
        }
    }
}

impl PointData {
    /// A copy of the data point.
    pub fn duplicate(&self) -> (r: Self)
        ensures
            r@ == self@,
    {
        PointData {
            id: self.id.clone(),
            name: self.name.clone(),
            value: self.value.clone(),
            timestamp: self.timestamp,
            unit: self.unit.clone(),
            description: self.description.clone(),
        }
    }
}

/// The views of a list of data points.
pub open spec fn views_of(s: Seq<PointData>) -> Seq<PointDataView> {
    s.map_values(|d: PointData| d@)
}

/// Whether no two data points of a list share an identifier.
pub open spec fn ids_distinct(s: Seq<PointDataView>) -> bool {
    forall|i: int, j: int| 0 <= i < s.len() && 0 <= j < s.len() && i != j ==> #[trigger] s[i].id != #[trigger] s[j].id
}

/// The map from identifier to data point that a list stands for.
pub open spec fn data_map(s: Seq<PointDataView>) -> Map<Seq<char>, PointDataView>
    decreases s.len(),
{
    if s.len() == 0 {
        Map::empty()
    } else {
        data_map(s.drop_last()).insert(s.last().id, s.last())
    }
}

/// An identifier is in the map of a list with distinct identifiers exactly when
/// an entry carries it, and the map gives that entry.
pub proof fn lemma_data_map(s: Seq<PointDataView>, k: Seq<char>)
    requires
        ids_distinct(s),
    ensures
        data_map(s).contains_key(k) <==> exists|i: int| 0 <= i < s.len() && #[trigger] s[i].id == k,
        forall|i: int| 0 <= i < s.len() && #[trigger] s[i].id == k ==> data_map(s)[k] == s[i],
    decreases s.len(),
{
    if s.len() > 0 {
        let p = s.drop_last();
        assert(ids_distinct(p)) by {
            assert forall|i: int, j: int| 0 <= i < p.len() && 0 <= j < p.len() && i != j implies #[trigger] p[i].id
                != #[trigger] p[j].id by {
                assert(p[i] == s[i]);
                assert(p[j] == s[j]);
            }
        }
        lemma_data_map(p, k);
        if exists|i: int| 0 <= i < s.len() && #[trigger] s[i].id == k {
            let w = choose|i: int| 0 <= i < s.len() && #[trigger] s[i].id == k;
            if w < p.len() {
                assert(p[w] == s[w]);
            }
        }
        if exists|i: int| 0 <= i < p.len() && #[trigger] p[i].id == k {
            let w = choose|i: int| 0 <= i < p.len() && #[trigger] p[i].id == k;
            assert(s[w] == p[w]);
        }
        assert forall|i: int| 0 <= i < s.len() && #[trigger] s[i].id == k implies data_map(s)[k] == s[i] by {
            if i < p.len() {
                assert(p[i] == s[i]);
            }
        }
    }
}

/// The map of a list with distinct identifiers has one entry per element.
pub proof fn lemma_data_map_len(s: Seq<PointDataView>)
    requires
        ids_distinct(s),
    ensures
        data_map(s).dom().finite(),
        data_map(s).dom().len() == s.len(),
    decreases s.len(),
{
    if s.len() > 0 {
        let p = s.drop_last();
        assert(ids_distinct(p)) by {
            assert forall|i: int, j: int| 0 <= i < p.len() && 0 <= j < p.len() && i != j implies #[trigger] p[i].id
                != #[trigger] p[j].id by {
                assert(p[i] == s[i]);
                assert(p[j] == s[j]);
            }
        }
        lemma_data_map_len(p);
        lemma_data_map(p, s.last().id);
        if data_map(p).contains_key(s.last().id) {
            let w = choose|i: int| 0 <= i < p.len() && #[trigger] p[i].id == s.last().id;
            assert(p[w] == s[w]);
        }
    }
}

/// The latest data of each point, keyed by identifier text.
#[derive(Debug, Clone)]
pub struct PointCache {
    entries: Vec<PointData>,
}

impl View for PointCache {
    type V = Map<Seq<char>, PointDataView>;

    closed spec fn view(&self) -> Map<Seq<char>, PointDataView> {
        data_map(views_of(self.entries@))
    }
}

impl PointCache {
    /// Identifiers are distinct among the entries.
    pub closed spec fn wf(&self) -> bool {
        ids_distinct(views_of(self.entries@))
    }

    /// An empty cache.
    pub fn new() -> (c: Self)
        ensures
            c.wf(),
            c@ == Map::<Seq<char>, PointDataView>::empty(),
    {
        let c = PointCache { entries: Vec::new() };
        assert(views_of(c.entries@) =~= Seq::<PointDataView>::empty());
        c
    }

    /// The position of the entry with identifier `key`.
    fn position(&self, key: &str) -> (r: Option<usize>)
        ensures
            match r {
                Some(p) => p < self.entries@.len() && self.entries@[p as int].id@ == key@,
                None => forall|j: int| 0 <= j < self.entries@.len() ==> #[trigger] self.entries@[j].id@ != key@,
            },
    {
        let n = self.entries.len();
        let mut i: usize = 0;
        while i < n
            invariant
                n == self.entries@.len(),
                i <= n,
                forall|j: int| 0 <= j < i ==> #[trigger] self.entries@[j].id@ != key@,
            decreases n - i,
        {
            if str_eq(self.entries[i].id.as_str(), key) {
                return Some(i);
            }
            i = i + 1;
        }
        None
    }

    /// The data cached under `key`.
    pub fn find(&self, key: &str) -> (r: Option<&PointData>)
        requires
            self.wf(),
        ensures
            match r {
                Some(d) => self@.contains_key(key@) && self@[key@] == d@,
                None => !self@.contains_key(key@),
            },
    {
        let ghost s = views_of(self.entries@);
        proof {
            lemma_data_map(s, key@);
        }
        match self.position(key) {
            Some(p) => {
                assert(s[p as int].id == key@);
                Some(&self.entries[p])
            },
            None => {
                assert forall|j: int| 0 <= j < s.len() implies #[trigger] s[j].id != key@ by {
                    assert(s[j] == self.entries@[j]@);
                }
                None
            },
        }
    }

    /// Stores `d` under its identifier, replacing what was cached there.
    pub fn put(&mut self, d: PointData)
        requires
            old(self).wf(),
        ensures
            final(self).wf(),
            final(self)@ == old(self)@.insert(d.id@, d@),
    {
        let ghost before = views_of(self.entries@);
        let ghost dv = d@;
        proof {
            lemma_data_map(before, dv.id);
        }
        match self.position(d.id.as_str()) {
            Some(i) => {
                self.entries.set(i, d);
                proof {
                    let after = views_of(self.entries@);
                    assert(after =~= before.update(i as int, dv));
                    assert(ids_distinct(after)) by {
                        assert forall|a: int, b: int|
                            0 <= a < after.len() && 0 <= b < after.len() && a != b implies #[trigger] after[a].id
                            != #[trigger] after[b].id by {
                            assert(after[a].id == before[a].id);
                            assert(after[b].id == before[b].id);
                        }
                    }
                    assert(data_map(after) =~= data_map(before).insert(dv.id, dv)) by {
                        assert forall|q: Seq<char>| #![auto]
                            data_map(after).contains_key(q) == data_map(before).insert(dv.id, dv).contains_key(q) by {
                            lemma_data_map(after, q);
                            lemma_data_map(before, q);
                            if exists|t: int| 0 <= t < after.len() && #[trigger] after[t].id == q {
                                let t = choose|t: int| 0 <= t < after.len() && #[trigger] after[t].id == q;
                                assert(before[t].id == q);
                            }
                            if exists|t: int| 0 <= t < before.len() && #[trigger] before[t].id == q {
                                let t = choose|t: int| 0 <= t < before.len() && #[trigger] before[t].id == q;
                                assert(after[t].id == q);
                            }
                            if q == dv.id {
                                assert(after[i as int].id == q);
                            }
                        }
                        assert forall|q: Seq<char>| #[trigger] data_map(after).contains_key(q) implies data_map(after)[q]
                            == data_map(before).insert(dv.id, dv)[q] by {
                            lemma_data_map(after, q);
                            lemma_data_map(before, q);
                            let t = choose|t: int| 0 <= t < after.len() && #[trigger] after[t].id == q;
                            assert(after[i as int] == dv);
                            if t != i {
                                assert(after[t] == before[t]);
                                assert(q != dv.id);
                                assert(data_map(before)[q] == before[t]);
                            } else {
                                assert(q == dv.id);
                            }
                        }
                    }
                }
            },
            None => {
                self.entries.push(d);
                proof {
                    let after = views_of(self.entries@);
                    assert(after =~= before.push(dv));
                    assert(after.drop_last() == before);
                    assert forall|j: int| 0 <= j < before.len() implies #[trigger] before[j].id != dv.id by {
                        assert(before[j] == old(self).entries@[j]@);
                    }
                    assert(ids_distinct(after)) by {
                        assert forall|a: int, b: int|
                            0 <= a < after.len() && 0 <= b < after.len() && a != b implies #[trigger] after[a].id
                            != #[trigger] after[b].id by {
                            if a < before.len() {
                                assert(after[a] == before[a]);
                            }
                            if b < before.len() {
                                assert(after[b] == before[b]);
                            }
                        }
                    }
                }
            },
        }
    }

    /// Drops what is cached under `key`.
    pub fn evict(&mut self, key: &str)
        requires
            old(self).wf(),
        ensures
            final(self).wf(),
            final(self)@ == old(self)@.remove(key@),
    {
        let ghost before = views_of(self.entries@);
        proof {
            lemma_data_map(before, key@);
        }
        match self.position(key) {
            Some(p) => {
                self.entries.remove(p);
                proof {
                    let r = views_of(self.entries@);
                    assert(r =~= before.remove(p as int));
                    assert(before[p as int] == old(self).entries@[p as int]@);
                    assert(before[p as int].id == key@);
                    assert(ids_distinct(r)) by {
                        assert forall|a: int, b: int| 0 <= a < r.len() && 0 <= b < r.len() && a != b implies #[trigger] r[a].id
                            != #[trigger] r[b].id by {
                            let a2 = if a < p { a } else { a + 1 };
                            let b2 = if b < p { b } else { b + 1 };
                            assert(r[a] == before[a2]);
                            assert(r[b] == before[b2]);
                        }
                    }
                    assert forall|q: Seq<char>| #![auto]
                        data_map(r).contains_key(q) == data_map(before).remove(key@).contains_key(q) by {
                        lemma_data_map(r, q);
                        lemma_data_map(before, q);
                        if exists|t: int| 0 <= t < r.len() && #[trigger] r[t].id == q {
                            let t = choose|t: int| 0 <= t < r.len() && #[trigger] r[t].id == q;
                            let t2 = if t < p { t } else { t + 1 };
                            assert(r[t] == before[t2]);
                            assert(t2 != p);
                        }
                        if q != key@ && exists|t: int| 0 <= t < before.len() && #[trigger] before[t].id == q {
                            let t = choose|t: int| 0 <= t < before.len() && #[trigger] before[t].id == q;
                            if t < p {
                                assert(r[t] == before[t]);
                            } else {
                                assert(r[t - 1] == before[t]);
                            }
                        }
                    }
                    assert forall|q: Seq<char>| #[trigger] data_map(r).contains_key(q) implies data_map(r)[q]
                        == data_map(before).remove(key@)[q] by {
                        lemma_data_map(r, q);
                        lemma_data_map(before, q);
                        let t = choose|t: int| 0 <= t < r.len() && #[trigger] r[t].id == q;
                        let t2 = if t < p { t } else { t + 1 };
                        assert(r[t] == before[t2]);
                    }
                    assert(data_map(r) =~= data_map(before).remove(key@));
                }
            },
            None => {
                proof {
                    assert forall|j: int| 0 <= j < before.len() implies #[trigger] before[j].id != key@ by {
                        assert(before[j] == self.entries@[j]@);
                    }
                    assert(data_map(before) =~= data_map(before).remove(key@));
                }
            },
        }
    }

    /// The number of cached identifiers.
    pub fn len(&self) -> (r: usize)
        requires
            self.wf(),
        ensures
            self@.dom().finite(),
            r == self@.dom().len(),
    {
        proof {
            lemma_data_map_len(views_of(self.entries@));
        }
        self.entries.len()
    }

    /// Drops everything.
    pub fn clear(&mut self)
        ensures
            final(self).wf(),
            final(self)@ == Map::<Seq<char>, PointDataView>::empty(),
    {
        self.entries = Vec::new();
        assert(views_of(self.entries@) =~= Seq::<PointDataView>::empty());
    }

    /// Copies of all cached data, one per identifier.
    pub fn all(&self) -> (r: Vec<PointData>)
        requires
            self.wf(),
        ensures
            ids_distinct(views_of(r@)),
            data_map(views_of(r@)) == self@,
    {
        let mut out: Vec<PointData> = Vec::new();
        let n = self.entries.len();
        let mut i: usize = 0;
        while i < n
            invariant
                n == self.entries@.len(),
                i <= n,
                out@.len() == i,
                views_of(out@) == views_of(self.entries@).subrange(0, i as int),
            decreases n - i,
        {
            let ghost prev = out@;
            out.push(self.entries[i].duplicate());
            assert forall|j: int| 0 <= j < i + 1 implies #[trigger] views_of(out@)[j] == views_of(self.entries@).subrange(
                0,
                i + 1,
            )[j] by {
                if j < i {
                    assert(out@[j] == prev[j]);
                    assert(views_of(prev)[j] == views_of(self.entries@).subrange(0, i as int)[j]);
                }
            }
            assert(views_of(out@) =~= views_of(self.entries@).subrange(0, i + 1));
            i = i + 1;
        }
        assert(views_of(self.entries@).subrange(0, n as int) =~= views_of(self.entries@));
        out
    }
}

} // verus!
