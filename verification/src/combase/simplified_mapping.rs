//! A point mapping reduced to what every protocol needs, a point id and its
//! telemetry type, and a table of such mappings indexed by id and grouped by type.
//! Protocol-specific addressing extends a mapping through `ProtocolMapping`.

use vstd::prelude::*;
use crate::combase::telemetry::TelemetryType;
use crate::error::push_str;
use crate::text::{decimal_of, push_decimal, str_eq};

verus! {

/// Simplified point mapping: only the essential fields.
#[derive(Debug, Clone)]
pub struct SimplePointMapping {
    /// Point ID (must match the four-telemetry table)
    pub point_id: String,
    /// Telemetry type
    pub telemetry_type: TelemetryType,
}

/// The map from point ids to mappings that a list of mappings with distinct ids
/// stands for.
pub open spec fn map_of_mappings(s: Seq<SimplePointMapping>) -> Map<Seq<char>, SimplePointMapping>
    decreases s.len(),
{
    if s.len() == 0 {
        Map::empty()
    } else {
        map_of_mappings(s.drop_last()).insert(s.last().point_id@, s.last())
    }
}

/// Whether no two mappings of a list share a point id.
pub open spec fn ids_distinct(s: Seq<SimplePointMapping>) -> bool {
    forall|i: int, j: int|
        0 <= i < s.len() && 0 <= j < s.len() && i != j ==> #[trigger] s[i].point_id@ != #[trigger] s[j].point_id@
}

/// An id is in the map exactly when some mapping of the list carries it, and the
/// map then gives that mapping.
pub proof fn lemma_map_of_mappings(s: Seq<SimplePointMapping>, k: Seq<char>)
    requires
        ids_distinct(s),
    ensures
        map_of_mappings(s).contains_key(k) <==> exists|i: int| 0 <= i < s.len() && #[trigger] s[i].point_id@ == k,
        forall|i: int| 0 <= i < s.len() && #[trigger] s[i].point_id@ == k ==> map_of_mappings(s)[k] == s[i],
    decreases s.len(),
{
    if s.len() > 0 {
        let p = s.drop_last();
        assert(ids_distinct(p)) by {
            assert forall|i: int, j: int|
                0 <= i < p.len() && 0 <= j < p.len() && i != j implies #[trigger] p[i].point_id@
                != #[trigger] p[j].point_id@ by {
                assert(p[i] == s[i]);
                assert(p[j] == s[j]);
            }
        }
        lemma_map_of_mappings(p, k);
        if exists|i: int| 0 <= i < s.len() && #[trigger] s[i].point_id@ == k {
            let w = choose|i: int| 0 <= i < s.len() && #[trigger] s[i].point_id@ == k;
            if w < p.len() {
                assert(p[w] == s[w]);
            }
        }
        if exists|i: int| 0 <= i < p.len() && #[trigger] p[i].point_id@ == k {
            let w = choose|i: int| 0 <= i < p.len() && #[trigger] p[i].point_id@ == k;
            assert(s[w] == p[w]);
        }
        assert forall|i: int| 0 <= i < s.len() && #[trigger] s[i].point_id@ == k implies map_of_mappings(s)[k]
            == s[i] by {
            if i < p.len() {
                assert(p[i] == s[i]);
                assert(s.last().point_id@ != k);
            }
        }
    }
}

/// The domain of the map of a list with distinct ids has one id per mapping.
pub proof fn lemma_map_of_mappings_len(s: Seq<SimplePointMapping>)
    requires
        ids_distinct(s),
    ensures
        map_of_mappings(s).dom().finite(),
        map_of_mappings(s).dom().len() == s.len(),
    decreases s.len(),
{
    if s.len() > 0 {
        let p = s.drop_last();
        assert(ids_distinct(p)) by {
            assert forall|i: int, j: int|
                0 <= i < p.len() && 0 <= j < p.len() && i != j implies #[trigger] p[i].point_id@
                != #[trigger] p[j].point_id@ by {
                assert(p[i] == s[i]);
                assert(p[j] == s[j]);
            }
        }
        lemma_map_of_mappings_len(p);
        lemma_map_of_mappings(p, s.last().point_id@);
        if map_of_mappings(p).contains_key(s.last().point_id@) {
            let w = choose|i: int| 0 <= i < p.len() && #[trigger] p[i].point_id@ == s.last().point_id@;
            assert(p[w] == s[w]);
        }
    }
}

/// The table of mappings by id after storing `mapping` under its id.
pub open spec fn with_point(table: Map<Seq<char>, SimplePointMapping>, mapping: SimplePointMapping) -> Map<
    Seq<char>,
    SimplePointMapping,
> {
    table.insert(mapping.point_id@, mapping)
}

/// A list of ids without the id `k`.
pub open spec fn without(s: Seq<Seq<char>>, k: Seq<char>) -> Seq<Seq<char>>
    decreases s.len(),
{
    if s.len() == 0 {
        s
    } else if s.last() == k {
        without(s.drop_last(), k)
    } else {
        without(s.drop_last(), k).push(s.last())
    }
}

/// Removing an id keeps exactly the other ids, keeps them distinct, and changes
/// nothing where the id is absent.
pub proof fn lemma_without(s: Seq<Seq<char>>, k: Seq<char>)
    ensures
        forall|x: Seq<char>| #[trigger] without(s, k).contains(x) <==> (s.contains(x) && x != k),
        s.no_duplicates() ==> without(s, k).no_duplicates(),
        !s.contains(k) ==> without(s, k) == s,
    decreases s.len(),
{
    if s.len() > 0 {
        let p = s.drop_last();
        lemma_without(p, k);
        let w = without(p, k);
        assert forall|x: Seq<char>| #[trigger] s.contains(x) <==> (p.contains(x) || s.last() == x) by {
            if s.contains(x) {
                let i = choose|i: int| 0 <= i < s.len() && s[i] == x;
                if i < p.len() {
                    assert(p[i] == x);
                }
            }
            if p.contains(x) {
                let i = choose|i: int| 0 <= i < p.len() && p[i] == x;
                assert(s[i] == x);
            }
            if s.last() == x {
                assert(s[s.len() - 1] == x);
            }
        }
        if s.last() != k {
            assert forall|x: Seq<char>| #[trigger] w.push(s.last()).contains(x) <==> (w.contains(x) || s.last() == x) by {
                if w.push(s.last()).contains(x) {
                    let i = choose|i: int| 0 <= i < w.push(s.last()).len() && w.push(s.last())[i] == x;
                    if i < w.len() {
                        assert(w[i] == x);
                    }
                }
                if w.contains(x) {
                    let i = choose|i: int| 0 <= i < w.len() && w[i] == x;
                    assert(w.push(s.last())[i] == x);
                }
                if s.last() == x {
                    assert(w.push(s.last())[w.len() as int] == x);
                }
            }
            if s.no_duplicates() {
                assert(p.no_duplicates()) by {
                    assert forall|a: int, b: int| 0 <= a < p.len() && 0 <= b < p.len() && a != b implies p[a] != p[b] by {
                        assert(s[a] == p[a] && s[b] == p[b]);
                    }
                }
                assert(!p.contains(s.last())) by {
                    if p.contains(s.last()) {
                        let i = choose|i: int| 0 <= i < p.len() && p[i] == s.last();
                        assert(s[i] == s[s.len() - 1]);
                    }
                }
                assert forall|a: int, b: int| 0 <= a < w.push(s.last()).len() && 0 <= b < w.push(s.last()).len() && a != b implies w.push(
                    s.last(),
                )[a] != w.push(s.last())[b] by {
                    if a == w.len() {
                        assert(w.contains(w[b]));
                    } else if b == w.len() {
                        assert(w.contains(w[a]));
                    }
                }
            }
            if !s.contains(k) {
                assert(!p.contains(k));
                assert(w.push(s.last()) =~= s);
            }
        } else {
            if s.no_duplicates() {
                assert(p.no_duplicates()) by {
                    assert forall|a: int, b: int| 0 <= a < p.len() && 0 <= b < p.len() && a != b implies p[a] != p[b] by {
                        assert(s[a] == p[a] && s[b] == p[b]);
                    }
                }
            }
        }
    }
}

/// Removes the id `k` from a list of ids.
fn remove_id(ids: &mut Vec<String>, k: &str)
    ensures
        id_views(final(ids)@) == without(id_views(old(ids)@), k@),
{
    let ghost src = id_views(ids@);
    let mut out: Vec<String> = Vec::new();
    let n = ids.len();
    let mut i: usize = 0;
    assert(src.subrange(0, 0) =~= Seq::<Seq<char>>::empty());
    assert(id_views(out@) =~= Seq::<Seq<char>>::empty());
    while i < n
        invariant
            n == ids@.len(),
            src == id_views(ids@),
            i <= n,
            id_views(out@) == without(src.subrange(0, i as int), k@),
        decreases n - i,
    {
        let ghost cur = src.subrange(0, i + 1);
        assert(cur.drop_last() =~= src.subrange(0, i as int));
        assert(cur.last() == ids@[i as int]@);
        if !str_eq(ids[i].as_str(), k) {
            let ghost before = id_views(out@);
            out.push(ids[i].clone());
            assert(id_views(out@) =~= before.push(ids@[i as int]@));
        }
        i = i + 1;
    }
    assert(src.subrange(0, n as int) =~= src);
    *ids = out;
}

/// Protocol mapping table using the simplified structure.
#[derive(Debug, Clone)]
pub struct SimpleMappingTable {
    /// All points; no two share an id.
    points: Vec<SimplePointMapping>,
    /// Ids of measurement points, in the order they were added.
    telemetry_ids: Vec<String>,
    /// Ids of signaling points, in the order they were added.
    signaling_ids: Vec<String>,
    /// Ids of control points, in the order they were added.
    control_ids: Vec<String>,
    /// Ids of regulation points, in the order they were added.
    setpoint_ids: Vec<String>,
}

/// The views of a list of ids.
pub open spec fn id_views(v: Seq<String>) -> Seq<Seq<char>> {
    v.map_values(|s: String| s@)
}

impl SimpleMappingTable {
    /// The mappings by point id.
    pub closed spec fn points_map(&self) -> Map<Seq<char>, SimplePointMapping> {
        map_of_mappings(self.points@)
    }

    /// The ids recorded under a telemetry type, in the order they were last added.
    pub closed spec fn type_ids(&self, t: TelemetryType) -> Seq<Seq<char>> {
        match t {
            TelemetryType::Telemetry => id_views(self.telemetry_ids@),
            TelemetryType::Signaling => id_views(self.signaling_ids@),
            TelemetryType::Control => id_views(self.control_ids@),
            TelemetryType::Setpoint => id_views(self.setpoint_ids@),
        }
    }

    /// Point ids are distinct; each type lists, each once, exactly the ids whose
    /// mapping has that type.
    pub closed spec fn wf(&self) -> bool {
        &&& ids_distinct(self.points@)
        &&& forall|t: TelemetryType, k: int|
            0 <= k < self.type_ids(t).len() ==> self.points_map().contains_key(#[trigger] self.type_ids(t)[k])
                && self.points_map()[self.type_ids(t)[k]].telemetry_type == t
        &&& forall|t: TelemetryType| #[trigger] self.type_ids(t).no_duplicates()
        &&& forall|id: Seq<char>| #[trigger] self.points_map().contains_key(id) ==> self.type_ids(
            self.points_map()[id].telemetry_type,
        ).contains(id)
    }

    /// What a well-formed table keeps: finitely many mappings, each stored under its
    /// own id; each type lists, each once, exactly the ids of the mappings of that
    /// type.
    pub proof fn lemma_table_facts(&self)
        requires
            self.wf(),
        ensures
            self.points_map().dom().finite(),
            forall|id: Seq<char>| #[trigger] self.points_map().contains_key(id) ==> self.points_map()[id].point_id@
                == id,
            forall|t: TelemetryType| #[trigger] self.type_ids(t).no_duplicates(),
            forall|t: TelemetryType, id: Seq<char>| #[trigger] self.type_ids(t).contains(id) <==> (
            self.points_map().contains_key(id) && self.points_map()[id].telemetry_type == t),
    {
        lemma_map_of_mappings_len(self.points@);
        assert forall|id: Seq<char>| #[trigger] self.points_map().contains_key(id) implies self.points_map()[id].point_id@
            == id by {
            lemma_map_of_mappings(self.points@, id);
        }
        assert forall|t: TelemetryType, id: Seq<char>| #[trigger] self.type_ids(t).contains(id) <==> (
        self.points_map().contains_key(id) && self.points_map()[id].telemetry_type == t) by {
            if self.type_ids(t).contains(id) {
                let k = choose|k: int| 0 <= k < self.type_ids(t).len() && self.type_ids(t)[k] == id;
                assert(self.points_map().contains_key(self.type_ids(t)[k]));
            }
        }
    }

    /// Create a new empty mapping table.
    pub fn new() -> (r: Self)
        ensures
            r.wf(),
            r.points_map() == Map::<Seq<char>, SimplePointMapping>::empty(),
            forall|t: TelemetryType| #[trigger] r.type_ids(t) == Seq::<Seq<char>>::empty(),
    {
        let r = SimpleMappingTable {
            points: Vec::new(),
            telemetry_ids: Vec::new(),
            signaling_ids: Vec::new(),
            control_ids: Vec::new(),
            setpoint_ids: Vec::new(),
        };
        assert forall|t: TelemetryType| #[trigger] r.type_ids(t) == Seq::<Seq<char>>::empty() by {
            assert(id_views(Seq::<String>::empty()) =~= Seq::<Seq<char>>::empty());
        }
        r
    }

    /// The position of the mapping with the given id, if there is one.
    fn position(&self, point_id: &str) -> (r: Option<usize>)
        requires
            ids_distinct(self.points@),
        ensures
            match r {
                Some(i) => i < self.points@.len() && self.points@[i as int].point_id@ == point_id@,
                None => forall|i: int| 0 <= i < self.points@.len() ==> #[trigger] self.points@[i].point_id@ != point_id@,
            },
    {
        let n = self.points.len();
        let mut i: usize = 0;
        while i < n
            invariant
                n == self.points@.len(),
                i <= n,
                forall|j: int| 0 <= j < i ==> #[trigger] self.points@[j].point_id@ != point_id@,
            decreases n - i,
        {
            if str_eq(self.points[i].point_id.as_str(), point_id) {
                return Some(i);
            }
            i = i + 1;
        }
        None
    }

    /// Stores the mapping under its id, replacing an earlier mapping with that id.
    fn store(&mut self, mapping: SimplePointMapping)
        requires
            ids_distinct(old(self).points@),
        ensures
            ids_distinct(final(self).points@),
            final(self).points_map() == old(self).points_map().insert(mapping.point_id@, mapping),
            final(self).telemetry_ids == old(self).telemetry_ids,
            final(self).signaling_ids == old(self).signaling_ids,
            final(self).control_ids == old(self).control_ids,
            final(self).setpoint_ids == old(self).setpoint_ids,
    {
        let ghost before = self.points@;
        let ghost k = mapping.point_id@;
        proof {
            lemma_map_of_mappings(before, k);
        }
        match self.position(mapping.point_id.as_str()) {
            Some(i) => {
                self.points.set(i, mapping);
                proof {
                    let after = self.points@;
                    assert(ids_distinct(after)) by {
                        assert forall|a: int, b: int|
                            0 <= a < after.len() && 0 <= b < after.len() && a != b implies #[trigger] after[a].point_id@
                            != #[trigger] after[b].point_id@ by {
                            if a != i {
                                assert(after[a] == before[a]);
                            }
                            if b != i {
                                assert(after[b] == before[b]);
                            }
                        }
                    }
                    assert(map_of_mappings(after) =~= map_of_mappings(before).insert(k, mapping)) by {
                        assert forall|q: Seq<char>| #![auto]
                            map_of_mappings(after).contains_key(q) == map_of_mappings(before).insert(k, mapping).contains_key(q) by {
                            lemma_map_of_mappings(after, q);
                            lemma_map_of_mappings(before, q);
                            if exists|t: int| 0 <= t < after.len() && #[trigger] after[t].point_id@ == q {
                                let t = choose|t: int| 0 <= t < after.len() && #[trigger] after[t].point_id@ == q;
                                if t != i {
                                    assert(after[t] == before[t]);
                                }
                            }
                            if exists|t: int| 0 <= t < before.len() && #[trigger] before[t].point_id@ == q {
                                let t = choose|t: int| 0 <= t < before.len() && #[trigger] before[t].point_id@ == q;
                                if t != i {
                                    assert(after[t] == before[t]);
                                } else {
                                    assert(after[i as int].point_id@ == k);
                                }
                            }
                        }
                        assert forall|q: Seq<char>| #[trigger] map_of_mappings(after).contains_key(q) implies map_of_mappings(after)[q]
                            == map_of_mappings(before).insert(k, mapping)[q] by {
                            lemma_map_of_mappings(after, q);
                            lemma_map_of_mappings(before, q);
                            let t = choose|t: int| 0 <= t < after.len() && #[trigger] after[t].point_id@ == q;
                            if t != i {
                                assert(after[t] == before[t]);
                            }
                        }
                    }
                }
            },
            None => {
                self.points.push(mapping);
                proof {
                    let after = self.points@;
                    assert(after.drop_last() == before);
                    assert(ids_distinct(after)) by {
                        assert forall|a: int, b: int|
                            0 <= a < after.len() && 0 <= b < after.len() && a != b implies #[trigger] after[a].point_id@
                            != #[trigger] after[b].point_id@ by {
                            if a < before.len() {
                                assert(after[a] == before[a]);
                            }
                            if b < before.len() {
                                assert(after[b] == before[b]);
                            }
                        }
                    }
                }
            },
        }
    }

    /// Add a point to the mapping table: it is stored under its id, replacing an
    /// earlier point with that id; the id leaves the list of its earlier type and is
    /// listed last under its type.
    pub fn add_point(&mut self, mapping: SimplePointMapping)
        requires
            old(self).wf(),
        ensures
            final(self).wf(),
            final(self).points_map() == with_point(old(self).points_map(), mapping),
            final(self).type_ids(mapping.telemetry_type) == without(
                old(self).type_ids(mapping.telemetry_type),
                mapping.point_id@,
            ).push(mapping.point_id@),
            forall|t: TelemetryType|
                t != mapping.telemetry_type ==> #[trigger] final(self).type_ids(t) == without(
                    old(self).type_ids(t),
                    mapping.point_id@,
                ),
            !old(self).points_map().contains_key(mapping.point_id@) ==> {
                &&& final(self).type_ids(mapping.telemetry_type) == old(self).type_ids(mapping.telemetry_type).push(
                    mapping.point_id@,
                )
                &&& forall|t: TelemetryType|
                    t != mapping.telemetry_type ==> #[trigger] final(self).type_ids(t) == old(self).type_ids(t)
                &&& final(self).points_map().dom().len() == old(self).points_map().dom().len() + 1
            },
    {
        let ghost old_map = self.points_map();
        let ghost m = mapping;
        let ghost id = mapping.point_id@;
        let ghost old_tab = *self;
        proof {
            self.lemma_table_facts();
        }
        let point_id = mapping.point_id.clone();
        let telemetry_type = mapping.telemetry_type;
        self.store(mapping);
        remove_id(&mut self.telemetry_ids, point_id.as_str());
        remove_id(&mut self.signaling_ids, point_id.as_str());
        remove_id(&mut self.control_ids, point_id.as_str());
        remove_id(&mut self.setpoint_ids, point_id.as_str());
        match telemetry_type {
            TelemetryType::Telemetry => self.telemetry_ids.push(point_id),
            TelemetryType::Signaling => self.signaling_ids.push(point_id),
            TelemetryType::Control => self.control_ids.push(point_id),
            TelemetryType::Setpoint => self.setpoint_ids.push(point_id),
        }
        proof {
            assert forall|t: TelemetryType| t != m.telemetry_type implies #[trigger] self.type_ids(t) == without(
                old_tab.type_ids(t),
                id,
            ) by {}
            assert(self.type_ids(m.telemetry_type) =~= without(old_tab.type_ids(m.telemetry_type), id).push(id));
            assert forall|t: TelemetryType| #[trigger] self.type_ids(t).no_duplicates() by {
                lemma_without(old_tab.type_ids(t), id);
                if t == m.telemetry_type {
                    let w = without(old_tab.type_ids(t), id);
                    assert forall|a: int, b: int| 0 <= a < b < w.push(id).len() implies w.push(id)[a] != w.push(id)[b] by {
                        if b == w.len() {
                            assert(w.contains(w[a]));
                        }
                    }
                }
            }
            assert forall|t: TelemetryType, k: int| 0 <= k < self.type_ids(t).len() implies self.points_map().contains_key(
                #[trigger] self.type_ids(t)[k],
            ) && self.points_map()[self.type_ids(t)[k]].telemetry_type == t by {
                let x = self.type_ids(t)[k];
                lemma_without(old_tab.type_ids(t), id);
                let w = without(old_tab.type_ids(t), id);
                if x != id {
                    if t == m.telemetry_type {
                        assert(k < w.len());
                    }
                    assert(w[k] == x);
                    assert(w.contains(x));
                    assert(old_tab.type_ids(t).contains(x));
                    let j = choose|j: int| 0 <= j < old_tab.type_ids(t).len() && #[trigger] old_tab.type_ids(t)[j] == x;
                    assert(old_map.contains_key(old_tab.type_ids(t)[j]));
                } else {
                    if t != m.telemetry_type {
                        assert(w.contains(x));
                    }
                }
            }
            assert forall|x: Seq<char>| #[trigger] self.points_map().contains_key(x) implies self.type_ids(
                self.points_map()[x].telemetry_type,
            ).contains(x) by {
                if x == id {
                    assert(self.type_ids(m.telemetry_type)[without(old_tab.type_ids(m.telemetry_type), id).len() as int] == id);
                } else {
                    let t = old_map[x].telemetry_type;
                    assert(old_map.contains_key(x));
                    assert(old_tab.type_ids(t).contains(x));
                    lemma_without(old_tab.type_ids(t), id);
                    let w = without(old_tab.type_ids(t), id);
                    assert(w.contains(x));
                    let j = choose|j: int| 0 <= j < w.len() && #[trigger] w[j] == x;
                    if t == m.telemetry_type {
                        assert(self.type_ids(t)[j] == x);
                    } else {
                        assert(self.type_ids(t)[j] == x);
                    }
                }
            }
            if !old_map.contains_key(id) {
                lemma_map_of_mappings_len(old(self).points@);
                lemma_added_point_is_found(old_map, m);
                assert forall|t: TelemetryType| #[trigger] without(old_tab.type_ids(t), id) == old_tab.type_ids(t) by {
                    lemma_without(old_tab.type_ids(t), id);
                    if old_tab.type_ids(t).contains(id) {
                        let j = choose|j: int| 0 <= j < old_tab.type_ids(t).len() && #[trigger] old_tab.type_ids(t)[j] == id;
                        assert(old_map.contains_key(old_tab.type_ids(t)[j]));
                    }
                }
            }
        }
    }

    /// Get a point by ID.
    pub fn get_point(&self, point_id: &str) -> (r: Option<&SimplePointMapping>)
        requires
            self.wf(),
        ensures
            match r {
                Some(m) => self.points_map().contains_key(point_id@) && *m == self.points_map()[point_id@],
                None => !self.points_map().contains_key(point_id@),
            },
    {
        proof {
            lemma_map_of_mappings(self.points@, point_id@);
        }
        match self.position(point_id) {
            Some(i) => Some(&self.points[i]),
            None => None,
        }
    }

    /// The ids recorded under a telemetry type.
    fn ids_of(&self, telemetry_type: &TelemetryType) -> (r: &Vec<String>)
        ensures
            id_views(r@) == self.type_ids(*telemetry_type),
    {
        match telemetry_type {
            TelemetryType::Telemetry => &self.telemetry_ids,
            TelemetryType::Signaling => &self.signaling_ids,
            TelemetryType::Control => &self.control_ids,
            TelemetryType::Setpoint => &self.setpoint_ids,
        }
    }

    /// Get all points recorded under a telemetry type: for each id recorded there, in
    /// order, the mapping currently stored under that id.
    pub fn get_points_by_type(&self, telemetry_type: &TelemetryType) -> (r: Vec<&SimplePointMapping>)
        requires
            self.wf(),
        ensures
            r@.len() == self.type_ids(*telemetry_type).len(),
            forall|k: int| 0 <= k < r@.len() ==> *(#[trigger] r@[k]) == self.points_map()[self.type_ids(*telemetry_type)[k]],
            forall|k: int| 0 <= k < r@.len() ==> (#[trigger] r@[k]).telemetry_type == *telemetry_type,
            forall|a: int, b: int| 0 <= a < r@.len() && 0 <= b < r@.len() && a != b ==> (#[trigger] r@[a]).point_id@
                != (#[trigger] r@[b]).point_id@,
            forall|id: Seq<char>| #[trigger] self.points_map().contains_key(id) && self.points_map()[id].telemetry_type
                == *telemetry_type ==> exists|k: int| 0 <= k < r@.len() && (#[trigger] r@[k]).point_id@ == id,
    {
        let ids = self.ids_of(telemetry_type);
        let ghost want = self.type_ids(*telemetry_type);
        let mut out: Vec<&SimplePointMapping> = Vec::new();
        let mut i: usize = 0;
        while i < ids.len()
            invariant
                self.wf(),
                id_views(ids@) == want,
                want == self.type_ids(*telemetry_type),
                i <= ids@.len(),
                out@.len() == i,
                forall|k: int| 0 <= k < i ==> *(#[trigger] out@[k]) == self.points_map()[want[k]],
            decreases ids@.len() - i,
        {
            assert(want[i as int] == ids@[i as int]@);
            assert(self.points_map().contains_key(want[i as int]));
            match self.get_point(ids[i].as_str()) {
                Some(m) => out.push(m),
                None => {},
            }
            i = i + 1;
        }
        proof {
            self.lemma_table_facts();
            let t = *telemetry_type;
            assert forall|a: int, b: int| 0 <= a < out@.len() && 0 <= b < out@.len() && a != b implies (#[trigger] out@[a]).point_id@
                != (#[trigger] out@[b]).point_id@ by {
                assert(self.points_map().contains_key(want[a]));
                assert(self.points_map().contains_key(want[b]));
                assert(want.no_duplicates());
            }
            assert forall|id: Seq<char>| #[trigger] self.points_map().contains_key(id) && self.points_map()[id].telemetry_type
                == t implies exists|k: int| 0 <= k < out@.len() && (#[trigger] out@[k]).point_id@ == id by {
                assert(want.contains(id));
                let k = choose|k: int| 0 <= k < want.len() && want[k] == id;
                assert(out@[k].point_id@ == id);
            }
        }
        out
    }

    /// Get total point count.
    pub fn len(&self) -> (n: usize)
        requires
            self.wf(),
        ensures
            n == self.points_map().dom().len(),
    {
        proof {
            lemma_map_of_mappings_len(self.points@);
        }
        self.points.len()
    }

    /// Check if table is empty.
    pub fn is_empty(&self) -> (r: bool)
        requires
            self.wf(),
        ensures
            r == (self.points_map().dom().len() == 0),
    {
        proof {
            lemma_map_of_mappings_len(self.points@);
        }
        self.points.len() == 0
    }
}

/// Protocol-specific mapping extension; each protocol adds its own addressing.
pub trait ProtocolMapping {
    /// Get the simple point mapping.
    fn get_simple_mapping(&self) -> &SimplePointMapping;

    /// Get protocol-specific address as string.
    fn get_address_string(&self) -> String;
}

/// Modbus-specific mapping that extends the simple mapping.
#[derive(Debug, Clone)]
pub struct ModbusMapping {
    /// Base mapping with point_id and telemetry_type
    pub base: SimplePointMapping,
    /// Modbus slave id
    pub slave_id: u8,
    /// Modbus function code
    pub function_code: u8,
    /// Register address
    pub register_address: u16,
}

impl ProtocolMapping for ModbusMapping {
    fn get_simple_mapping(&self) -> (r: &SimplePointMapping)
        ensures
            *r == self.base,
    {
        &self.base
    }

    fn get_address_string(&self) -> (r: String)
        ensures
            r@ == decimal_of(self.slave_id as nat) + ":"@ + decimal_of(self.function_code as nat) + ":"@ + decimal_of(
                self.register_address as nat,
            ),
    {
        let mut s = String::new();
        push_decimal(&mut s, self.slave_id as u64);
        push_str(&mut s, ":");
        push_decimal(&mut s, self.function_code as u64);
        push_str(&mut s, ":");
        push_decimal(&mut s, self.register_address as u64);
        assert(s@ =~= decimal_of(self.slave_id as nat) + ":"@ + decimal_of(self.function_code as nat) + ":"@
            + decimal_of(self.register_address as nat));
        s
    }
}

/// Reading a point back after adding it gives what was added; adding an id that is
/// already present keeps the count, and adding a new id raises it by one.
pub proof fn lemma_added_point_is_found(table: Map<Seq<char>, SimplePointMapping>, mapping: SimplePointMapping)
    requires
        table.dom().finite(),
    ensures
        with_point(table, mapping).contains_key(mapping.point_id@),
        with_point(table, mapping)[mapping.point_id@] == mapping,
        with_point(table, mapping).dom().len() == if table.contains_key(mapping.point_id@) {
            table.dom().len()
        } else {
            table.dom().len() + 1
        },
{
    if table.contains_key(mapping.point_id@) {
        assert(with_point(table, mapping).dom() =~= table.dom());
    }
}

} // verus!
