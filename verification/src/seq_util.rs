//! Facts about sequences of identifiers used by the point tables.

use vstd::prelude::*;

verus! {

/// Whether no value occurs twice in `s`.
pub open spec fn no_dups(s: Seq<u32>) -> bool {
    forall|i: int, j: int| 0 <= i < s.len() && 0 <= j < s.len() && i != j ==> #[trigger] s[i] != #[trigger] s[j]
}

/// `s` with every occurrence of `v` taken out, the rest in order.
pub open spec fn without(s: Seq<u32>, v: u32) -> Seq<u32>
    decreases s.len(),
{
    if s.len() == 0 {
        s
    } else {
        let w = without(s.drop_last(), v);
        if s.last() == v {
            w
        } else {
            w.push(s.last())
        }
    }
}

/// Taking out a value that does not occur changes nothing.
pub proof fn lemma_without_absent(s: Seq<u32>, v: u32)
    requires
        !s.contains(v),
    ensures
        without(s, v) == s,
    decreases s.len(),
{
    if s.len() > 0 {
        assert(!s.drop_last().contains(v)) by {
            if s.drop_last().contains(v) {
                let k = choose|k: int| 0 <= k < s.drop_last().len() && s.drop_last()[k] == v;
                assert(s[k] == v);
            }
        }
        lemma_without_absent(s.drop_last(), v);
        assert(s.last() != v) by {
            assert(s[s.len() - 1] == s.last());
        }
        assert(s.drop_last().push(s.last()) == s);
    }
}

/// In a sequence without repeats, removing the position of a value is the same as
/// taking the value out.
pub proof fn lemma_remove_is_without(s: Seq<u32>, p: int)
    requires
        no_dups(s),
        0 <= p < s.len(),
    ensures
        s.remove(p) == without(s, s[p]),
    decreases s.len(),
{
    let v = s[p];
    let d = s.drop_last();
    assert(no_dups(d)) by {
        assert forall|i: int, j: int| 0 <= i < d.len() && 0 <= j < d.len() && i != j implies #[trigger] d[i] != #[trigger] d[j] by {
            assert(d[i] == s[i]);
            assert(d[j] == s[j]);
        }
    }
    if p == s.len() - 1 {
        assert(!d.contains(v)) by {
            if d.contains(v) {
                let k = choose|k: int| 0 <= k < d.len() && d[k] == v;
                assert(s[k] == v);
            }
        }
        lemma_without_absent(d, v);
        assert(s.remove(p) =~= d);
    } else {
        lemma_remove_is_without(d, p);
        assert(d[p] == v);
        assert(s.last() != v) by {
            assert(s[s.len() - 1] == s.last());
        }
        assert(s.remove(p) =~= d.remove(p).push(s.last()));
    }
}

/// Taking a value out of a sequence without repeats leaves a sequence without repeats
/// that holds every other value it held.
pub proof fn lemma_without_contents(s: Seq<u32>, v: u32)
    requires
        no_dups(s),
    ensures
        no_dups(without(s, v)),
        forall|x: u32| #[trigger] without(s, v).contains(x) <==> (s.contains(x) && x != v),
    decreases s.len(),
{
    if s.len() > 0 {
        let d = s.drop_last();
        assert(no_dups(d)) by {
            assert forall|i: int, j: int| 0 <= i < d.len() && 0 <= j < d.len() && i != j implies #[trigger] d[i] != #[trigger] d[j] by {
                assert(d[i] == s[i]);
                assert(d[j] == s[j]);
            }
        }
        lemma_without_contents(d, v);
        let w = without(d, v);
        assert forall|x: u32| #[trigger] s.contains(x) <==> (d.contains(x) || x == s.last()) by {
            if s.contains(x) {
                let k = choose|k: int| 0 <= k < s.len() && s[k] == x;
                if k < d.len() {
                    assert(d[k] == x);
                }
            }
            if d.contains(x) {
                let k = choose|k: int| 0 <= k < d.len() && d[k] == x;
                assert(s[k] == x);
            }
            if x == s.last() {
                assert(s[s.len() - 1] == x);
            }
        }
        if s.last() != v {
            assert(!d.contains(s.last())) by {
                if d.contains(s.last()) {
                    let k = choose|k: int| 0 <= k < d.len() && d[k] == s.last();
                    assert(s[k] == s[s.len() - 1]);
                }
            }
            let r = w.push(s.last());
            assert(no_dups(r)) by {
                assert forall|i: int, j: int| 0 <= i < r.len() && 0 <= j < r.len() && i != j implies #[trigger] r[i] != #[trigger] r[j] by {
                    if i < w.len() && j < w.len() {
                        assert(r[i] == w[i]);
                        assert(r[j] == w[j]);
                    } else if i < w.len() {
                        assert(r[i] == w[i]);
                        assert(w.contains(w[i]));
                    } else {
                        assert(r[j] == w[j]);
                        assert(w.contains(w[j]));
                    }
                }
            }
            assert forall|x: u32| #[trigger] r.contains(x) <==> (w.contains(x) || x == s.last()) by {
                if r.contains(x) {
                    let k = choose|k: int| 0 <= k < r.len() && r[k] == x;
                    if k < w.len() {
                        assert(w[k] == x);
                    }
                }
                if w.contains(x) {
                    let k = choose|k: int| 0 <= k < w.len() && w[k] == x;
                    assert(r[k] == x);
                }
                if x == s.last() {
                    assert(r[r.len() - 1] == x);
                }
            }
        }
    }
}

/// Appending a value that is not present keeps a sequence without repeats.
pub proof fn lemma_push_fresh(s: Seq<u32>, v: u32)
    requires
        no_dups(s),
        !s.contains(v),
    ensures
        no_dups(s.push(v)),
        forall|x: u32| #[trigger] s.push(v).contains(x) <==> (s.contains(x) || x == v),
{
    let r = s.push(v);
    assert forall|i: int, j: int| 0 <= i < r.len() && 0 <= j < r.len() && i != j implies #[trigger] r[i] != #[trigger] r[j] by {
        if i < s.len() && j < s.len() {
            assert(r[i] == s[i]);
            assert(r[j] == s[j]);
        } else if i < s.len() {
            assert(r[i] == s[i]);
            assert(s.contains(s[i]));
        } else {
            assert(r[j] == s[j]);
            assert(s.contains(s[j]));
        }
    }
    assert forall|x: u32| #[trigger] r.contains(x) <==> (s.contains(x) || x == v) by {
        if r.contains(x) {
            let k = choose|k: int| 0 <= k < r.len() && r[k] == x;
            if k < s.len() {
                assert(s[k] == x);
            }
        }
        if s.contains(x) {
            let k = choose|k: int| 0 <= k < s.len() && s[k] == x;
            assert(r[k] == x);
        }
        if x == v {
            assert(r[r.len() - 1] == x);
        }
    }
}

/// Taking out a value that was just appended to a sequence that lacked it gives the
/// sequence back.
pub proof fn lemma_without_push(s: Seq<u32>, v: u32)
    requires
        !s.contains(v),
    ensures
        without(s.push(v), v) == s,
{
    let r = s.push(v);
    assert(r.drop_last() == s);
    lemma_without_absent(s, v);
}

} // verus!
