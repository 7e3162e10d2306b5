//! The order of texts: lexicographic by code point.

use vstd::prelude::*;

use crate::text::char_vec;

verus! {

/// Whether `a` and `b` agree before index `k`, and `a` ends there or has the
/// lesser character there.
pub open spec fn parts_at(a: Seq<char>, b: Seq<char>, k: int) -> bool {
    &&& 0 <= k <= a.len()
    &&& k < b.len()
    &&& forall|i: int| 0 <= i < k ==> a[i] == b[i]
    &&& k == a.len() || a[k] < b[k]
}

/// Whether `a` comes before `b`.
pub open spec fn before(a: Seq<char>, b: Seq<char>) -> bool {
    exists|k: int| parts_at(a, b, k)
}

/// No text comes before itself.
pub proof fn lemma_before_irreflexive(a: Seq<char>)
    ensures
        !before(a, a),
{
}

/// What comes before something that comes before a third, comes before the
/// third.
pub proof fn lemma_before_transitive(a: Seq<char>, b: Seq<char>, c: Seq<char>)
    requires
        before(a, b),
        before(b, c),
    ensures
        before(a, c),
{
    let k = choose|k: int| parts_at(a, b, k);
    let m = choose|m: int| parts_at(b, c, m);
    let n = if k <= m {
        k
    } else {
        m
    };
    assert(parts_at(a, c, n));
}

/// The index of the first difference between two texts.
proof fn lemma_first_difference(a: Seq<char>, b: Seq<char>, from: int) -> (k: int)
    requires
        0 <= from <= a.len(),
        from <= b.len(),
        forall|i: int| 0 <= i < from ==> a[i] == b[i],
    ensures
        0 <= k <= a.len(),
        k <= b.len(),
        forall|i: int| 0 <= i < k ==> a[i] == b[i],
        k < a.len() && k < b.len() ==> a[k] != b[k],
    decreases a.len() - from,
{
    if from < a.len() && from < b.len() && a[from] == b[from] {
        lemma_first_difference(a, b, from + 1)
    } else {
        from
    }
}

/// Of two different texts one comes before the other.
pub proof fn lemma_before_total(a: Seq<char>, b: Seq<char>)
    ensures
        a == b || before(a, b) || before(b, a),
{
    let k = lemma_first_difference(a, b, 0);
    if k == a.len() && k == b.len() {
        assert(a =~= b);
    } else if k == a.len() || (k < b.len() && a[k] < b[k]) {
        assert(parts_at(a, b, k));
    } else {
        assert(parts_at(b, a, k));
    }
}

/// Whether `a` comes before `b`.
pub fn text_before(a: &str, b: &str) -> (r: bool)
    ensures
        r == before(a@, b@),
{
    let v = char_vec(a);
    let w = char_vec(b);
    let mut k: usize = 0;
    while k < v.len() && k < w.len() && v[k] == w[k]
        invariant
            v@ == a@,
            w@ == b@,
            k <= v.len(),
            k <= w.len(),
            forall|i: int| 0 <= i < k ==> a@[i] == b@[i],
        decreases v.len() - k,
    {
        k += 1;
    }
    let r = k < w.len() && (k == v.len() || v[k] < w[k]);
    proof {
        if r {
            assert(parts_at(a@, b@, k as int));
        } else if exists|m: int| parts_at(a@, b@, m) {
            let m = choose|m: int| parts_at(a@, b@, m);
            assert(parts_at(a@, b@, m));
        }
    }
    r
}

} // verus!
