//! Refcounted key/count maps, held as sequences of (key, count) pairs: the
//! shape of both the egress pool and the ingress listener registry, with the
//! lemmas that relate taking and releasing references to the counts.

use vstd::prelude::*;

verus! {

/// No key appears twice.
pub open spec fn rc_distinct<K>(s: Seq<(K, nat)>) -> bool {
    forall|i: int, j: int| 0 <= i < j < s.len() ==> s[i].0 != s[j].0
}

/// Every entry is referenced at least once.
pub open spec fn rc_positive<K>(s: Seq<(K, nat)>) -> bool {
    forall|i: int| 0 <= i < s.len() ==> #[trigger] s[i].1 >= 1
}

/// Whether the map holds an entry for `k`.
pub open spec fn rc_contains<K>(s: Seq<(K, nat)>, k: K) -> bool {
    exists|i: int| 0 <= i < s.len() && s[i].0 == k
}

/// The index of `k`'s entry.
pub open spec fn rc_index_of<K>(s: Seq<(K, nat)>, k: K) -> int {
    choose|i: int| 0 <= i < s.len() && s[i].0 == k
}

/// The count held for `k`, or zero without an entry.
pub open spec fn rc_refcount<K>(s: Seq<(K, nat)>, k: K) -> nat {
    if rc_contains(s, k) {
        s[rc_index_of(s, k)].1
    } else {
        0
    }
}

/// The map after one more reference to `k`'s existing entry.
pub open spec fn rc_bump<K>(s: Seq<(K, nat)>, k: K) -> Seq<(K, nat)> {
    s.update(rc_index_of(s, k), (k, (rc_refcount(s, k) + 1) as nat))
}

/// The map after one reference to `k` is given up: the count drops by one and
/// the entry leaves when it reaches zero.
pub open spec fn rc_drop_ref<K>(s: Seq<(K, nat)>, k: K) -> Seq<(K, nat)> {
    if rc_refcount(s, k) <= 1 {
        s.remove(rc_index_of(s, k))
    } else {
        s.update(rc_index_of(s, k), (k, (rc_refcount(s, k) - 1) as nat))
    }
}

/// Under distinctness, any index holding `k` is the index of `k`'s entry, and
/// the refcount is that entry's count.
pub proof fn lemma_rc_at_index<K>(s: Seq<(K, nat)>, k: K, i: int)
    requires
        rc_distinct(s),
        0 <= i < s.len(),
        s[i].0 == k,
    ensures
        rc_contains(s, k),
        rc_index_of(s, k) == i,
        rc_refcount(s, k) == s[i].1,
{
    assert(rc_contains(s, k));
    let j = rc_index_of(s, k);
    assert(0 <= j < s.len() && s[j].0 == k);
    if i != j {
        if i < j {
            assert(s[i].0 != s[j].0);
        } else {
            assert(s[j].0 != s[i].0);
        }
    }
}

/// Taking a further reference to an existing entry raises that entry's count
/// by one and nothing else: every other key keeps its count, no key appears or
/// disappears, and the map stays well-formed.
pub proof fn lemma_rc_bump<K>(s: Seq<(K, nat)>, k: K)
    requires
        rc_distinct(s),
        rc_positive(s),
        rc_contains(s, k),
    ensures
        rc_distinct(rc_bump(s, k)),
        rc_positive(rc_bump(s, k)),
        rc_bump(s, k).len() == s.len(),
        rc_refcount(rc_bump(s, k), k) == rc_refcount(s, k) + 1,
        forall|u: K| u != k ==> rc_refcount(rc_bump(s, k), u) == rc_refcount(s, u),
        forall|u: K| rc_contains(rc_bump(s, k), u) <==> rc_contains(s, u),
{
    let i = rc_index_of(s, k);
    assert(0 <= i < s.len() && s[i].0 == k);
    let b = rc_bump(s, k);
    assert(forall|j: int| 0 <= j < s.len() ==> b[j].0 == s[j].0);
    assert forall|u: K| rc_contains(b, u) <==> rc_contains(s, u) by {
        if rc_contains(b, u) {
            let w = choose|w: int| 0 <= w < b.len() && b[w].0 == u;
            assert(s[w].0 == u);
        }
        if rc_contains(s, u) {
            let w = choose|w: int| 0 <= w < s.len() && s[w].0 == u;
            assert(b[w].0 == u);
        }
    }
    lemma_rc_at_index(b, k, i);
    assert forall|u: K| u != k implies rc_refcount(b, u) == rc_refcount(s, u) by {
        if rc_contains(s, u) {
            let w = rc_index_of(s, u);
            assert(0 <= w < s.len() && s[w].0 == u);
            assert(w != i);
            assert(b[w] == s[w]);
            lemma_rc_at_index(b, u, w);
        }
    }
}

/// A first reference to an absent key appends an entry with count one and
/// changes no other key's count.
pub proof fn lemma_rc_push<K>(s: Seq<(K, nat)>, k: K)
    requires
        rc_distinct(s),
        rc_positive(s),
        !rc_contains(s, k),
    ensures
        rc_distinct(s.push((k, 1nat))),
        rc_positive(s.push((k, 1nat))),
        rc_refcount(s.push((k, 1nat)), k) == 1,
        rc_refcount(s, k) == 0,
        forall|u: K| u != k ==> rc_refcount(s.push((k, 1nat)), u) == rc_refcount(s, u),
        forall|u: K| u != k ==> (rc_contains(s.push((k, 1nat)), u) <==> rc_contains(s, u)),
        rc_contains(s.push((k, 1nat)), k),
{
    let p = s.push((k, 1nat));
    assert(forall|j: int| 0 <= j < s.len() ==> p[j] == s[j]);
    assert(p[s.len() as int] == (k, 1nat));
    assert forall|i: int, j: int| 0 <= i < j < p.len() implies p[i].0 != p[j].0 by {
        if j == s.len() as int {
            assert(p[i].0 == s[i].0);
            if s[i].0 == k {
                assert(rc_contains(s, k));
            }
        }
    }
    lemma_rc_at_index(p, k, s.len() as int);
    assert forall|u: K| u != k implies rc_refcount(p, u) == rc_refcount(s, u) && (rc_contains(
        p,
        u,
    ) <==> rc_contains(s, u)) by {
        if rc_contains(p, u) {
            let w = choose|w: int| 0 <= w < p.len() && p[w].0 == u;
            assert(w != s.len() as int);
            assert(s[w].0 == u);
        }
        if rc_contains(s, u) {
            let w = rc_index_of(s, u);
            assert(0 <= w < s.len() && s[w].0 == u);
            assert(p[w].0 == u);
            lemma_rc_at_index(p, u, w);
        }
    }
}

/// Giving up one reference lowers exactly that key's count by one; the entry
/// survives exactly when other references remain, and every other key keeps
/// its count.
pub proof fn lemma_rc_drop<K>(s: Seq<(K, nat)>, k: K)
    requires
        rc_distinct(s),
        rc_positive(s),
        rc_contains(s, k),
    ensures
        rc_distinct(rc_drop_ref(s, k)),
        rc_positive(rc_drop_ref(s, k)),
        rc_refcount(rc_drop_ref(s, k), k) == rc_refcount(s, k) - 1,
        forall|u: K| u != k ==> rc_refcount(rc_drop_ref(s, k), u) == rc_refcount(s, u),
        rc_contains(rc_drop_ref(s, k), k) <==> rc_refcount(s, k) > 1,
        forall|u: K| u != k ==> (rc_contains(rc_drop_ref(s, k), u) <==> rc_contains(s, u)),
{
    let i = rc_index_of(s, k);
    assert(0 <= i < s.len() && s[i].0 == k);
    let d = rc_drop_ref(s, k);
    if rc_refcount(s, k) <= 1 {
        assert(d == s.remove(i));
        assert forall|a: int, b: int| 0 <= a < b < d.len() implies d[a].0 != d[b].0 by {
            let a0 = if a < i {
                a
            } else {
                a + 1
            };
            let b0 = if b < i {
                b
            } else {
                b + 1
            };
            assert(d[a] == s[a0] && d[b] == s[b0]);
        }
        assert forall|u: K| rc_contains(d, u) implies u != k && rc_contains(s, u) && rc_refcount(
            d,
            u,
        ) == rc_refcount(s, u) by {
            let w = choose|w: int| 0 <= w < d.len() && d[w].0 == u;
            let w0 = if w < i {
                w
            } else {
                w + 1
            };
            assert(d[w] == s[w0]);
            assert(s[w0].0 == u);
            lemma_rc_at_index(s, u, w0);
            if u == k {
                assert(w0 == i);
                assert(false);
            }
            lemma_rc_at_index(d, u, w);
            assert(d[w].1 == s[w0].1);
        }
        assert forall|u: K| u != k && rc_contains(s, u) implies rc_contains(d, u) by {
            let w = rc_index_of(s, u);
            assert(0 <= w < s.len() && s[w].0 == u);
            assert(w != i);
            let w1 = if w < i {
                w
            } else {
                w - 1
            };
            assert(d[w1] == s[w]);
        }
        assert(rc_refcount(s, k) == s[i].1);
        assert(s[i].1 >= 1);
        assert(rc_refcount(d, k) == 0);
    } else {
        assert(d == s.update(i, (k, (rc_refcount(s, k) - 1) as nat)));
        assert(forall|j: int| 0 <= j < s.len() ==> d[j].0 == s[j].0);
        lemma_rc_at_index(d, k, i);
        assert forall|u: K| u != k implies rc_refcount(d, u) == rc_refcount(s, u) && (rc_contains(
            d,
            u,
        ) <==> rc_contains(s, u)) by {
            if rc_contains(s, u) {
                let w = rc_index_of(s, u);
                assert(0 <= w < s.len() && s[w].0 == u);
                assert(w != i);
                assert(d[w] == s[w]);
                lemma_rc_at_index(d, u, w);
            }
            if rc_contains(d, u) {
                let w = choose|w: int| 0 <= w < d.len() && d[w].0 == u;
                assert(s[w].0 == u);
            }
        }
    }
}

} // verus!
