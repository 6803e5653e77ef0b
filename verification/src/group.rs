//! Name-keyed grouping: an association list kept sorted by key in strict
//! lexicographic order, each key carrying the values inserted under it in
//! insertion order. This is how members group into overload lists and how
//! contracts group into per-file documents.

use vstd::prelude::*;
use crate::natspec::assoc_find;
use crate::strutil::{lex_lt, lemma_lex_lt_connected, lemma_lex_lt_trans, string_eq, str_lt};

verus! {

/// Inserts one keyed value: appended to its key's group when the key is
/// present, else a new group at the key's sorted position.
pub open spec fn grouped_insert<V>(
    g: Seq<(Seq<char>, Seq<V>)>,
    k: Seq<char>,
    v: V,
) -> Seq<(Seq<char>, Seq<V>)>
    decreases g.len(),
{
    if g.len() == 0 {
        seq![(k, seq![v])]
    } else if g[0].0 == k {
        seq![(g[0].0, g[0].1.push(v))] + g.drop_first()
    } else if lex_lt(k, g[0].0) {
        seq![(k, seq![v])] + g
    } else {
        seq![g[0]] + grouped_insert(g.drop_first(), k, v)
    }
}

/// Groups a keyed sequence: every value under its key, keys in strict
/// lexicographic order, values in encounter order.
pub open spec fn group_by_key<V>(items: Seq<(Seq<char>, V)>) -> Seq<(Seq<char>, Seq<V>)>
    decreases items.len(),
{
    if items.len() == 0 {
        Seq::empty()
    } else {
        grouped_insert(group_by_key(items.drop_last()), items.last().0, items.last().1)
    }
}

/// Group keys are strictly increasing, pairwise.
pub open spec fn keys_sorted<V>(g: Seq<(Seq<char>, Seq<V>)>) -> bool {
    forall|i: int, j: int| 0 <= i < j < g.len() ==> lex_lt(#[trigger] g[i].0, #[trigger] g[j].0)
}

/// Whether some entry of `g` carries the key `k`.
pub open spec fn has_key<V>(g: Seq<(Seq<char>, V)>, k: Seq<char>) -> bool {
    exists|i: int| 0 <= i < g.len() && (#[trigger] g[i].0) == k
}

/// An insertion position that skips exactly the keys before `k` identifies
/// where `grouped_insert` acts.
pub proof fn lemma_grouped_insert_at<V>(g: Seq<(Seq<char>, Seq<V>)>, k: Seq<char>, v: V, j: int)
    requires
        0 <= j <= g.len(),
        forall|i: int| 0 <= i < j ==> (#[trigger] g[i].0) != k && !lex_lt(k, g[i].0),
        j < g.len() ==> g[j].0 == k || lex_lt(k, g[j].0),
    ensures
        grouped_insert(g, k, v) == if j < g.len() && g[j].0 == k {
            g.update(j, (g[j].0, g[j].1.push(v)))
        } else {
            g.insert(j, (k, seq![v]))
        },
    decreases g.len(),
{
    if g.len() == 0 {
        assert(grouped_insert(g, k, v) =~= g.insert(0, (k, seq![v])));
    } else if j == 0 {
        if g[0].0 == k {
            assert(grouped_insert(g, k, v) =~= g.update(0, (g[0].0, g[0].1.push(v))));
        } else {
            assert(lex_lt(k, g[0].0));
            assert(grouped_insert(g, k, v) =~= g.insert(0, (k, seq![v])));
        }
    } else {
        let t = g.drop_first();
        assert forall|i: int| 0 <= i < j - 1 implies (#[trigger] t[i].0) != k && !lex_lt(
            k,
            t[i].0,
        ) by {
            assert(t[i] == g[i + 1]);
        }
        assert(j - 1 < t.len() ==> t[j - 1] == g[j]);
        lemma_grouped_insert_at(t, k, v, j - 1);
        assert(g[0].0 != k && !lex_lt(k, g[0].0));
        if j < g.len() && g[j].0 == k {
            assert(grouped_insert(g, k, v) == seq![g[0]] + t.update(j - 1, (t[j - 1].0, t[j
                - 1].1.push(v))));
            assert(seq![g[0]] + t.update(j - 1, (t[j - 1].0, t[j - 1].1.push(v))) =~= g.update(
                j,
                (g[j].0, g[j].1.push(v)),
            ));
        } else {
            assert(grouped_insert(g, k, v) == seq![g[0]] + t.insert(j - 1, (k, seq![v])));
            assert(seq![g[0]] + t.insert(j - 1, (k, seq![v])) =~= g.insert(j, (k, seq![v])));
        }
    }
}

/// Insertion keeps the keys strictly sorted, and introduces no key other
/// than the inserted one.
pub proof fn lemma_grouped_insert_sorted<V>(g: Seq<(Seq<char>, Seq<V>)>, k: Seq<char>, v: V)
    requires
        keys_sorted(g),
    ensures
        keys_sorted(grouped_insert(g, k, v)),
        forall|i: int|
            0 <= i < grouped_insert(g, k, v).len() ==> (#[trigger] grouped_insert(g, k, v)[i].0)
                == k || has_key(g, grouped_insert(g, k, v)[i].0),
    decreases g.len(),
{
    let r = grouped_insert(g, k, v);
    if g.len() == 0 {
    } else if g[0].0 == k {
        assert forall|i: int| 0 <= i < r.len() implies (#[trigger] r[i].0) == k || has_key(
            g,
            r[i].0,
        ) by {
            assert(r[i].0 == g[i].0);
        }
        assert forall|i: int, j: int| 0 <= i < j < r.len() implies lex_lt(
            #[trigger] r[i].0,
            #[trigger] r[j].0,
        ) by {
            assert(r[i].0 == g[i].0);
            assert(r[j].0 == g[j].0);
        }
    } else if lex_lt(k, g[0].0) {
        assert forall|i: int| 0 <= i < r.len() implies (#[trigger] r[i].0) == k || has_key(
            g,
            r[i].0,
        ) by {
            if i > 0 {
                assert(r[i].0 == g[i - 1].0);
            }
        }
        assert forall|i: int, j: int| 0 <= i < j < r.len() implies lex_lt(
            #[trigger] r[i].0,
            #[trigger] r[j].0,
        ) by {
            if i == 0 {
                assert(r[j].0 == g[j - 1].0);
                if j - 1 > 0 {
                    lemma_lex_lt_trans(k, g[0].0, g[j - 1].0);
                }
            } else {
                assert(r[i].0 == g[i - 1].0);
                assert(r[j].0 == g[j - 1].0);
            }
        }
    } else {
        let t = g.drop_first();
        assert forall|i: int, j: int| 0 <= i < j < t.len() implies lex_lt(
            #[trigger] t[i].0,
            #[trigger] t[j].0,
        ) by {
            assert(t[i] == g[i + 1]);
            assert(t[j] == g[j + 1]);
        }
        lemma_grouped_insert_sorted(t, k, v);
        let rt = grouped_insert(t, k, v);
        lemma_lex_lt_connected(k, g[0].0);
        assert(lex_lt(g[0].0, k));
        assert forall|i: int| 0 <= i < r.len() implies (#[trigger] r[i].0) == k || has_key(
            g,
            r[i].0,
        ) by {
            if i > 0 {
                assert(r[i] == rt[i - 1]);
                if rt[i - 1].0 != k {
                    assert(has_key(t, rt[i - 1].0));
                    let w = choose|w: int| 0 <= w < t.len() && (#[trigger] t[w].0) == rt[i - 1].0;
                    assert(g[w + 1].0 == rt[i - 1].0);
                }
            }
        }
        assert forall|i: int, j: int| 0 <= i < j < r.len() implies lex_lt(
            #[trigger] r[i].0,
            #[trigger] r[j].0,
        ) by {
            if i == 0 {
                assert(r[j] == rt[j - 1]);
                if rt[j - 1].0 == k {
                } else {
                    assert(has_key(t, rt[j - 1].0));
                    let w = choose|w: int| 0 <= w < t.len() && (#[trigger] t[w].0) == rt[j - 1].0;
                    assert(t[w] == g[w + 1]);
                    assert(lex_lt(g[0].0, g[w + 1].0));
                }
            } else {
                assert(r[i] == rt[i - 1]);
                assert(r[j] == rt[j - 1]);
            }
        }
    }
}

/// Grouping always yields strictly sorted keys, every one of them the key
/// of some grouped item.
pub proof fn lemma_group_by_key_sorted<V>(items: Seq<(Seq<char>, V)>)
    ensures
        keys_sorted(group_by_key(items)),
        forall|i: int|
            0 <= i < group_by_key(items).len() ==> has_key(
                items,
                #[trigger] group_by_key(items)[i].0,
            ),
    decreases items.len(),
{
    if items.len() > 0 {
        let prev = group_by_key(items.drop_last());
        lemma_group_by_key_sorted(items.drop_last());
        lemma_grouped_insert_sorted(prev, items.last().0, items.last().1);
        let r = group_by_key(items);
        assert forall|i: int| 0 <= i < r.len() implies has_key(items, #[trigger] r[i].0) by {
            if r[i].0 == items.last().0 {
                assert(items[items.len() - 1].0 == r[i].0);
            } else {
                assert(has_key(prev, r[i].0));
                let w = choose|w: int| 0 <= w < prev.len() && (#[trigger] prev[w].0) == r[i].0;
                assert(has_key(items.drop_last(), prev[w].0));
                let u = choose|u: int|
                    0 <= u < items.drop_last().len() && (#[trigger] items.drop_last()[u].0)
                        == r[i].0;
                assert(items[u].0 == r[i].0);
            }
        }
    }
}

/// Inserts `v` under `k`: appended to the existing group for `k`, or a new
/// group at the sorted position.
pub fn grouped_insert_exec<V: DeepView>(g: &mut Vec<(String, Vec<V>)>, k: String, v: V)
    ensures
        final(g).deep_view() == grouped_insert(old(g).deep_view(), k@, v.deep_view()),
{
    let ghost g0 = old(g).deep_view();
    let n = g.len();
    proof {
        assert(g0.len() == n);
    }
    let mut j: usize = 0;
    while j < n && !string_eq(&g[j].0, &k) && !str_lt(k.as_str(), g[j].0.as_str())
        invariant
            0 <= j <= n,
            n == g@.len(),
            g == old(g),
            g0 == old(g).deep_view(),
            forall|i: int| 0 <= i < j ==> (#[trigger] g0[i].0) != k@ && !lex_lt(k@, g0[i].0),
        decreases n - j,
    {
        proof {
            assert(g0[j as int] == (g@[j as int].0@, g@[j as int].1.deep_view()));
        }
        j = j + 1;
    }
    proof {
        if j < n {
            assert(g0[j as int] == (g@[j as int].0@, g@[j as int].1.deep_view()));
        }
    }
    if j < n && string_eq(&g[j].0, &k) {
        proof {
            lemma_grouped_insert_at(g0, k@, v.deep_view(), j as int);
        }
        let (key_s, mut list) = g.remove(j);
        list.push(v);
        g.insert(j, (key_s, list));
        proof {
            let target = g0.update(j as int, (g0[j as int].0, g0[j as int].1.push(v.deep_view())));
            assert(g@.len() == target.len());
            assert forall|i: int| 0 <= i < g@.len() implies g.deep_view()[i] == target[i] by {
                assert(g.deep_view()[i] == (g@[i].0@, g@[i].1.deep_view()));
                if i < j {
                    assert(g@[i] == old(g)@[i]);
                    assert(g0[i] == (old(g)@[i].0@, old(g)@[i].1.deep_view()));
                } else if i == j {
                    assert(g@[i].0 == old(g)@[i].0);
                    assert(g@[i].1@ == old(g)@[i].1@.push(v));
                    assert(g0[i] == (old(g)@[i].0@, old(g)@[i].1.deep_view()));
                    assert forall|w: int| 0 <= w < g@[i].1@.len() implies g@[i].1.deep_view()[w]
                        == g0[i].1.push(v.deep_view())[w] by {
                        assert(g@[i].1.deep_view()[w] == g@[i].1@[w].deep_view());
                        if w < g0[i].1.len() {
                            assert(g@[i].1@[w] == old(g)@[i].1@[w]);
                            assert(g0[i].1[w] == old(g)@[i].1@[w].deep_view());
                        } else {
                            assert(g@[i].1@[w] == v);
                        }
                    }
                    assert(g@[i].1.deep_view() =~= g0[i].1.push(v.deep_view()));
                } else {
                    assert(g@[i] == old(g)@[i]);
                    assert(g0[i] == (old(g)@[i].0@, old(g)@[i].1.deep_view()));
                }
            }
            assert(g.deep_view() =~= target);
        }
    } else {
        proof {
            lemma_grouped_insert_at(g0, k@, v.deep_view(), j as int);
        }
        let mut single: Vec<V> = Vec::new();
        single.push(v);
        proof {
            assert(single.deep_view() =~= seq![v.deep_view()]);
        }
        g.insert(j, (k, single));
        proof {
            let target = g0.insert(j as int, (k@, seq![v.deep_view()]));
            assert(g@.len() == target.len());
            assert forall|i: int| 0 <= i < g@.len() implies g.deep_view()[i] == target[i] by {
                assert(g.deep_view()[i] == (g@[i].0@, g@[i].1.deep_view()));
                if i < j {
                    assert(g@[i] == old(g)@[i]);
                    assert(g0[i] == (old(g)@[i].0@, old(g)@[i].1.deep_view()));
                } else if i > j {
                    assert(g@[i] == old(g)@[i - 1]);
                    assert(g0[i - 1] == (old(g)@[i - 1].0@, old(g)@[i - 1].1.deep_view()));
                }
            }
            assert(g.deep_view() =~= target);
        }
    }
}


/// The values that arrive under one key, in encounter order.
pub open spec fn values_for<V>(items: Seq<(Seq<char>, V)>, k: Seq<char>) -> Seq<V>
    decreases items.len(),
{
    if items.len() == 0 {
        Seq::empty()
    } else if items.last().0 == k {
        values_for(items.drop_last(), k).push(items.last().1)
    } else {
        values_for(items.drop_last(), k)
    }
}

proof fn lemma_assoc_find_absent<V>(g: Seq<(Seq<char>, V)>, k: Seq<char>)
    requires
        forall|i: int| 0 <= i < g.len() ==> (#[trigger] g[i].0) != k,
    ensures
        assoc_find(g, k) is None,
    decreases g.len(),
{
    if g.len() != 0 {
        let t = g.drop_first();
        assert forall|i: int| 0 <= i < t.len() implies (#[trigger] t[i].0) != k by {
            assert(t[i] == g[i + 1]);
        }
        lemma_assoc_find_absent(t, k);
    }
}

/// What one insertion does to lookups: the inserted key's group gains the
/// value at its end, every other group is untouched.
proof fn lemma_grouped_insert_find<V>(g: Seq<(Seq<char>, Seq<V>)>, k: Seq<char>, v: V, q: Seq<char>)
    requires
        keys_sorted(g),
    ensures
        assoc_find(grouped_insert(g, k, v), k) == Some(
            match assoc_find(g, k) {
                Some(l) => l.push(v),
                None => seq![v],
            },
        ),
        q != k ==> assoc_find(grouped_insert(g, k, v), q) == assoc_find(g, q),
    decreases g.len(),
{
    let r = grouped_insert(g, k, v);
    if g.len() == 0 {
        assert(r[0].0 == k);
        assert(r.drop_first() =~= Seq::<(Seq<char>, Seq<V>)>::empty());
        if q != k {
            assert(assoc_find(r, q) == assoc_find(r.drop_first(), q));
            assert(assoc_find(r, q) == assoc_find(g, q));
        }
    } else if g[0].0 == k {
        assert(r[0] == (g[0].0, g[0].1.push(v)));
        assert(r.drop_first() =~= g.drop_first());
        if q != k {
            assert(assoc_find(r, q) == assoc_find(r.drop_first(), q));
            assert(assoc_find(g, q) == assoc_find(g.drop_first(), q));
        }
    } else if lex_lt(k, g[0].0) {
        assert forall|i: int| 0 <= i < g.len() implies (#[trigger] g[i].0) != k by {
            if i > 0 {
                lemma_lex_lt_trans(k, g[0].0, g[i].0);
            }
            lemma_lex_lt_asymmetry(k, g[i].0);
        }
        lemma_assoc_find_absent(g, k);
        assert(r[0] == (k, seq![v]));
        assert(r.drop_first() =~= g);
        if q != k {
            assert(assoc_find(r, q) == assoc_find(r.drop_first(), q));
        }
    } else {
        let t = g.drop_first();
        assert forall|i: int, j: int| 0 <= i < j < t.len() implies lex_lt(
            #[trigger] t[i].0,
            #[trigger] t[j].0,
        ) by {
            assert(t[i] == g[i + 1]);
            assert(t[j] == g[j + 1]);
        }
        lemma_grouped_insert_find(t, k, v, q);
        assert(r.drop_first() =~= grouped_insert(t, k, v));
        assert(r[0] == g[0]);
        if q != k {
            if q == g[0].0 {
                assert(assoc_find(r, q) == Some(r[0].1));
                assert(assoc_find(g, q) == Some(g[0].1));
            } else {
                assert(assoc_find(r, q) == assoc_find(r.drop_first(), q));
                assert(assoc_find(g, q) == assoc_find(t, q));
            }
        }
        assert(assoc_find(r, k) == assoc_find(grouped_insert(t, k, v), k));
    }
}

/// `lex_lt` is a strict order: nothing precedes itself.
proof fn lemma_lex_lt_asymmetry(a: Seq<char>, b: Seq<char>)
    requires
        lex_lt(a, b),
    ensures
        a != b,
    decreases a.len(),
{
    if a.len() != 0 && b.len() != 0 && a[0] == b[0] {
        lemma_lex_lt_asymmetry(a.drop_first(), b.drop_first());
    }
}

/// Law: grouping merges nothing and loses nothing — under every key the
/// grouped list holds exactly the values that arrived with that key, in
/// encounter order, and a key nobody used has no group.
pub proof fn lemma_group_by_key_values<V>(items: Seq<(Seq<char>, V)>, k: Seq<char>)
    ensures
        assoc_find(group_by_key(items), k) == if values_for(items, k).len() > 0 {
            Some(values_for(items, k))
        } else {
            None::<Seq<V>>
        },
    decreases items.len(),
{
    if items.len() == 0 {
    } else {
        let prev = items.drop_last();
        lemma_group_by_key_values(prev, k);
        lemma_group_by_key_sorted(prev);
        lemma_grouped_insert_find(group_by_key(prev), items.last().0, items.last().1, k);
        if k == items.last().0 {
            if values_for(prev, k).len() > 0 {
                assert(values_for(items, k) == values_for(prev, k).push(items.last().1));
            } else {
                assert(values_for(prev, k) =~= Seq::<V>::empty());
                assert(values_for(items, k) =~= seq![items.last().1]);
            }
        }
    }
}

} // verus!\n