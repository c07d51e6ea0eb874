//! A finite map modelled by a sequence of key/value pairs whose keys are distinct.
//! The stores of this crate keep their records in `Vec`s and are described by
//! `map_of` of the pairs they hold.

use vstd::prelude::*;

verus! {

/// The keys of distinct pairs are distinct.
pub open spec fn unique_keys<K, V>(s: Seq<(K, V)>) -> bool {
    forall|i: int, j: int| 0 <= i < s.len() && 0 <= j < s.len() && i != j ==> s[i].0 != s[j].0
}

/// Whether some pair of `s` has key `k`.
pub open spec fn has_key<K, V>(s: Seq<(K, V)>, k: K) -> bool {
    exists|i: int| 0 <= i < s.len() && s[i].0 == k
}

/// The map that sends each key of `s` to the value paired with it.
pub open spec fn map_of<K, V>(s: Seq<(K, V)>) -> Map<K, V> {
    Map::new(
        |k: K| has_key(s, k),
        |k: K| s[choose|i: int| 0 <= i < s.len() && s[i].0 == k].1,
    )
}

/// The pair at position `i` is what the map holds for its key.
pub proof fn lemma_map_of_index<K, V>(s: Seq<(K, V)>, i: int)
    requires
        unique_keys(s),
        0 <= i < s.len(),
    ensures
        map_of(s).dom().contains(s[i].0),
        map_of(s)[s[i].0] == s[i].1,
{
    assert(has_key(s, s[i].0));
    let j = choose|j: int| 0 <= j < s.len() && s[j].0 == s[i].0;
    assert(j == i);
}

/// A key that no pair carries is outside the map.
pub proof fn lemma_map_of_absent<K, V>(s: Seq<(K, V)>, k: K)
    requires
        forall|i: int| 0 <= i < s.len() ==> s[i].0 != k,
    ensures
        !map_of(s).dom().contains(k),
{
}

/// Appending a pair with a fresh key inserts it into the map.
pub proof fn lemma_map_of_push<K, V>(s: Seq<(K, V)>, k: K, v: V)
    requires
        unique_keys(s),
        !has_key(s, k),
    ensures
        unique_keys(s.push((k, v))),
        map_of(s.push((k, v))) == map_of(s).insert(k, v),
{
    let t = s.push((k, v));
    assert forall|i: int, j: int| 0 <= i < t.len() && 0 <= j < t.len() && i != j implies t[i].0
        != t[j].0 by {
        if i < s.len() && j < s.len() {
            assert(t[i] == s[i] && t[j] == s[j]);
        } else if i < s.len() {
            assert(t[i] == s[i]);
        } else {
            assert(t[j] == s[j]);
        }
    }
    assert forall|x: K| #[trigger] map_of(t).dom().contains(x) == map_of(s).insert(k, v).dom().contains(x) by {
        if has_key(s, x) {
            let i = choose|i: int| 0 <= i < s.len() && s[i].0 == x;
            assert(t[i] == s[i]);
        }
        if x == k {
            assert(t[s.len() as int].0 == k);
        }
    }
    assert forall|x: K| #[trigger] map_of(t).dom().contains(x) implies map_of(t)[x] == map_of(s).insert(k, v)[x] by {
        if x == k {
            lemma_map_of_index(t, s.len() as int);
        } else {
            let i = choose|i: int| 0 <= i < t.len() && t[i].0 == x;
            assert(i < s.len());
            assert(t[i] == s[i]);
            lemma_map_of_index(t, i);
            lemma_map_of_index(s, i);
        }
    }
    assert(map_of(t) =~= map_of(s).insert(k, v));
}

/// Replacing the value at position `i` (keeping its key) updates the map at that key.
pub proof fn lemma_map_of_update<K, V>(s: Seq<(K, V)>, i: int, v: V)
    requires
        unique_keys(s),
        0 <= i < s.len(),
    ensures
        unique_keys(s.update(i, (s[i].0, v))),
        map_of(s.update(i, (s[i].0, v))) == map_of(s).insert(s[i].0, v),
{
    let t = s.update(i, (s[i].0, v));
    assert forall|a: int, b: int| 0 <= a < t.len() && 0 <= b < t.len() && a != b implies t[a].0
        != t[b].0 by {
        assert(t[a].0 == s[a].0 && t[b].0 == s[b].0);
    }
    assert forall|x: K| #[trigger] map_of(t).dom().contains(x) == map_of(s).insert(s[i].0, v).dom().contains(x) by {
        if has_key(s, x) {
            let j = choose|j: int| 0 <= j < s.len() && s[j].0 == x;
            assert(t[j].0 == s[j].0);
        }
        if has_key(t, x) {
            let j = choose|j: int| 0 <= j < t.len() && t[j].0 == x;
            assert(t[j].0 == s[j].0);
        }
        assert(t[i].0 == s[i].0);
    }
    assert forall|x: K| #[trigger] map_of(t).dom().contains(x) implies map_of(t)[x] == map_of(s).insert(s[i].0, v)[x] by {
        let j = choose|j: int| 0 <= j < t.len() && t[j].0 == x;
        lemma_map_of_index(t, j);
        if j != i {
            assert(t[j] == s[j]);
            lemma_map_of_index(s, j);
        }
    }
    assert(map_of(t) =~= map_of(s).insert(s[i].0, v));
}

/// Removing the pair at position `i` removes its key from the map.
pub proof fn lemma_map_of_remove<K, V>(s: Seq<(K, V)>, i: int)
    requires
        unique_keys(s),
        0 <= i < s.len(),
    ensures
        unique_keys(s.remove(i)),
        map_of(s.remove(i)) == map_of(s).remove(s[i].0),
{
    let t = s.remove(i);
    assert forall|a: int| 0 <= a < t.len() implies #[trigger] t[a] == (if a < i { s[a] } else { s[a + 1] }) by {}
    assert forall|a: int, b: int| 0 <= a < t.len() && 0 <= b < t.len() && a != b implies t[a].0
        != t[b].0 by {
        let a2 = if a < i { a } else { a + 1 };
        let b2 = if b < i { b } else { b + 1 };
        assert(t[a] == s[a2] && t[b] == s[b2]);
    }
    assert forall|x: K| #[trigger] map_of(t).dom().contains(x) == map_of(s).remove(s[i].0).dom().contains(x) by {
        if has_key(s, x) && x != s[i].0 {
            let j = choose|j: int| 0 <= j < s.len() && s[j].0 == x;
            let j2 = if j < i { j } else { j - 1 };
            assert(t[j2] == s[j]);
        }
        if has_key(t, x) {
            let j = choose|j: int| 0 <= j < t.len() && t[j].0 == x;
            let j2 = if j < i { j } else { j + 1 };
            assert(t[j] == s[j2]);
        }
    }
    assert forall|x: K| #[trigger] map_of(t).dom().contains(x) implies map_of(t)[x] == map_of(s).remove(s[i].0)[x] by {
        let j = choose|j: int| 0 <= j < t.len() && t[j].0 == x;
        let j2 = if j < i { j } else { j + 1 };
        assert(t[j] == s[j2]);
        lemma_map_of_index(t, j);
        lemma_map_of_index(s, j2);
    }
    assert(map_of(t) =~= map_of(s).remove(s[i].0));
}

/// The map of an empty sequence is empty.
pub proof fn lemma_map_of_empty<K, V>(s: Seq<(K, V)>)
    requires
        s.len() == 0,
    ensures
        map_of(s) == Map::<K, V>::empty(),
{
    assert(map_of(s) =~= Map::<K, V>::empty());
}

/// The keys of the pairs, in order.
pub open spec fn keys_of<K, V>(s: Seq<(K, V)>) -> Seq<K> {
    s.map_values(|e: (K, V)| e.0)
}

/// The map of pairs with distinct keys is finite and has one entry per pair.
pub proof fn lemma_map_of_len<K, V>(s: Seq<(K, V)>)
    requires
        unique_keys(s),
    ensures
        map_of(s).dom().finite(),
        map_of(s).dom().len() == s.len(),
{
    let ks = keys_of(s);
    assert(ks.no_duplicates());
    ks.unique_seq_to_set();
    assert forall|k: K| map_of(s).dom().contains(k) == ks.to_set().contains(k) by {
        if has_key(s, k) {
            let i = choose|i: int| 0 <= i < s.len() && s[i].0 == k;
            assert(ks[i] == k);
        }
        if ks.to_set().contains(k) {
            let i = choose|i: int| 0 <= i < ks.len() && ks[i] == k;
            assert(s[i].0 == k);
        }
    }
    assert(map_of(s).dom() =~= ks.to_set());
    vstd::seq_lib::seq_to_set_is_finite(ks);
}

/// The number of keys whose value satisfies `p`.
pub open spec fn count_where<K, V>(m: Map<K, V>, p: spec_fn(V) -> bool) -> nat {
    m.dom().filter(|k: K| p(m[k])).len()
}

/// The pairs whose value satisfies `p`.
pub open spec fn value_pred<K, V>(p: spec_fn(V) -> bool) -> spec_fn((K, V)) -> bool {
    |e: (K, V)| p(e.1)
}

/// Counting the map's values that satisfy `p` counts the pairs whose value does.
pub proof fn lemma_count_where<K, V>(s: Seq<(K, V)>, p: spec_fn(V) -> bool)
    requires
        unique_keys(s),
    ensures
        count_where(map_of(s), p) == s.filter(value_pred(p)).len(),
        map_of(s).dom().filter(|k: K| p(map_of(s)[k])).finite(),
    decreases s.len(),
{
    let m = map_of(s);
    if s.len() == 0 {
        lemma_map_of_empty(s);
        assert(m.dom().filter(|k: K| p(m[k])) =~= Set::<K>::empty());
        assert(s.filter(value_pred(p)) =~= Seq::<(K, V)>::empty()) by {
            reveal(Seq::filter);
        }
    } else {
        let t = s.drop_last();
        let x = s.last();
        assert(s =~= t.push(x));
        assert(unique_keys(t)) by {
            assert forall|i: int, j: int| 0 <= i < t.len() && 0 <= j < t.len() && i != j implies t[i].0 != t[j].0 by {
                assert(t[i] == s[i] && t[j] == s[j]);
            }
        }
        assert(!has_key(t, x.0)) by {
            if has_key(t, x.0) {
                let i = choose|i: int| 0 <= i < t.len() && t[i].0 == x.0;
                assert(t[i] == s[i]);
                assert(s[s.len() - 1] == x);
            }
        }
        lemma_count_where(t, p);
        lemma_map_of_push(t, x.0, x.1);
        let mt = map_of(t);
        lemma_map_of_len(t);
        let ft = mt.dom().filter(|k: K| p(mt[k]));
        let fs = m.dom().filter(|k: K| p(m[k]));
        t.lemma_filter_push(x, value_pred(p));
        assert(!mt.dom().contains(x.0));
        if p(x.1) {
            assert(fs =~= ft.insert(x.0));
            assert(!ft.contains(x.0));
        } else {
            assert(fs =~= ft);
        }
    }
}

/// The map keeps the pairs of a filtered sequence exactly where it keeps their keys.
pub open spec fn restrict_where<K, V>(m: Map<K, V>, p: spec_fn(V) -> bool) -> Map<K, V> {
    m.restrict(m.dom().filter(|k: K| p(m[k])))
}

/// Filtering the pairs by their values filters the map the same way.
pub proof fn lemma_map_of_filter<K, V>(s: Seq<(K, V)>, p: spec_fn(V) -> bool)
    requires
        unique_keys(s),
    ensures
        unique_keys(s.filter(value_pred(p))),
        map_of(s.filter(value_pred(p))) == restrict_where(map_of(s), p),
        forall|i: int| 0 <= i < s.filter(value_pred(p)).len() ==> has_key(s, #[trigger] s.filter(value_pred(p))[i].0),
    decreases s.len(),
{
    let f = s.filter(value_pred(p));
    if s.len() == 0 {
        assert(f =~= Seq::<(K, V)>::empty()) by {
            reveal(Seq::filter);
        }
        lemma_map_of_empty(f);
        lemma_map_of_empty(s);
        assert(restrict_where(map_of(s), p) =~= Map::<K, V>::empty());
    } else {
        let t = s.drop_last();
        let x = s.last();
        assert(s =~= t.push(x));
        assert(unique_keys(t)) by {
            assert forall|i: int, j: int| 0 <= i < t.len() && 0 <= j < t.len() && i != j implies t[i].0 != t[j].0 by {
                assert(t[i] == s[i] && t[j] == s[j]);
            }
        }
        assert(!has_key(t, x.0)) by {
            if has_key(t, x.0) {
                let i = choose|i: int| 0 <= i < t.len() && t[i].0 == x.0;
                assert(t[i] == s[i]);
                assert(s[s.len() - 1] == x);
            }
        }
        lemma_map_of_filter(t, p);
        lemma_map_of_push(t, x.0, x.1);
        t.lemma_filter_push(x, value_pred(p));
        let ft = t.filter(value_pred(p));
        let mt = map_of(t);
        assert(!has_key(ft, x.0)) by {
            if has_key(ft, x.0) {
                let i = choose|i: int| 0 <= i < ft.len() && ft[i].0 == x.0;
                assert(has_key(t, ft[i].0));
            }
        }
        if p(x.1) {
            assert(f == ft.push(x));
            lemma_map_of_push(ft, x.0, x.1);
            assert(map_of(f) =~= restrict_where(map_of(s), p));
            assert forall|i: int| 0 <= i < f.len() implies has_key(s, #[trigger] f[i].0) by {
                if i < ft.len() {
                    assert(f[i] == ft[i]);
                    assert(has_key(t, ft[i].0));
                    let j = choose|j: int| 0 <= j < t.len() && t[j].0 == ft[i].0;
                    assert(s[j] == t[j]);
                } else {
                    assert(s[s.len() - 1] == x);
                }
            }
        } else {
            assert(f == ft);
            assert(map_of(f) =~= restrict_where(map_of(s), p));
            assert forall|i: int| 0 <= i < f.len() implies has_key(s, #[trigger] f[i].0) by {
                assert(has_key(t, ft[i].0));
                let j = choose|j: int| 0 <= j < t.len() && t[j].0 == ft[i].0;
                assert(s[j] == t[j]);
            }
        }
    }
}

/// The values' fields, in order.
pub open spec fn field_values<V>(es: Seq<(Seq<char>, V)>, f: spec_fn(V) -> Seq<char>) -> Seq<Seq<char>> {
    es.map_values(|e: (Seq<char>, V)| f(e.1))
}

/// Values whose field is `t`.
pub open spec fn field_is<V>(f: spec_fn(V) -> Seq<char>, t: Seq<char>) -> spec_fn(V) -> bool {
    |v: V| f(v) == t
}

/// Counting a field value among the fields is counting the entries with that field.
pub proof fn lemma_field_count<V>(es: Seq<(Seq<char>, V)>, f: spec_fn(V) -> Seq<char>, t: Seq<char>)
    ensures
        field_values(es, f).filter(crate::text::eq_to(t)).len() == es.filter(value_pred(field_is(f, t))).len(),
    decreases es.len(),
{
    if es.len() == 0 {
        assert(field_values(es, f).filter(crate::text::eq_to(t)) =~= Seq::<Seq<char>>::empty()) by {
            reveal(Seq::filter);
        }
        assert(es.filter(value_pred(field_is(f, t))) =~= Seq::<(Seq<char>, V)>::empty()) by {
            reveal(Seq::filter);
        }
    } else {
        let init = es.drop_last();
        let x = es.last();
        assert(es =~= init.push(x));
        assert(field_values(es, f) =~= field_values(init, f).push(f(x.1)));
        lemma_field_count(init, f, t);
        field_values(init, f).lemma_filter_push(f(x.1), crate::text::eq_to(t));
        init.lemma_filter_push(x, value_pred(field_is(f, t)));
    }
}

/// The pairs with `f` applied to each value.
pub open spec fn map_pair_values<K, V>(s: Seq<(K, V)>, f: spec_fn(V) -> V) -> Seq<(K, V)> {
    s.map_values(|e: (K, V)| (e.0, f(e.1)))
}

/// Applying `f` to each pair's value applies it to each value of the map.
pub proof fn lemma_map_of_map_values<K, V>(s: Seq<(K, V)>, f: spec_fn(V) -> V)
    requires
        unique_keys(s),
    ensures
        unique_keys(map_pair_values(s, f)),
        map_of(map_pair_values(s, f)) == map_of(s).map_values(f),
{
    let t = map_pair_values(s, f);
    assert forall|a: int, b: int| 0 <= a < t.len() && 0 <= b < t.len() && a != b implies t[a].0 != t[b].0 by {
        assert(t[a].0 == s[a].0 && t[b].0 == s[b].0);
    }
    assert forall|x: K| #[trigger] map_of(t).dom().contains(x) == map_of(s).map_values(f).dom().contains(x) by {
        if has_key(s, x) {
            let j = choose|j: int| 0 <= j < s.len() && s[j].0 == x;
            assert(t[j].0 == s[j].0);
        }
        if has_key(t, x) {
            let j = choose|j: int| 0 <= j < t.len() && t[j].0 == x;
            assert(t[j].0 == s[j].0);
        }
    }
    assert forall|x: K| #[trigger] map_of(t).dom().contains(x) implies map_of(t)[x] == map_of(s).map_values(f)[x] by {
        let j = choose|j: int| 0 <= j < t.len() && t[j].0 == x;
        lemma_map_of_index(t, j);
        lemma_map_of_index(s, j);
    }
    assert(map_of(t) =~= map_of(s).map_values(f));
}

} // verus!
