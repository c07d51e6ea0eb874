//! A table of records kept by a string key: each record carries its own key, and the
//! table holds at most one record per key. Its value is the map from keys to records.

use vstd::prelude::*;
use crate::keyed::{
    has_key, lemma_map_of_absent, lemma_map_of_empty, lemma_map_of_filter, lemma_map_of_index, lemma_map_of_len,
    lemma_map_of_map_values, lemma_map_of_push, lemma_map_of_remove, lemma_map_of_update, map_of, map_pair_values,
    restrict_where, unique_keys, value_pred,
};
use crate::rbac::lists_map;
use crate::text::str_eq;

verus! {

/// A record that carries its key and can be copied.
pub trait Record: Sized + View {
    /// The key of a record's value.
    spec fn key_of(v: Self::V) -> Seq<char>;

    /// The record's key.
    fn key(&self) -> (r: &str)
        ensures
            r@ == Self::key_of(self@);

    /// A copy of the record.
    fn duplicate(&self) -> (r: Self)
        ensures
            r@ == self@;
}

/// A test on records, and the property of their values that it decides.
pub trait RecordFilter<R: Record> {
    /// Whether a record's value passes.
    spec fn holds(&self, v: R::V) -> bool;

    /// Whether the record passes.
    fn test(&self, r: &R) -> (b: bool)
        ensures
            b == self.holds(r@);
}

/// A change made to each record, which keeps its key.
pub trait RecordUpdate<R: Record> {
    /// The value a record's value becomes.
    spec fn apply(&self, v: R::V) -> R::V;

    /// Changes the record.
    fn run(&self, r: R) -> (out: R)
        ensures
            out@ == self.apply(r@),
            R::key_of(out@) == R::key_of(r@);
}

/// The change an update makes.
pub open spec fn update_fn<R: Record, U: RecordUpdate<R>>(u: &U) -> spec_fn(R::V) -> R::V {
    |v: R::V| u.apply(v)
}

/// The property a filter decides.
pub open spec fn filter_pred<R: Record, F: RecordFilter<R>>(f: &F) -> spec_fn(R::V) -> bool {
    |v: R::V| f.holds(v)
}

/// A record with a rank (a date, a count) by which lists are ordered, highest first.
pub trait Dated: Record {
    /// The rank of a record's value.
    spec fn date_of(v: Self::V) -> int;

    /// The record's rank.
    fn date(&self) -> (d: i128)
        ensures
            d == Self::date_of(self@);
}

/// Records gathered from the first `n` entries: each passes and is stored, once, latest
/// first, and every passing one of those entries is there.
pub open spec fn gathered<R: Dated>(
    out: Seq<R::V>,
    es: Seq<(Seq<char>, R::V)>,
    n: int,
    m: Map<Seq<char>, R::V>,
    p: spec_fn(R::V) -> bool,
) -> bool {
    &&& forall|a: int| 0 <= a < out.len() ==> m.dom().contains(R::key_of(#[trigger] out[a])) && m[R::key_of(out[a])] == out[a] && p(out[a])
    &&& forall|a: int| 0 <= a < out.len() ==> key_among(es, n, R::key_of(#[trigger] out[a]))
    &&& forall|a: int, b: int| 0 <= a < b < out.len() ==> R::key_of(#[trigger] out[a]) != R::key_of(#[trigger] out[b])
    &&& forall|a: int, b: int| 0 <= a < b < out.len() ==> R::date_of(#[trigger] out[a]) >= R::date_of(#[trigger] out[b])
    &&& forall|j: int| 0 <= j < n && p(#[trigger] es[j].1) ==> exists|a: int| 0 <= a < out.len() && #[trigger] R::key_of(out[a]) == es[j].0
}

/// Some entry before position `n` has key `k`.
pub open spec fn key_among<V>(es: Seq<(Seq<char>, V)>, n: int, k: Seq<char>) -> bool {
    exists|j: int| 0 <= j < n && #[trigger] es[j].0 == k
}

/// A list of records, latest first.
pub open spec fn latest_first<R: Dated>(vs: Seq<R::V>) -> bool {
    forall|a: int, b: int| 0 <= a < b < vs.len() ==> R::date_of(#[trigger] vs[a]) >= R::date_of(#[trigger] vs[b])
}

/// An entry that does not pass leaves the gathered records as they were.
pub proof fn lemma_gathered_skip<R: Dated>(
    out: Seq<R::V>,
    es: Seq<(Seq<char>, R::V)>,
    n: int,
    m: Map<Seq<char>, R::V>,
    p: spec_fn(R::V) -> bool,
)
    requires
        0 <= n < es.len(),
        gathered::<R>(out, es, n, m, p),
        !p(es[n].1),
    ensures
        gathered::<R>(out, es, n + 1, m, p),
{
    assert forall|a: int| 0 <= a < out.len() implies key_among(es, n + 1, R::key_of(#[trigger] out[a])) by {
        assert(key_among(es, n, R::key_of(out[a])));
    }
    assert forall|j: int| 0 <= j < n + 1 && p(#[trigger] es[j].1) implies exists|a: int| 0 <= a < out.len() && #[trigger] R::key_of(out[a]) == es[j].0 by {
        if j == n {
            assert(!p(es[n].1));
        }
    }
}

/// Inserting a passing entry's record where its date belongs keeps the gathered records
/// in order.
pub proof fn lemma_gathered_insert<R: Dated>(
    out: Seq<R::V>,
    pos: int,
    es: Seq<(Seq<char>, R::V)>,
    n: int,
    m: Map<Seq<char>, R::V>,
    p: spec_fn(R::V) -> bool,
)
    requires
        0 <= n < es.len(),
        unique_keys(es),
        0 <= pos <= out.len(),
        gathered::<R>(out, es, n, m, p),
        es[n].0 == R::key_of(es[n].1),
        m.dom().contains(es[n].0),
        m[es[n].0] == es[n].1,
        p(es[n].1),
        forall|k: int| 0 <= k < pos ==> R::date_of(#[trigger] out[k]) >= R::date_of(es[n].1),
        forall|k: int| pos <= k < out.len() ==> R::date_of(#[trigger] out[k]) < R::date_of(es[n].1),
    ensures
        gathered::<R>(out.insert(pos, es[n].1), es, n + 1, m, p),
{
    let v = es[n].1;
    let o2 = out.insert(pos, v);
    assert forall|a: int| 0 <= a < o2.len() implies m.dom().contains(R::key_of(#[trigger] o2[a])) && m[R::key_of(o2[a])] == o2[a] && p(o2[a]) by {
        if a < pos {
            assert(o2[a] == out[a]);
        } else if a > pos {
            assert(o2[a] == out[a - 1]);
        }
    }
    assert forall|a: int| 0 <= a < o2.len() implies key_among(es, n + 1, R::key_of(#[trigger] o2[a])) by {
        if a < pos {
            assert(o2[a] == out[a]);
            assert(key_among(es, n, R::key_of(out[a])));
        } else if a > pos {
            assert(o2[a] == out[a - 1]);
            assert(key_among(es, n, R::key_of(out[a - 1])));
        } else {
            assert(es[n].0 == R::key_of(o2[a]));
        }
    }
    assert forall|a: int, b: int| 0 <= a < b < o2.len() implies R::key_of(#[trigger] o2[a]) != R::key_of(#[trigger] o2[b]) by {
        if a != pos && b != pos {
            let a0 = if a < pos { a } else { a - 1 };
            let b0 = if b < pos { b } else { b - 1 };
            assert(o2[a] == out[a0]);
            assert(o2[b] == out[b0]);
        } else {
            let o = if a == pos { b } else { a };
            let o0 = if o < pos { o } else { o - 1 };
            assert(o2[o] == out[o0]);
            assert(key_among(es, n, R::key_of(out[o0])));
            let j = choose|j: int| 0 <= j < n && #[trigger] es[j].0 == R::key_of(out[o0]);
            assert(es[j].0 != es[n].0);
        }
    }
    assert forall|a: int, b: int| 0 <= a < b < o2.len() implies R::date_of(#[trigger] o2[a]) >= R::date_of(#[trigger] o2[b]) by {
        let a0 = if a < pos { a } else { a - 1 };
        let b0 = if b < pos { b } else { b - 1 };
        if a != pos {
            assert(o2[a] == out[a0]);
        }
        if b != pos {
            assert(o2[b] == out[b0]);
        }
    }
    assert forall|j: int| 0 <= j < n + 1 && p(#[trigger] es[j].1) implies exists|a: int| 0 <= a < o2.len() && #[trigger] R::key_of(o2[a]) == es[j].0 by {
        if j < n {
            let a = choose|a: int| 0 <= a < out.len() && #[trigger] R::key_of(out[a]) == es[j].0;
            if a < pos {
                assert(o2[a] == out[a]);
            } else {
                assert(o2[a + 1] == out[a]);
            }
        } else {
            assert(R::key_of(o2[pos]) == es[j].0);
        }
    }
}

/// The first position whose record is dated before `d`, in a list latest first.
fn date_position<R: Dated>(out: &Vec<R>, d: i128) -> (p: usize)
    requires
        latest_first::<R>(record_views(out@)),
    ensures
        p <= out@.len(),
        forall|k: int| 0 <= k < p ==> R::date_of(#[trigger] record_views(out@)[k]) >= d,
        forall|k: int| p <= k < out@.len() ==> R::date_of(#[trigger] record_views(out@)[k]) < d,
{
    let ghost vs = record_views(out@);
    let mut p: usize = 0;
    while p < out.len() && out[p].date() >= d
        invariant
            p <= out@.len(),
            vs == record_views(out@),
            forall|k: int| 0 <= k < p ==> R::date_of(#[trigger] vs[k]) >= d,
        decreases out.len() - p,
    {
        assert(vs[p as int] == out@[p as int]@);
        p = p + 1;
    }
    proof {
        assert forall|k: int| p <= k < out@.len() implies R::date_of(#[trigger] vs[k]) < d by {
            assert(vs[p as int] == out@[p as int]@);
            if k > p {
                assert(R::date_of(vs[p as int]) >= R::date_of(vs[k]));
            }
        }
    }
    p
}

/// The filter that passes every record.
pub struct Everything;

impl<R: Record> RecordFilter<R> for Everything {
    open spec fn holds(&self, v: R::V) -> bool {
        true
    }

    fn test(&self, r: &R) -> (b: bool) {
        true
    }
}

/// Records by key.
pub struct Store<R: Record> {
    items: Vec<R>,
}

/// The values of some records.
pub open spec fn record_views<R: Record>(v: Seq<R>) -> Seq<R::V> {
    v.map_values(|x: R| x@)
}

/// The key/value pairs of some records.
pub open spec fn record_entries<R: Record>(v: Seq<R>) -> Seq<(Seq<char>, R::V)> {
    v.map_values(|r: R| (R::key_of(r@), r@))
}

impl<R: Record> Store<R> {
    /// The records' pairs, in the table's own order.
    pub closed spec fn entries(&self) -> Seq<(Seq<char>, R::V)> {
        record_entries(self.items@)
    }

    /// The records, by key.
    pub open spec fn view_map(&self) -> Map<Seq<char>, R::V> {
        map_of(self.entries())
    }

    /// Each key is held once.
    pub open spec fn wf(&self) -> bool {
        unique_keys(self.entries())
    }

    /// The position of key `k` among the entries.
    pub closed spec fn index_of(&self, k: Seq<char>) -> int {
        choose|i: int| 0 <= i < self.entries().len() && self.entries()[i].0 == k
    }

    /// An empty table.
    pub fn new() -> (r: Self)
        ensures
            r.wf(),
            r.view_map() == Map::<Seq<char>, R::V>::empty(),
            r.entries() == Seq::<(Seq<char>, R::V)>::empty(),
    {
        let r = Store { items: Vec::new() };
        proof {
            lemma_map_of_empty(r.entries());
            assert(r.entries() =~= Seq::<(Seq<char>, R::V)>::empty());
        }
        r
    }

    /// The number of records.
    pub fn len(&self) -> (n: usize)
        requires
            self.wf(),
        ensures
            n == self.view_map().dom().len(),
            self.view_map().dom().finite(),
    {
        proof {
            lemma_map_of_len(self.entries());
        }
        self.items.len()
    }

    fn position(&self, key: &str) -> (r: Option<usize>)
        requires
            self.wf(),
        ensures
            match r {
                Some(i) => i < self.items@.len() && R::key_of(self.items@[i as int]@) == key@
                    && self.view_map().dom().contains(key@)
                    && self.view_map()[key@] == self.items@[i as int]@,
                None => !self.view_map().dom().contains(key@),
            },
    {
        let mut i: usize = 0;
        while i < self.items.len()
            invariant
                i <= self.items@.len(),
                self.wf(),
                forall|j: int| 0 <= j < i ==> R::key_of(#[trigger] self.items@[j]@) != key@,
            decreases self.items.len() - i,
        {
            if str_eq(self.items[i].key(), key) {
                proof {
                    lemma_map_of_index(self.entries(), i as int);
                }
                return Some(i);
            }
            i = i + 1;
        }
        proof {
            assert forall|j: int| 0 <= j < self.entries().len() implies #[trigger] self.entries()[j].0 != key@ by {
                assert(self.entries()[j].0 == R::key_of(self.items@[j]@));
            }
            lemma_map_of_absent(self.entries(), key@);
        }
        None
    }

    /// The records, in the table's own order.
    pub fn records(&self) -> (r: &Vec<R>)
        ensures
            record_entries(r@) == self.entries(),
    {
        &self.items
    }

    /// Whether a record has key `key`.
    pub fn contains(&self, key: &str) -> (b: bool)
        requires
            self.wf(),
        ensures
            b == self.view_map().dom().contains(key@),
    {
        self.position(key).is_some()
    }

    /// The record with key `key`, if any.
    pub fn get(&self, key: &str) -> (r: Option<&R>)
        requires
            self.wf(),
        ensures
            match r {
                Some(x) => self.view_map().dom().contains(key@) && x@ == self.view_map()[key@] && R::key_of(x@) == key@,
                None => !self.view_map().dom().contains(key@),
            },
    {
        match self.position(key) {
            Some(i) => Some(&self.items[i]),
            None => None,
        }
    }

    /// A copy of the record with key `key`, if any.
    pub fn get_copy(&self, key: &str) -> (r: Option<R>)
        requires
            self.wf(),
        ensures
            match r {
                Some(x) => self.view_map().dom().contains(key@) && x@ == self.view_map()[key@] && R::key_of(x@) == key@,
                None => !self.view_map().dom().contains(key@),
            },
    {
        match self.position(key) {
            Some(i) => Some(self.items[i].duplicate()),
            None => None,
        }
    }

    /// Stores a record under its key, replacing the record with that key.
    pub fn insert(&mut self, r: R)
        requires
            old(self).wf(),
        ensures
            final(self).wf(),
            final(self).view_map() == old(self).view_map().insert(R::key_of(r@), r@),
            final(self).entries() == if old(self).view_map().dom().contains(R::key_of(r@)) {
                old(self).entries().update(old(self).index_of(R::key_of(r@)), (R::key_of(r@), r@))
            } else {
                old(self).entries().push((R::key_of(r@), r@))
            },
            old(self).view_map().dom().contains(R::key_of(r@)) ==> 0 <= old(self).index_of(R::key_of(r@)) < old(self).entries().len()
                && old(self).entries()[old(self).index_of(R::key_of(r@))].0 == R::key_of(r@),
    {
        let ghost es = self.entries();
        let ghost rv = r@;
        let ghost k = R::key_of(r@);
        match self.position(r.key()) {
            Some(i) => {
                proof {
                    let j = self.index_of(k);
                    assert(es[i as int].0 == k);
                    assert(0 <= j < es.len() && es[j].0 == k);
                    assert(j == i);
                }
                self.items.set(i, r);
                proof {
                    assert(self.entries() =~= es.update(i as int, (es[i as int].0, rv)));
                    lemma_map_of_update(es, i as int, rv);
                }
            },
            None => {
                self.items.push(r);
                proof {
                    assert(self.entries() =~= es.push((k, rv)));
                    lemma_map_of_push(es, k, rv);
                }
            },
        }
    }

    /// Removes and returns the record with key `key`, if any.
    pub fn remove(&mut self, key: &str) -> (r: Option<R>)
        requires
            old(self).wf(),
        ensures
            final(self).wf(),
            final(self).view_map() == old(self).view_map().remove(key@),
            match r {
                Some(x) => old(self).view_map().dom().contains(key@) && x@ == old(self).view_map()[key@] && R::key_of(x@) == key@,
                None => !old(self).view_map().dom().contains(key@),
            },
    {
        let ghost es = self.entries();
        match self.position(key) {
            Some(i) => {
                let x = self.items.remove(i);
                proof {
                    assert(self.entries() =~= es.remove(i as int));
                    lemma_map_of_remove(es, i as int);
                }
                Some(x)
            },
            None => {
                assert(self.view_map().remove(key@) =~= self.view_map());
                None
            },
        }
    }

    /// Copies of the records that `keep` accepts, each once: exactly the records of the
    /// table that satisfy `p`.
    pub fn values_where<F: RecordFilter<R>>(&self, keep: &F) -> (r: Vec<R>)
        requires
            self.wf(),
        ensures
            lists_map(record_entries(r@).map_values(|e: (Seq<char>, R::V)| e.0), r@.map_values(|x: R| x@), restrict_where(self.view_map(), filter_pred(keep))),
    {
        let ghost p = filter_pred(keep);
        let ghost es = self.entries();
        let mut out: Vec<R> = Vec::new();
        let mut i: usize = 0;
        proof {
            reveal(Seq::filter);
            assert(es.take(0).filter(value_pred(p)) =~= Seq::<(Seq<char>, R::V)>::empty());
            assert(record_entries(out@) =~= Seq::<(Seq<char>, R::V)>::empty());
        }
        while i < self.items.len()
            invariant
                i <= self.items@.len(),
                es == self.entries(),
                p == filter_pred(keep),
                record_entries(out@) == es.take(i as int).filter(value_pred(p)),
            decreases self.items.len() - i,
        {
            let ghost before = out@;
            proof {
                assert(es.take(i + 1) =~= es.take(i as int).push(es[i as int]));
                es.take(i as int).lemma_filter_push(es[i as int], value_pred(p));
            }
            if keep.test(&self.items[i]) {
                let x = self.items[i].duplicate();
                out.push(x);
                proof {
                    assert(record_entries(out@) =~= record_entries(before).push(es[i as int]));
                }
            }
            i = i + 1;
        }
        proof {
            assert(es.take(es.len() as int) =~= es);
            lemma_map_of_filter(es, p);
            let f = es.filter(value_pred(p));
            let m = restrict_where(self.view_map(), p);
            lemma_map_of_len(f);
            let ks = record_entries(out@).map_values(|e: (Seq<char>, R::V)| e.0);
            let vs = out@.map_values(|x: R| x@);
            assert forall|a: int, b: int| 0 <= a < ks.len() && 0 <= b < ks.len() && a != b implies ks[a] != ks[b] by {
                assert(ks[a] == f[a].0 && ks[b] == f[b].0);
            }
            assert forall|a: int| 0 <= a < ks.len() implies #[trigger] m.dom().contains(ks[a]) && m[ks[a]] == vs[a] by {
                assert(ks[a] == f[a].0 && vs[a] == f[a].1);
                lemma_map_of_index(f, a);
            }
            assert forall|k: Seq<char>| #[trigger] m.dom().contains(k) implies ks.contains(k) by {
                let a = choose|a: int| 0 <= a < f.len() && f[a].0 == k;
                assert(ks[a] == k);
            }
        }
        out
    }

    /// Copies of the records that `keep` accepts, each once, latest first.
    pub fn values_where_latest_first<F: RecordFilter<R>>(&self, keep: &F) -> (r: Vec<R>)
        where
            R: Dated,
        requires
            self.wf(),
        ensures
            lists_map(record_entries(r@).map_values(|e: (Seq<char>, R::V)| e.0), record_views(r@), restrict_where(self.view_map(), filter_pred(keep))),
            latest_first::<R>(record_views(r@)),
    {
        let ghost p = filter_pred(keep);
        let ghost es = self.entries();
        let ghost m = self.view_map();
        let mut out: Vec<R> = Vec::new();
        let mut i: usize = 0;
        proof {
            reveal(Seq::filter);
            assert(es.take(0).filter(value_pred(p)) =~= Seq::<(Seq<char>, R::V)>::empty());
            assert(record_views(out@) =~= Seq::<R::V>::empty());
        }
        while i < self.items.len()
            invariant
                i <= self.items@.len(),
                self.wf(),
                es == self.entries(),
                m == self.view_map(),
                p == filter_pred(keep),
                out@.len() == es.take(i as int).filter(value_pred(p)).len(),
                gathered::<R>(record_views(out@), es, i as int, m, p),
            decreases self.items.len() - i,
        {
            proof {
                assert(es.take(i + 1) =~= es.take(i as int).push(es[i as int]));
                es.take(i as int).lemma_filter_push(es[i as int], value_pred(p));
                lemma_map_of_index(es, i as int);
                assert(es[i as int] == (R::key_of(self.items@[i as int]@), self.items@[i as int]@));
            }
            if keep.test(&self.items[i]) {
                let x = self.items[i].duplicate();
                let pos = date_position(&out, x.date());
                let ghost before = record_views(out@);
                out.insert(pos, x);
                proof {
                    assert(record_views(out@) =~= before.insert(pos as int, es[i as int].1));
                    lemma_gathered_insert::<R>(before, pos as int, es, i as int, m, p);
                }
            } else {
                proof {
                    lemma_gathered_skip::<R>(record_views(out@), es, i as int, m, p);
                }
            }
            i = i + 1;
        }
        proof {
            assert(es.take(es.len() as int) =~= es);
            lemma_map_of_filter(es, p);
            let f = es.filter(value_pred(p));
            let rm = restrict_where(m, p);
            lemma_map_of_len(f);
            let vs = record_views(out@);
            let ks = record_entries(out@).map_values(|e: (Seq<char>, R::V)| e.0);
            assert forall|a: int| 0 <= a < ks.len() implies ks[a] == R::key_of(#[trigger] vs[a]) by {
            }
            assert forall|a: int, b: int| 0 <= a < ks.len() && 0 <= b < ks.len() && a != b implies ks[a] != ks[b] by {
                assert(ks[a] == R::key_of(vs[a]));
                assert(ks[b] == R::key_of(vs[b]));
                if a < b {
                    assert(R::key_of(vs[a]) != R::key_of(vs[b]));
                } else {
                    assert(R::key_of(vs[b]) != R::key_of(vs[a]));
                }
            }
            assert forall|a: int| 0 <= a < ks.len() implies #[trigger] rm.dom().contains(ks[a]) && rm[ks[a]] == vs[a] by {
                assert(ks[a] == R::key_of(vs[a]));
                assert(m.dom().contains(R::key_of(vs[a])) && m[R::key_of(vs[a])] == vs[a] && p(vs[a]));
            }
            assert forall|k: Seq<char>| #[trigger] rm.dom().contains(k) implies ks.contains(k) by {
                let j = choose|j: int| 0 <= j < es.len() && es[j].0 == k;
                lemma_map_of_index(es, j);
                let a = choose|a: int| 0 <= a < vs.len() && #[trigger] R::key_of(vs[a]) == es[j].0;
                assert(ks[a] == R::key_of(vs[a]));
            }
            assert(rm.dom().len() == f.len());
        }
        out
    }

    /// Applies `u` to every record, in place.
    pub fn update_each<U: RecordUpdate<R>>(&mut self, u: &U)
        requires
            old(self).wf(),
        ensures
            final(self).wf(),
            final(self).view_map() == old(self).view_map().map_values(update_fn(u)),
    {
        let ghost es = self.entries();
        let ghost f = update_fn(u);
        let mut i: usize = 0;
        while i < self.items.len()
            invariant
                i <= self.items@.len(),
                self.items@.len() == es.len(),
                f == update_fn(u),
                forall|j: int| 0 <= j < i ==> #[trigger] self.entries()[j] == (es[j].0, f(es[j].1)),
                forall|j: int| i <= j < es.len() ==> #[trigger] self.entries()[j] == es[j],
            decreases self.items.len() - i,
        {
            let ghost before = self.entries();
            let x = self.items[i].duplicate();
            assert(before[i as int] == (R::key_of(x@), x@));
            let y = u.run(x);
            self.items.set(i, y);
            proof {
                assert(before[i as int] == es[i as int]);
                assert(f(es[i as int].1) == u.apply(es[i as int].1));
                assert(self.entries() =~= before.update(i as int, (es[i as int].0, f(es[i as int].1))));
            }
            i = i + 1;
        }
        proof {
            assert(self.entries() =~= map_pair_values(es, f));
            lemma_map_of_map_values(es, f);
        }
    }

    /// Copies of all records, each once.
    pub fn values(&self) -> (r: Vec<R>)
        requires
            self.wf(),
        ensures
            lists_map(record_entries(r@).map_values(|e: (Seq<char>, R::V)| e.0), r@.map_values(|x: R| x@), self.view_map()),
    {
        let all = Everything;
        let r = self.values_where(&all);
        assert(restrict_where(self.view_map(), filter_pred::<R, Everything>(&all)) =~= self.view_map());
        r
    }
}

} // verus!
