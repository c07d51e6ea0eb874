//! An inverted index: for each key (a word, a tag, a type), the list of document ids
//! filed under it, one entry per time the id was filed.

use vstd::prelude::*;
use crate::keyed::{has_key, lemma_map_of_absent, lemma_map_of_empty, lemma_map_of_index, lemma_map_of_len, lemma_map_of_push, lemma_map_of_remove, lemma_map_of_update, map_of, unique_keys};
use crate::text::{eq_to, str_eq, string_views};

verus! {

/// The ids filed under `k` (none when `k` has no entry).
pub open spec fn postings(m: Map<Seq<char>, Seq<Seq<char>>>, k: Seq<char>) -> Seq<Seq<char>> {
    if m.dom().contains(k) {
        m[k]
    } else {
        Seq::empty()
    }
}

/// Files `id` once more under `k`.
pub open spec fn add_one(m: Map<Seq<char>, Seq<Seq<char>>>, k: Seq<char>, id: Seq<char>) -> Map<Seq<char>, Seq<Seq<char>>> {
    m.insert(k, postings(m, k).push(id))
}

/// Files `id` under each key of `ks`, in order.
pub open spec fn add_all(m: Map<Seq<char>, Seq<Seq<char>>>, ks: Seq<Seq<char>>, id: Seq<char>) -> Map<Seq<char>, Seq<Seq<char>>>
    decreases ks.len(),
{
    if ks.len() == 0 {
        m
    } else {
        add_one(add_all(m, ks.drop_last(), id), ks.last(), id)
    }
}

/// Ids other than `id`.
pub open spec fn ne(id: Seq<char>) -> spec_fn(Seq<char>) -> bool {
    |d: Seq<char>| d != id
}

/// Removes every filing of `id` under `k`; with `drop_empty`, a key left with no ids
/// loses its entry.
pub open spec fn retain_one(m: Map<Seq<char>, Seq<Seq<char>>>, k: Seq<char>, id: Seq<char>, drop_empty: bool) -> Map<Seq<char>, Seq<Seq<char>>> {
    if m.dom().contains(k) {
        let l = m[k].filter(ne(id));
        if drop_empty && l.len() == 0 {
            m.remove(k)
        } else {
            m.insert(k, l)
        }
    } else {
        m
    }
}

/// Removes the filings of `id` under each key of `ks`, in order.
pub open spec fn retain_all(m: Map<Seq<char>, Seq<Seq<char>>>, ks: Seq<Seq<char>>, id: Seq<char>, drop_empty: bool) -> Map<Seq<char>, Seq<Seq<char>>>
    decreases ks.len(),
{
    if ks.len() == 0 {
        m
    } else {
        retain_one(retain_all(m, ks.drop_last(), id, drop_empty), ks.last(), id, drop_empty)
    }
}

/// An inverted index held as a list of entries with distinct keys.
pub struct PostingIndex {
    entries: Vec<(String, Vec<String>)>,
}

impl PostingIndex {
    pub closed spec fn entry_views(&self) -> Seq<(Seq<char>, Seq<Seq<char>>)> {
        self.entries@.map_values(|e: (String, Vec<String>)| (e.0@, string_views(e.1@)))
    }

    /// The ids filed under each key.
    pub closed spec fn view_map(&self) -> Map<Seq<char>, Seq<Seq<char>>> {
        map_of(self.entry_views())
    }

    /// Each key has one entry.
    pub closed spec fn wf(&self) -> bool {
        unique_keys(self.entry_views())
    }

    /// An index with no entries.
    pub fn new() -> (r: Self)
        ensures
            r.wf(),
            r.view_map() == Map::<Seq<char>, Seq<Seq<char>>>::empty(),
    {
        let r = PostingIndex { entries: Vec::new() };
        proof {
            lemma_map_of_empty(r.entry_views());
        }
        r
    }

    fn position(&self, key: &str) -> (r: Option<usize>)
        requires
            self.wf(),
        ensures
            match r {
                Some(i) => i < self.entries@.len() && self.entries@[i as int].0@ == key@
                    && self.view_map().dom().contains(key@)
                    && self.view_map()[key@] == string_views(self.entries@[i as int].1@),
                None => !self.view_map().dom().contains(key@),
            },
    {
        let mut i: usize = 0;
        while i < self.entries.len()
            invariant
                i <= self.entries@.len(),
                self.wf(),
                forall|j: int| 0 <= j < i ==> #[trigger] self.entries@[j].0@ != key@,
            decreases self.entries.len() - i,
        {
            if str_eq(self.entries[i].0.as_str(), key) {
                proof {
                    lemma_map_of_index(self.entry_views(), i as int);
                }
                return Some(i);
            }
            i = i + 1;
        }
        proof {
            assert forall|j: int| 0 <= j < self.entry_views().len() implies #[trigger] self.entry_views()[j].0 != key@ by {
                assert(self.entry_views()[j].0 == self.entries@[j].0@);
            }
            lemma_map_of_absent(self.entry_views(), key@);
        }
        None
    }

    /// The number of keys.
    pub fn key_count(&self) -> (n: usize)
        requires
            self.wf(),
        ensures
            n == self.view_map().dom().len(),
    {
        proof {
            lemma_map_of_len(self.entry_views());
        }
        self.entries.len()
    }

    /// How many times `id` is filed under `key`.
    pub fn count(&self, key: &str, id: &str) -> (n: usize)
        requires
            self.wf(),
        ensures
            n == postings(self.view_map(), key@).filter(eq_to(id@)).len(),
    {
        match self.position(key) {
            None => {
                proof {
                    assert(Seq::<Seq<char>>::empty().filter(eq_to(id@)) =~= Seq::<Seq<char>>::empty()) by {
                        reveal(Seq::filter);
                    }
                }
                0
            },
            Some(i) => {
                let l = &self.entries[i].1;
                let ghost v = string_views(l@);
                let mut n: usize = 0;
                let mut j: usize = 0;
                proof {
                    assert(v.take(0).filter(eq_to(id@)) =~= Seq::<Seq<char>>::empty()) by {
                        reveal(Seq::filter);
                    }
                }
                while j < l.len()
                    invariant
                        j <= l@.len(),
                        v == string_views(l@),
                        n == v.take(j as int).filter(eq_to(id@)).len(),
                        n <= j,
                    decreases l.len() - j,
                {
                    proof {
                        assert(v.take(j + 1) =~= v.take(j as int).push(v[j as int]));
                        v.take(j as int).lemma_filter_push(v[j as int], eq_to(id@));
                    }
                    if str_eq(l[j].as_str(), id) {
                        n = n + 1;
                    }
                    j = j + 1;
                }
                assert(v.take(v.len() as int) =~= v);
                n
            },
        }
    }

    /// Files `id` once more under `key`.
    pub fn push(&mut self, key: &String, id: &String)
        requires
            old(self).wf(),
        ensures
            final(self).wf(),
            final(self).view_map() == add_one(old(self).view_map(), key@, id@),
    {
        let ghost es = self.entry_views();
        match self.position(key.as_str()) {
            Some(i) => {
                let mut l = self.entries[i].1.clone();
                let ghost before = l@;
                assert(string_views(before) =~= string_views(self.entries@[i as int].1@)) by {
                    assert forall|a: int| 0 <= a < before.len() implies before[a]@ == self.entries@[i as int].1@[a]@ by {
                    }
                }
                l.push(id.clone());
                let ghost lv = string_views(l@);
                assert(lv =~= string_views(before).push(id@));
                let k = self.entries[i].0.clone();
                self.entries.set(i, (k, l));
                proof {
                    assert(self.entry_views() =~= es.update(i as int, (es[i as int].0, lv)));
                    lemma_map_of_update(es, i as int, lv);
                }
            },
            None => {
                let mut l: Vec<String> = Vec::new();
                l.push(id.clone());
                let ghost lv = string_views(l@);
                assert(lv =~= Seq::<Seq<char>>::empty().push(id@));
                self.entries.push((key.clone(), l));
                proof {
                    assert(self.entry_views() =~= es.push((key@, lv)));
                    assert(!has_key(es, key@));
                    lemma_map_of_push(es, key@, lv);
                }
            },
        }
    }

    /// Files `id` under each key of `keys`, in order.
    pub fn push_all(&mut self, keys: &Vec<String>, id: &String)
        requires
            old(self).wf(),
        ensures
            final(self).wf(),
            final(self).view_map() == add_all(old(self).view_map(), string_views(keys@), id@),
    {
        let ghost m0 = self.view_map();
        let ghost ks = string_views(keys@);
        let mut i: usize = 0;
        assert(ks.take(0) =~= Seq::<Seq<char>>::empty());
        while i < keys.len()
            invariant
                i <= keys@.len(),
                ks == string_views(keys@),
                self.wf(),
                self.view_map() == add_all(m0, ks.take(i as int), id@),
            decreases keys.len() - i,
        {
            self.push(&keys[i], id);
            proof {
                assert(ks.take(i + 1).drop_last() =~= ks.take(i as int));
                assert(ks.take(i + 1).last() == keys@[i as int]@);
            }
            i = i + 1;
        }
        assert(ks.take(keys@.len() as int) =~= ks);
    }

    /// Removes every filing of `id` under `key`; with `drop_empty`, drops the entry when
    /// no id is left under it.
    pub fn retain(&mut self, key: &str, id: &str, drop_empty: bool)
        requires
            old(self).wf(),
        ensures
            final(self).wf(),
            final(self).view_map() == retain_one(old(self).view_map(), key@, id@, drop_empty),
    {
        let ghost es = self.entry_views();
        match self.position(key) {
            None => {},
            Some(i) => {
                let ghost v = string_views(self.entries@[i as int].1@);
                let mut kept: Vec<String> = Vec::new();
                let mut j: usize = 0;
                proof {
                    assert(v.take(0).filter(ne(id@)) =~= Seq::<Seq<char>>::empty()) by {
                        reveal(Seq::filter);
                    }
                    assert(string_views(kept@) =~= Seq::<Seq<char>>::empty());
                }
                while j < self.entries[i].1.len()
                    invariant
                        i < self.entries@.len(),
                        j <= self.entries@[i as int].1@.len(),
                        v == string_views(self.entries@[i as int].1@),
                        string_views(kept@) == v.take(j as int).filter(ne(id@)),
                    decreases self.entries@[i as int].1@.len() - j,
                {
                    let ghost before = kept@;
                    proof {
                        assert(v.take(j + 1) =~= v.take(j as int).push(v[j as int]));
                        v.take(j as int).lemma_filter_push(v[j as int], ne(id@));
                    }
                    if !str_eq(self.entries[i].1[j].as_str(), id) {
                        let s = self.entries[i].1[j].clone();
                        kept.push(s);
                        proof {
                            assert(string_views(kept@) =~= string_views(before).push(v[j as int]));
                        }
                    }
                    j = j + 1;
                }
                proof {
                    assert(v.take(v.len() as int) =~= v);
                }
                if drop_empty && kept.len() == 0 {
                    self.entries.remove(i);
                    proof {
                        assert(self.entry_views() =~= es.remove(i as int));
                        lemma_map_of_remove(es, i as int);
                    }
                } else {
                    let k = self.entries[i].0.clone();
                    let ghost kv = string_views(kept@);
                    self.entries.set(i, (k, kept));
                    proof {
                        assert(self.entry_views() =~= es.update(i as int, (es[i as int].0, kv)));
                        lemma_map_of_update(es, i as int, kv);
                    }
                }
            },
        }
    }

    /// Removes the filings of `id` under each key of `keys`, in order.
    pub fn retain_all(&mut self, keys: &Vec<String>, id: &str, drop_empty: bool)
        requires
            old(self).wf(),
        ensures
            final(self).wf(),
            final(self).view_map() == retain_all(old(self).view_map(), string_views(keys@), id@, drop_empty),
    {
        let ghost m0 = self.view_map();
        let ghost ks = string_views(keys@);
        let mut i: usize = 0;
        assert(ks.take(0) =~= Seq::<Seq<char>>::empty());
        while i < keys.len()
            invariant
                i <= keys@.len(),
                ks == string_views(keys@),
                self.wf(),
                self.view_map() == retain_all(m0, ks.take(i as int), id@, drop_empty),
            decreases keys.len() - i,
        {
            self.retain(keys[i].as_str(), id, drop_empty);
            proof {
                assert(ks.take(i + 1).drop_last() =~= ks.take(i as int));
                assert(ks.take(i + 1).last() == keys@[i as int]@);
            }
            i = i + 1;
        }
        assert(ks.take(keys@.len() as int) =~= ks);
    }
}

/// Filing an id under keys files it under each of them.
pub proof fn law_added_is_filed(m: Map<Seq<char>, Seq<Seq<char>>>, ks: Seq<Seq<char>>, id: Seq<char>, k: Seq<char>)
    requires
        ks.contains(k),
    ensures
        postings(add_all(m, ks, id), k).contains(id),
    decreases ks.len(),
{
    let init = ks.drop_last();
    let m1 = add_all(m, init, id);
    if ks.last() == k {
        let l = postings(m1, k).push(id);
        assert(l[l.len() - 1] == id);
    } else {
        let i = choose|i: int| 0 <= i < ks.len() && ks[i] == k;
        assert(i < ks.len() - 1);
        assert(init[i] == k);
        law_added_is_filed(m, init, id, k);
    }
}

/// Unfiling an id from keys leaves it filed under none of them.
pub proof fn law_removed_is_unfiled(m: Map<Seq<char>, Seq<Seq<char>>>, ks: Seq<Seq<char>>, id: Seq<char>, drop_empty: bool, k: Seq<char>)
    requires
        ks.contains(k),
    ensures
        !postings(retain_all(m, ks, id, drop_empty), k).contains(id),
    decreases ks.len(),
{
    broadcast use vstd::seq_lib::group_filter_ensures;
    let init = ks.drop_last();
    let m1 = retain_all(m, init, id, drop_empty);
    if ks.last() == k {
        if m1.dom().contains(k) {
            let l = m1[k].filter(ne(id));
            if l.contains(id) {
                let j = choose|j: int| 0 <= j < l.len() && l[j] == id;
                assert(ne(id)(l[j]));
            }
        }
    } else {
        let i = choose|i: int| 0 <= i < ks.len() && ks[i] == k;
        assert(i < ks.len() - 1);
        assert(init[i] == k);
        law_removed_is_unfiled(m, init, id, drop_empty, k);
        lemma_retain_other(m1, ks.last(), id, drop_empty, k);
    }
}

/// Unfiling under one key leaves the other keys as they were.
pub proof fn lemma_retain_other(m: Map<Seq<char>, Seq<Seq<char>>>, k: Seq<char>, id: Seq<char>, drop_empty: bool, other: Seq<char>)
    requires
        other != k,
    ensures
        postings(retain_one(m, k, id, drop_empty), other) == postings(m, other),
{
}

/// How many times `id` is filed under `k`.
pub open spec fn filings(m: Map<Seq<char>, Seq<Seq<char>>>, k: Seq<char>, id: Seq<char>) -> nat {
    postings(m, k).filter(eq_to(id)).len()
}

proof fn lemma_add_one_filings(m: Map<Seq<char>, Seq<Seq<char>>>, k: Seq<char>, id: Seq<char>, w: Seq<char>, d: Seq<char>)
    ensures
        filings(add_one(m, k, id), w, d) == filings(m, w, d) + (if w == k && d == id { 1int } else { 0int }),
{
    if w == k {
        postings(m, k).lemma_filter_len_push(eq_to(d), id);
    } else {
        assert(postings(add_one(m, k, id), w) == postings(m, w));
    }
}

/// Filing an id under keys files it once more under a key for each time the key occurs
/// among them, and leaves the filings of every other id as they were.
pub proof fn law_add_all_filings(m: Map<Seq<char>, Seq<Seq<char>>>, ks: Seq<Seq<char>>, id: Seq<char>, w: Seq<char>, d: Seq<char>)
    ensures
        filings(add_all(m, ks, id), w, d) == filings(m, w, d) + (if d == id { ks.filter(eq_to(w)).len() as int } else { 0int }),
    decreases ks.len(),
{
    if ks.len() == 0 {
        assert(ks.filter(eq_to(w)).len() == 0) by {
            reveal(Seq::filter);
        }
    } else {
        law_add_all_filings(m, ks.drop_last(), id, w, d);
        lemma_add_one_filings(add_all(m, ks.drop_last(), id), ks.last(), id, w, d);
        ks.drop_last().lemma_filter_len_push(eq_to(w), ks.last());
        assert(ks.drop_last().push(ks.last()) =~= ks);
    }
}

proof fn lemma_filter_other(s: Seq<Seq<char>>, id: Seq<char>, d: Seq<char>)
    requires
        d != id,
    ensures
        s.filter(ne(id)).filter(eq_to(d)).len() == s.filter(eq_to(d)).len(),
    decreases s.len(),
{
    reveal(Seq::filter);
    if s.len() > 0 {
        lemma_filter_other(s.drop_last(), id, d);
        let a = s.drop_last().filter(ne(id));
        if s.last() != id {
            a.lemma_filter_len_push(eq_to(d), s.last());
        }
    }
}

proof fn lemma_retain_one_filings(m: Map<Seq<char>, Seq<Seq<char>>>, k: Seq<char>, id: Seq<char>, drop_empty: bool, w: Seq<char>, d: Seq<char>)
    requires
        d != id || w != k,
    ensures
        filings(retain_one(m, k, id, drop_empty), w, d) == filings(m, w, d),
{
    if w == k && m.dom().contains(k) {
        let l = m[k].filter(ne(id));
        lemma_filter_other(m[k], id, d);
        if drop_empty && l.len() == 0 {
            assert(l.filter(eq_to(d)).len() == 0) by {
                reveal(Seq::filter);
            }
            assert(postings(retain_one(m, k, id, drop_empty), w) == Seq::<Seq<char>>::empty());
            assert(Seq::<Seq<char>>::empty().filter(eq_to(d)).len() == 0) by {
                reveal(Seq::filter);
            }
        }
    } else if w != k {
        lemma_retain_other(m, k, id, drop_empty, w);
    }
}

/// Unfiling an id from keys leaves the filings of every other id as they were, and its
/// own filings under keys not among them.
pub proof fn law_retain_all_filings(m: Map<Seq<char>, Seq<Seq<char>>>, ks: Seq<Seq<char>>, id: Seq<char>, drop_empty: bool, w: Seq<char>, d: Seq<char>)
    requires
        d != id || !ks.contains(w),
    ensures
        filings(retain_all(m, ks, id, drop_empty), w, d) == filings(m, w, d),
    decreases ks.len(),
{
    if ks.len() > 0 {
        assert(d != id || !ks.drop_last().contains(w)) by {
            if ks.drop_last().contains(w) {
                let i = choose|i: int| 0 <= i < ks.drop_last().len() && ks.drop_last()[i] == w;
                assert(ks[i] == w);
            }
        }
        law_retain_all_filings(m, ks.drop_last(), id, drop_empty, w, d);
        assert(d != id || w != ks.last()) by {
            if d == id && w == ks.last() {
                assert(ks[ks.len() - 1] == w);
            }
        }
        lemma_retain_one_filings(retain_all(m, ks.drop_last(), id, drop_empty), ks.last(), id, drop_empty, w, d);
    }
}

} // verus!
