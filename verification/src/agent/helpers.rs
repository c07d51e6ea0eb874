//! Helpers around a conversation: context, titles, error classes, a key/value memory
//! and an event trajectory.

use vstd::prelude::*;
use crate::agent::conversation::Message;
use crate::keyed::{
    has_key, lemma_map_of_absent, lemma_map_of_empty, lemma_map_of_index, lemma_map_of_push,
    lemma_map_of_update, map_of, unique_keys,
};
use crate::text::{str_eq, str_to_string, string_views};

verus! {

/// The context derived from a conversation history: currently always empty.
pub fn build_context(history: &[Message]) -> (r: String)
    ensures
        r@ == Seq::<char>::empty(),
{
    String::new()
}

/// The title of a conversation: currently always "New Conversation".
pub fn generate_title(conversation: &[Message]) -> (r: String)
    ensures
        r@ == "New Conversation"@,
{
    str_to_string("New Conversation")
}

/// The class of an error message: currently always "unknown".
pub fn classify_error(error: &str) -> (r: String)
    ensures
        r@ == "unknown"@,
{
    str_to_string("unknown")
}

/// Text values stored under text keys.
pub struct MemoryManager {
    memories: Vec<(String, String)>,
}

impl MemoryManager {
    pub closed spec fn entries(&self) -> Seq<(Seq<char>, Seq<char>)> {
        self.memories@.map_values(|e: (String, String)| (e.0@, e.1@))
    }

    /// The stored values, by key.
    pub closed spec fn view(&self) -> Map<Seq<char>, Seq<char>> {
        map_of(self.entries())
    }

    /// Each key is stored once.
    pub closed spec fn wf(&self) -> bool {
        unique_keys(self.entries())
    }

    /// An empty memory.
    pub fn new() -> (r: Self)
        ensures
            r.wf(),
            r.view() == Map::<Seq<char>, Seq<char>>::empty(),
    {
        let r = MemoryManager { memories: Vec::new() };
        proof {
            lemma_map_of_empty(r.entries());
        }
        r
    }

    fn find(&self, key: &str) -> (r: Option<usize>)
        requires
            self.wf(),
        ensures
            match r {
                Some(i) => i < self.memories@.len() && self.memories@[i as int].0@ == key@
                    && self.view().dom().contains(key@)
                    && self.view()[key@] == self.memories@[i as int].1@,
                None => !self.view().dom().contains(key@),
            },
    {
        let mut i: usize = 0;
        while i < self.memories.len()
            invariant
                i <= self.memories@.len(),
                self.wf(),
                forall|j: int| 0 <= j < i ==> #[trigger] self.memories@[j].0@ != key@,
            decreases self.memories.len() - i,
        {
            if str_eq(self.memories[i].0.as_str(), key) {
                proof {
                    lemma_map_of_index(self.entries(), i as int);
                }
                return Some(i);
            }
            i = i + 1;
        }
        proof {
            assert forall|j: int| 0 <= j < self.entries().len() implies #[trigger] self.entries()[j].0 != key@ by {
                assert(self.entries()[j].0 == self.memories@[j].0@);
            }
            lemma_map_of_absent(self.entries(), key@);
        }
        None
    }

    /// Stores `value` under `key`, replacing what was there.
    pub fn store(&mut self, key: &str, value: &str)
        requires
            old(self).wf(),
        ensures
            final(self).wf(),
            final(self).view() == old(self).view().insert(key@, value@),
    {
        let ghost old_entries = self.entries();
        let entry = (str_to_string(key), str_to_string(value));
        match self.find(key) {
            Some(i) => {
                self.memories.set(i, entry);
                proof {
                    assert(self.entries() =~= old_entries.update(i as int, (old_entries[i as int].0, value@)));
                    lemma_map_of_update(old_entries, i as int, value@);
                }
            },
            None => {
                self.memories.push(entry);
                proof {
                    assert(self.entries() =~= old_entries.push((key@, value@)));
                    if has_key(old_entries, key@) {
                        let j = choose|j: int| 0 <= j < old_entries.len() && old_entries[j].0 == key@;
                        lemma_map_of_index(old_entries, j);
                    }
                    lemma_map_of_push(old_entries, key@, value@);
                }
            },
        }
    }

    /// The value stored under `key`, if any.
    pub fn retrieve(&self, key: &str) -> (r: Option<&String>)
        requires
            self.wf(),
        ensures
            match r {
                Some(v) => self.view().dom().contains(key@) && v@ == self.view()[key@],
                None => !self.view().dom().contains(key@),
            },
    {
        match self.find(key) {
            Some(i) => Some(&self.memories[i].1),
            None => None,
        }
    }
}

/// What `retrieve` gives back after `store`: the stored value for that key, and the
/// earlier value for every other key.
pub proof fn law_retrieve_after_store(m: Map<Seq<char>, Seq<char>>, key: Seq<char>, value: Seq<char>, other: Seq<char>)
    requires
        other != key,
    ensures
        m.insert(key, value).dom().contains(key),
        m.insert(key, value)[key] == value,
        m.insert(key, value).dom().contains(other) == m.dom().contains(other),
        m.dom().contains(other) ==> m.insert(key, value)[other] == m[other],
{
}

/// The events recorded, in order.
pub struct Trajectory {
    events: Vec<String>,
}

impl Trajectory {
    /// The recorded events.
    pub closed spec fn view(&self) -> Seq<Seq<char>> {
        string_views(self.events@)
    }

    /// No events yet.
    pub fn new() -> (r: Self)
        ensures
            r.view() == Seq::<Seq<char>>::empty(),
    {
        let r = Trajectory { events: Vec::new() };
        assert(r.view() =~= Seq::<Seq<char>>::empty());
        r
    }

    /// Appends an event.
    pub fn record(&mut self, event: &str)
        ensures
            final(self).view() == old(self).view().push(event@),
    {
        let ghost before = self.events@;
        let e = str_to_string(event);
        self.events.push(e);
        assert(self.events@ == before.push(e));
        assert(self.view() =~= string_views(before).push(event@));
    }

    /// The events recorded so far, oldest first.
    pub fn get_events(&self) -> (r: &[String])
        ensures
            string_views(r@) == self.view(),
    {
        self.events.as_slice()
    }
}

} // verus!
