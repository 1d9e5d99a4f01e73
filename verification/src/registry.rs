//! The bookkeeping of a connection: what is registered under an invocation
//! or stream id (a response channel, a running task, the sink of an upload
//! stream), as a map from ids to handles.

use vstd::prelude::*;
use vstd::string::*;

verus! {

/// One registration.
struct Entry<H> {
    key: String,
    handle: H,
}

/// Handles registered under string ids; each id holds at most one handle.
pub struct Registry<H> {
    entries: Vec<Entry<H>>,
}

/// The keys of `entries` are pairwise different.
spec fn spec_distinct_keys<H>(entries: Seq<Entry<H>>) -> bool {
    forall|i: int, j: int|
        0 <= i < entries.len() && 0 <= j < entries.len() && i != j ==> (#[trigger] entries[i]).key@
            != (#[trigger] entries[j]).key@
}

/// Whether `k` is the key of one of `entries`.
spec fn spec_has_key<H>(entries: Seq<Entry<H>>, k: Seq<char>) -> bool {
    exists|i: int| 0 <= i < entries.len() && (#[trigger] entries[i]).key@ == k
}

/// The map that `entries` stand for.
spec fn spec_entries_map<H>(entries: Seq<Entry<H>>) -> Map<Seq<char>, H> {
    Map::new(
        |k: Seq<char>| spec_has_key(entries, k),
        |k: Seq<char>|
            entries[choose|i: int| 0 <= i < entries.len() && (#[trigger] entries[i]).key@ == k].handle,
    )
}

proof fn lemma_entry_in_map<H>(entries: Seq<Entry<H>>, i: int)
    requires
        spec_distinct_keys(entries),
        0 <= i < entries.len(),
    ensures
        spec_entries_map(entries).contains_key(entries[i].key@),
        spec_entries_map(entries)[entries[i].key@] == entries[i].handle,
{
    let k = entries[i].key@;
    assert(spec_has_key(entries, k));
    let j = choose|j: int| 0 <= j < entries.len() && (#[trigger] entries[j]).key@ == k;
    assert(j == i);
}

proof fn lemma_map_after_remove<H>(entries: Seq<Entry<H>>, i: int)
    requires
        spec_distinct_keys(entries),
        0 <= i < entries.len(),
    ensures
        spec_distinct_keys(entries.remove(i)),
        spec_entries_map(entries.remove(i)) == spec_entries_map(entries).remove(entries[i].key@),
{
    let rest = entries.remove(i);
    let k = entries[i].key@;
    assert forall|a: int, b: int|
        0 <= a < rest.len() && 0 <= b < rest.len() && a != b implies (#[trigger] rest[a]).key@
        != (#[trigger] rest[b]).key@ by {
        let a2 = if a < i {
            a
        } else {
            a + 1
        };
        let b2 = if b < i {
            b
        } else {
            b + 1
        };
        assert(rest[a] == entries[a2]);
        assert(rest[b] == entries[b2]);
    }
    let m = spec_entries_map(entries).remove(k);
    let m2 = spec_entries_map(rest);
    assert forall|key: Seq<char>| m2.contains_key(key) <==> m.contains_key(key) by {
        if m2.contains_key(key) {
            let a = choose|a: int| 0 <= a < rest.len() && (#[trigger] rest[a]).key@ == key;
            let a2 = if a < i {
                a
            } else {
                a + 1
            };
            assert(rest[a] == entries[a2]);
            assert(spec_has_key(entries, key));
            assert(key != k);
        }
        if m.contains_key(key) {
            let a = choose|a: int| 0 <= a < entries.len() && (#[trigger] entries[a]).key@ == key;
            assert(a != i);
            let a2 = if a < i {
                a
            } else {
                a - 1
            };
            assert(rest[a2] == entries[a]);
            assert(spec_has_key(rest, key));
        }
    }
    assert forall|key: Seq<char>| #[trigger] m2.contains_key(key) implies m2[key] == m[key] by {
        let a = choose|a: int| 0 <= a < rest.len() && (#[trigger] rest[a]).key@ == key;
        let a2 = if a < i {
            a
        } else {
            a + 1
        };
        assert(rest[a] == entries[a2]);
        lemma_entry_in_map(rest, a);
        lemma_entry_in_map(entries, a2);
    }
    assert(m2 =~= m);
}

proof fn lemma_map_after_push<H>(entries: Seq<Entry<H>>, e: Entry<H>)
    requires
        spec_distinct_keys(entries),
        !spec_has_key(entries, e.key@),
    ensures
        spec_distinct_keys(entries.push(e)),
        spec_entries_map(entries.push(e)) == spec_entries_map(entries).insert(e.key@, e.handle),
{
    let s = entries.push(e);
    assert forall|a: int, b: int|
        0 <= a < s.len() && 0 <= b < s.len() && a != b implies (#[trigger] s[a]).key@
        != (#[trigger] s[b]).key@ by {
        if a == entries.len() {
            assert(s[b] == entries[b]);
        } else if b == entries.len() {
            assert(s[a] == entries[a]);
        } else {
            assert(s[a] == entries[a]);
            assert(s[b] == entries[b]);
        }
    }
    let m = spec_entries_map(entries).insert(e.key@, e.handle);
    let m2 = spec_entries_map(s);
    assert forall|key: Seq<char>| m2.contains_key(key) <==> m.contains_key(key) by {
        if m2.contains_key(key) && key != e.key@ {
            let a = choose|a: int| 0 <= a < s.len() && (#[trigger] s[a]).key@ == key;
            assert(s[a] == entries[a]);
            assert(spec_has_key(entries, key));
        }
        if m.contains_key(key) && key != e.key@ {
            let a = choose|a: int| 0 <= a < entries.len() && (#[trigger] entries[a]).key@ == key;
            assert(s[a] == entries[a]);
            assert(spec_has_key(s, key));
        }
        if key == e.key@ {
            assert(s[entries.len() as int] == e);
            assert(spec_has_key(s, key));
        }
    }
    assert forall|key: Seq<char>| #[trigger] m2.contains_key(key) implies m2[key] == m[key] by {
        let a = choose|a: int| 0 <= a < s.len() && (#[trigger] s[a]).key@ == key;
        lemma_entry_in_map(s, a);
        if a < entries.len() {
            assert(s[a] == entries[a]);
            lemma_entry_in_map(entries, a);
        }
    }
    assert(m2 =~= m);
}

/// The keys of `entries`, in order.
spec fn spec_keys<H>(entries: Seq<Entry<H>>) -> Seq<Seq<char>> {
    Seq::new(entries.len(), |i: int| entries[i].key@)
}

proof fn lemma_map_len<H>(entries: Seq<Entry<H>>)
    requires
        spec_distinct_keys(entries),
    ensures
        spec_entries_map(entries).len() == entries.len(),
{
    let keys = spec_keys(entries);
    assert(keys.no_duplicates()) by {
        assert forall|i: int, j: int|
            0 <= i < keys.len() && 0 <= j < keys.len() && i != j implies keys[i] != keys[j] by {
            assert(keys[i] == entries[i].key@);
            assert(keys[j] == entries[j].key@);
        }
    }
    keys.unique_seq_to_set();
    assert forall|k: Seq<char>| spec_entries_map(entries).dom().contains(k) <==> #[trigger] keys.to_set().contains(k) by {
        if spec_has_key(entries, k) {
            let a = choose|a: int| 0 <= a < entries.len() && (#[trigger] entries[a]).key@ == k;
            assert(keys[a] == k);
        }
        if keys.contains(k) {
            let a = choose|a: int| 0 <= a < keys.len() && keys[a] == k;
            assert(entries[a].key@ == k);
        }
    }
    assert(spec_entries_map(entries).dom() =~= keys.to_set());
}

impl<H> View for Registry<H> {
    type V = Map<Seq<char>, H>;

    closed spec fn view(&self) -> Map<Seq<char>, H> {
        spec_entries_map(self.entries@)
    }
}

impl<H> Registry<H> {
    /// No id holds two handles.
    #[verifier::type_invariant]
    spec fn inv(self) -> bool {
        spec_distinct_keys(self.entries@)
    }

    /// An empty registry.
    pub fn new() -> (r: Self)
        ensures
            r@ == Map::<Seq<char>, H>::empty(),
    {
        let r = Registry { entries: Vec::new() };
        assert(r@ =~= Map::<Seq<char>, H>::empty());
        r
    }

    /// The number of registrations.
    pub fn len(&self) -> (r: usize)
        ensures
            r == self@.len(),
    {
        proof {
            use_type_invariant(self);
            lemma_map_len(self.entries@);
        }
        self.entries.len()
    }

    /// The position of `key`, if it is registered.
    fn find(&self, key: &String) -> (r: Option<usize>)
        ensures
            match r {
                Some(i) => i < self.entries@.len() && self.entries@[i as int].key@ == key@,
                None => !spec_has_key(self.entries@, key@),
            },
    {
        let mut i: usize = 0;
        while i < self.entries.len()
            invariant
                i <= self.entries@.len(),
                forall|j: int| 0 <= j < i ==> (#[trigger] self.entries@[j]).key@ != key@,
            decreases self.entries@.len() - i,
        {
            if self.entries[i].key == *key {
                return Some(i);
            }
            i = i + 1;
        }
        None
    }

    /// Whether `key` is registered.
    pub fn contains_key(&self, key: &str) -> (r: bool)
        ensures
            r == self@.contains_key(key@),
    {
        let k = key.to_owned();
        self.find(&k).is_some()
    }

    /// The handle registered under `key`.
    pub fn get(&self, key: &str) -> (r: Option<&H>)
        ensures
            match r {
                Some(h) => self@.contains_key(key@) && *h == self@[key@],
                None => !self@.contains_key(key@),
            },
    {
        proof {
            use_type_invariant(self);
        }
        let k = key.to_owned();
        match self.find(&k) {
            Some(i) => {
                proof {
                    lemma_entry_in_map(self.entries@, i as int);
                }
                Some(&self.entries[i].handle)
            },
            None => None,
        }
    }

    /// Removes the registration of `key` and returns its handle.
    pub fn remove(&mut self, key: &str) -> (r: Option<H>)
        ensures
            match r {
                Some(h) => old(self)@.contains_key(key@) && h == old(self)@[key@] && final(self)@
                    == old(self)@.remove(key@),
                None => !old(self)@.contains_key(key@) && final(self)@ == old(self)@,
            },
    {
        proof {
            use_type_invariant(&*self);
        }
        let k = key.to_owned();
        match self.find(&k) {
            Some(i) => {
                proof {
                    lemma_entry_in_map(self.entries@, i as int);
                    lemma_map_after_remove(self.entries@, i as int);
                }
                let mut entries: Vec<Entry<H>> = Vec::new();
                std::mem::swap(&mut entries, &mut self.entries);
                let e = entries.remove(i);
                self.entries = entries;
                Some(e.handle)
            },
            None => None,
        }
    }

    /// Registers `handle` under `key`, in place of any handle registered
    /// under it before, which it returns.
    pub fn insert(&mut self, key: String, handle: H) -> (r: Option<H>)
        ensures
            final(self)@ == old(self)@.insert(key@, handle),
            match r {
                Some(h) => old(self)@.contains_key(key@) && h == old(self)@[key@],
                None => !old(self)@.contains_key(key@),
            },
    {
        proof {
            use_type_invariant(&*self);
        }
        let previous = match self.find(&key) {
            Some(i) => {
                proof {
                    lemma_entry_in_map(self.entries@, i as int);
                    lemma_map_after_remove(self.entries@, i as int);
                }
                let mut entries: Vec<Entry<H>> = Vec::new();
                std::mem::swap(&mut entries, &mut self.entries);
                let e = entries.remove(i);
                self.entries = entries;
                Some(e.handle)
            },
            None => None,
        };
        let ghost before = self.entries@;
        let ghost kv = key@;
        proof {
            assert(!spec_has_key(before, kv)) by {
                if spec_has_key(before, kv) {
                    let a = choose|a: int| 0 <= a < before.len() && (#[trigger] before[a]).key@ == kv;
                    lemma_entry_in_map(before, a);
                }
            }
            lemma_map_after_push(before, Entry { key, handle });
        }
        let mut entries: Vec<Entry<H>> = Vec::new();
        std::mem::swap(&mut entries, &mut self.entries);
        entries.push(Entry { key, handle });
        self.entries = entries;
        previous
    }
}

} // verus!
