//! A mapping from strings to strings with unique keys, as carried by the
//! annotations and labels of a resource.

use vstd::prelude::*;

verus! {

/// One key with its value.
struct Entry {
    key: String,
    value: String,
}

/// Position `i` of `entries` holds the key `key`.
spec fn holds_key_at(entries: Seq<Entry>, key: Seq<char>, i: int) -> bool {
    0 <= i < entries.len() && entries[i].key@ == key
}

/// No key stands at two positions.
spec fn distinct_keys(entries: Seq<Entry>) -> bool {
    forall|i: int, j: int| 0 <= i < j < entries.len() ==> entries[i].key@ != entries[j].key@
}

/// The mapping that a list of entries stands for.
spec fn entries_map(entries: Seq<Entry>) -> Map<Seq<char>, Seq<char>> {
    Map::new(
        |k: Seq<char>| exists|i: int| holds_key_at(entries, k, i),
        |k: Seq<char>| entries[choose|i: int| holds_key_at(entries, k, i)].value@,
    )
}

/// In a list with distinct keys, the entry at `i` gives the value of its key.
proof fn lemma_entry_value(entries: Seq<Entry>, i: int)
    requires
        distinct_keys(entries),
        0 <= i < entries.len(),
    ensures
        entries_map(entries).contains_key(entries[i].key@),
        entries_map(entries)[entries[i].key@] == entries[i].value@,
{
    let k = entries[i].key@;
    assert(holds_key_at(entries, k, i));
    let c = choose|c: int| holds_key_at(entries, k, c);
    assert(holds_key_at(entries, k, c));
    assert(c == i);
}

/// Replacing the value at `i` writes that value under the key at `i`.
proof fn lemma_update_value(before: Seq<Entry>, after: Seq<Entry>, i: int)
    requires
        distinct_keys(before),
        0 <= i < before.len(),
        after.len() == before.len(),
        forall|j: int| 0 <= j < before.len() ==> #[trigger] after[j].key@ == before[j].key@,
        forall|j: int| 0 <= j < before.len() && j != i ==> #[trigger] after[j].value@ == before[j].value@,
    ensures
        distinct_keys(after),
        entries_map(after) =~= entries_map(before).insert(before[i].key@, after[i].value@),
{
    let target = entries_map(before).insert(before[i].key@, after[i].value@);
    assert forall|k: Seq<char>| entries_map(after).contains_key(k) implies target.contains_key(k) by {
        let c = choose|c: int| holds_key_at(after, k, c);
        assert(holds_key_at(before, k, c));
    }
    assert forall|k: Seq<char>| target.contains_key(k) implies entries_map(after).contains_key(k) by {
        if k == before[i].key@ {
            assert(holds_key_at(after, k, i));
        } else {
            let c = choose|c: int| holds_key_at(before, k, c);
            assert(holds_key_at(after, k, c));
        }
    }
    assert forall|k: Seq<char>| entries_map(after).contains_key(k) implies entries_map(after)[k]
        == target[k] by {
        let c = choose|c: int| holds_key_at(after, k, c);
        assert(holds_key_at(after, k, c));
        lemma_entry_value(after, c);
        if c != i {
            lemma_entry_value(before, c);
        }
    }
}

/// Appending an entry with a new key adds that key with its value.
proof fn lemma_push_entry(before: Seq<Entry>, e: Entry)
    requires
        distinct_keys(before),
        forall|j: int| 0 <= j < before.len() ==> before[j].key@ != e.key@,
    ensures
        distinct_keys(before.push(e)),
        entries_map(before.push(e)) =~= entries_map(before).insert(e.key@, e.value@),
{
    let after = before.push(e);
    let target = entries_map(before).insert(e.key@, e.value@);
    assert forall|k: Seq<char>| entries_map(after).contains_key(k) implies target.contains_key(k) by {
        let c = choose|c: int| holds_key_at(after, k, c);
        if c < before.len() {
            assert(holds_key_at(before, k, c));
        }
    }
    assert forall|k: Seq<char>| target.contains_key(k) implies entries_map(after).contains_key(k) by {
        if k == e.key@ {
            assert(holds_key_at(after, k, before.len() as int));
        } else {
            let c = choose|c: int| holds_key_at(before, k, c);
            assert(holds_key_at(after, k, c));
        }
    }
    assert forall|k: Seq<char>| entries_map(after).contains_key(k) implies entries_map(after)[k]
        == target[k] by {
        let c = choose|c: int| holds_key_at(after, k, c);
        assert(holds_key_at(after, k, c));
        lemma_entry_value(after, c);
        if c < before.len() {
            lemma_entry_value(before, c);
        }
    }
}

/// A mapping from strings to strings. Each key occurs once; the order in
/// which the entries were written carries no meaning.
pub struct Metadata {
    entries: Vec<Entry>,
}

impl View for Metadata {
    type V = Map<Seq<char>, Seq<char>>;

    closed spec fn view(&self) -> Map<Seq<char>, Seq<char>> {
        entries_map(self.entries@)
    }
}

impl Metadata {
    #[verifier::type_invariant]
    spec fn keys_are_unique(&self) -> bool {
        distinct_keys(self.entries@)
    }

    /// The empty mapping.
    pub fn new() -> (r: Metadata)
        ensures
            r@ == Map::<Seq<char>, Seq<char>>::empty(),
    {
        let r = Metadata { entries: Vec::new() };
        assert(r@ =~= Map::<Seq<char>, Seq<char>>::empty());
        r
    }

    /// The value stored under `key`, if there is one.
    pub fn get(&self, key: &String) -> (r: Option<&String>)
        ensures
            r.is_some() == self@.contains_key(key@),
            r matches Some(v) ==> v@ == self@[key@],
    {
        proof {
            use_type_invariant(self);
        }
        let mut i: usize = 0;
        while i < self.entries.len()
            invariant
                i <= self.entries.len(),
                distinct_keys(self.entries@),
                forall|j: int| 0 <= j < i ==> self.entries@[j].key@ != key@,
            decreases self.entries.len() - i,
        {
            if self.entries[i].key == *key {
                proof {
                    lemma_entry_value(self.entries@, i as int);
                }
                return Some(&self.entries[i].value);
            }
            i += 1;
        }
        assert(!self@.contains_key(key@)) by {
            if self@.contains_key(key@) {
                let c = choose|c: int| holds_key_at(self.entries@, key@, c);
                assert(holds_key_at(self.entries@, key@, c));
            }
        }
        None
    }

    /// Writes `value` under `key`, replacing what was stored there; every
    /// other key keeps its value.
    pub fn insert(&mut self, key: String, value: String)
        ensures
            final(self)@ == old(self)@.insert(key@, value@),
    {
        proof {
            use_type_invariant(&*self);
        }
        let mut entries: Vec<Entry> = Vec::new();
        std::mem::swap(&mut self.entries, &mut entries);
        let ghost before = entries@;
        let mut i: usize = 0;
        while i < entries.len()
            invariant
                i <= entries.len(),
                entries@ == before,
                before == old(self).entries@,
                distinct_keys(before),
                forall|j: int| 0 <= j < i ==> entries@[j].key@ != key@,
            decreases entries.len() - i,
        {
            if entries[i].key == key {
                entries.set(i, Entry { key, value });
                proof {
                    lemma_update_value(before, entries@, i as int);
                }
                self.entries = entries;
                return ;
            }
            i += 1;
        }
        let e = Entry { key, value };
        proof {
            lemma_push_entry(before, e);
        }
        entries.push(e);
        self.entries = entries;
    }

    /// A copy that shares nothing with `self`.
    pub fn snapshot(&self) -> (r: Metadata)
        ensures
            r@ == self@,
    {
        proof {
            use_type_invariant(self);
        }
        let mut copy: Vec<Entry> = Vec::new();
        let mut i: usize = 0;
        while i < self.entries.len()
            invariant
                i <= self.entries.len(),
                copy@.len() == i,
                forall|j: int| 0 <= j < i ==> #[trigger] copy@[j] == self.entries@[j],
            decreases self.entries.len() - i,
        {
            let e = Entry { key: self.entries[i].key.clone(), value: self.entries[i].value.clone() };
            copy.push(e);
            i += 1;
        }
        assert(copy@ =~= self.entries@);
        Metadata { entries: copy }
    }

    /// The entries as pairs of key and value, each key once.
    pub fn pairs(&self) -> (r: Vec<(String, String)>)
        ensures
            forall|i: int|
                0 <= i < r@.len() ==> self@.contains_key(#[trigger] r@[i].0@) && self@[r@[i].0@]
                    == r@[i].1@,
            forall|k: Seq<char>|
                self@.contains_key(k) ==> exists|i: int| 0 <= i < r@.len() && #[trigger] r@[i].0@ == k,
            forall|i: int, j: int| 0 <= i < j < r@.len() ==> r@[i].0@ != r@[j].0@,
    {
        proof {
            use_type_invariant(self);
        }
        let mut out: Vec<(String, String)> = Vec::new();
        let mut i: usize = 0;
        while i < self.entries.len()
            invariant
                i <= self.entries.len(),
                out@.len() == i,
                forall|j: int|
                    0 <= j < i ==> (#[trigger] out@[j]).0@ == self.entries@[j].key@ && out@[j].1@
                        == self.entries@[j].value@,
            decreases self.entries.len() - i,
        {
            out.push((self.entries[i].key.clone(), self.entries[i].value.clone()));
            i += 1;
        }
        proof {
            assert forall|j: int| 0 <= j < out@.len() implies self@.contains_key(
                #[trigger] out@[j].0@,
            ) && self@[out@[j].0@] == out@[j].1@ by {
                lemma_entry_value(self.entries@, j);
            }
            assert forall|k: Seq<char>| self@.contains_key(k) implies exists|j: int|
                0 <= j < out@.len() && #[trigger] out@[j].0@ == k by {
                let c = choose|c: int| holds_key_at(self.entries@, k, c);
                assert(holds_key_at(self.entries@, k, c));
                assert(out@[c].0@ == k);
            }
        }
        out
    }
}

} // verus!
