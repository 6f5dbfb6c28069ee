//! A map from text keys to values.

use vstd::prelude::*;

verus! {

/// A text key with its value.
pub struct Entry<V> {
    pub key: String,
    pub value: V,
}

/// A map from text keys to values.
pub struct TextMap<V> {
    entries: Vec<Entry<V>>,
}

/// Whether some entry is for `key`.
pub open spec fn has_entry<V>(entries: Seq<Entry<V>>, key: Seq<char>) -> bool {
    exists|i: int| 0 <= i < entries.len() && (#[trigger] entries[i]).key@ == key
}

/// The place of the entry for `key`, where there is one.
pub open spec fn entry_slot<V>(entries: Seq<Entry<V>>, key: Seq<char>) -> int {
    choose|i: int| 0 <= i < entries.len() && (#[trigger] entries[i]).key@ == key
}

/// No two entries are for the same key.
pub open spec fn distinct_entries<V>(entries: Seq<Entry<V>>) -> bool {
    forall|i: int, j: int|
        0 <= i < j < entries.len() ==> (#[trigger] entries[i]).key@ != (#[trigger] entries[j]).key@
}

/// The map that the entries stand for.
pub open spec fn entries_map<V>(entries: Seq<Entry<V>>) -> Map<Seq<char>, V> {
    Map::new(
        |key: Seq<char>| has_entry(entries, key),
        |key: Seq<char>| entries[entry_slot(entries, key)].value,
    )
}

impl<V> View for TextMap<V> {
    type V = Map<Seq<char>, V>;

    closed spec fn view(&self) -> Map<Seq<char>, V> {
        entries_map(self.entries@)
    }
}

impl<V> TextMap<V> {
    #[verifier::type_invariant]
    spec fn wf(self) -> bool {
        distinct_entries(self.entries@)
    }

    /// A map without entries.
    pub fn new() -> (map: TextMap<V>)
        ensures
            map@ == Map::<Seq<char>, V>::empty(),
    {
        let map: TextMap<V> = TextMap { entries: Vec::new() };
        assert(map@ =~= Map::<Seq<char>, V>::empty());
        map
    }

    /// The keys, in the order in which the places of the map hold them.
    pub closed spec fn keys(self) -> Seq<Seq<char>> {
        Seq::new(self.entries@.len(), |i: int| self.entries@[i].key@)
    }

    /// The number of entries. Every key of the map has one place, below this number.
    pub fn len(&self) -> (n: usize)
        ensures
            n == self@.len(),
            n == self.keys().len(),
            self@.dom().finite(),
            self.keys().no_duplicates(),
            forall|key: Seq<char>| self@.dom().contains(key) <==> self.keys().contains(key),
    {
        proof {
            use_type_invariant(self);
            lemma_entries_map_len(self.entries@);
            assert forall|key: Seq<char>| self@.dom().contains(key) <==> self.keys().contains(
                key,
            ) by {
                if self@.dom().contains(key) {
                    let i = entry_slot(self.entries@, key);
                    assert(self.keys()[i] == key);
                }
                if self.keys().contains(key) {
                    let i = choose|i: int| 0 <= i < self.keys().len() && self.keys()[i] == key;
                    assert(self.entries@[i].key@ == key);
                }
            }
        }
        self.entries.len()
    }

    /// The entry at place `i`.
    pub fn entry(&self, i: usize) -> (entry: &Entry<V>)
        requires
            i < self.keys().len(),
        ensures
            entry.key@ == self.keys()[i as int],
            self@.dom().contains(entry.key@),
            self@[entry.key@] == entry.value,
    {
        proof {
            use_type_invariant(self);
            assert(has_entry(self.entries@, self.entries@[i as int].key@));
        }
        &self.entries[i]
    }

    /// The value remembered for `key`.
    pub fn get(&self, key: &str) -> (found: Option<&V>)
        ensures
            found is Some == self@.dom().contains(key@),
            found matches Some(value) ==> *value == self@[key@],
    {
        proof {
            use_type_invariant(self);
        }
        let wanted = key.to_owned();
        let mut i: usize = 0;
        while i < self.entries.len()
            invariant
                i <= self.entries.len(),
                wanted@ == key@,
                distinct_entries(self.entries@),
                forall|k: int| 0 <= k < i ==> (#[trigger] self.entries@[k]).key@ != key@,
            decreases self.entries.len() - i,
        {
            if self.entries[i].key == wanted {
                assert(has_entry(self.entries@, key@));
                assert(entry_slot(self.entries@, key@) == i);
                return Some(&self.entries[i].value);
            }
            i += 1;
        }
        None
    }

    /// Remembers `value` for `key`, in place of what was remembered for it before.
    pub fn insert(&mut self, key: String, value: V)
        ensures
            final(self)@ == old(self)@.insert(key@, value),
    {
        proof {
            use_type_invariant(&*self);
        }
        let ghost before = self.entries@;
        let mut entries: Vec<Entry<V>> = Vec::new();
        std::mem::swap(&mut self.entries, &mut entries);
        let mut i: usize = 0;
        while i < entries.len() && !(entries[i].key == key)
            invariant
                i <= entries.len(),
                entries@ == before,
                forall|k: int| 0 <= k < i ==> (#[trigger] entries@[k]).key@ != key@,
            decreases entries.len() - i,
        {
            i += 1;
        }
        if i < entries.len() {
            entries.set(i, Entry { key, value });
        } else {
            entries.push(Entry { key, value });
        }
        proof {
            lemma_entries_insert(before, entries@, i as int, key@, value);
        }
        self.entries = entries;
    }
}

impl<V> TextMap<V> {
    /// Whether a value is remembered for `key`.
    pub fn contains_key(&self, key: &str) -> (b: bool)
        ensures
            b == self@.dom().contains(key@),
    {
        self.get(key).is_some()
    }

    /// Forgets what is remembered for `key`.
    pub fn remove(&mut self, key: &str)
        ensures
            final(self)@ == old(self)@.remove(key@),
    {
        proof {
            use_type_invariant(&*self);
        }
        let ghost before = self.entries@;
        let wanted = key.to_owned();
        let mut entries: Vec<Entry<V>> = Vec::new();
        std::mem::swap(&mut self.entries, &mut entries);
        let mut i: usize = 0;
        while i < entries.len() && !(entries[i].key == wanted)
            invariant
                i <= entries.len(),
                entries@ == before,
                wanted@ == key@,
                forall|k: int| 0 <= k < i ==> (#[trigger] entries@[k]).key@ != key@,
            decreases entries.len() - i,
        {
            i += 1;
        }
        if i < entries.len() {
            entries.remove(i);
        }
        proof {
            lemma_entries_remove(before, entries@, i as int, key@);
        }
        self.entries = entries;
    }
}

/// Taking out the entry at the place of a key is removal from the map.
proof fn lemma_entries_remove<V>(
    before: Seq<Entry<V>>,
    after: Seq<Entry<V>>,
    i: int,
    key: Seq<char>,
)
    requires
        distinct_entries(before),
        0 <= i <= before.len(),
        i < before.len() ==> before[i].key@ == key && after == before.remove(i),
        i == before.len() ==> !has_entry(before, key) && after == before,
    ensures
        distinct_entries(after),
        entries_map(after) == entries_map(before).remove(key),
{
    if i < before.len() {
        assert forall|a: int, b: int| 0 <= a < b < after.len() implies (#[trigger] after[a]).key@
            != (#[trigger] after[b]).key@ by {
            let a0 = if a < i {
                a
            } else {
                a + 1
            };
            let b0 = if b < i {
                b
            } else {
                b + 1
            };
            assert(after[a] == before[a0]);
            assert(after[b] == before[b0]);
        }
        assert forall|other: Seq<char>| has_entry(after, other) <==> (has_entry(before, other)
            && other != key) by {
            if has_entry(after, other) {
                let k = entry_slot(after, other);
                let k0 = if k < i {
                    k
                } else {
                    k + 1
                };
                assert(before[k0].key@ == other);
            }
            if has_entry(before, other) && other != key {
                let k = entry_slot(before, other);
                let k1 = if k < i {
                    k
                } else {
                    k - 1
                };
                assert(after[k1].key@ == other);
            }
        }
        assert forall|other: Seq<char>| has_entry(after, other) implies entries_map(after)[other]
            == entries_map(before)[other] by {
            let k = entry_slot(after, other);
            let k0 = if k < i {
                k
            } else {
                k + 1
            };
            assert(before[k0].key@ == other);
            assert(entry_slot(before, other) == k0);
        }
        assert(entries_map(after) =~= entries_map(before).remove(key));
    } else {
        assert(entries_map(after) =~= entries_map(before).remove(key));
    }
}

/// Distinct entries stand for a map with as many keys.
pub proof fn lemma_entries_map_len<V>(entries: Seq<Entry<V>>)
    requires
        distinct_entries(entries),
    ensures
        entries_map(entries).dom().finite(),
        entries_map(entries).len() == entries.len(),
    decreases entries.len(),
{
    if entries.len() == 0 {
        assert(entries_map(entries).dom() =~= Set::<Seq<char>>::empty());
    } else {
        let rest = entries.drop_last();
        let last = entries.last();
        lemma_entries_map_len(rest);
        assert(!has_entry(rest, last.key@)) by {
            if has_entry(rest, last.key@) {
                let i = entry_slot(rest, last.key@);
                assert(entries[i].key@ == entries[entries.len() - 1].key@);
            }
        }
        assert(entries_map(entries).dom() =~= entries_map(rest).dom().insert(last.key@)) by {
            assert forall|key: Seq<char>| has_entry(entries, key) <==> (has_entry(rest, key)
                || key == last.key@) by {
                if has_entry(entries, key) {
                    let i = entry_slot(entries, key);
                    if i < rest.len() {
                        assert(rest[i].key@ == key);
                    }
                }
                if has_entry(rest, key) {
                    let i = entry_slot(rest, key);
                    assert(entries[i].key@ == key);
                }
                if key == last.key@ {
                    assert(entries[entries.len() - 1].key@ == key);
                }
            }
        }
    }
}

/// Writing an entry at the place of its key, or behind all others where the key is
/// new, is insertion into the map.
proof fn lemma_entries_insert<V>(
    before: Seq<Entry<V>>,
    after: Seq<Entry<V>>,
    i: int,
    key: Seq<char>,
    value: V,
)
    requires
        distinct_entries(before),
        0 <= i <= before.len(),
        i < before.len() ==> before[i].key@ == key,
        i == before.len() ==> !has_entry(before, key),
        after.len() == if i < before.len() {
            before.len()
        } else {
            before.len() + 1
        },
        after[i].key@ == key,
        after[i].value == value,
        forall|k: int| 0 <= k < before.len() && k != i ==> after[k] == before[k],
    ensures
        distinct_entries(after),
        entries_map(after) == entries_map(before).insert(key, value),
{
    assert forall|a: int, b: int| 0 <= a < b < after.len() implies (#[trigger] after[a]).key@ != (
    #[trigger] after[b]).key@ by {
        if a < before.len() {
            assert(after[a].key@ == before[a].key@);
        }
        if b < before.len() {
            assert(after[b].key@ == before[b].key@);
        }
    }
    assert forall|other: Seq<char>| has_entry(after, other) <==> (has_entry(before, other) || other
        == key) by {
        if has_entry(after, other) {
            let k = entry_slot(after, other);
            if k != i {
                assert(before[k].key@ == other);
            }
        }
        if has_entry(before, other) {
            let k = entry_slot(before, other);
            assert(after[k].key@ == other);
        }
        if other == key {
            assert(after[i].key@ == other);
        }
    }
    assert forall|other: Seq<char>| has_entry(after, other) implies entries_map(after)[other]
        == entries_map(before).insert(key, value)[other] by {
        let k = entry_slot(after, other);
        if other == key {
            assert(k == i);
        } else {
            assert(before[k].key@ == other);
            assert(entry_slot(before, other) == k);
        }
    }
    assert(entries_map(after) =~= entries_map(before).insert(key, value));
}

} // verus!
