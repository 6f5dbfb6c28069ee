//! Values grouped by text keys, in the order in which keys and values came.

use vstd::prelude::*;

verus! {

/// The values recorded under one key, in the order in which they came.
pub struct Group<V> {
    pub key: String,
    pub values: Vec<V>,
}

/// What a `Group` holds, as mathematical values.
pub struct GroupView<V> {
    pub key: Seq<char>,
    pub values: Seq<V>,
}

impl<V> View for Group<V> {
    type V = GroupView<V>;

    open spec fn view(&self) -> GroupView<V> {
        GroupView { key: self.key@, values: self.values@ }
    }
}

/// Values grouped by a text key. The groups stand in the order in which their keys first
/// came, the values of a group in the order in which they came. No key has two groups,
/// and no group is empty.
pub struct Grouped<V> {
    groups: Vec<Group<V>>,
}

/// Whether some group of `groups` has the key `key`.
pub open spec fn has_key<V>(groups: Seq<GroupView<V>>, key: Seq<char>) -> bool {
    exists|i: int| 0 <= i < groups.len() && (#[trigger] groups[i]).key == key
}

/// No two groups have the same key.
pub open spec fn distinct_keys<V>(groups: Seq<GroupView<V>>) -> bool {
    forall|i: int, j: int|
        0 <= i < j < groups.len() ==> (#[trigger] groups[i]).key != (#[trigger] groups[j]).key
}

/// Every group has at least one value.
pub open spec fn no_group_empty<V>(groups: Seq<GroupView<V>>) -> bool {
    forall|i: int| 0 <= i < groups.len() ==> (#[trigger] groups[i]).values.len() > 0
}

/// What holds of the groups of every `Grouped`.
pub open spec fn is_grouping<V>(groups: Seq<GroupView<V>>) -> bool {
    distinct_keys(groups) && no_group_empty(groups)
}

/// The place of the group with the key `key`, where there is one.
pub open spec fn key_slot<V>(groups: Seq<GroupView<V>>, key: Seq<char>) -> int {
    choose|i: int| 0 <= i < groups.len() && (#[trigger] groups[i]).key == key
}

/// The values recorded under `key`.
pub open spec fn values_of<V>(groups: Seq<GroupView<V>>, key: Seq<char>) -> Seq<V> {
    groups[key_slot(groups, key)].values
}

/// The groups after one more value was recorded under `key`: it comes last in the group
/// of its key, and a key that had no group gets one behind all others.
pub open spec fn record<V>(groups: Seq<GroupView<V>>, key: Seq<char>, value: V) -> Seq<
    GroupView<V>,
> {
    if has_key(groups, key) {
        let i = key_slot(groups, key);
        groups.update(i, GroupView { key: key, values: groups[i].values.push(value) })
    } else {
        groups.push(GroupView { key: key, values: seq![value] })
    }
}

/// The groups of a vector, as mathematical values.
pub open spec fn groups_view<V>(groups: Seq<Group<V>>) -> Seq<GroupView<V>> {
    Seq::new(groups.len(), |i: int| groups[i]@)
}

/// Recording a value keeps the keys distinct and the groups non-empty.
pub proof fn lemma_record_keeps_grouping<V>(groups: Seq<GroupView<V>>, key: Seq<char>, value: V)
    requires
        is_grouping(groups),
    ensures
        is_grouping(record(groups, key, value)),
{
    let after = record(groups, key, value);
    assert forall|a: int| 0 <= a < after.len() implies (#[trigger] after[a]).values.len() > 0 by {
        if a < groups.len() {
            assert(groups[a].values.len() > 0);
        }
    }
    assert forall|a: int, b: int| 0 <= a < b < after.len() implies (#[trigger] after[a]).key != (
    #[trigger] after[b]).key by {
        assert(after[a].key == groups[a].key);
        if b < groups.len() {
            assert(after[b].key == groups[b].key);
        }
    }
}

/// Recording a value changes no group but that of its key, puts the value last in that
/// group, and removes nothing.
pub proof fn lemma_record_contents<V>(groups: Seq<GroupView<V>>, key: Seq<char>, value: V)
    requires
        is_grouping(groups),
    ensures
        has_key(record(groups, key, value), key),
        values_of(record(groups, key, value), key).len() > 0,
        values_of(record(groups, key, value), key).last() == value,
        has_key(groups, key) ==> values_of(record(groups, key, value), key).drop_last()
            == values_of(groups, key),
        !has_key(groups, key) ==> values_of(record(groups, key, value), key).len() == 1,
        forall|other: Seq<char>|
            other != key ==> has_key(record(groups, key, value), other) == has_key(
                groups,
                other,
            ),
        forall|other: Seq<char>|
            other != key && has_key(groups, other) ==> #[trigger] values_of(
                record(groups, key, value),
                other,
            ) == values_of(groups, other),
{
    let after = record(groups, key, value);
    lemma_record_keeps_grouping(groups, key, value);
    if has_key(groups, key) {
        let i = key_slot(groups, key);
        assert(after[i].key == key);
        assert(key_slot(after, key) == i);
        assert(after[i].values.drop_last() =~= groups[i].values);
        assert forall|other: Seq<char>| other != key implies has_key(after, other) == has_key(
            groups,
            other,
        ) by {
            if has_key(groups, other) {
                let j = key_slot(groups, other);
                assert(after[j].key == other);
            }
            if has_key(after, other) {
                let j = key_slot(after, other);
                assert(groups[j].key == other);
            }
        }
        assert forall|other: Seq<char>| other != key && has_key(groups, other) implies
            #[trigger] values_of(after, other) == values_of(groups, other) by {
            let j = key_slot(groups, other);
            assert(after[j].key == other);
            assert(key_slot(after, other) == j);
        }
    } else {
        let i = groups.len() as int;
        assert(after[i].key == key);
        assert(key_slot(after, key) == i);
        assert forall|other: Seq<char>| other != key implies has_key(after, other) == has_key(
            groups,
            other,
        ) by {
            if has_key(groups, other) {
                let j = key_slot(groups, other);
                assert(after[j].key == other);
            }
            if has_key(after, other) {
                let j = key_slot(after, other);
                assert(groups[j].key == other);
            }
        }
        assert forall|other: Seq<char>| other != key && has_key(groups, other) implies
            #[trigger] values_of(after, other) == values_of(groups, other) by {
            let j = key_slot(groups, other);
            assert(after[j].key == other);
            assert(key_slot(after, other) == j);
        }
    }
}

/// The groups that hold the given values, each recorded under its key, one after the
/// other.
pub open spec fn recorded<V>(pairs: Seq<(Seq<char>, V)>) -> Seq<GroupView<V>>
    decreases pairs.len(),
{
    if pairs.len() == 0 {
        Seq::empty()
    } else {
        record(recorded(pairs.drop_last()), pairs.last().0, pairs.last().1)
    }
}

/// The values that come with the key `key`, in their order.
pub open spec fn values_under<V>(pairs: Seq<(Seq<char>, V)>, key: Seq<char>) -> Seq<V>
    decreases pairs.len(),
{
    if pairs.len() == 0 {
        Seq::empty()
    } else if pairs.last().0 == key {
        values_under(pairs.drop_last(), key).push(pairs.last().1)
    } else {
        values_under(pairs.drop_last(), key)
    }
}

/// Grouping loses nothing and keeps the order: a key has a group exactly where a value
/// came with it, and its group holds the values that came with it, in their order.
pub proof fn lemma_recorded_values<V>(pairs: Seq<(Seq<char>, V)>, key: Seq<char>)
    ensures
        is_grouping(recorded(pairs)),
        has_key(recorded(pairs), key) <==> values_under(pairs, key).len() > 0,
        has_key(recorded(pairs), key) ==> values_of(recorded(pairs), key) == values_under(
            pairs,
            key,
        ),
    decreases pairs.len(),
{
    if pairs.len() > 0 {
        let before = recorded(pairs.drop_last());
        let last = pairs.last();
        lemma_recorded_values(pairs.drop_last(), key);
        lemma_record_keeps_grouping(before, last.0, last.1);
        lemma_record_contents(before, last.0, last.1);
        if last.0 == key {
            let now = values_of(recorded(pairs), key);
            if has_key(before, key) {
                assert(now =~= now.drop_last().push(now.last()));
            } else {
                assert(now =~= seq![last.1]);
                assert(values_under(pairs.drop_last(), key) =~= Seq::<V>::empty());
            }
        }
    } else {
        assert(!has_key(recorded(pairs), key));
    }
}

impl<V> View for Grouped<V> {
    type V = Seq<GroupView<V>>;

    closed spec fn view(&self) -> Seq<GroupView<V>> {
        groups_view(self.groups@)
    }
}

impl<V> Grouped<V> {
    #[verifier::type_invariant]
    spec fn wf(self) -> bool {
        is_grouping(self@)
    }

    /// A grouping without keys.
    pub fn new() -> (grouped: Grouped<V>)
        ensures
            grouped@ == Seq::<GroupView<V>>::empty(),
    {
        Grouped { groups: Vec::new() }
    }

    /// The number of keys.
    pub fn len(&self) -> (n: usize)
        ensures
            n == self@.len(),
            is_grouping(self@),
    {
        proof {
            use_type_invariant(self);
        }
        self.groups.len()
    }

    /// Whether there is no key.
    pub fn is_empty(&self) -> (b: bool)
        ensures
            b == (self@.len() == 0),
    {
        self.groups.len() == 0
    }

    /// The group at place `i`, counted in the order in which the keys first came.
    pub fn entry(&self, i: usize) -> (group: &Group<V>)
        requires
            i < self@.len(),
        ensures
            group@ == self@[i as int],
    {
        &self.groups[i]
    }

    /// The place of the group with the key `key`.
    pub fn find(&self, key: &str) -> (place: Option<usize>)
        ensures
            is_grouping(self@),
            place matches Some(i) ==> i < self@.len() && self@[i as int].key == key@ && i
                == key_slot(self@, key@),
            place is Some == has_key(self@, key@),
    {
        proof {
            use_type_invariant(self);
        }
        let wanted = key.to_owned();
        let mut i: usize = 0;
        while i < self.groups.len()
            invariant
                i <= self.groups.len(),
                wanted@ == key@,
                is_grouping(self@),
                self@.len() == self.groups.len(),
                forall|k: int| 0 <= k < i ==> (#[trigger] self@[k]).key != key@,
            decreases self.groups.len() - i,
        {
            if self.groups[i].key == wanted {
                assert(self@[i as int].key == key@);
                return Some(i);
            }
            i += 1;
        }
        None
    }

    /// Whether there is a group with the key `key`.
    pub fn contains_key(&self, key: &str) -> (b: bool)
        ensures
            b == has_key(self@, key@),
    {
        self.find(key).is_some()
    }

    /// The values recorded under `key`.
    pub fn get(&self, key: &str) -> (values: Option<&Vec<V>>)
        ensures
            values is Some == has_key(self@, key@),
            values matches Some(found) ==> found@ == values_of(self@, key@),
    {
        match self.find(key) {
            Some(i) => Some(&self.groups[i].values),
            None => None,
        }
    }

    /// Records one more value under `key`, behind those already recorded under it; a key
    /// without a group gets one behind all others.
    pub fn insert(&mut self, key: String, value: V)
        ensures
            final(self)@ == record(old(self)@, key@, value),
    {
        proof {
            use_type_invariant(&*self);
        }
        let ghost before = self@;
        let mut groups: Vec<Group<V>> = Vec::new();
        std::mem::swap(&mut self.groups, &mut groups);
        assert(groups_view(groups@) == before);
        let mut i: usize = 0;
        while i < groups.len() && !(groups[i].key == key)
            invariant
                i <= groups.len(),
                groups_view(groups@) == before,
                forall|k: int| 0 <= k < i ==> (#[trigger] groups@[k]).key@ != key@,
            decreases groups.len() - i,
        {
            i += 1;
        }
        if i < groups.len() {
            groups[i].values.push(value);
            assert(before[i as int].key == key@);
            assert(key_slot(before, key@) == i);
        } else {
            let mut values: Vec<V> = Vec::new();
            values.push(value);
            groups.push(Group { key, values });
            assert(!has_key(before, key@));
        }
        proof {
            lemma_record_keeps_grouping(before, key@, value);
            assert(groups_view(groups@) =~= record(before, key@, value));
        }
        self.groups = groups;
    }
}

impl<V> Default for Grouped<V> {
    fn default() -> (grouped: Grouped<V>)
        ensures
            grouped@ == Seq::<GroupView<V>>::empty(),
    {
        Grouped::new()
    }
}

} // verus!
