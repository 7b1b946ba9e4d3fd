//! A map whose keys are kept in order, as a sorted list of entries.

use vstd::prelude::*;

use crate::text::{lemma_text_order, sorts_before, text_less};

verus! {

/// A key with a strict total order on what it stands for.
pub trait OrderedKey: Sized {
    /// What the key stands for.
    type Id;

    spec fn id(&self) -> Self::Id;

    spec fn less(left: Self::Id, right: Self::Id) -> bool;

    proof fn lemma_order(a: Self::Id, b: Self::Id, c: Self::Id)
        ensures
            !Self::less(a, a),
            Self::less(a, b) && Self::less(b, c) ==> Self::less(a, c),
            a != b ==> Self::less(a, b) || Self::less(b, a),
    ;

    fn before(&self, other: &Self) -> (before: bool)
        ensures
            before == Self::less(self.id(), other.id()),
    ;
}

impl OrderedKey for String {
    type Id = Seq<char>;

    open spec fn id(&self) -> Seq<char> {
        self@
    }

    open spec fn less(left: Seq<char>, right: Seq<char>) -> bool {
        text_less(left, right)
    }

    proof fn lemma_order(a: Seq<char>, b: Seq<char>, c: Seq<char>) {
        lemma_text_order(a, b, c);
    }

    fn before(&self, other: &Self) -> (before: bool) {
        sorts_before(self.as_str(), other.as_str())
    }
}

impl OrderedKey for u128 {
    type Id = u128;

    open spec fn id(&self) -> u128 {
        *self
    }

    open spec fn less(left: u128, right: u128) -> bool {
        left < right
    }

    proof fn lemma_order(a: u128, b: u128, c: u128) {
    }

    fn before(&self, other: &Self) -> (before: bool) {
        *self < *other
    }
}

impl OrderedKey for u32 {
    type Id = u32;

    open spec fn id(&self) -> u32 {
        *self
    }

    open spec fn less(left: u32, right: u32) -> bool {
        left < right
    }

    proof fn lemma_order(a: u32, b: u32, c: u32) {
    }

    fn before(&self, other: &Self) -> (before: bool) {
        *self < *other
    }
}

impl OrderedKey for u64 {
    type Id = u64;

    open spec fn id(&self) -> u64 {
        *self
    }

    open spec fn less(left: u64, right: u64) -> bool {
        left < right
    }

    proof fn lemma_order(a: u64, b: u64, c: u64) {
    }

    fn before(&self, other: &Self) -> (before: bool) {
        *self < *other
    }
}

impl OrderedKey for i64 {
    type Id = i64;

    open spec fn id(&self) -> i64 {
        *self
    }

    open spec fn less(left: i64, right: i64) -> bool {
        left < right
    }

    proof fn lemma_order(a: i64, b: i64, c: i64) {
    }

    fn before(&self, other: &Self) -> (before: bool) {
        *self < *other
    }
}

/// Pairs are ordered by their first parts, equal ones by their second.
impl<A: OrderedKey, B: OrderedKey> OrderedKey for (A, B) {
    type Id = (A::Id, B::Id);

    open spec fn id(&self) -> (A::Id, B::Id) {
        (self.0.id(), self.1.id())
    }

    open spec fn less(left: (A::Id, B::Id), right: (A::Id, B::Id)) -> bool {
        A::less(left.0, right.0) || (left.0 == right.0 && B::less(left.1, right.1))
    }

    proof fn lemma_order(a: (A::Id, B::Id), b: (A::Id, B::Id), c: (A::Id, B::Id)) {
        A::lemma_order(a.0, b.0, c.0);
        B::lemma_order(a.1, b.1, c.1);
    }

    fn before(&self, other: &Self) -> (before: bool) {
        if self.0.before(&other.0) {
            return true;
        }
        let after = other.0.before(&self.0);
        proof {
            A::lemma_order(self.0.id(), other.0.id(), self.0.id());
        }
        !after && self.1.before(&other.1)
    }
}

/// Entries in strictly increasing order of their keys.
#[derive(Debug)]
pub struct OrderedMap<K, V> {
    pub entries: Vec<(K, V)>,
}

/// What the keys of some entries stand for.
pub open spec fn entry_ids<K: OrderedKey, V>(entries: Seq<(K, V)>) -> Seq<K::Id> {
    entries.map_values(|entry: (K, V)| entry.0.id())
}

pub open spec fn ids_increase<K: OrderedKey>(ids: Seq<K::Id>) -> bool {
    forall|i: int, j: int|
        0 <= i < j < ids.len() ==> K::less(#[trigger] ids[i], #[trigger] ids[j])
}

/// The map that a list of entries stands for.
pub open spec fn entries_map<K: OrderedKey, V>(entries: Seq<(K, V)>) -> Map<K::Id, V> {
    Map::new(
        |id: K::Id| entry_ids(entries).contains(id),
        |id: K::Id| entries[entry_ids(entries).index_of(id)].1,
    )
}

impl<K: OrderedKey, V> View for OrderedMap<K, V> {
    type V = Map<K::Id, V>;

    open spec fn view(&self) -> Map<K::Id, V> {
        entries_map(self.entries@)
    }
}

pub proof fn lemma_entry<K: OrderedKey, V>(entries: Seq<(K, V)>, index: int)
    requires
        ids_increase::<K>(entry_ids(entries)),
        0 <= index < entries.len(),
    ensures
        entries_map(entries).contains_key(entries[index].0.id()),
        entries_map(entries)[entries[index].0.id()] == entries[index].1,
{
    let ids = entry_ids(entries);
    let id = entries[index].0.id();
    assert(ids[index] == id);
    let found = ids.index_of(id);
    assert(ids[found] == id);
    K::lemma_order(id, id, id);
    if found < index {
        assert(K::less(ids[found], ids[index]));
    } else if index < found {
        assert(K::less(ids[index], ids[found]));
    }
}

/// Entries with the same keys and values stand for the same map.
pub proof fn lemma_same_entries<K: OrderedKey, V>(left: Seq<(K, V)>, right: Seq<(K, V)>)
    requires
        entry_ids(left) == entry_ids(right),
        forall|i: int| 0 <= i < left.len() ==> (#[trigger] left[i]).1 == right[i].1,
    ensures
        entries_map(left) == entries_map(right),
{
    let ids = entry_ids(left);
    assert(left.len() == ids.len() && right.len() == ids.len());
    assert forall|id: K::Id| ids.contains(id) implies left[ids.index_of(id)].1
        == right[ids.index_of(id)].1 by {
        assert(0 <= ids.index_of(id) < ids.len());
        let entry = left[ids.index_of(id)];
    }
    assert(entries_map(left) =~= entries_map(right));
}

impl<K: OrderedKey, V> OrderedMap<K, V> {
    /// The keys in order.
    pub open spec fn keys(&self) -> Seq<K::Id> {
        entry_ids(self.entries@)
    }

    pub open spec fn wf(&self) -> bool {
        ids_increase::<K>(self.keys())
    }

    pub fn new() -> (map: Self)
        ensures
            map.wf(),
            map@ == Map::<K::Id, V>::empty(),
            map.entries@.len() == 0,
    {
        let map = OrderedMap { entries: Vec::new() };
        assert(map@ =~= Map::<K::Id, V>::empty());
        map
    }

    pub fn len(&self) -> (count: usize)
        ensures
            count == self.entries@.len(),
            count == self.keys().len(),
    {
        self.entries.len()
    }

    /// The position of the first entry whose key is not before `key`, and
    /// whether that entry has the key.
    pub fn find(&self, key: &K) -> (found: (usize, bool))
        requires
            self.wf(),
        ensures
            found.0 <= self.entries@.len(),
            forall|i: int|
                0 <= i < found.0 ==> K::less(#[trigger] self.keys()[i], key.id()),
            forall|i: int|
                found.0 <= i < self.keys().len() ==> (#[trigger] self.keys()[i] == key.id()
                    && found.1 && i == found.0) || K::less(key.id(), self.keys()[i]),
            found.1 == self@.contains_key(key.id()),
            found.1 ==> found.0 < self.entries@.len() && self.keys()[found.0 as int] == key.id()
                && self@[key.id()] == self.entries@[found.0 as int].1,
    {
        let mut position: usize = 0;
        while position < self.entries.len() && self.entries[position].0.before(key)
            invariant
                position <= self.entries@.len(),
                self.wf(),
                forall|i: int|
                    0 <= i < position ==> K::less(#[trigger] self.keys()[i], key.id()),
            decreases self.entries.len() - position,
        {
            assert(self.keys()[position as int] == self.entries@[position as int].0.id());
            position += 1;
        }
        let ghost ids = self.keys();
        if position < self.entries.len() && !key.before(&self.entries[position].0) {
            proof {
                assert(ids[position as int] == self.entries@[position as int].0.id());
                K::lemma_order(ids[position as int], key.id(), key.id());
                assert(ids[position as int] == key.id());
                assert forall|i: int| position < i < ids.len() implies K::less(
                    key.id(),
                    #[trigger] ids[i],
                ) by {
                    assert(K::less(ids[position as int], ids[i]));
                }
                lemma_entry(self.entries@, position as int);
            }
            return (position, true);
        }
        proof {
            assert forall|i: int| position <= i < ids.len() implies K::less(
                key.id(),
                #[trigger] ids[i],
            ) by {
                assert(ids[position as int] == self.entries@[position as int].0.id());
                if i > position {
                    assert(K::less(ids[position as int], ids[i]));
                    K::lemma_order(key.id(), ids[position as int], ids[i]);
                }
            }
            if self@.contains_key(key.id()) {
                let i = ids.index_of(key.id());
                K::lemma_order(key.id(), key.id(), key.id());
                assert(ids[i] == key.id());
            }
        }
        (position, false)
    }

    pub fn contains(&self, key: &K) -> (found: bool)
        requires
            self.wf(),
        ensures
            found == self@.contains_key(key.id()),
    {
        self.find(key).1
    }

    pub fn get(&self, key: &K) -> (value: Option<&V>)
        requires
            self.wf(),
        ensures
            match value {
                Some(value) => self@.contains_key(key.id()) && *value == self@[key.id()],
                None => !self@.contains_key(key.id()),
            },
    {
        let (position, found) = self.find(key);
        if found {
            Some(&self.entries[position].1)
        } else {
            None
        }
    }

    /// Puts a value under a key, in place of the one that stood there.
    pub fn insert(&mut self, key: K, value: V)
        requires
            old(self).wf(),
        ensures
            final(self).wf(),
            final(self)@ == old(self)@.insert(key.id(), value),
            final(self).entries@.len() == old(self).entries@.len() + if old(self)@.contains_key(
                key.id(),
            ) {
                0int
            } else {
                1
            },
    {
        let (position, found) = self.find(&key);
        let ghost before = self.entries@;
        let ghost ids = self.keys();
        let ghost id = key.id();
        let ghost p = position as int;
        if found {
            self.entries.set(position, (key, value));
            proof {
                let after = self.entries@;
                assert(entry_ids(after) =~= ids);
                assert forall|other: K::Id| entries_map(after).contains_key(other) implies (
                #[trigger] entries_map(after)[other]) == entries_map(before).insert(id, value)[other]
                by {
                    let i = ids.index_of(other);
                    assert(ids[i] == other);
                    lemma_entry(after, i);
                    lemma_entry(before, i);
                    if other == id {
                        lemma_entry(after, p);
                    }
                }
                assert(ids[p] == id);
                assert(entries_map(after) =~= entries_map(before).insert(id, value));
            }
        } else {
            self.entries.insert(position, (key, value));
            proof {
                let after = self.entries@;
                let new_ids = entry_ids(after);
                assert(new_ids =~= ids.insert(p, id));
                assert forall|i: int, j: int| 0 <= i < j < new_ids.len() implies K::less(
                    #[trigger] new_ids[i],
                    #[trigger] new_ids[j],
                ) by {
                    if j < p {
                        assert(new_ids[i] == ids[i] && new_ids[j] == ids[j]);
                    } else if j == p {
                        assert(new_ids[i] == ids[i]);
                    } else if i < p {
                        assert(new_ids[i] == ids[i] && new_ids[j] == ids[j - 1]);
                    } else if i == p {
                        assert(new_ids[j] == ids[j - 1]);
                    } else {
                        assert(new_ids[i] == ids[i - 1] && new_ids[j] == ids[j - 1]);
                    }
                }
                assert forall|other: K::Id| #[trigger]
                    entries_map(after).contains_key(other) == entries_map(before).insert(
                        id,
                        value,
                    ).contains_key(other) by {
                    if new_ids.contains(other) {
                        let i = new_ids.index_of(other);
                        if i < p {
                            assert(ids[i] == other);
                        } else if i > p {
                            assert(ids[i - 1] == other);
                        }
                    }
                    if ids.contains(other) {
                        let i = ids.index_of(other);
                        if i < p {
                            assert(new_ids[i] == other);
                        } else {
                            assert(new_ids[i + 1] == other);
                        }
                    }
                    assert(new_ids[p] == id);
                }
                assert forall|other: K::Id| entries_map(after).contains_key(other) implies (
                #[trigger] entries_map(after)[other]) == entries_map(before).insert(id, value)[other]
                by {
                    let i = new_ids.index_of(other);
                    assert(new_ids[i] == other);
                    lemma_entry(after, i);
                    if i < p {
                        lemma_entry(before, i);
                        assert(ids[i] == other);
                    } else if i > p {
                        lemma_entry(before, i - 1);
                        assert(ids[i - 1] == other);
                    }
                }
                assert(entries_map(after) =~= entries_map(before).insert(id, value));
            }
        }
    }

    /// Takes the entry at a position out.
    pub fn remove_at(&mut self, position: usize) -> (entry: (K, V))
        requires
            old(self).wf(),
            position < old(self).entries@.len(),
        ensures
            final(self).wf(),
            entry == old(self).entries@[position as int],
            final(self)@ == old(self)@.remove(old(self).keys()[position as int]),
            final(self).entries@ == old(self).entries@.remove(position as int),
    {
        let ghost before = self.entries@;
        let ghost ids = self.keys();
        let ghost p = position as int;
        let ghost id = ids[p];
        let entry = self.entries.remove(position);
        proof {
            let after = self.entries@;
            let new_ids = entry_ids(after);
            assert(new_ids =~= ids.remove(p));
            assert forall|i: int, j: int| 0 <= i < j < new_ids.len() implies K::less(
                #[trigger] new_ids[i],
                #[trigger] new_ids[j],
            ) by {
                let a = if i < p {
                    i
                } else {
                    i + 1
                };
                let b = if j < p {
                    j
                } else {
                    j + 1
                };
                assert(new_ids[i] == ids[a] && new_ids[j] == ids[b]);
            }
            assert forall|other: K::Id| #[trigger]
                entries_map(after).contains_key(other) == entries_map(before).remove(
                    id,
                ).contains_key(other) by {
                if new_ids.contains(other) {
                    let i = new_ids.index_of(other);
                    let a = if i < p {
                        i
                    } else {
                        i + 1
                    };
                    assert(ids[a] == other);
                    K::lemma_order(id, id, id);
                    if a < p {
                        assert(K::less(ids[a], ids[p]));
                    } else {
                        assert(K::less(ids[p], ids[a]));
                    }
                }
                if ids.contains(other) && other != id {
                    let i = ids.index_of(other);
                    if i < p {
                        assert(new_ids[i] == other);
                    } else {
                        assert(new_ids[i - 1] == other);
                    }
                }
            }
            assert forall|other: K::Id| entries_map(after).contains_key(other) implies (
            #[trigger] entries_map(after)[other]) == entries_map(before).remove(id)[other] by {
                let i = new_ids.index_of(other);
                assert(new_ids[i] == other);
                lemma_entry(after, i);
                if i < p {
                    lemma_entry(before, i);
                } else {
                    lemma_entry(before, i + 1);
                }
            }
            assert(entries_map(after) =~= entries_map(before).remove(id));
        }
        entry
    }

    /// Replaces the value at a position.
    pub fn replace_at(&mut self, position: usize, value: V)
        requires
            old(self).wf(),
            position < old(self).entries@.len(),
        ensures
            final(self).wf(),
            final(self).keys() == old(self).keys(),
            final(self)@ == old(self)@.insert(old(self).keys()[position as int], value),
            final(self).entries@.len() == old(self).entries@.len(),
            final(self).entries@[position as int].1 == value,
            forall|i: int|
                0 <= i < old(self).entries@.len() && i != position ==> #[trigger] final(self).entries@[i]
                    == old(self).entries@[i],
    {
        let ghost before = self.entries@;
        let ghost ids = self.keys();
        let ghost p = position as int;
        self.entries[position].1 = value;
        proof {
            let after = self.entries@;
            assert(entry_ids(after) =~= ids);
            let id = ids[p];
            assert forall|other: K::Id| entries_map(after).contains_key(other) implies (
            #[trigger] entries_map(after)[other]) == entries_map(before).insert(id, value)[other] by {
                let i = ids.index_of(other);
                assert(ids[i] == other);
                lemma_entry(after, i);
                lemma_entry(before, i);
                lemma_entry(after, p);
            }
            assert(entries_map(after) =~= entries_map(before).insert(id, value));
        }
    }

    /// Takes the value under a key out.
    pub fn remove(&mut self, key: &K) -> (value: Option<V>)
        requires
            old(self).wf(),
        ensures
            final(self).wf(),
            final(self)@ == old(self)@.remove(key.id()),
            match value {
                Some(value) => old(self)@.contains_key(key.id()) && value == old(self)@[key.id()]
                    && final(self).entries@.len() == old(self).entries@.len() - 1,
                None => !old(self)@.contains_key(key.id()) && *final(self) == *old(self),
            },
    {
        let (position, found) = self.find(key);
        if found {
            let (_, value) = self.remove_at(position);
            Some(value)
        } else {
            assert(self@.remove(key.id()) =~= self@);
            None
        }
    }
}

/// The keys of a map are the ids of its entries, each once.
pub proof fn lemma_keys_are_domain<K: OrderedKey, V>(map: OrderedMap<K, V>)
    requires
        map.wf(),
    ensures
        map@.dom() =~= map.keys().to_set(),
        map@.dom().finite(),
        map@.len() == map.entries@.len(),
{
    let ids = map.keys();
    assert forall|i: int, j: int| 0 <= i < j < ids.len() implies ids[i] != ids[j] by {
        K::lemma_order(ids[i], ids[i], ids[i]);
        assert(K::less(ids[i], ids[j]));
    }
    ids.unique_seq_to_set();
    assert(map@.dom() =~= ids.to_set());
}

} // verus!
