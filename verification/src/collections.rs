//! Insertion-ordered collections keyed by strings.
//!
//! Keys are held in an `indexmap::IndexSet<String>`, which finds a key's
//! position by hashing; the values of a map live beside it in a `Vec`, one
//! per key, at the key's position.

use indexmap::IndexSet;
use vstd::prelude::*;

verus! {

/// `indexmap::IndexSet`, taken as it is: nothing is known of a set but
/// what the functions below say.
#[verifier::external_type_specification]
#[verifier::external_body]
#[verifier::reject_recursive_types(T)]
#[verifier::reject_recursive_types(S)]
pub struct ExIndexSet<T, S>(IndexSet<T, S>);

/// The items of a set of strings, in insertion order, each by its characters.
pub uninterp spec fn set_items(set: IndexSet<String>) -> Seq<Seq<char>>;

/// `IndexSet::new`: a fresh set holds nothing.
#[verifier::external_body]
pub(crate) fn set_new() -> (set: IndexSet<String>)
    ensures
        set_items(set) == Seq::<Seq<char>>::empty(),
{
    IndexSet::new()
}

/// `IndexSet::len`: the number of items.
#[verifier::external_body]
pub(crate) fn set_len(set: &IndexSet<String>) -> (n: usize)
    ensures
        n == set_items(*set).len(),
{
    set.len()
}

/// `IndexSet::get_index_of`: the position of an item equal to `key`, or
/// `None` when the set holds no such item.
#[verifier::external_body]
pub(crate) fn set_index_of(set: &IndexSet<String>, key: &str) -> (found: Option<usize>)
    ensures
        match found {
            Some(i) => i < set_items(*set).len() && set_items(*set)[i as int] == key@,
            None => !set_items(*set).contains(key@),
        },
{
    set.get_index_of(key)
}

/// `IndexSet::get_index`: the item at a position below the length.
#[verifier::external_body]
pub(crate) fn set_item_at(set: &IndexSet<String>, index: usize) -> (item: &String)
    requires
        index < set_items(*set).len(),
    ensures
        item@ == set_items(*set)[index as int],
{
    set.get_index(index).unwrap()
}

/// `IndexSet::insert_full`: an item that is already held keeps its place and
/// the set is unchanged; a new item is appended at the end. Returns the
/// item's position and whether it was new.
#[verifier::external_body]
pub(crate) fn set_insert(set: &mut IndexSet<String>, key: String) -> (placed: (usize, bool))
    ensures
        placed.0 < set_items(*final(set)).len(),
        set_items(*final(set))[placed.0 as int] == key@,
        placed.1 == !set_items(*old(set)).contains(key@),
        placed.1 ==> set_items(*final(set)) == set_items(*old(set)).push(key@),
        !placed.1 ==> set_items(*final(set)) == set_items(*old(set)),
{
    set.insert_full(key)
}

/// `IndexSet::clone`: the copy holds the same items in the same order.
#[verifier::external_body]
pub(crate) fn set_clone(set: &IndexSet<String>) -> (copy: IndexSet<String>)
    ensures
        set_items(copy) == set_items(*set),
{
    set.clone()
}

/// An insertion-ordered set of strings.
#[derive(Debug, PartialEq)]
pub struct StringSet {
    items: IndexSet<String>,
}

impl StringSet {
    #[verifier::type_invariant]
    spec fn inv(self) -> bool {
        set_items(self.items).no_duplicates()
    }

    /// The items in insertion order.
    pub closed spec fn view(&self) -> Seq<Seq<char>> {
        set_items(self.items)
    }

    pub fn new() -> (set: Self)
        ensures
            set@ == Seq::<Seq<char>>::empty(),
    {
        StringSet { items: set_new() }
    }

    pub fn len(&self) -> (n: usize)
        ensures
            n == self@.len(),
            self@.no_duplicates(),
    {
        proof {
            use_type_invariant(self);
        }
        set_len(&self.items)
    }

    pub fn contains(&self, item: &str) -> (held: bool)
        ensures
            held == self@.contains(item@),
    {
        set_index_of(&self.items, item).is_some()
    }

    /// The item at `index`.
    pub fn item_at(&self, index: usize) -> (item: &String)
        requires
            index < self@.len(),
        ensures
            item@ == self@[index as int],
    {
        set_item_at(&self.items, index)
    }

    /// Adds `item` at the end unless it is already held; returns whether it
    /// was added.
    pub fn insert(&mut self, item: String) -> (added: bool)
        ensures
            added == !old(self)@.contains(item@),
            added ==> final(self)@ == old(self)@.push(item@),
            !added ==> final(self)@ == old(self)@,
            final(self)@.no_duplicates(),
    {
        proof {
            use_type_invariant(&*self);
        }
        let mut taken = StringSet::new();
        core::mem::swap(self, &mut taken);
        let StringSet { items } = taken;
        let mut items = items;
        let ghost before = set_items(items);
        let placed = set_insert(&mut items, item);
        proof {
            if placed.1 {
                lemma_push_keeps_distinct(before, item@);
            }
        }
        *self = StringSet { items };
        placed.1
    }

    pub fn duplicate(&self) -> (copy: Self)
        ensures
            copy@ == self@,
    {
        proof {
            use_type_invariant(self);
        }
        StringSet { items: set_clone(&self.items) }
    }
}

/// A sequence without repetition stays so when something it lacks is appended.
pub proof fn lemma_push_keeps_distinct<A>(s: Seq<A>, a: A)
    requires
        s.no_duplicates(),
        !s.contains(a),
    ensures
        s.push(a).no_duplicates(),
{
    let t = s.push(a);
    assert forall|i: int, j: int| 0 <= i < t.len() && 0 <= j < t.len() && i != j implies t[i]
        != t[j] by {
        if i < s.len() && j < s.len() {
        } else if i < s.len() {
            assert(s.contains(s[i]));
        } else {
            assert(s.contains(s[j]));
        }
    }
}

/// In a sequence without repetition, an item does not occur among those
/// before it, and appending it to them gives the next longer prefix.
pub proof fn lemma_prefix_lacks_next<A>(s: Seq<A>, i: int)
    requires
        s.no_duplicates(),
        0 <= i < s.len(),
    ensures
        !s.take(i).contains(s[i]),
        s.take(i).push(s[i]) == s.take(i + 1),
{
    if s.take(i).contains(s[i]) {
        let j = choose|j: int| 0 <= j < s.take(i).len() && s.take(i)[j] == s[i];
        assert(s[j] == s[i]);
    }
    assert(s.take(i).push(s[i]) =~= s.take(i + 1));
}

/// The keys of a list of entries.
pub open spec fn entry_keys<W>(entries: Seq<(Seq<char>, W)>) -> Seq<Seq<char>> {
    Seq::new(entries.len(), |i: int| entries[i].0)
}

/// The value that a list of entries holds under `key`.
pub open spec fn found<W>(entries: Seq<(Seq<char>, W)>, key: Seq<char>) -> Option<W> {
    if entry_keys(entries).contains(key) {
        Some(entries[entry_keys(entries).index_of(key)].1)
    } else {
        None
    }
}

/// A list of entries with `value` stored under `key`: in place of the entry
/// that has the key, or at the end where none has it.
pub open spec fn stored<W>(entries: Seq<(Seq<char>, W)>, key: Seq<char>, value: W) -> Seq<
    (Seq<char>, W),
> {
    if entry_keys(entries).contains(key) {
        entries.update(entry_keys(entries).index_of(key), (key, value))
    } else {
        entries.push((key, value))
    }
}

/// An insertion-ordered map from strings to values of type `V`.
///
/// The key at position `i` of `keys()` belongs to the value at position `i`
/// of `values()`; no key occurs twice.
#[derive(Debug, PartialEq)]
pub struct OrderedMap<V> {
    keys: IndexSet<String>,
    values: Vec<V>,
}

impl<V> OrderedMap<V> {
    #[verifier::type_invariant]
    spec fn inv(self) -> bool {
        &&& set_items(self.keys).no_duplicates()
        &&& set_items(self.keys).len() == self.values@.len()
    }

    /// The keys in insertion order.
    pub closed spec fn keys(&self) -> Seq<Seq<char>> {
        set_items(self.keys)
    }

    /// The values, each at the position of its key.
    pub closed spec fn values(&self) -> Seq<V> {
        self.values@
    }

    /// Whether `key` is present.
    pub open spec fn has(&self, key: Seq<char>) -> bool {
        self.keys().contains(key)
    }

    /// The position of `key`, where it is present.
    pub open spec fn position(&self, key: Seq<char>) -> int {
        self.keys().index_of(key)
    }

    /// The value stored under `key`, where it is present.
    pub open spec fn value_of(&self, key: Seq<char>) -> V {
        self.values()[self.position(key)]
    }

    /// The entries in order, each value seen through `f`.
    pub open spec fn entries<W>(&self, f: spec_fn(V) -> W) -> Seq<(Seq<char>, W)> {
        Seq::new(self.keys().len(), |i: int| (self.keys()[i], f(self.values()[i])))
    }

    /// Seen through `f`, the map holds under every key what it holds.
    pub proof fn lemma_entries<W>(&self, f: spec_fn(V) -> W)
        requires
            self.keys().len() == self.values().len(),
        ensures
            self.entries(f).len() == self.keys().len(),
            entry_keys(self.entries(f)) == self.keys(),
            forall|i: int|
                0 <= i < self.keys().len() ==> #[trigger] self.entries(f)[i] == (
                    self.keys()[i],
                    f(self.values()[i]),
                ),
            forall|key: Seq<char>|
                self.has(key) ==> #[trigger] found(self.entries(f), key) == Some(
                    f(self.value_of(key)),
                ),
            forall|key: Seq<char>| !self.has(key) ==> #[trigger] found(self.entries(f), key) is None,
    {
        assert(entry_keys(self.entries(f)) =~= self.keys());
    }

    /// Whether this map is `before` with something stored under `key`:
    /// the key keeps its place or is appended, and every other entry is as
    /// it was.
    pub open spec fn is_update_of(&self, before: Self, key: Seq<char>) -> bool {
        &&& self.keys() == if before.has(key) {
            before.keys()
        } else {
            before.keys().push(key)
        }
        &&& self.values().len() == self.keys().len()
        &&& self.has(key)
        &&& forall|i: int|
            0 <= i < before.keys().len() && before.keys()[i] != key ==> #[trigger] self.values()[i]
                == before.values()[i]
    }

    /// Seen through `f`, a map with something stored under `key` is the
    /// list of entries before with the new value stored under the key.
    pub proof fn lemma_update_entries<W>(&self, before: Self, key: Seq<char>, f: spec_fn(V) -> W)
        requires
            self.is_update_of(before, key),
            before.keys().no_duplicates(),
            before.keys().len() == before.values().len(),
        ensures
            self.entries(f) == stored(before.entries(f), key, f(self.value_of(key))),
            entry_keys(before.entries(f)) == before.keys(),
    {
        let old_entries = before.entries(f);
        assert(entry_keys(old_entries) =~= before.keys());
        if before.has(key) {
            let at = before.keys().index_of(key);
            assert(before.keys()[at] == key);
            assert(self.keys()[at] == key);
            assert(self.position(key) == at) by {
                let p = self.keys().index_of(key);
                assert(self.keys()[p] == key);
            }
            assert(self.entries(f) =~= old_entries.update(at, (key, f(self.value_of(key)))));
        } else {
            let at = before.keys().len() as int;
            assert(self.keys()[at] == key);
            assert(self.keys().no_duplicates()) by {
                lemma_push_keeps_distinct(before.keys(), key);
            }
            assert(self.position(key) == at) by {
                let p = self.keys().index_of(key);
                assert(self.keys()[p] == key);
            }
            assert forall|i: int| 0 <= i < before.keys().len() implies before.keys()[i] != key by {
                if before.keys()[i] == key {
                    assert(before.keys().contains(key));
                }
            }
            assert(self.entries(f) =~= old_entries.push((key, f(self.value_of(key)))));
        }
    }

    pub fn new() -> (map: Self)
        ensures
            map.keys() == Seq::<Seq<char>>::empty(),
            map.values() == Seq::<V>::empty(),
    {
        OrderedMap { keys: set_new(), values: Vec::new() }
    }

    /// The number of entries; also recalls that keys are distinct and paired
    /// with the values.
    pub fn len(&self) -> (n: usize)
        ensures
            n == self.keys().len(),
            n == self.values().len(),
            self.keys().no_duplicates(),
    {
        proof {
            use_type_invariant(self);
        }
        self.values.len()
    }

    /// Recalls what holds of every map: its keys are distinct, and every
    /// key has its value.
    pub fn note_shape(&self)
        ensures
            self.keys().no_duplicates(),
            self.keys().len() == self.values().len(),
    {
        proof {
            use_type_invariant(self);
        }
    }

    pub fn is_empty(&self) -> (empty: bool)
        ensures
            empty == (self.keys().len() == 0),
    {
        self.len() == 0
    }

    pub fn index_of(&self, key: &str) -> (found: Option<usize>)
        ensures
            found is Some == self.has(key@),
            found is Some ==> found->0 == self.position(key@) && found->0 < self.keys().len()
                && self.keys()[found->0 as int] == key@,
    {
        proof {
            use_type_invariant(self);
        }
        let found = set_index_of(&self.keys, key);
        proof {
            if let Some(i) = found {
                assert(self.keys().contains(key@));
                let j = self.keys().index_of(key@);
                assert(self.keys()[j] == key@);
            }
        }
        found
    }

    pub fn contains_key(&self, key: &str) -> (held: bool)
        ensures
            held == self.has(key@),
    {
        self.index_of(key).is_some()
    }

    pub fn get(&self, key: &str) -> (found: Option<&V>)
        ensures
            found is Some == self.has(key@),
            found is Some ==> *found->0 == self.value_of(key@),
    {
        proof {
            use_type_invariant(self);
        }
        match self.index_of(key) {
            Some(i) => Some(&self.values[i]),
            None => None,
        }
    }

    pub fn key_at(&self, index: usize) -> (key: &String)
        requires
            index < self.keys().len(),
        ensures
            key@ == self.keys()[index as int],
    {
        set_item_at(&self.keys, index)
    }

    pub fn value_at(&self, index: usize) -> (value: &V)
        requires
            index < self.keys().len(),
        ensures
            *value == self.values()[index as int],
    {
        proof {
            use_type_invariant(self);
        }
        &self.values[index]
    }

    /// Stores `value` under `key`: a key that is present keeps its position
    /// and gets the new value, a new key is appended.
    pub fn insert(&mut self, key: String, value: V)
        ensures
            old(self).has(key@) ==> final(self).keys() == old(self).keys() && final(self).values()
                == old(self).values().update(old(self).position(key@), value),
            !old(self).has(key@) ==> final(self).keys() == old(self).keys().push(key@)
                && final(self).values() == old(self).values().push(value),
            final(self).keys().no_duplicates(),
            final(self).keys().len() == final(self).values().len(),
            old(self).keys().no_duplicates(),
            old(self).keys().len() == old(self).values().len(),
            final(self).is_update_of(*old(self), key@),
            final(self).value_of(key@) == value,
    {
        proof {
            use_type_invariant(&*self);
        }
        let mut taken = OrderedMap::new();
        core::mem::swap(self, &mut taken);
        let OrderedMap { keys, values } = taken;
        let mut keys = keys;
        let mut values = values;
        let ghost before = set_items(keys);
        let placed = set_insert(&mut keys, key);
        if placed.1 {
            proof {
                lemma_push_keeps_distinct(before, key@);
            }
            values.push(value);
        } else {
            proof {
                let j = before.index_of(key@);
                assert(before[j] == key@);
            }
            values.set(placed.0, value);
        }
        *self = OrderedMap { keys, values };
        proof {
            let at = self.keys().index_of(key@);
            assert(self.keys()[placed.0 as int] == key@);
            assert(self.keys().contains(key@));
            assert(self.keys()[at] == key@);
            assert(at == placed.0);
        }
    }

    /// A map with the same keys in the same order, each value made from
    /// the value here by `f`.
    pub fn map_values<W, F: Fn(&V) -> W>(&self, f: F) -> (out: OrderedMap<W>)
        requires
            forall|v: &V| #[trigger] f.requires((v,)),
        ensures
            out.keys() == self.keys(),
            out.values().len() == self.values().len(),
            self.keys().len() == self.values().len(),
            forall|i: int|
                0 <= i < self.values().len() ==> f.ensures(
                    (&self.values()[i],),
                    #[trigger] out.values()[i],
                ),
    {
        proof {
            use_type_invariant(self);
        }
        let mut values: Vec<W> = Vec::new();
        let mut i: usize = 0;
        while i < self.values.len()
            invariant
                i <= self.values@.len(),
                values@.len() == i,
                forall|v: &V| #[trigger] f.requires((v,)),
                forall|j: int|
                    0 <= j < i ==> f.ensures((&self.values@[j],), #[trigger] values@[j]),
            decreases self.values@.len() - i,
        {
            let w = f(&self.values[i]);
            values.push(w);
            i += 1;
        }
        OrderedMap { keys: set_clone(&self.keys), values }
    }

    /// The keys in order, as a list of their own.
    pub fn key_list(&self) -> (list: Vec<String>)
        ensures
            list@.len() == self.keys().len(),
            forall|i: int| 0 <= i < list@.len() ==> (#[trigger] list@[i])@ == self.keys()[i],
    {
        let n = self.len();
        let mut list: Vec<String> = Vec::new();
        let mut i: usize = 0;
        while i < n
            invariant
                i <= n,
                n == self.keys().len(),
                list@.len() == i,
                forall|j: int| 0 <= j < i ==> (#[trigger] list@[j])@ == self.keys()[j],
            decreases n - i,
        {
            list.push(self.key_at(i).clone());
            i += 1;
        }
        list
    }

    /// Replaces the value at `index`.
    pub fn set_value_at(&mut self, index: usize, value: V)
        requires
            index < old(self).keys().len(),
        ensures
            final(self).keys() == old(self).keys(),
            final(self).values() == old(self).values().update(index as int, value),
            old(self).keys().no_duplicates(),
            old(self).keys().len() == old(self).values().len(),
            final(self).is_update_of(*old(self), old(self).keys()[index as int]),
            final(self).value_of(old(self).keys()[index as int]) == value,
    {
        proof {
            use_type_invariant(&*self);
        }
        let mut taken = OrderedMap::new();
        core::mem::swap(self, &mut taken);
        let OrderedMap { keys, values } = taken;
        let mut values = values;
        values.set(index, value);
        *self = OrderedMap { keys, values };
        proof {
            let key = self.keys()[index as int];
            assert(self.keys().contains(key));
            let at = self.keys().index_of(key);
            assert(self.keys()[at] == key);
            assert(at == index);
        }
    }
}

} // verus!
