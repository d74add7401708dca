//! A hash map bound to a reclamation scope, and its pinned view.

use crate::key::Key;
use crate::scope::{release, Scope};
use crate::wire::lists_map;
use seize::LocalGuard;
use vstd::laws_eq::obeys_concrete_eq;
use vstd::prelude::*;
use vstd::set_lib::lemma_subset_equality;
use vstd::std_specs::cmp::PartialEqSpecImpl;
use vstd::std_specs::hash::obeys_key_model;
use vstd::std_specs::iter::IteratorSpec;

verus! {

broadcast use vstd::std_specs::hash::group_hash_axioms;

/// A hash map that retires memory to a reclamation scope. The scope and its
/// mode are chosen when the map is made and stay with it. Its view is the
/// `Map` of its entries.
#[derive(Debug)]
pub struct HashMap<K: Key, V> {
    scope: Scope,
    table: std::collections::HashMap<K, V>,
}

/// A pinned view of a map: it holds a guard of the map's scope from the
/// moment it is made until it is dropped, and reads the map as it was when
/// the guard was taken.
pub struct HashMapRef<'a, K: Key, V> {
    guard: LocalGuard<'a>,
    table: &'a std::collections::HashMap<K, V>,
}

impl<K: Key, V> View for HashMap<K, V> {
    type V = Map<K, V>;

    closed spec fn view(&self) -> Map<K, V> {
        self.table@
    }
}

impl<'a, K: Key, V> View for HashMapRef<'a, K, V> {
    type V = Map<K, V>;

    closed spec fn view(&self) -> Map<K, V> {
        self.table@
    }
}

/// Emits the entries of a table, each once, in the order in which the table
/// walks them.
fn list_entries<'a, K: Key, V>(table: &'a std::collections::HashMap<K, V>) -> (wire: Vec<
    (&'a K, &'a V),
>)
    ensures
        lists_map(wire@.unref(), table@),
        wire@.len() == table@.len(),
{
    proof {
        K::lawful();
    }
    let mut wire: Vec<(&'a K, &'a V)> = Vec::new();
    let entries = table.iter();
    let ghost all = entries.remaining();
    for entry in walk: entries
        invariant
            walk.seq() == all,
            wire@ == all.take(walk.index()),
    {
        wire.push(entry);
    }
    proof {
        assert(wire@ == all);
        assert forall|i: int, j: int|
            0 <= i < wire@.len() && 0 <= j < wire@.len() && i != j implies wire@.unref()[i]
            != wire@.unref()[j] by {
            assert(wire@[i] != wire@[j]);
        }
    }
    wire
}

impl<K: Key, V> HashMap<K, V> {
    /// The scope that the map retires to.
    pub closed spec fn scope(&self) -> Scope {
        self.scope
    }

    /// Whether the map's scope is held by reference count.
    pub open spec fn is_shared(&self) -> bool {
        self.scope().is_shared()
    }

    /// A map holds finitely many entries.
    pub proof fn lemma_finite(&self)
        ensures
            self@.dom().finite(),
    {
    }

    /// An empty map with a private scope.
    pub fn new() -> (map: Self)
        ensures
            map@ == Map::<K, V>::empty(),
            !map.is_shared(),
    {
        HashMap { scope: Scope::private(), table: std::collections::HashMap::new() }
    }

    /// An empty map with a private scope and room for `capacity` entries.
    /// The room is not part of what the map holds.
    pub fn with_capacity(capacity: usize) -> (map: Self)
        ensures
            map@ == Map::<K, V>::empty(),
            !map.is_shared(),
    {
        HashMap {
            scope: Scope::private(),
            table: std::collections::HashMap::with_capacity(capacity),
        }
    }

    /// The map that retires to `scope` and holds the entries of `table`.
    pub fn from_parts(scope: Scope, table: std::collections::HashMap<K, V>) -> (map: Self)
        ensures
            map@ == table@,
            map.scope() == scope,
    {
        HashMap { scope, table }
    }

    /// Takes the map apart into its scope and its entries.
    pub fn into_parts(self) -> (parts: (Scope, std::collections::HashMap<K, V>))
        ensures
            parts.0 == self.scope(),
            parts.1@ == self@,
    {
        (self.scope, self.table)
    }

    /// Whether the map's scope is held by reference count.
    pub fn shared_mode(&self) -> (shared: bool)
        ensures
            shared == self.is_shared(),
    {
        self.scope.shared_mode()
    }

    /// Whether this map and `other` retire to one and the same collector.
    pub fn joint_with(&self, other: &Self) -> (joint: bool)
        ensures
            joint ==> self.is_shared() && other.is_shared(),
            self.is_shared() && other.is_shared() && self.scope().reaches()
                == other.scope().reaches() ==> joint,
    {
        self.scope.joint_with(&other.scope)
    }

    /// Pins the map: takes a guard of its scope and hands out the view that
    /// holds it.
    pub fn pin(&self) -> (view: HashMapRef<'_, K, V>)
        ensures
            view@ == self@,
    {
        HashMapRef { guard: self.scope.enter(), table: &self.table }
    }

    /// Inserts under a guard of the map's own scope, taken for this one
    /// insertion. A key that is already there gets the new value, and the
    /// value it had comes back.
    pub fn insert(&mut self, key: K, value: V) -> (previous: Option<V>)
        ensures
            final(self)@ == old(self)@.insert(key, value),
            final(self).scope() == old(self).scope(),
            match previous {
                Some(was) => old(self)@.contains_key(key) && was == old(self)@[key],
                None => !old(self)@.contains_key(key),
            },
    {
        proof {
            K::lawful();
        }
        let guard = self.scope.enter();
        let previous = self.table.insert(key, value);
        release(guard);
        previous
    }

    /// The number of entries.
    pub fn len(&self) -> (count: usize)
        ensures
            count == self@.len(),
    {
        proof {
            K::lawful();
        }
        self.table.len()
    }

    /// Whether the map holds nothing.
    pub fn is_empty(&self) -> (empty: bool)
        ensures
            empty == (self@.len() == 0),
    {
        self.len() == 0
    }

    /// The value under `key`, read through a view pinned for this one call.
    pub fn get(&self, key: &K) -> (found: Option<&V>)
        ensures
            match found {
                Some(value) => self@.contains_key(*key) && *value == self@[*key],
                None => !self@.contains_key(*key),
            },
    {
        let view = self.pin();
        let found = view.get(key);
        view.unpin();
        found
    }

    /// Emits the entries of the map as a serializer is to receive them: each
    /// entry once, in no particular order. The map is pinned while the
    /// entries are emitted and is not changed.
    pub fn serialize(&self) -> (wire: Vec<(&K, &V)>)
        ensures
            lists_map(wire@.unref(), self@),
            wire@.len() == self@.len(),
    {
        let view = self.pin();
        let wire = view.serialize();
        view.unpin();
        wire
    }
}

impl<'a, K: Key, V> HashMapRef<'a, K, V> {
    /// The number of entries in view.
    pub fn len(&self) -> (count: usize)
        ensures
            count == self@.len(),
    {
        proof {
            K::lawful();
        }
        self.table.len()
    }

    /// How many items `serialize` will emit, for a serializer that wants to
    /// know beforehand.
    pub fn size_hint(&self) -> (hint: Option<usize>)
        ensures
            hint matches Some(count) && count == self@.len(),
    {
        Some(self.len())
    }

    /// The value under `key` in view.
    pub fn get(&self, key: &K) -> (found: Option<&'a V>)
        ensures
            match found {
                Some(value) => self@.contains_key(*key) && *value == self@[*key],
                None => !self@.contains_key(*key),
            },
    {
        proof {
            K::lawful();
        }
        self.table.get(key)
    }

    /// Emits the entries in view as a serializer is to receive them: each
    /// entry once, in no particular order.
    pub fn serialize(&self) -> (wire: Vec<(&'a K, &'a V)>)
        ensures
            lists_map(wire@.unref(), self@),
            wire@.len() == self@.len(),
    {
        list_entries(self.table)
    }

    /// Ends the view and gives its guard back.
    pub fn unpin(self) {
        release(self.guard);
    }
}

impl<K: Key, V> Default for HashMap<K, V> {
    /// An empty map with a private scope.
    fn default() -> (map: Self)
        ensures
            map@ == Map::<K, V>::empty(),
            !map.is_shared(),
    {
        HashMap::new()
    }
}

impl<K: Key, V: PartialEq> PartialEq for HashMap<K, V> {
    /// Two maps are equal when they hold the same entries, whatever their
    /// scopes.
    fn eq(&self, other: &Self) -> (equal: bool) {
        proof {
            K::lawful();
            reveal(obeys_concrete_eq);
        }
        if self.table.len() != other.table.len() {
            return false;
        }
        let entries = self.table.iter();
        let ghost all = entries.remaining();
        for entry in walk: entries
            invariant
                walk.seq() == all,
                obeys_key_model::<K>(),
                forall|i: int|
                    0 <= i < all.len() ==> self@.contains_key(*(#[trigger] all[i]).0)
                        && self@[*all[i].0] == *all[i].1,
                obeys_concrete_eq::<V>() ==> forall|i: int|
                    0 <= i < walk.index() ==> other@.contains_key(*(#[trigger] all[i]).0)
                        && other@[*all[i].0] == *all[i].1,
        {
            proof {
                reveal(obeys_concrete_eq);
            }
            match other.table.get(entry.0) {
                Some(theirs) => {
                    if !(*entry.1 == *theirs) {
                        return false;
                    }
                },
                None => {
                    return false;
                },
            }
        }
        proof {
            if obeys_concrete_eq::<V>() {
                lemma_same_entries(self@, other@, all.unref());
            }
        }
        true
    }
}

impl<K: Key, V: PartialEq> PartialEqSpecImpl for HashMap<K, V> {
    open spec fn obeys_eq_spec() -> bool {
        obeys_concrete_eq::<V>()
    }

    open spec fn eq_spec(&self, other: &Self) -> bool {
        self@ == other@
    }
}

/// Two finite maps of one size are the same map as soon as every entry of
/// the first, as `wire` lists them, is an entry of the second.
proof fn lemma_same_entries<K, V>(ours: Map<K, V>, theirs: Map<K, V>, wire: Seq<(K, V)>)
    requires
        ours.dom().finite(),
        theirs.dom().finite(),
        ours.len() == theirs.len(),
        wire.to_set() == ours.kv_pairs(),
        forall|i: int|
            0 <= i < wire.len() ==> theirs.contains_key((#[trigger] wire[i]).0) && theirs[wire[i].0]
                == wire[i].1,
    ensures
        ours == theirs,
{
    assert forall|key: K| #[trigger] ours.dom().contains(key) implies theirs.dom().contains(key)
        && theirs[key] == ours[key] by {
        assert(ours.kv_pairs().contains((key, ours[key])));
        assert(wire.to_set().contains((key, ours[key])));
        let i = choose|i: int| 0 <= i < wire.len() && wire[i] == (key, ours[key]);
        assert(theirs.contains_key(wire[i].0));
    }
    lemma_subset_equality(ours.dom(), theirs.dom());
    assert(ours =~= theirs);
}

} // verus!
