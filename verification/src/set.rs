//! A hash set bound to a reclamation scope, its pinned view, and the
//! configuration step that makes one.

use crate::key::Key;
use crate::scope::{release, Scope};
use crate::wire::lists_set;
use seize::{Collector, LocalGuard};
use std::marker::PhantomData;
use std::sync::Arc;
use vstd::prelude::*;
use vstd::seq_lib::seq_to_set_is_finite;
use vstd::set_lib::lemma_subset_equality;
use vstd::std_specs::cmp::PartialEqSpecImpl;
use vstd::std_specs::hash::{obeys_key_model, spec_hash_keys_iter};
use vstd::std_specs::iter::IteratorSpec;

verus! {

broadcast use vstd::std_specs::hash::group_hash_axioms;

/// A hash set that retires memory to a reclamation scope. The scope and its
/// mode are chosen when the set is made and stay with it. Its view is the
/// `Set` of its elements.
#[derive(Debug)]
pub struct HashSet<K: Key> {
    scope: Scope,
    table: std::collections::HashSet<K>,
}

/// A pinned view of a set: it holds a guard of the set's scope from the
/// moment it is made until it is dropped, and reads the set as it was when
/// the guard was taken.
pub struct HashSetRef<'a, K: Key> {
    guard: LocalGuard<'a>,
    table: &'a std::collections::HashSet<K>,
}

/// The configuration of a set that is about to be made: how much room it
/// starts with, and the shared scope that it joins, if any.
pub struct HashSetBuilder<K: Key> {
    capacity: usize,
    collector: Option<Arc<Collector>>,
    _marker: PhantomData<K>,
}

impl<K: Key> View for HashSet<K> {
    type V = Set<K>;

    closed spec fn view(&self) -> Set<K> {
        self.table@
    }
}

impl<'a, K: Key> View for HashSetRef<'a, K> {
    type V = Set<K>;

    closed spec fn view(&self) -> Set<K> {
        self.table@
    }
}

/// Emits the elements of a table, each once, in the order in which the table
/// walks them.
fn list_elements<'a, K: Key>(table: &'a std::collections::HashSet<K>) -> (wire: Vec<
    &'a K,
>)
    ensures
        lists_set(wire@.unref(), table@),
        wire@.len() == table@.len(),
{
    proof {
        K::lawful();
    }
    let mut wire: Vec<&'a K> = Vec::new();
    let elements = table.iter();
    let ghost all = elements.remaining();
    for element in walk: elements
        invariant
            walk.seq() == all,
            wire@ == all.take(walk.index()),
    {
        wire.push(element);
    }
    proof {
        assert(wire@ == all);
        assert forall|i: int, j: int|
            0 <= i < wire@.len() && 0 <= j < wire@.len() && i != j implies wire@.unref()[i]
            != wire@.unref()[j] by {
            assert(wire@[i] != wire@[j]);
        }
    }
    wire
}

/// What a table holds is finite: it is what walking the table lists.
proof fn lemma_table_finite<K>(table: &std::collections::HashSet<K>)
    ensures
        table@.finite(),
{
    let listed = spec_hash_keys_iter(table).remaining().unref();
    assert(listed.to_set() == table@);
    seq_to_set_is_finite(listed);
}

impl<K: Key> HashSetBuilder<K> {
    /// The room that the set will start with.
    pub closed spec fn room(&self) -> usize {
        self.capacity
    }

    /// The shared scope that the set will join, if one was named.
    pub closed spec fn handle(&self) -> Option<Arc<Collector>> {
        self.collector
    }

    /// Asks for room for `capacity` elements.
    pub fn capacity(self, capacity: usize) -> (builder: Self)
        ensures
            builder.room() == capacity,
            builder.handle() == self.handle(),
    {
        HashSetBuilder { capacity, collector: self.collector, _marker: PhantomData }
    }

    /// Names the shared scope that the set is to join.
    pub fn shared_collector(self, collector: Arc<Collector>) -> (builder: Self)
        ensures
            builder.room() == self.room(),
            builder.handle() == Some(collector),
    {
        HashSetBuilder { capacity: self.capacity, collector: Some(collector), _marker: PhantomData }
    }

    /// Makes the empty set as configured: in the named shared scope, or
    /// with a private scope of its own where none was named.
    pub fn build(self) -> (set: HashSet<K>)
        ensures
            set@ == Set::<K>::empty(),
            match self.handle() {
                Some(collector) => set.scope() == Scope::Shared(collector),
                None => !set.is_shared(),
            },
    {
        let table = std::collections::HashSet::with_capacity(self.capacity);
        match self.collector {
            Some(collector) => HashSet { scope: Scope::shared(collector), table },
            None => HashSet { scope: Scope::private(), table },
        }
    }
}

impl<K: Key> HashSet<K> {
    /// The scope that the set retires to.
    pub closed spec fn scope(&self) -> Scope {
        self.scope
    }

    /// Whether the set's scope is held by reference count.
    pub open spec fn is_shared(&self) -> bool {
        self.scope().is_shared()
    }

    /// A set holds finitely many elements.
    pub proof fn lemma_finite(&self)
        ensures
            self@.finite(),
    {
        lemma_table_finite(&self.table);
    }

    /// An empty set with a private scope.
    pub fn new() -> (set: Self)
        ensures
            set@ == Set::<K>::empty(),
            !set.is_shared(),
    {
        HashSet { scope: Scope::private(), table: std::collections::HashSet::new() }
    }

    /// An empty set with a private scope and room for `capacity` elements.
    /// The room is not part of what the set holds.
    pub fn with_capacity(capacity: usize) -> (set: Self)
        ensures
            set@ == Set::<K>::empty(),
            !set.is_shared(),
    {
        HashSet {
            scope: Scope::private(),
            table: std::collections::HashSet::with_capacity(capacity),
        }
    }

    /// Starts the configuration of a set: no room asked for, no shared
    /// scope named.
    pub fn builder() -> (builder: HashSetBuilder<K>)
        ensures
            builder.room() == 0,
            builder.handle().is_none(),
    {
        HashSetBuilder { capacity: 0, collector: None, _marker: PhantomData }
    }

    /// The set that retires to `scope` and holds the elements of `table`.
    pub fn from_parts(scope: Scope, table: std::collections::HashSet<K>) -> (set: Self)
        ensures
            set@ == table@,
            set.scope() == scope,
    {
        HashSet { scope, table }
    }

    /// Takes the set apart into its scope and its elements.
    pub fn into_parts(self) -> (parts: (Scope, std::collections::HashSet<K>))
        ensures
            parts.0 == self.scope(),
            parts.1@ == self@,
    {
        (self.scope, self.table)
    }

    /// Whether the set's scope is held by reference count.
    pub fn shared_mode(&self) -> (shared: bool)
        ensures
            shared == self.is_shared(),
    {
        self.scope.shared_mode()
    }

    /// Whether this set and `other` retire to one and the same collector.
    pub fn joint_with(&self, other: &Self) -> (joint: bool)
        ensures
            joint ==> self.is_shared() && other.is_shared(),
            self.is_shared() && other.is_shared() && self.scope().reaches()
                == other.scope().reaches() ==> joint,
    {
        self.scope.joint_with(&other.scope)
    }

    /// Pins the set: takes a guard of its scope and hands out the view that
    /// holds it.
    pub fn pin(&self) -> (view: HashSetRef<'_, K>)
        ensures
            view@ == self@,
    {
        HashSetRef { guard: self.scope.enter(), table: &self.table }
    }

    /// Inserts under a guard of the set's own scope, taken for this one
    /// insertion. Says whether the element was new; one that is already
    /// there changes nothing.
    pub fn insert(&mut self, key: K) -> (added: bool)
        ensures
            final(self)@ == old(self)@.insert(key),
            final(self).scope() == old(self).scope(),
            added == !old(self)@.contains(key),
    {
        proof {
            K::lawful();
        }
        let guard = self.scope.enter();
        let added = self.table.insert(key);
        release(guard);
        added
    }

    /// The number of elements.
    pub fn len(&self) -> (count: usize)
        ensures
            count == self@.len(),
    {
        proof {
            K::lawful();
        }
        self.table.len()
    }

    /// Whether the set holds nothing.
    pub fn is_empty(&self) -> (empty: bool)
        ensures
            empty == (self@.len() == 0),
    {
        self.len() == 0
    }

    /// Whether `key` is an element, read through a view pinned for this one
    /// call.
    pub fn contains(&self, key: &K) -> (found: bool)
        ensures
            found == self@.contains(*key),
    {
        let view = self.pin();
        let found = view.contains(key);
        view.unpin();
        found
    }

    /// Emits the elements of the set as a serializer is to receive them:
    /// each element once, in no particular order. The set is pinned while
    /// the elements are emitted and is not changed.
    pub fn serialize(&self) -> (wire: Vec<&K>)
        ensures
            lists_set(wire@.unref(), self@),
            wire@.len() == self@.len(),
    {
        let view = self.pin();
        let wire = view.serialize();
        view.unpin();
        wire
    }
}

impl<'a, K: Key> HashSetRef<'a, K> {
    /// The number of elements in view.
    pub fn len(&self) -> (count: usize)
        ensures
            count == self@.len(),
    {
        proof {
            K::lawful();
        }
        self.table.len()
    }

    /// How many items `serialize` will emit, for a serializer that wants to
    /// know beforehand.
    pub fn size_hint(&self) -> (hint: Option<usize>)
        ensures
            hint matches Some(count) && count == self@.len(),
    {
        Some(self.len())
    }

    /// Whether `key` is an element in view.
    pub fn contains(&self, key: &K) -> (found: bool)
        ensures
            found == self@.contains(*key),
    {
        proof {
            K::lawful();
        }
        self.table.contains(key)
    }

    /// Emits the elements in view as a serializer is to receive them: each
    /// element once, in no particular order.
    pub fn serialize(&self) -> (wire: Vec<&'a K>)
        ensures
            lists_set(wire@.unref(), self@),
            wire@.len() == self@.len(),
    {
        list_elements(self.table)
    }

    /// Ends the view and gives its guard back.
    pub fn unpin(self) {
        release(self.guard);
    }
}

impl<K: Key> Default for HashSet<K> {
    /// An empty set with a private scope.
    fn default() -> (set: Self)
        ensures
            set@ == Set::<K>::empty(),
            !set.is_shared(),
    {
        HashSet::new()
    }
}

impl<K: Key> PartialEq for HashSet<K> {
    /// Two sets are equal when they hold the same elements, whatever their
    /// scopes.
    fn eq(&self, other: &Self) -> (equal: bool) {
        proof {
            K::lawful();
        }
        if self.table.len() != other.table.len() {
            return false;
        }
        let elements = self.table.iter();
        let ghost all = elements.remaining();
        proof {
            assert forall|i: int| 0 <= i < all.len() implies self@.contains(*#[trigger] all[i]) by {
                assert(all.unref()[i] == *all[i]);
                assert(all.unref().to_set().contains(all.unref()[i]));
            }
        }
        for element in walk: elements
            invariant
                walk.seq() == all,
                obeys_key_model::<K>(),
                forall|i: int| 0 <= i < all.len() ==> self@.contains(*#[trigger] all[i]),
                forall|i: int| 0 <= i < walk.index() ==> other@.contains(*#[trigger] all[i]),
        {
            if !other.table.contains(element) {
                return false;
            }
        }
        proof {
            assert forall|key: K| self@.contains(key) implies other@.contains(key) by {
                assert(all.unref().to_set().contains(key));
                let i = choose|i: int| 0 <= i < all.unref().len() && all.unref()[i] == key;
                assert(other@.contains(*all[i]));
            }
            assert(self@.subset_of(other@));
            assert(self@.len() == other@.len());
            lemma_table_finite(&self.table);
            lemma_table_finite(&other.table);
            lemma_subset_equality(self@, other@);
        }
        true
    }
}

impl<K: Key> PartialEqSpecImpl for HashSet<K> {
    open spec fn obeys_eq_spec() -> bool {
        true
    }

    open spec fn eq_spec(&self, other: &Self) -> bool {
        self@ == other@
    }
}

} // verus!
