//! What serializing and rebuilding guarantee together, stated over the wire
//! model that the contracts of the readers and the builders use.

use crate::key::Key;
use crate::map_visitor::MapVisitor;
use crate::set_visitor::SetVisitor;
use crate::wire::{
    dedup, lemma_decode_pulls_of, lemma_map_of_has_keys, lemma_map_of_was_received, lists_map,
    lists_set, map_of, pulls_of, set_of,
};
use vstd::prelude::*;

verus! {

/// A map survives the round trip. Whatever the order in which its entries
/// were emitted, a build from a decoder that reads them back, with any hint,
/// gives a map with the same keys and the same value under each key.
pub proof fn lemma_map_round_trip<K: Key, V, E>(
    m: Map<K, V>,
    wire: Seq<(K, V)>,
    hint: Option<usize>,
)
    requires
        lists_map(wire, m),
    ensures
        map_of(wire) == m,
        MapVisitor::<K, V>::outcome::<E>(hint, pulls_of(wire)) == Ok::<Map<K, V>, E>(m),
{
    let built = map_of(wire);
    assert forall|key: K| built.contains_key(key) == m.contains_key(key) by {
        if built.contains_key(key) {
            lemma_map_of_was_received(wire, key);
            assert(wire.to_set().contains((key, built[key])));
            assert(m.kv_pairs().contains((key, built[key])));
        }
        if m.contains_key(key) {
            assert(m.kv_pairs().contains((key, m[key])));
            assert(wire.to_set().contains((key, m[key])));
            let at = choose|i: int| 0 <= i < wire.len() && wire[i] == (key, m[key]);
            lemma_map_of_has_keys(wire, at);
        }
    }
    assert forall|key: K| built.contains_key(key) implies built[key] == m[key] by {
        lemma_map_of_was_received(wire, key);
        assert(wire.to_set().contains((key, built[key])));
        assert(m.kv_pairs().contains((key, built[key])));
    }
    assert(built =~= m);
    lemma_decode_pulls_of::<(K, V), E>(wire);
}

/// A set survives the round trip. Whatever the order in which its elements
/// were emitted, a build from a decoder that reads them back, with any hint,
/// gives a set with the same members.
pub proof fn lemma_set_round_trip<K: Key, E>(s: Set<K>, wire: Seq<K>, hint: Option<usize>)
    requires
        lists_set(wire, s),
    ensures
        set_of(wire) == s,
        SetVisitor::<K>::outcome::<E>(hint, pulls_of(wire)) == Ok::<Set<K>, E>(s),
{
    lemma_decode_pulls_of::<K, E>(wire);
}

/// Repeats collapse. A stream and the same stream without its repeats build
/// the same set, and the stream without its repeats has none.
pub proof fn lemma_duplicates_collapse<K: Key, E>(items: Seq<K>, hint: Option<usize>)
    ensures
        dedup(items).no_duplicates(),
        set_of(dedup(items)) == set_of(items),
        SetVisitor::<K>::outcome::<E>(hint, pulls_of(dedup(items))) == SetVisitor::<K>::outcome::<
            E,
        >(hint, pulls_of(items)),
    decreases items.len(),
{
    if items.len() > 0 {
        let before = items.drop_last();
        lemma_duplicates_collapse::<K, E>(before, hint);
        before.lemma_push_to_set_commute(items.last());
        assert(before.push(items.last()) =~= items);
        if dedup(before).contains(items.last()) {
            assert(set_of(before).contains(items.last()));
            assert(set_of(before).insert(items.last()) =~= set_of(before));
        } else {
            dedup(before).lemma_push_to_set_commute(items.last());
        }
    }
    lemma_decode_pulls_of::<K, E>(items);
    lemma_decode_pulls_of::<K, E>(dedup(items));
}

/// The last write wins. Where a key is received more than once, the map that
/// is built holds, under that key, the value of the pair that came last.
pub proof fn lemma_last_write_wins<K: Key, V, E>(
    items: Seq<(K, V)>,
    at: int,
    hint: Option<usize>,
)
    requires
        0 <= at < items.len(),
        forall|later: int| at < later < items.len() ==> items[later].0 != items[at].0,
    ensures
        map_of(items).contains_key(items[at].0),
        map_of(items)[items[at].0] == items[at].1,
        MapVisitor::<K, V>::outcome::<E>(hint, pulls_of(items)) matches Ok(built)
            && built.contains_key(items[at].0) && built[items[at].0] == items[at].1,
    decreases items.len(),
{
    if at < items.len() - 1 {
        lemma_last_write_wins::<K, V, E>(items.drop_last(), at, hint);
    }
    lemma_decode_pulls_of::<(K, V), E>(items);
}

/// The hint changes nothing. Whatever size the decoder announced, be it
/// none, zero, the true count or a wrong one, the same pulls come to the
/// same map.
pub proof fn lemma_map_hint_independence<K: Key, V, E>(
    pulls: Seq<Result<Option<(K, V)>, E>>,
    hint: Option<usize>,
    other: Option<usize>,
)
    ensures
        MapVisitor::<K, V>::outcome(hint, pulls) == MapVisitor::<K, V>::outcome(other, pulls),
{
}

/// The hint changes nothing. Whatever size the decoder announced, be it
/// none, zero, the true count or a wrong one, the same pulls come to the
/// same set.
pub proof fn lemma_set_hint_independence<K: Key, E>(
    pulls: Seq<Result<Option<K>, E>>,
    hint: Option<usize>,
    other: Option<usize>,
)
    ensures
        SetVisitor::<K>::outcome(hint, pulls) == SetVisitor::<K>::outcome(other, pulls),
{
}

/// An empty map survives the round trip: nothing is emitted for it, and a
/// build from nothing gives the empty map.
pub proof fn lemma_empty_map_round_trip<K: Key, V, E>(wire: Seq<(K, V)>, hint: Option<usize>)
    requires
        lists_map(wire, Map::<K, V>::empty()),
    ensures
        wire == Seq::<(K, V)>::empty(),
        MapVisitor::<K, V>::outcome::<E>(hint, pulls_of(wire)) == Ok::<Map<K, V>, E>(Map::empty()),
{
    if wire.len() > 0 {
        assert(wire.to_set().contains(wire[0]));
        assert(Map::<K, V>::empty().kv_pairs().contains(wire[0]));
    }
    assert(wire =~= Seq::<(K, V)>::empty());
    lemma_map_round_trip::<K, V, E>(Map::empty(), wire, hint);
}

/// An empty set survives the round trip: nothing is emitted for it, and a
/// build from nothing gives the empty set.
pub proof fn lemma_empty_set_round_trip<K: Key, E>(wire: Seq<K>, hint: Option<usize>)
    requires
        lists_set(wire, Set::<K>::empty()),
    ensures
        wire == Seq::<K>::empty(),
        SetVisitor::<K>::outcome::<E>(hint, pulls_of(wire)) == Ok::<Set<K>, E>(Set::empty()),
{
    if wire.len() > 0 {
        assert(wire.to_set().contains(wire[0]));
    }
    assert(wire =~= Seq::<K>::empty());
    lemma_set_round_trip::<K, E>(Set::empty(), wire, hint);
}

} // verus!
