//! The wire model: what a stream of decoded items builds, and when a sequence
//! of emitted items stands for a container.

use vstd::prelude::*;

verus! {

/// The map that a stream of pairs builds when each pair is inserted in the
/// order received: a later pair replaces an earlier one with the same key.
pub open spec fn map_of<K, V>(items: Seq<(K, V)>) -> Map<K, V>
    decreases items.len(),
{
    if items.len() == 0 {
        Map::empty()
    } else {
        map_of(items.drop_last()).insert(items.last().0, items.last().1)
    }
}

/// The set that a stream of elements builds: membership only, so repeats
/// collapse.
pub open spec fn set_of<K>(items: Seq<K>) -> Set<K> {
    items.to_set()
}

/// `wire` is a serialization of `m`: it emits every entry of the map once,
/// and nothing else, in whatever order.
pub open spec fn lists_map<K, V>(wire: Seq<(K, V)>, m: Map<K, V>) -> bool {
    &&& wire.no_duplicates()
    &&& wire.to_set() == m.kv_pairs()
}

/// `wire` is a serialization of `s`: it emits every element of the set once,
/// and nothing else, in whatever order.
pub open spec fn lists_set<K>(wire: Seq<K>, s: Set<K>) -> bool {
    &&& wire.no_duplicates()
    &&& wire.to_set() == s
}

/// The stream without its repeats: of equal elements only the first stays.
pub open spec fn dedup<K>(items: Seq<K>) -> Seq<K>
    decreases items.len(),
{
    if items.len() == 0 {
        Seq::empty()
    } else if dedup(items.drop_last()).contains(items.last()) {
        dedup(items.drop_last())
    } else {
        dedup(items.drop_last()).push(items.last())
    }
}

/// What a decoder's pulls amount to. Each pull is an item, the end of the
/// stream (`Ok(None)`) or a failure. The stream is the items before the first
/// pull that is no item; it ends well where that pull is `Ok(None)` or the
/// pulls run out, and fails with the decoder's error otherwise. Pulls behind
/// that point are never looked at.
pub open spec fn decode<T, E>(pulls: Seq<Result<Option<T>, E>>) -> Result<Seq<T>, E>
    decreases pulls.len(),
{
    if pulls.len() == 0 {
        Ok(Seq::empty())
    } else {
        match pulls.first() {
            Ok(Some(item)) => after(seq![item], decode(pulls.drop_first())),
            Ok(None) => Ok(Seq::empty()),
            Err(error) => Err(error),
        }
    }
}

/// The outcome of a stream of which `done` has been received and `rest` is
/// what the remaining pulls amount to.
pub open spec fn after<T, E>(done: Seq<T>, rest: Result<Seq<T>, E>) -> Result<Seq<T>, E> {
    match rest {
        Ok(items) => Ok(done + items),
        Err(error) => Err(error),
    }
}

/// The pulls of a decoder that reads `items` off the wire and then finds the
/// end of the stream.
pub open spec fn pulls_of<T, E>(items: Seq<T>) -> Seq<Result<Option<T>, E>> {
    Seq::new(
        items.len() + 1,
        |i: int|
            if i < items.len() {
                Ok(Some(items[i]))
            } else {
                Ok(None)
            },
    )
}

/// Receiving one more pair replaces or adds its key and touches no other.
pub proof fn lemma_map_of_push<K, V>(items: Seq<(K, V)>, key: K, value: V)
    ensures
        map_of(items.push((key, value))) == map_of(items).insert(key, value),
{
    assert(items.push((key, value)).drop_last() =~= items);
}

/// Receiving one more element adds it to the set.
pub proof fn lemma_set_of_push<K>(items: Seq<K>, key: K)
    ensures
        set_of(items.push(key)) == set_of(items).insert(key),
{
    items.lemma_push_to_set_commute(key);
}

/// One step of decoding at position `at`, seen from the whole stream: with
/// `done` received from the pulls before `at`, the pull at `at` either joins
/// `done` or settles the outcome.
pub proof fn lemma_decode_step<T, E>(pulls: Seq<Result<Option<T>, E>>, done: Seq<T>, at: int)
    requires
        0 <= at < pulls.len(),
        decode(pulls) == after(done, decode(pulls.skip(at))),
    ensures
        match pulls[at] {
            Ok(Some(item)) => decode(pulls) == after(done.push(item), decode(pulls.skip(at + 1))),
            Ok(None) => decode(pulls) == Ok::<Seq<T>, E>(done),
            Err(error) => decode(pulls) == Err::<Seq<T>, E>(error),
        },
{
    let rest = pulls.skip(at);
    assert(rest.first() == pulls[at]);
    assert(rest.drop_first() =~= pulls.skip(at + 1));
    match pulls[at] {
        Ok(Some(item)) => {
            let tail = decode(pulls.skip(at + 1));
            match tail {
                Ok(items) => {
                    assert(done + (seq![item] + items) =~= done.push(item) + items);
                },
                Err(_) => {},
            }
        },
        Ok(None) => {
            assert(done + Seq::<T>::empty() =~= done);
        },
        Err(_) => {},
    }
}

/// Where the pulls run out, what was received is the stream.
pub proof fn lemma_decode_end<T, E>(pulls: Seq<Result<Option<T>, E>>, done: Seq<T>)
    requires
        decode(pulls) == after(done, decode(pulls.skip(pulls.len() as int))),
    ensures
        decode(pulls) == Ok::<Seq<T>, E>(done),
{
    assert(pulls.skip(pulls.len() as int) =~= Seq::empty());
    assert(done + Seq::<T>::empty() =~= done);
}

/// Before anything is received, the outcome is that of all the pulls.
pub proof fn lemma_decode_start<T, E>(pulls: Seq<Result<Option<T>, E>>)
    ensures
        decode(pulls) == after(Seq::empty(), decode(pulls.skip(0))),
{
    assert(pulls.skip(0) =~= pulls);
    match decode(pulls) {
        Ok(items) => {
            assert(Seq::<T>::empty() + items =~= items);
        },
        Err(_) => {},
    }
}

/// A decoder that reads `items` and then the end hands over just `items`.
pub proof fn lemma_decode_pulls_of<T, E>(items: Seq<T>)
    ensures
        decode(pulls_of::<T, E>(items)) == Ok::<Seq<T>, E>(items),
    decreases items.len(),
{
    let pulls = pulls_of::<T, E>(items);
    if items.len() == 0 {
        assert(pulls.first() == Ok::<Option<T>, E>(None));
        assert(items =~= Seq::<T>::empty());
    } else {
        assert(pulls.first() == Ok::<Option<T>, E>(Some(items.first())));
        assert(pulls.drop_first() =~= pulls_of::<T, E>(items.drop_first()));
        lemma_decode_pulls_of::<T, E>(items.drop_first());
        assert(seq![items.first()] + items.drop_first() =~= items);
    }
}

/// Every pair that was received has its key in the map that was built.
pub proof fn lemma_map_of_has_keys<K, V>(items: Seq<(K, V)>, at: int)
    requires
        0 <= at < items.len(),
    ensures
        map_of(items).contains_key(items[at].0),
    decreases items.len(),
{
    if at < items.len() - 1 {
        lemma_map_of_has_keys(items.drop_last(), at);
    }
}

/// Every entry of the map that was built was received as a pair.
pub proof fn lemma_map_of_was_received<K, V>(items: Seq<(K, V)>, key: K)
    requires
        map_of(items).contains_key(key),
    ensures
        items.contains((key, map_of(items)[key])),
    decreases items.len(),
{
    if items.len() > 0 {
        if items.last().0 == key {
            assert(items[items.len() - 1] == (key, map_of(items)[key]));
        } else {
            lemma_map_of_was_received(items.drop_last(), key);
            let earlier = choose|i: int|
                0 <= i < items.drop_last().len() && items.drop_last()[i] == (
                    key,
                    map_of(items.drop_last())[key],
                );
            assert(items[earlier] == (key, map_of(items)[key]));
        }
    }
}

} // verus!
