//! Building a map from a stream of decoded pairs.

use crate::key::Key;
use crate::map::HashMap;
use crate::phase::{Hold, Phase, Step};
use crate::scope::Scope;
use crate::wire::{
    after, decode, lemma_decode_end, lemma_decode_start, lemma_decode_step, lemma_map_of_push,
    map_of,
};
use std::marker::PhantomData;
use vstd::prelude::*;

verus! {

broadcast use vstd::std_specs::hash::group_hash_axioms;

/// A build of a map: its phase, the one guard it holds while it goes on, and
/// the entries received so far. Its view is the `Map` of those entries.
pub struct MapBuild<'a, K: Key, V> {
    hold: Hold<'a>,
    table: std::collections::HashMap<K, V>,
}

impl<'a, K: Key, V> View for MapBuild<'a, K, V> {
    type V = Map<K, V>;

    closed spec fn view(&self) -> Map<K, V> {
        self.table@
    }
}

impl<'a, K: Key, V> MapBuild<'a, K, V> {
    /// Where the build stands.
    pub closed spec fn phase(&self) -> Phase {
        self.hold.phase()
    }

    /// Whether the build holds its guard: it does while it goes on, and in
    /// no other phase.
    pub closed spec fn holds_guard(&self) -> bool {
        self.hold is Building
    }

    /// Starts a build into `table`: takes the one guard of `scope` under
    /// which every pair will be inserted.
    pub fn begin(scope: &'a Scope, table: std::collections::HashMap<K, V>) -> (building: Self)
        ensures
            building.phase() == Phase::Building,
            building.holds_guard(),
            building@ == table@,
    {
        MapBuild { hold: Hold::take(scope), table }
    }

    /// The guard is held in the building phase and released in every other.
    pub proof fn lemma_guard_follows_phase(&self)
        ensures
            self.holds_guard() == (self.phase() == Phase::Building),
    {
    }

    /// Where the build stands.
    pub fn current_phase(&self) -> (phase: Phase)
        ensures
            phase == self.phase(),
    {
        self.hold.current()
    }

    /// Takes one pull from the decoder. While the build goes on, a pair is
    /// inserted under the held guard, the end of the stream completes the
    /// build, and a failure aborts it: the guard is released, the entries
    /// received so far are dropped and the decoder's error is handed on as
    /// it came. A build that has ended stays as it is.
    pub fn step<E>(&mut self, pull: Result<Option<(K, V)>, E>) -> (step: Step<E>)
        ensures
            final(self).holds_guard() == (final(self).phase() == Phase::Building),
            match (old(self).phase(), pull) {
                (Phase::Building, Ok(Some((key, value)))) => {
                    &&& step == Step::<E>::Continue
                    &&& final(self).phase() == Phase::Building
                    &&& final(self)@ == old(self)@.insert(key, value)
                },
                (Phase::Building, Ok(None)) => {
                    &&& step == Step::<E>::Complete
                    &&& final(self).phase() == Phase::Complete
                    &&& final(self)@ == old(self)@
                },
                (Phase::Building, Err(error)) => {
                    &&& step == Step::Aborted(error)
                    &&& final(self).phase() == Phase::Aborted
                    &&& final(self)@ == Map::<K, V>::empty()
                },
                (_, _) => {
                    &&& step == Step::<E>::Halted
                    &&& final(self).phase() == old(self).phase()
                    &&& final(self)@ == old(self)@
                },
            },
    {
        proof {
            K::lawful();
        }
        if let Hold::Building(_) = &self.hold {
            match pull {
                Ok(Some((key, value))) => {
                    self.table.insert(key, value);
                    Step::Continue
                },
                Ok(None) => {
                    self.hold = Hold::Complete;
                    Step::Complete
                },
                Err(error) => {
                    self.hold = Hold::Aborted;
                    self.table.clear();
                    Step::Aborted(error)
                },
            }
        } else {
            Step::Halted
        }
    }

    /// Ends the build and hands its entries over, releasing the guard if the
    /// pulls ran out while it was still held. An aborted build has none.
    pub fn finish(self) -> (table: std::collections::HashMap<K, V>)
        ensures
            table@ == self@,
    {
        self.hold.give_back();
        self.table
    }
}

/// The start of a build of a map.
pub struct MapVisitor<K: Key, V> {
    _marker: PhantomData<(K, V)>,
}

impl<K: Key, V> MapVisitor<K, V> {
    /// What a stream of pulls comes to: the map of its pairs, or the
    /// decoder's error. The hint has no part in it.
    pub open spec fn outcome<E>(
        hint: Option<usize>,
        pulls: Seq<Result<Option<(K, V)>, E>>,
    ) -> Result<Map<K, V>, E> {
        match decode(pulls) {
            Ok(items) => Ok(map_of(items)),
            Err(error) => Err(error),
        }
    }

    /// The visitor that a decoder is handed when a map is asked for.
    pub fn new() -> (visitor: Self) {
        MapVisitor { _marker: PhantomData }
    }

    /// What the visitor tells a decoder that it is waiting for.
    pub fn expecting(&self) -> (text: &'static str)
        ensures
            text@ == "a map"@,
    {
        "a map"
    }

    /// The empty map that a build fills: with room for as many entries as
    /// the decoder announced, or as the default makes it where it announced
    /// nothing.
    pub fn target(&self, hint: Option<usize>) -> (map: HashMap<K, V>)
        ensures
            map@ == Map::<K, V>::empty(),
            !map.is_shared(),
    {
        match hint {
            Some(size) => HashMap::with_capacity(size),
            None => HashMap::default(),
        }
    }

    /// Builds a map from what a decoder hands over: the size it announced,
    /// if any, and its pulls in order.
    pub fn visit_map<E>(self, hint: Option<usize>, pulls: Vec<Result<Option<(K, V)>, E>>) -> (result:
        Result<HashMap<K, V>, E>)
        ensures
            match result {
                Ok(map) => Self::outcome(hint, pulls@) == Ok::<Map<K, V>, E>(map@)
                    && !map.is_shared(),
                Err(error) => Self::outcome(hint, pulls@) == Err::<Map<K, V>, E>(error),
            },
    {
        let (scope, table) = self.target(hint).into_parts();
        match fill(&scope, table, pulls) {
            Ok(table) => Ok(HashMap::from_parts(scope, table)),
            Err(error) => Err(error),
        }
    }
}

impl<K: Key, V> HashMap<K, V> {
    /// Rebuilds a map, with a private scope, from what a decoder hands over:
    /// the size it announced, if any, and its pulls in order. The map holds
    /// the pairs that came before the end of the stream, a later pair
    /// replacing an earlier one with the same key; where the decoder failed
    /// there is no map, and its error comes back as it was.
    pub fn deserialize<E>(hint: Option<usize>, pulls: Vec<Result<Option<(K, V)>, E>>) -> (result:
        Result<Self, E>)
        ensures
            match result {
                Ok(map) => MapVisitor::<K, V>::outcome(hint, pulls@) == Ok::<Map<K, V>, E>(map@)
                    && !map.is_shared(),
                Err(error) => MapVisitor::<K, V>::outcome(hint, pulls@) == Err::<Map<K, V>, E>(
                    error,
                ),
            },
    {
        MapVisitor::new().visit_map(hint, pulls)
    }
}

/// Runs one build from its start to its end: takes the guard of `scope`,
/// steps through the pulls until one ends the build or they run out, and
/// hands over the entries or the decoder's error.
fn fill<K: Key, V, E>(
    scope: &Scope,
    table: std::collections::HashMap<K, V>,
    pulls: Vec<Result<Option<(K, V)>, E>>,
) -> (result: Result<std::collections::HashMap<K, V>, E>)
    requires
        table@ == Map::<K, V>::empty(),
    ensures
        match result {
            Ok(filled) => decode(pulls@) matches Ok(items) && filled@ == map_of(items),
            Err(error) => decode(pulls@) == Err::<Seq<(K, V)>, E>(error),
        },
{
    let mut building = MapBuild::begin(scope, table);
    let ghost all = pulls@;
    let ghost mut done: Seq<(K, V)> = Seq::empty();
    proof {
        lemma_decode_start(all);
    }
    for pull in walk: pulls
        invariant
            walk.seq() == all,
            decode(all) == after(done, decode(all.skip(walk.index()))),
            building.phase() == Phase::Building,
            building@ == map_of(done),
    {
        proof {
            lemma_decode_step(all, done, walk.index());
            let ghost seen = pull;
            if let Ok(Some((key, value))) = seen {
                lemma_map_of_push(done, key, value);
                done = done.push((key, value));
            }
        }
        match building.step(pull) {
            Step::Continue => {},
            Step::Aborted(error) => {
                return Err(error);
            },
            _ => {
                return Ok(building.finish());
            },
        }
    }
    proof {
        lemma_decode_end(all, done);
    }
    Ok(building.finish())
}

} // verus!
