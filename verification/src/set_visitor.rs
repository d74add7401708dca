//! Building a set from a stream of decoded elements, into a private scope or
//! into a shared one.

use crate::key::Key;
use crate::phase::{Hold, Phase, Step};
use crate::scope::Scope;
use crate::set::HashSet;
use crate::wire::{
    after, decode, lemma_decode_end, lemma_decode_start, lemma_decode_step, lemma_set_of_push,
    set_of,
};
use seize::Collector;
use std::marker::PhantomData;
use std::sync::Arc;
use vstd::prelude::*;

verus! {

broadcast use vstd::std_specs::hash::group_hash_axioms;

/// A build of a set: its phase, the one guard it holds while it goes on, and
/// the elements received so far. Its view is the `Set` of those elements.
pub struct SetBuild<'a, K: Key> {
    hold: Hold<'a>,
    table: std::collections::HashSet<K>,
}

impl<'a, K: Key> View for SetBuild<'a, K> {
    type V = Set<K>;

    closed spec fn view(&self) -> Set<K> {
        self.table@
    }
}

impl<'a, K: Key> SetBuild<'a, K> {
    /// Where the build stands.
    pub closed spec fn phase(&self) -> Phase {
        self.hold.phase()
    }

    /// Whether the build holds its guard.
    pub closed spec fn holds_guard(&self) -> bool {
        self.hold is Building
    }

    /// The guard is held in the building phase and released in every other.
    pub proof fn lemma_guard_follows_phase(&self)
        ensures
            self.holds_guard() == (self.phase() == Phase::Building),
    {
    }

    /// Starts a build into `table`: takes the one guard of `scope` under
    /// which every element will be inserted.
    pub fn begin(scope: &'a Scope, table: std::collections::HashSet<K>) -> (building: Self)
        ensures
            building.phase() == Phase::Building,
            building.holds_guard(),
            building@ == table@,
    {
        SetBuild { hold: Hold::take(scope), table }
    }

    /// Where the build stands.
    pub fn current_phase(&self) -> (phase: Phase)
        ensures
            phase == self.phase(),
    {
        self.hold.current()
    }

    /// Takes one pull from the decoder. While the build goes on, an element
    /// is inserted under the held guard (one that is already in changes
    /// nothing), the end of the stream completes the build, and a failure
    /// aborts it: the guard is released, the elements received so far are
    /// dropped and the decoder's error is handed on as it came. A build
    /// that has ended stays as it is.
    pub fn step<E>(&mut self, pull: Result<Option<K>, E>) -> (step: Step<E>)
        ensures
            final(self).holds_guard() == (final(self).phase() == Phase::Building),
            match (old(self).phase(), pull) {
                (Phase::Building, Ok(Some(key))) => {
                    &&& step == Step::<E>::Continue
                    &&& final(self).phase() == Phase::Building
                    &&& final(self)@ == old(self)@.insert(key)
                },
                (Phase::Building, Ok(None)) => {
                    &&& step == Step::<E>::Complete
                    &&& final(self).phase() == Phase::Complete
                    &&& final(self)@ == old(self)@
                },
                (Phase::Building, Err(error)) => {
                    &&& step == Step::Aborted(error)
                    &&& final(self).phase() == Phase::Aborted
                    &&& final(self)@ == Set::<K>::empty()
                },
                (_, _) => {
                    &&& step == Step::<E>::Halted
                    &&& final(self).phase() == old(self).phase()
                    &&& final(self)@ == old(self)@
                },
            },
    {
        proof {
            K::lawful();
        }
        if let Hold::Building(_) = &self.hold {
            match pull {
                Ok(Some(key)) => {
                    self.table.insert(key);
                    Step::Continue
                },
                Ok(None) => {
                    self.hold = Hold::Complete;
                    Step::Complete
                },
                Err(error) => {
                    self.hold = Hold::Aborted;
                    self.table.clear();
                    Step::Aborted(error)
                },
            }
        } else {
            Step::Halted
        }
    }

    /// Ends the build and hands its elements over, releasing the guard if
    /// the pulls ran out while it was still held. An aborted build has none.
    pub fn finish(self) -> (table: std::collections::HashSet<K>)
        ensures
            table@ == self@,
    {
        self.hold.give_back();
        self.table
    }
}

/// The scope that a set is to be built into.
enum Choice {
    Private,
    Fresh,
    Joined(Arc<Collector>),
}

/// The start of a build of a set. Whether the set gets a private scope or a
/// shared one is settled here, by the caller, and by nothing on the wire.
pub struct SetVisitor<K: Key> {
    choice: Choice,
    _marker: PhantomData<K>,
}

impl<K: Key> SetVisitor<K> {
    /// What a stream of pulls comes to: the set of its elements, or the
    /// decoder's error. The hint has no part in it.
    pub open spec fn outcome<E>(hint: Option<usize>, pulls: Seq<Result<Option<K>, E>>) -> Result<
        Set<K>,
        E,
    > {
        match decode(pulls) {
            Ok(items) => Ok(set_of(items)),
            Err(error) => Err(error),
        }
    }

    /// Whether the set is to be built into a shared scope.
    pub closed spec fn is_shared(&self) -> bool {
        !(self.choice is Private)
    }

    /// The shared scope that the caller supplied, if any.
    pub closed spec fn supplied(&self) -> Option<Arc<Collector>> {
        match self.choice {
            Choice::Joined(collector) => Some(collector),
            _ => None,
        }
    }

    /// For a set with a private scope of its own.
    pub fn new() -> (visitor: Self)
        ensures
            !visitor.is_shared(),
            visitor.supplied().is_none(),
    {
        SetVisitor { choice: Choice::Private, _marker: PhantomData }
    }

    /// For a set with a fresh shared scope, made when the build starts.
    pub fn new_shared() -> (visitor: Self)
        ensures
            visitor.is_shared(),
            visitor.supplied().is_none(),
    {
        SetVisitor { choice: Choice::Fresh, _marker: PhantomData }
    }

    /// For a set that joins the shared scope behind `collector`.
    pub fn with_collector(collector: Arc<Collector>) -> (visitor: Self)
        ensures
            visitor.is_shared(),
            visitor.supplied() == Some(collector),
    {
        SetVisitor { choice: Choice::Joined(collector), _marker: PhantomData }
    }

    /// What the visitor tells a decoder that it is waiting for.
    pub fn expecting(&self) -> (text: &'static str)
        ensures
            text@ == "a set"@,
    {
        "a set"
    }

    /// The empty set that a build fills, in the mode that was chosen. A
    /// private set is made with the announced room, or as the default makes
    /// it where nothing was announced. A shared set is configured in one
    /// step: its scope, fresh or supplied, together with the announced room,
    /// or none.
    pub fn target(self, hint: Option<usize>) -> (set: HashSet<K>)
        ensures
            set@ == Set::<K>::empty(),
            set.is_shared() == self.is_shared(),
            self.supplied() matches Some(collector) ==> set.scope() == Scope::Shared(collector),
    {
        match self.choice {
            Choice::Private => match hint {
                Some(size) => HashSet::with_capacity(size),
                None => HashSet::default(),
            },
            Choice::Fresh => match hint {
                Some(size) => HashSet::builder().shared_collector(
                    Arc::new(Collector::new()),
                ).capacity(size).build(),
                None => HashSet::builder().shared_collector(Arc::new(Collector::new())).capacity(
                    0,
                ).build(),
            },
            Choice::Joined(collector) => match hint {
                Some(size) => HashSet::builder().shared_collector(collector).capacity(size).build(),
                None => HashSet::builder().shared_collector(collector).capacity(0).build(),
            },
        }
    }

    /// Builds a set from what a decoder hands over: the size it announced,
    /// if any, and its pulls in order.
    pub fn visit_seq<E>(self, hint: Option<usize>, pulls: Vec<Result<Option<K>, E>>) -> (result:
        Result<HashSet<K>, E>)
        ensures
            match result {
                Ok(set) => {
                    &&& Self::outcome(hint, pulls@) == Ok::<Set<K>, E>(set@)
                    &&& set.is_shared() == self.is_shared()
                    &&& self.supplied() matches Some(collector) ==> set.scope() == Scope::Shared(
                        collector,
                    )
                },
                Err(error) => Self::outcome(hint, pulls@) == Err::<Set<K>, E>(error),
            },
    {
        let (scope, table) = self.target(hint).into_parts();
        match fill(&scope, table, pulls) {
            Ok(table) => Ok(HashSet::from_parts(scope, table)),
            Err(error) => Err(error),
        }
    }
}

impl<K: Key> HashSet<K> {
    /// Rebuilds a set, with a private scope, from what a decoder hands over:
    /// the size it announced, if any, and its pulls in order. The set holds
    /// the elements that came before the end of the stream; where the
    /// decoder failed there is no set, and its error comes back as it was.
    pub fn deserialize<E>(hint: Option<usize>, pulls: Vec<Result<Option<K>, E>>) -> (result: Result<
        Self,
        E,
    >)
        ensures
            match result {
                Ok(set) => SetVisitor::<K>::outcome(hint, pulls@) == Ok::<Set<K>, E>(set@)
                    && !set.is_shared(),
                Err(error) => SetVisitor::<K>::outcome(hint, pulls@) == Err::<Set<K>, E>(error),
            },
    {
        SetVisitor::new().visit_seq(hint, pulls)
    }

    /// Rebuilds a set as `deserialize` does, but with a fresh shared scope,
    /// which other containers can join afterwards.
    pub fn deserialize_shared<E>(hint: Option<usize>, pulls: Vec<Result<Option<K>, E>>) -> (result:
        Result<Self, E>)
        ensures
            match result {
                Ok(set) => SetVisitor::<K>::outcome(hint, pulls@) == Ok::<Set<K>, E>(set@)
                    && set.is_shared(),
                Err(error) => SetVisitor::<K>::outcome(hint, pulls@) == Err::<Set<K>, E>(error),
            },
    {
        SetVisitor::new_shared().visit_seq(hint, pulls)
    }
}

/// Runs one build from its start to its end: takes the guard of `scope`,
/// steps through the pulls until one ends the build or they run out, and
/// hands over the elements or the decoder's error.
fn fill<K: Key, E>(
    scope: &Scope,
    table: std::collections::HashSet<K>,
    pulls: Vec<Result<Option<K>, E>>,
) -> (result: Result<std::collections::HashSet<K>, E>)
    requires
        table@ == Set::<K>::empty(),
    ensures
        match result {
            Ok(filled) => decode(pulls@) matches Ok(items) && filled@ == set_of(items),
            Err(error) => decode(pulls@) == Err::<Seq<K>, E>(error),
        },
{
    let mut building = SetBuild::begin(scope, table);
    let ghost all = pulls@;
    let ghost mut done: Seq<K> = Seq::empty();
    proof {
        lemma_decode_start(all);
        assert(set_of(done) =~= Set::<K>::empty());
    }
    for pull in walk: pulls
        invariant
            walk.seq() == all,
            decode(all) == after(done, decode(all.skip(walk.index()))),
            building.phase() == Phase::Building,
            building@ == set_of(done),
    {
        proof {
            lemma_decode_step(all, done, walk.index());
            let ghost seen = pull;
            if let Ok(Some(key)) = seen {
                lemma_set_of_push(done, key);
                done = done.push(key);
            }
        }
        match building.step(pull) {
            Step::Continue => {},
            Step::Aborted(error) => {
                return Err(error);
            },
            _ => {
                return Ok(building.finish());
            },
        }
    }
    proof {
        lemma_decode_end(all, done);
    }
    Ok(building.finish())
}

} // verus!
