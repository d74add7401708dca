//! The phases of an incremental build and what one pull does to it.

use crate::scope::{release, Scope};
use seize::LocalGuard;
use vstd::prelude::*;

verus! {

/// Where a build stands. It starts when its guard is taken, goes on while
/// items arrive, and ends in one of two ways; nothing leaves an ended build.
#[derive(Clone, Copy, Debug, PartialEq, Eq, Structural)]
pub enum Phase {
    /// Items are received, each inserted under the one guard of the build.
    Building,
    /// The stream ended; the guard is released and the container is whole.
    Complete,
    /// The decoder failed; the guard is released and nothing is handed over.
    Aborted,
}

/// What a pull did to a build, which tells the driver what to do next.
#[derive(Debug)]
pub enum Step<E> {
    /// The item is in: pull again.
    Continue,
    /// The stream ended: take the container.
    Complete,
    /// The decoder failed: hand its error on, there is no container.
    Aborted(E),
    /// The build had ended before: the pull was not looked at.
    Halted,
}

/// The guard of a build, which is held exactly while the build goes on.
pub(crate) enum Hold<'a> {
    Building(LocalGuard<'a>),
    Complete,
    Aborted,
}

impl<'a> Hold<'a> {
    /// The phase that goes with the state of the guard.
    pub(crate) open spec fn phase(&self) -> Phase {
        match *self {
            Hold::Building(_) => Phase::Building,
            Hold::Complete => Phase::Complete,
            Hold::Aborted => Phase::Aborted,
        }
    }

    /// Takes the guard of `scope` for a build that starts.
    pub(crate) fn take(scope: &'a Scope) -> (hold: Self)
        ensures
            hold.phase() == Phase::Building,
    {
        Hold::Building(scope.enter())
    }

    /// The phase that goes with the state of the guard.
    pub(crate) fn current(&self) -> (phase: Phase)
        ensures
            phase == self.phase(),
    {
        match self {
            Hold::Building(_) => Phase::Building,
            Hold::Complete => Phase::Complete,
            Hold::Aborted => Phase::Aborted,
        }
    }

    /// Gives the guard back, if it is still held.
    pub(crate) fn give_back(self) {
        if let Hold::Building(guard) = self {
            release(guard);
        }
    }
}

} // verus!
