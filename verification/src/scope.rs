//! Reclamation scopes: the collector that a container retires memory to, and
//! the guards that pin it.

use seize::{Collector, LocalGuard};
use std::sync::Arc;
use vstd::prelude::*;

verus! {

/// `seize::Collector`, the domain that decides when retired memory is freed.
/// Nothing inside it is visible to the proofs.
#[verifier::external_type_specification]
#[verifier::external_body]
pub struct ExCollector(Collector);

/// `seize::LocalGuard`, which marks the current thread as active in its
/// collector until it is dropped. Nothing inside it is visible to the proofs.
#[verifier::external_type_specification]
#[verifier::external_body]
pub struct ExLocalGuard<'a>(LocalGuard<'a>);

/// `seize::Collector::new` makes a collector; nothing is claimed of it.
pub assume_specification[ Collector::new ]() -> (collector: Collector);

/// `seize::Collector::enter` hands out a guard for the calling thread; it is
/// reentrant and takes no condition. Nothing is claimed of the guard.
pub assume_specification<'a>[ Collector::enter ](collector: &'a Collector) -> (guard:
    LocalGuard<'a>);

/// The equality of `seize::Collector`, which compares the ids that collectors
/// are given when they are made. So one and the same collector equals itself;
/// of two collectors that are not known to be the same, nothing is claimed.
#[verifier::external_body]
fn same_collector(left: &Collector, right: &Collector) -> (same: bool)
    ensures
        *left == *right ==> same,
{
    left == right
}

/// The reclamation scope of one container. A private scope belongs to its
/// container alone and lives as long as it does; a shared scope is held by
/// reference count and may serve several containers.
#[derive(Debug)]
pub enum Scope {
    Private(Collector),
    Shared(Arc<Collector>),
}

impl Scope {
    /// Whether the scope is held by reference count.
    pub open spec fn is_shared(&self) -> bool {
        self is Shared
    }

    /// A fresh scope for one container alone.
    pub fn private() -> (scope: Scope)
        ensures
            !scope.is_shared(),
    {
        Scope::Private(Collector::new())
    }

    /// A fresh scope behind a reference count, ready to be handed to other
    /// containers as well.
    pub fn fresh_shared() -> (scope: Scope)
        ensures
            scope.is_shared(),
    {
        Scope::Shared(Arc::new(Collector::new()))
    }

    /// The scope behind a handle that the caller already holds.
    pub fn shared(handle: Arc<Collector>) -> (scope: Scope)
        ensures
            scope == Scope::Shared(handle),
    {
        Scope::Shared(handle)
    }

    /// Whether the scope is held by reference count.
    pub fn shared_mode(&self) -> (shared: bool)
        ensures
            shared == self.is_shared(),
    {
        match self {
            Scope::Private(_) => false,
            Scope::Shared(_) => true,
        }
    }

    /// The collector behind the scope, in either mode.
    pub fn collector(&self) -> (collector: &Collector)
        ensures
            match *self {
                Scope::Private(own) => *collector == own,
                Scope::Shared(handle) => *collector == *handle,
            },
    {
        match self {
            Scope::Private(own) => own,
            Scope::Shared(handle) => handle,
        }
    }

    /// Pins the scope: the guard that comes back keeps memory retired to the
    /// scope from being freed until the guard is dropped.
    pub(crate) fn enter(&self) -> (guard: LocalGuard<'_>) {
        self.collector().enter()
    }

    /// Whether two scopes are joint: both held by reference count, and both
    /// reaching one and the same collector. A private scope is never handed
    /// out, so it is joint with none.
    pub fn joint_with(&self, other: &Scope) -> (joint: bool)
        ensures
            joint ==> self.is_shared() && other.is_shared(),
            self.is_shared() && other.is_shared() && self.reaches() == other.reaches() ==> joint,
    {
        let same = same_collector(self.collector(), other.collector());
        Scope::joint(self.shared_mode(), other.shared_mode(), same)
    }

    /// What `joint_with` answers, given the modes of the two scopes and
    /// whether their collectors are one and the same.
    pub fn joint(left_shared: bool, right_shared: bool, same: bool) -> (joint: bool)
        ensures
            joint == (left_shared && right_shared && same),
    {
        left_shared && right_shared && same
    }

    /// The collector that the scope reaches, in either mode.
    pub open spec fn reaches(&self) -> Collector {
        match *self {
            Scope::Private(own) => own,
            Scope::Shared(handle) => *handle,
        }
    }
}

/// Gives a guard back: the scope is unpinned when the guard is dropped here.
pub(crate) fn release(guard: LocalGuard<'_>) {
}

} // verus!
