//! Key types whose hashing and equality the containers can rely on.

use std::hash::Hash;
use vstd::prelude::*;
use vstd::std_specs::hash::obeys_key_model;

verus! {

broadcast use vstd::std_specs::hash::group_hash_axioms;

/// A type that can key a container: hashing is deterministic and two keys
/// compare equal exactly when they are the same value.
pub trait Key: Eq + Hash + Sized {
    /// Evidence that the type follows the model of keys that the
    /// specifications of the standard hash containers assume.
    proof fn lawful()
        ensures
            obeys_key_model::<Self>(),
    ;
}

impl Key for bool {
    proof fn lawful() {
    }
}

impl Key for u8 {
    proof fn lawful() {
    }
}

impl Key for u16 {
    proof fn lawful() {
    }
}

impl Key for u32 {
    proof fn lawful() {
    }
}

impl Key for u64 {
    proof fn lawful() {
    }
}

impl Key for u128 {
    proof fn lawful() {
    }
}

impl Key for usize {
    proof fn lawful() {
    }
}

impl Key for i8 {
    proof fn lawful() {
    }
}

impl Key for i16 {
    proof fn lawful() {
    }
}

impl Key for i32 {
    proof fn lawful() {
    }
}

impl Key for i64 {
    proof fn lawful() {
    }
}

impl Key for i128 {
    proof fn lawful() {
    }
}

impl Key for isize {
    proof fn lawful() {
    }
}

} // verus!
