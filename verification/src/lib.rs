//! A serialization bridge for hash containers that are bound to a memory
//! reclamation scope.
//!
//! A container is read through a pinned view, which holds a guard of the
//! container's scope for as long as the view lives, and it is rebuilt from a
//! stream of decoded items by a build that holds one guard from the first
//! item to the last. What a container holds is a `Map` or a `Set`; what goes
//! over the wire is a `Seq` of items. The contracts relate the two.

pub mod guarantees;
pub mod key;
pub mod map;
pub mod map_visitor;
pub mod phase;
pub mod scope;
pub mod set;
pub mod set_visitor;
pub mod wire;

pub use key::Key;
pub use map::{HashMap, HashMapRef};
pub use map_visitor::{MapBuild, MapVisitor};
pub use phase::{Phase, Step};
pub use scope::Scope;
pub use set::{HashSet, HashSetBuilder, HashSetRef};
pub use set_visitor::{SetBuild, SetVisitor};
