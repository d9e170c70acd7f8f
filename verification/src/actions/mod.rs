//! Actions, the identifiers that refer to them, and their dispatch.

pub mod conditionals;
pub mod dispatch;
pub mod registry;

use vstd::prelude::*;

verus! {

/// A handle on an entry of the registry of actions. Many branches may hold
/// the same handle: the entry belongs to the registry, not to them.
#[derive(Clone, Copy, Debug, PartialEq, Eq, Hash)]
pub struct ActionId(pub usize);

} // verus!
