//! What can go wrong while conditions are evaluated and actions dispatched.

use crate::actions::ActionId;
use vstd::prelude::*;

verus! {

/// A failure that ends a run. It is handed upwards unchanged: nothing
/// retries, and nothing that was done before it is undone.
#[derive(Clone, Debug, PartialEq, Eq)]
pub enum Failure {
    /// A template could not be rendered: its syntax is wrong, or it names a
    /// variable that is not bound.
    Render(String),
    /// An action identifier names no entry of the registry.
    Resolution(ActionId),
    /// The filesystem could not say what stands at a path, for a reason other
    /// than that nothing stands there.
    Filesystem(String),
}

impl Failure {
    /// A copy of the failure, equal to it.
    pub fn duplicate(&self) -> (copy: Failure)
        ensures
            copy == *self,
    {
        match self {
            Failure::Render(message) => Failure::Render(message.clone()),
            Failure::Resolution(id) => Failure::Resolution(*id),
            Failure::Filesystem(message) => Failure::Filesystem(message.clone()),
        }
    }
}

} // verus!
