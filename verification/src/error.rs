//! Why an operation on the registry was refused.

use vstd::prelude::*;

verus! {

/// The reasons for which an operation leaves the registry as it was.
#[derive(Clone, Copy, Debug, PartialEq, Eq, Structural)]
pub enum Error {
    /// Every identifier has been handed out.
    CounterOverflow,
    /// No kitty has the identifier that was named.
    UnknownEntity,
    /// A kitty cannot be bred with itself.
    IdenticalParents,
    /// The caller does not own the kitty.
    NotOwner,
    /// The kitty is not recorded under the owner it was to leave.
    NotOwned,
}

} // verus!
