//! Explicit, manually-invocable cleanup hook used to break reference cycles
//! before `Drop`.
//!
//! Long-lived components that register callbacks holding strong references
//! back to them implement `clean_drop`, to be called explicitly (e.g. during an
//! orderly shutdown). Implementations must be idempotent: calling it more than
//! once is safe.

use vstd::prelude::*;

verus! {

/// Trait providing an explicit cleanup method that may be invoked prior to `Drop`.
pub trait CleanDrop: Sized {
    /// Whether the value's resources have been released.
    spec fn is_cleaned(&self) -> bool;

    /// Perform custom cleanup, releasing external resources and breaking strong reference cycles.
    ///
    /// Afterwards the value is cleaned, and on a cleaned value the call changes
    /// nothing, so calling it again is the same as calling it once.
    fn clean_drop(&mut self)
        ensures
            final(self).is_cleaned(),
            old(self).is_cleaned() ==> *final(self) == *old(self),
    ;
}

} // verus!
