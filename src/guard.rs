//! The pinned-epoch token that set operations are presented.

use vstd::prelude::*;

verus! {

/// A pinned epoch.
///
/// Operations on a set are presented a guard. An element reference that an
/// operation hands out borrows the guard, so it cannot outlive it. A guard
/// is not bound to one set; it may be presented to several.
pub struct Guard {
    pinned: (),
}

impl Guard {
    /// Pins the current epoch.
    pub fn pin() -> (g: Guard) {
        Guard { pinned: () }
    }
}

} // verus!
