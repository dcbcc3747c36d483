//! A hash set whose operations take an epoch guard, with set algebra
//! (disjointness, subset, superset, equality) over two independently
//! guarded sets.

pub mod guard;
pub mod laws;
pub mod set;

pub use guard::Guard;
pub use set::HashSet;
