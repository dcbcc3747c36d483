//! Laws that relate the operations of [`HashSet`], stated over the views
//! that the operations' own contracts use.

use vstd::prelude::*;
use vstd::std_specs::hash::set_contains_borrowed_key;
use vstd::std_specs::hash::sets_differ_by_borrowed_key;
use crate::set::HashSet;

verus! {

broadcast use vstd::std_specs::hash::group_hash_axioms;

/// Inserting the same value twice leaves the set as one insertion does: the
/// first insertion reports the value new exactly when it was absent, and the
/// second always reports it present.
pub proof fn law_insert_idempotent<T, S>(start: &HashSet<T, S>, x: T)
    ensures
        start@.insert(x).insert(x) == start@.insert(x),
        start@.insert(x).contains(x),
        !start@.contains(x) ==> start@.insert(x).len() == start@.len() + 1,
{
    start.lemma_finite();
    assert(start@.insert(x).insert(x) =~= start@.insert(x));
}

/// Removing a value right after inserting it reports it present, and
/// afterwards the set no longer contains it.
pub proof fn law_remove_after_insert<T, S>(inserted: &HashSet<T, S>, removed: &HashSet<T, S>, x: T)
    requires
        inserted@.contains(x),
        sets_differ_by_borrowed_key(inserted@, removed@, &x),
    ensures
        set_contains_borrowed_key(inserted@, &x),
        !set_contains_borrowed_key(removed@, &x),
        removed@ == inserted@.remove(x),
{
}

/// Removing a value that is absent reports it absent and changes nothing.
pub proof fn law_remove_absent<T, S>(before: &HashSet<T, S>, after: &HashSet<T, S>, x: T)
    requires
        !before@.contains(x),
        sets_differ_by_borrowed_key(before@, after@, &x),
    ensures
        !set_contains_borrowed_key(before@, &x),
        after@ == before@,
{
    assert(before@.remove(x) =~= before@);
}

/// Disjointness does not depend on the order of the operands.
pub proof fn law_disjoint_symmetric<T, S>(a: &HashSet<T, S>, b: &HashSet<T, S>)
    ensures
        a.disjoint_from(b) == b.disjoint_from(a),
{
}

/// Two sets hold the same elements exactly when each is a subset of the
/// other.
pub proof fn law_mutual_subset_is_equality<T, S>(a: &HashSet<T, S>, b: &HashSet<T, S>)
    ensures
        (a.included_in(b) && b.included_in(a)) == a.same_elements(b),
{
    if a.included_in(b) && b.included_in(a) {
        assert(a@ =~= b@);
    }
}

/// `a` is a superset of `b` exactly when `b` is a subset of `a`.
pub proof fn law_superset_is_reversed_subset<T, S>(a: &HashSet<T, S>, b: &HashSet<T, S>)
    ensures
        a.includes(b) == b.included_in(a),
{
}

} // verus!
