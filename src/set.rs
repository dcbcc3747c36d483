//! The guarded hash set: membership, insertion and removal, bulk loading,
//! and set algebra over two sets read under their own guards.

use vstd::prelude::*;
use vstd::std_specs::hash::obeys_key_model;
use vstd::std_specs::hash::builds_valid_hashers;
use vstd::std_specs::hash::set_contains_borrowed_key;
use vstd::std_specs::hash::sets_borrowed_key_to_key;
use vstd::std_specs::hash::sets_differ_by_borrowed_key;
use vstd::std_specs::hash::spec_hash_keys_iter;
use vstd::std_specs::iter::IteratorSpec;
use std::borrow::Borrow;
use std::collections::hash_map::RandomState;
use std::hash::BuildHasher;
use std::hash::Hash;
use crate::guard::Guard;

verus! {

broadcast use vstd::std_specs::hash::group_hash_axioms;

/// A hash set whose operations are presented a [`Guard`].
#[verifier::reject_recursive_types(T)]
#[verifier::reject_recursive_types(S)]
pub struct HashSet<T, S = RandomState> {
    store: std::collections::HashSet<T, S>,
}

impl<T, S> View for HashSet<T, S> {
    type V = Set<T>;

    closed spec fn view(&self) -> Set<T> {
        self.store@
    }
}

impl<T, S> HashSet<T, S> {
    /// Whether the element type `T` and the hash builder `S` agree with the
    /// set's model: elements equal under their order hash alike and are one
    /// value, and `S` builds deterministic hashers.
    pub open spec fn valid_model() -> bool {
        obeys_key_model::<T>() && builds_valid_hashers::<S>()
    }

    /// `self` and `other` have no element in common.
    pub open spec fn disjoint_from(&self, other: &Self) -> bool {
        self@.disjoint(other@)
    }

    /// Every element of `self` is in `other`.
    pub open spec fn included_in(&self, other: &Self) -> bool {
        self@.subset_of(other@)
    }

    /// Every element of `other` is in `self`.
    pub open spec fn includes(&self, other: &Self) -> bool {
        other@.subset_of(self@)
    }

    /// `self` and `other` hold the same elements.
    pub open spec fn same_elements(&self, other: &Self) -> bool {
        self@ == other@
    }

    /// A set holds finitely many elements.
    pub proof fn lemma_finite(&self)
        ensures
            self@.finite(),
    {
        broadcast use vstd::seq_lib::seq_to_set_is_finite;
        assert(spec_hash_keys_iter(&self.store).remaining().unref().to_set() == self@);
    }
}

impl<T> HashSet<T, RandomState> {
    /// Creates an empty set.
    pub fn new() -> (s: Self)
        ensures
            s@ == Set::<T>::empty(),
    {
        HashSet { store: std::collections::HashSet::new() }
    }

    /// Creates an empty set with room for at least `capacity` elements.
    pub fn with_capacity(capacity: usize) -> (s: Self)
        ensures
            s@ == Set::<T>::empty(),
    {
        HashSet { store: std::collections::HashSet::with_capacity(capacity) }
    }
}

impl<T, S: Default> Default for HashSet<T, S> {
    /// Creates an empty set with the default hash builder.
    fn default() -> (s: Self)
        ensures
            s@ == Set::<T>::empty(),
    {
        HashSet { store: std::collections::HashSet::default() }
    }
}

/// Relies on `std::collections::HashSet::with_hasher`: the new set is empty.
#[verifier::external_body]
fn empty_store_with_hasher<T, S>(hash_builder: S) -> (r: std::collections::HashSet<T, S>)
    ensures
        r@ == Set::<T>::empty(),
{
    std::collections::HashSet::with_hasher(hash_builder)
}

/// Relies on `std::collections::HashSet::with_capacity_and_hasher`: the new
/// set is empty.
#[verifier::external_body]
fn empty_store_with_capacity_and_hasher<T, S>(capacity: usize, hash_builder: S) -> (r:
    std::collections::HashSet<T, S>)
    ensures
        r@ == Set::<T>::empty(),
{
    std::collections::HashSet::with_capacity_and_hasher(capacity, hash_builder)
}

/// Relies on `std::collections::HashSet::take`: the element equal to `value`
/// is removed and handed back, if there is one; otherwise the set is left
/// as it was.
#[verifier::external_body]
fn take_from_store<T, S, Q>(store: &mut std::collections::HashSet<T, S>, value: &Q) -> (r: Option<T>)
    where
        T: Hash + Eq + Borrow<Q>,
        S: BuildHasher,
        Q: ?Sized + Hash + Eq,
    ensures
        obeys_key_model::<T>() && builds_valid_hashers::<S>() ==> (r matches Some(e) ==> final(store)@ == old(store)@.remove(e)),
        obeys_key_model::<T>() && builds_valid_hashers::<S>() ==> (r matches Some(e) ==> sets_borrowed_key_to_key(old(store)@, value, &e)),
        obeys_key_model::<T>() && builds_valid_hashers::<S>() ==> (r is None ==> final(store)@ == old(store)@),
        obeys_key_model::<T>() && builds_valid_hashers::<S>() ==> (r is None <==> !set_contains_borrowed_key(old(store)@, value)),
{
    store.take(value)
}

/// Relies on `std::collections::HashSet::retain`: `f` is called once on each
/// element, and exactly the elements on which it returned `true` stay.
#[verifier::external_body]
fn retain_in_store<T, S, F: Fn(&T) -> bool>(store: &mut std::collections::HashSet<T, S>, f: F)
    requires
        forall|e: T| old(store)@.contains(e) ==> f.requires((&e,)),
    ensures
        obeys_key_model::<T>() && builds_valid_hashers::<S>() ==> forall|e: T| #[trigger]
            final(store)@.contains(e) ==> old(store)@.contains(e) && f.ensures((&e,), true),
        obeys_key_model::<T>() && builds_valid_hashers::<S>() ==> forall|e: T|
            old(store)@.contains(e) && !final(store)@.contains(e) ==> f.ensures((&e,), false),
{
    store.retain(f)
}

impl<T, S> HashSet<T, S> {
    /// Creates an empty set that hashes its elements with `hash_builder`.
    pub fn with_hasher(hash_builder: S) -> (s: Self)
        ensures
            s@ == Set::<T>::empty(),
    {
        HashSet { store: empty_store_with_hasher(hash_builder) }
    }

    /// Creates an empty set with room for at least `capacity` elements, that
    /// hashes its elements with `hash_builder`.
    pub fn with_capacity_and_hasher(capacity: usize, hash_builder: S) -> (s: Self)
        ensures
            s@ == Set::<T>::empty(),
    {
        HashSet { store: empty_store_with_capacity_and_hasher(capacity, hash_builder) }
    }

    /// Pins a guard for use with this set.
    ///
    /// While the guard is held, what is removed from the set is not reclaimed.
    pub fn guard(&self) -> (g: Guard) {
        Guard::pin()
    }

    /// Returns `true` if the set has no element.
    pub fn is_empty(&self) -> (r: bool)
        ensures
            r == (self@ == Set::<T>::empty()),
    {
        self.store.is_empty()
    }

    /// Returns the elements of the set, each once, in no particular order.
    ///
    /// The references stay valid for as long as `guard` is held.
    pub fn iter<'g>(&'g self, guard: &'g Guard) -> (r: Vec<&'g T>)
        requires
            Self::valid_model(),
        ensures
            r@.unref().to_set() == self@,
            r@.unref().no_duplicates(),
    {
        let mut out: Vec<&'g T> = Vec::new();
        for value in it: self.store.iter()
            invariant
                Self::valid_model(),
                it.seq().unref().to_set() == self@,
                it.seq().unref().no_duplicates(),
                it.seq().take(it.seq().len() as int) =~= it.seq(),
                out@ == it.seq().take(it.index()),
        {
            out.push(value);
        }
        out
    }
}

impl<T: Hash + Ord, S: BuildHasher> HashSet<T, S> {
    /// Returns the number of elements in the set.
    pub fn len(&self) -> (n: usize)
        requires
            Self::valid_model(),
        ensures
            n == self@.len(),
    {
        self.store.len()
    }

    /// Returns `true` if an element equal to `value` is in the set.
    ///
    /// `value` may be any borrowed form of the element type whose `Hash`
    /// and `Ord` agree with those of the element type.
    pub fn contains<Q: ?Sized + Hash + Ord>(&self, value: &Q, guard: &Guard) -> (r: bool)
        where
            T: Borrow<Q>,
        requires
            Self::valid_model(),
        ensures
            r == set_contains_borrowed_key(self@, value),
    {
        self.store.contains(value)
    }

    /// Returns the element of the set equal to `value`, if there is one.
    ///
    /// The reference stays valid for as long as `guard` is held.
    pub fn get<'g, Q: ?Sized + Hash + Ord>(&'g self, value: &Q, guard: &'g Guard) -> (r: Option<&'g T>)
        where
            T: Borrow<Q>,
        requires
            Self::valid_model(),
        ensures
            match r {
                Some(e) => sets_borrowed_key_to_key(self@, value, e),
                None => !set_contains_borrowed_key(self@, value),
            },
    {
        self.store.get(value)
    }

    /// Returns `true` if `self` and `other` have no element in common.
    ///
    /// The elements of `self` are read under `our_guard`, and each is looked
    /// up in `other` under `their_guard`.
    pub fn is_disjoint(&self, other: &HashSet<T, S>, our_guard: &Guard, their_guard: &Guard) -> (r: bool)
        requires
            Self::valid_model(),
        ensures
            r == self.disjoint_from(other),
    {
        for value in it: self.store.iter()
            invariant
                Self::valid_model(),
                it.seq().unref().to_set() == self@,
                forall|i: int| 0 <= i < it.index() ==> !other@.contains(*#[trigger] it.seq()[i]),
        {
            if other.contains(value, their_guard) {
                return false;
            }
        }
        true
    }

    /// Returns `true` if every element of `self` is in `other`.
    ///
    /// The elements of `self` are read under `our_guard`, and each is looked
    /// up in `other` under `their_guard`.
    pub fn is_subset(&self, other: &HashSet<T, S>, our_guard: &Guard, their_guard: &Guard) -> (r: bool)
        requires
            Self::valid_model(),
        ensures
            r == self.included_in(other),
    {
        for value in it: self.store.iter()
            invariant
                Self::valid_model(),
                it.seq().unref().to_set() == self@,
                forall|i: int| 0 <= i < it.index() ==> other@.contains(*#[trigger] it.seq()[i]),
        {
            if !other.contains(value, their_guard) {
                return false;
            }
        }
        true
    }

    /// Returns `true` if every element of `other` is in `self`.
    pub fn is_superset(&self, other: &HashSet<T, S>, our_guard: &Guard, their_guard: &Guard) -> (r: bool)
        requires
            Self::valid_model(),
        ensures
            r == self.includes(other),
    {
        other.is_subset(self, their_guard, our_guard)
    }

    /// Returns `true` if `self` and `other` hold the same elements.
    ///
    /// Sets of different sizes are told apart by their sizes alone, without
    /// looking at any element; otherwise every element of `self` is looked up
    /// in `other`.
    pub fn guarded_eq(&self, other: &Self, our_guard: &Guard, their_guard: &Guard) -> (r: bool)
        requires
            Self::valid_model(),
        ensures
            r == self.same_elements(other),
            self@.len() != other@.len() ==> !r,
    {
        if self.len() != other.len() {
            return false;
        }
        let sub = self.is_subset(other, our_guard, their_guard);
        proof {
            self.lemma_finite();
            other.lemma_finite();
            if sub {
                vstd::set_lib::lemma_subset_equality(self@, other@);
            }
        }
        sub
    }
}

impl<T: Hash + Ord, S: BuildHasher> HashSet<T, S> {
    /// Adds `value` to the set.
    ///
    /// Returns `true` if no equal element was present. An element already
    /// present is kept as it is.
    pub fn insert(&mut self, value: T, guard: &Guard) -> (r: bool)
        requires
            Self::valid_model(),
        ensures
            final(self)@ == old(self)@.insert(value),
            r == !old(self)@.contains(value),
    {
        self.store.insert(value)
    }

    /// Removes the element equal to `value`, if there is one.
    ///
    /// Returns `true` if there was one.
    pub fn remove<Q: ?Sized + Hash + Ord>(&mut self, value: &Q, guard: &Guard) -> (r: bool)
        where
            T: Borrow<Q>,
        requires
            Self::valid_model(),
        ensures
            sets_differ_by_borrowed_key(old(self)@, final(self)@, value),
            r == set_contains_borrowed_key(old(self)@, value),
    {
        self.store.remove(value)
    }

    /// Removes the element equal to `value`, if there is one, and returns it.
    pub fn take<Q: ?Sized + Hash + Ord>(&mut self, value: &Q, guard: &Guard) -> (r: Option<T>)
        where
            T: Borrow<Q>,
        requires
            Self::valid_model(),
        ensures
            match r {
                Some(e) => {
                    &&& sets_borrowed_key_to_key(old(self)@, value, &e)
                    &&& final(self)@ == old(self)@.remove(e)
                },
                None => {
                    &&& !set_contains_borrowed_key(old(self)@, value)
                    &&& final(self)@ == old(self)@
                },
            },
    {
        take_from_store(&mut self.store, value)
    }

    /// Keeps only the elements on which `f` returns `true`.
    ///
    /// `f` is called once on each element, in no particular order.
    pub fn retain<F: Fn(&T) -> bool>(&mut self, f: F, guard: &Guard)
        requires
            Self::valid_model(),
            forall|e: T| old(self)@.contains(e) ==> f.requires((&e,)),
        ensures
            forall|e: T| #[trigger]
                final(self)@.contains(e) ==> old(self)@.contains(e) && f.ensures((&e,), true),
            forall|e: T|
                old(self)@.contains(e) && !final(self)@.contains(e) ==> f.ensures((&e,), false),
    {
        assert forall|e: T| self.store@.contains(e) implies f.requires((&e,)) by {
            assert(self@.contains(e));
        }
        retain_in_store(&mut self.store, f)
    }

    /// Adds each of `items` to the set. Of equal items, the first one
    /// present stays.
    pub fn extend(&mut self, items: Vec<T>, guard: &Guard)
        requires
            Self::valid_model(),
        ensures
            final(self)@ == old(self)@.union(items@.to_set()),
    {
        let ghost start = self@;
        for item in it: items.into_iter()
            invariant
                Self::valid_model(),
                it.seq() == items@,
                self@ == start.union(it.seq().take(it.index()).to_set()),
                it.seq().take(it.seq().len() as int) =~= it.seq(),
        {
            proof {
                let i = it.index();
                assert(it.seq().take(i + 1).to_set() =~= it.seq().take(i).to_set().insert(
                    it.seq()[i],
                )) by {
                    assert(it.seq().take(i + 1) =~= it.seq().take(i).push(it.seq()[i]));
                }
            }
            self.store.insert(item);
        }
    }
}

impl<T, S> HashSet<T, S> {
    /// Removes every element.
    pub fn clear(&mut self, guard: &Guard)
        ensures
            final(self)@ == Set::<T>::empty(),
    {
        self.store.clear()
    }
}

impl<T: Hash + Ord, S: BuildHasher> HashSet<T, S> {
    /// Makes room for at least `additional` more elements. The elements do
    /// not change.
    pub fn reserve(&mut self, additional: usize, guard: &Guard)
        ensures
            final(self)@ == old(self)@,
    {
        self.store.reserve(additional)
    }
}

impl<T: Hash + Ord> HashSet<T, RandomState> {
    /// Creates a set of the given items. Of equal items, the first one stays.
    pub fn from_vec(items: Vec<T>) -> (s: Self)
        requires
            Self::valid_model(),
        ensures
            s@ == items@.to_set(),
    {
        let mut s = HashSet::new();
        let guard = s.guard();
        s.extend(items, &guard);
        s
    }
}

} // verus!
