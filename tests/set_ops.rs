use flurry::Guard;
use flurry::HashSet;
use std::collections::hash_map::RandomState;

fn set_of(items: &[i32]) -> HashSet<i32> {
    HashSet::from_vec(items.to_vec())
}

fn sorted(set: &HashSet<i32>, guard: &Guard) -> Vec<i32> {
    let mut v: Vec<i32> = set.iter(guard).into_iter().copied().collect();
    v.sort();
    v
}

#[test]
fn new_set_is_empty() {
    let set: HashSet<i32> = HashSet::new();
    assert!(set.is_empty());
    assert_eq!(set.len(), 0);
}

#[test]
fn default_set_is_empty() {
    let set: HashSet<i32, RandomState> = HashSet::default();
    assert!(set.is_empty());
}

#[test]
fn constructors_with_capacity_and_hasher() {
    let mut a: HashSet<&str> = HashSet::with_capacity(10);
    let mut b: HashSet<i32, RandomState> = HashSet::with_hasher(RandomState::new());
    let mut c: HashSet<i32, RandomState> = HashSet::with_capacity_and_hasher(10, RandomState::new());
    let guard = Guard::pin();
    assert!(a.insert("a", &guard));
    assert!(b.insert(1, &guard));
    assert!(c.insert(1, &guard));
    assert_eq!(a.len(), 1);
    assert!(b.contains(&1, &guard));
    assert!(c.contains(&1, &guard));
}

#[test]
fn insert_twice_keeps_one() {
    let mut set = HashSet::new();
    let guard = set.guard();
    assert_eq!(set.insert(2, &guard), true);
    assert_eq!(set.insert(2, &guard), false);
    assert!(set.contains(&2, &guard));
    assert_eq!(set.len(), 1);
}

#[test]
fn remove_after_insert() {
    let mut set = HashSet::new();
    let guard = set.guard();
    set.insert(2, &guard);
    assert_eq!(set.remove(&2, &guard), true);
    assert!(!set.contains(&2, &guard));
    assert_eq!(set.remove(&2, &guard), false);
    assert!(set.is_empty());
}

#[test]
fn remove_absent_changes_nothing() {
    let mut set = set_of(&[1, 2]);
    let guard = set.guard();
    assert_eq!(set.remove(&7, &guard), false);
    assert_eq!(sorted(&set, &guard), vec![1, 2]);
}

#[test]
fn len_counts_elements() {
    let mut set = HashSet::new();
    let guard = set.guard();
    set.insert(1, &guard);
    set.insert(2, &guard);
    assert_eq!(set.len(), 2);
    assert!(!set.is_empty());
}

#[test]
fn contains_and_get() {
    let set = set_of(&[1, 2, 3]);
    let guard = set.guard();
    assert!(set.contains(&2, &guard));
    assert!(!set.contains(&4, &guard));
    assert_eq!(set.get(&2, &guard), Some(&2));
    assert_eq!(set.get(&4, &guard), None);
}

#[test]
fn take_hands_back_the_element() {
    let mut set = set_of(&[1, 2, 3]);
    let guard = set.guard();
    assert_eq!(set.take(&2, &guard), Some(2));
    assert_eq!(set.take(&2, &guard), None);
    assert_eq!(sorted(&set, &guard), vec![1, 3]);
}

#[test]
fn retain_keeps_even() {
    let mut set = HashSet::new();
    let guard = set.guard();
    for i in 0..8 {
        set.insert(i, &guard);
    }
    set.retain(|&e| e % 2 == 0, &guard);
    assert_eq!(set.len(), 4);
    assert_eq!(sorted(&set, &guard), vec![0, 2, 4, 6]);
}

#[test]
fn clear_empties() {
    let mut set = HashSet::new();
    let guard = set.guard();
    set.insert("a", &guard);
    set.clear(&guard);
    assert!(set.is_empty());
    assert!(!set.contains(&"a", &guard));
}

#[test]
fn reserve_keeps_elements() {
    let mut set = set_of(&[5, 6]);
    let guard = set.guard();
    set.reserve(100, &guard);
    assert_eq!(sorted(&set, &guard), vec![5, 6]);
}

#[test]
fn from_vec_first_occurrence_wins() {
    let set = set_of(&[3, 1, 3, 2, 1]);
    let guard = set.guard();
    assert_eq!(set.len(), 3);
    assert_eq!(sorted(&set, &guard), vec![1, 2, 3]);
}

#[test]
fn extend_adds_items() {
    let mut set = set_of(&[1]);
    let guard = set.guard();
    set.extend(vec![1, 4, 5, 4], &guard);
    assert_eq!(sorted(&set, &guard), vec![1, 4, 5]);
}

#[test]
fn iter_yields_each_once() {
    let set = set_of(&[9, 8, 7]);
    let guard = set.guard();
    let items = set.iter(&guard);
    assert_eq!(items.len(), 3);
    assert_eq!(sorted(&set, &guard), vec![7, 8, 9]);
}

#[test]
fn books_scenario() {
    let mut books = HashSet::new();
    let guard = books.guard();
    books.insert("Fight Club", &guard);
    books.insert("Three Men In A Raft", &guard);
    books.insert("The Book of Dust", &guard);
    books.insert("The Dry", &guard);
    assert!(!books.contains(&"The Drunken Botanist", &guard));
    assert!(books.remove(&"Three Men In A Raft", &guard));
    assert_eq!(books.len(), 3);
    let mut titles: Vec<&str> = books.iter(&guard).into_iter().copied().collect();
    titles.sort();
    assert_eq!(titles, vec!["Fight Club", "The Book of Dust", "The Dry"]);
}

#[test]
fn disjoint_scenario() {
    let a = set_of(&[1, 2, 3]);
    let mut b = HashSet::new();
    let ga = a.guard();
    let gb = b.guard();
    assert!(a.is_disjoint(&b, &ga, &gb));
    b.insert(4, &gb);
    assert!(a.is_disjoint(&b, &ga, &gb));
    b.insert(1, &gb);
    assert!(!a.is_disjoint(&b, &ga, &gb));
}

#[test]
fn disjoint_is_symmetric() {
    let a = set_of(&[1, 2, 3]);
    let b = set_of(&[4, 5]);
    let c = set_of(&[3, 6]);
    let g = Guard::pin();
    assert_eq!(a.is_disjoint(&b, &g, &g), b.is_disjoint(&a, &g, &g));
    assert_eq!(a.is_disjoint(&c, &g, &g), c.is_disjoint(&a, &g, &g));
    assert!(!a.is_disjoint(&c, &g, &g));
}

#[test]
fn subset_scenario() {
    let sup = set_of(&[1, 2, 3]);
    let mut set = HashSet::new();
    let g = Guard::pin();
    assert!(set.is_subset(&sup, &g, &g));
    set.insert(2, &g);
    assert!(set.is_subset(&sup, &g, &g));
    set.insert(4, &g);
    assert!(!set.is_subset(&sup, &g, &g));
}

#[test]
fn superset_scenario() {
    let sub = set_of(&[1, 2]);
    let mut set = HashSet::new();
    let g = Guard::pin();
    assert!(!set.is_superset(&sub, &g, &g));
    set.insert(0, &g);
    set.insert(1, &g);
    assert!(!set.is_superset(&sub, &g, &g));
    set.insert(2, &g);
    assert!(set.is_superset(&sub, &g, &g));
    assert_eq!(set.is_superset(&sub, &g, &g), sub.is_subset(&set, &g, &g));
}

#[test]
fn guarded_eq_matches_mutual_subset() {
    let a = set_of(&[1, 2, 3]);
    let b = set_of(&[3, 2, 1]);
    let c = set_of(&[1, 2, 4]);
    let g = Guard::pin();
    assert!(a.guarded_eq(&b, &g, &g));
    assert!(a.is_subset(&b, &g, &g) && b.is_subset(&a, &g, &g));
    assert!(!a.guarded_eq(&c, &g, &g));
    assert!(!(a.is_subset(&c, &g, &g) && c.is_subset(&a, &g, &g)));
}

#[test]
fn guarded_eq_different_lengths() {
    let a = set_of(&[1, 2, 3]);
    let b = set_of(&[1, 2]);
    let g = Guard::pin();
    assert!(!a.guarded_eq(&b, &g, &g));
    assert!(!b.guarded_eq(&a, &g, &g));
    let big: HashSet<i32> = HashSet::from_vec((0..10_000).collect());
    let small: HashSet<i32> = HashSet::from_vec((0..9_999).collect());
    assert!(!big.guarded_eq(&small, &g, &g));
}

#[test]
fn empty_sets_are_equal_and_disjoint() {
    let a: HashSet<i32> = HashSet::new();
    let b: HashSet<i32> = HashSet::new();
    let g = Guard::pin();
    assert!(a.guarded_eq(&b, &g, &g));
    assert!(a.is_disjoint(&b, &g, &g));
    assert!(a.is_subset(&b, &g, &g));
}
