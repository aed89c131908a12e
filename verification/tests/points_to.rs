use std::collections::HashSet;

use rand::Rng;
use rupta::pts_set::points_to::{HybridPointsToSet, HybridSet, PointsToSet, SMALL_SET_CAPACITY};

fn random_set(len: usize) -> HashSet<u32> {
    let mut rng = rand::thread_rng();
    let mut set = HashSet::new();
    while set.len() < len {
        let x = rng.gen_range(1..1000);
        set.insert(x);
    }
    set
}

fn random_value_from_set(set: &HashSet<u32>) -> u32 {
    let mut rng = rand::thread_rng();
    let index = rng.gen_range(0..set.len());
    set.iter().nth(index).cloned().unwrap()
}

fn collect(set: &HybridPointsToSet<u32>) -> HashSet<u32> {
    let mut result = HashSet::new();
    let mut it = set.iter();
    while let Some(x) = it.next() {
        result.insert(x);
    }
    result
}

#[test]
fn small_set_test() {
    let rand_set = random_set(8);
    let mut small_set = HybridPointsToSet::<u32>::new();
    for x in rand_set.iter() {
        small_set.insert(*x);
    }
    assert_eq!(small_set.count(), 8);
    assert!(matches!(small_set.points_to, HybridSet::SmallSet(_)));
    assert_eq!(collect(&small_set), rand_set);

    let rand_val = random_value_from_set(&rand_set);
    assert_eq!(small_set.contains(rand_val), true);
    assert_eq!(small_set.remove(rand_val), true);
    assert_eq!(small_set.contains(rand_val), false);
    assert_eq!(small_set.count(), 7);
}

#[test]
fn large_set_test() {
    let rand_set = random_set(SMALL_SET_CAPACITY + 3);
    let mut large_set = HybridPointsToSet::<u32>::new();
    for x in rand_set.iter() {
        large_set.insert(*x);
    }
    assert_eq!(large_set.count(), SMALL_SET_CAPACITY + 3);
    assert!(matches!(large_set.points_to, HybridSet::LargeSet(_)));
    assert_eq!(collect(&large_set), rand_set);

    let rand_val = random_value_from_set(&rand_set);
    assert_eq!(large_set.contains(rand_val), true);
    assert_eq!(large_set.remove(rand_val), true);
    assert_eq!(large_set.contains(rand_val), false);
    assert_eq!(large_set.count(), SMALL_SET_CAPACITY + 2);
}

#[test]
fn small_set_union_large_set() {
    let rand_small_set = random_set(8);
    let mut small_set = HybridPointsToSet::<u32>::new();
    for x in rand_small_set.iter() {
        small_set.insert(*x);
    }
    let rand_large_set = random_set(SMALL_SET_CAPACITY + 3);
    let mut large_set = HybridPointsToSet::<u32>::new();
    for x in rand_large_set.iter() {
        large_set.insert(*x);
    }

    let mut union_set = small_set.clone();
    union_set.union(&large_set);
    assert_eq!(union_set.superset(&small_set), true);
    assert_eq!(union_set.superset(&large_set), true);
    assert_eq!(
        collect(&union_set),
        rand_small_set.union(&rand_large_set).cloned().collect::<HashSet<_>>()
    );
}

#[test]
fn large_set_union_small_set() {
    let rand_small_set = random_set(8);
    let mut small_set = HybridPointsToSet::<u32>::new();
    for x in rand_small_set.iter() {
        small_set.insert(*x);
    }
    let rand_large_set = random_set(SMALL_SET_CAPACITY + 3);
    let mut large_set = HybridPointsToSet::<u32>::new();
    for x in rand_large_set.iter() {
        large_set.insert(*x);
    }

    let mut union_set = large_set.clone();
    union_set.union(&small_set);
    assert_eq!(
        collect(&union_set),
        rand_small_set.union(&rand_large_set).cloned().collect::<HashSet<_>>()
    );
}

#[test]
fn large_set_union_large_set() {
    let rand_set1 = random_set(SMALL_SET_CAPACITY + 3);
    let mut large_set1 = HybridPointsToSet::<u32>::new();
    for x in rand_set1.iter() {
        large_set1.insert(*x);
    }
    let rand_set2 = random_set(SMALL_SET_CAPACITY + 3);
    let mut large_set2 = HybridPointsToSet::<u32>::new();
    for x in rand_set2.iter() {
        large_set2.insert(*x);
    }

    let mut union_set = large_set1.clone();
    union_set.union(&large_set2);
    assert_eq!(
        collect(&union_set),
        rand_set1.union(&rand_set2).cloned().collect::<HashSet<_>>()
    );
}

#[test]
fn subtract_test() {
    let rand_small_set = random_set(8);
    let mut small_set = HybridPointsToSet::<u32>::new();
    for x in rand_small_set.iter() {
        small_set.insert(*x);
    }
    let mut rand_large_set = random_set(SMALL_SET_CAPACITY + 3);
    for &x in rand_small_set.iter().take(5) {
        rand_large_set.insert(x);
    }
    let mut large_set = HybridPointsToSet::<u32>::new();
    for x in rand_large_set.iter() {
        large_set.insert(*x);
    }

    let mut cloned_set = small_set.clone();
    assert_eq!(cloned_set.subtract(&large_set), true);
    assert_eq!(
        collect(&cloned_set),
        rand_small_set.difference(&rand_large_set).cloned().collect::<HashSet<_>>()
    );

    cloned_set = large_set.clone();
    assert_eq!(cloned_set.subtract(&small_set), true);
    assert_eq!(
        collect(&cloned_set),
        rand_large_set.difference(&rand_small_set).cloned().collect::<HashSet<_>>()
    );
}

#[test]
fn intersect_test() {
    let rand_small_set = random_set(8);
    let mut small_set = HybridPointsToSet::<u32>::new();
    for x in rand_small_set.iter() {
        small_set.insert(*x);
    }
    let mut rand_large_set = random_set(SMALL_SET_CAPACITY + 3);
    for &x in rand_small_set.iter().take(5) {
        rand_large_set.insert(x);
    }
    let mut large_set = HybridPointsToSet::<u32>::new();
    for x in rand_large_set.iter() {
        large_set.insert(*x);
    }

    let mut cloned_set = large_set.clone();
    assert_eq!(cloned_set.intersect(&small_set), true);
    assert_eq!(
        collect(&cloned_set),
        rand_large_set.intersection(&rand_small_set).cloned().collect::<HashSet<_>>()
    );
    assert!(matches!(cloned_set.points_to, HybridSet::SmallSet(_)));
}

#[test]
fn inserts_run_switch_at_the_small_limit() {
    let mut s: HybridSet<u32> = HybridSet::new();
    for v in 0..(SMALL_SET_CAPACITY as u32) {
        s.insert(v * 3);
        s.insert(v * 3);
    }
    assert!(matches!(s, HybridSet::SmallSet(_)));
    assert_eq!(s.count(), SMALL_SET_CAPACITY);
    s.insert(1000);
    assert!(matches!(s, HybridSet::LargeSet(_)));
    assert_eq!(s.count(), SMALL_SET_CAPACITY + 1);
    s.remove(3);
    assert!(!s.contains(3) && s.contains(6) && s.contains(1000));
    let order: Vec<u32> = {
        let mut it = s.iter();
        let mut out = Vec::new();
        while let Some(x) = it.next() {
            out.push(x);
        }
        out
    };
    let mut sorted = order.clone();
    sorted.sort();
    sorted.dedup();
    assert_eq!(order, sorted);
    assert_eq!(order.len(), SMALL_SET_CAPACITY);
}
