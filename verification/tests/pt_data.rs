use std::collections::HashSet;

use rupta::pts_set::points_to::{HybridPointsToSet, PointsToSet};
use rupta::pts_set::pt_data::{BasePTData, DiffPTData};

type Base = BasePTData<u32, HashSet<u32>, u32, HybridPointsToSet<u32>>;
type Diff = DiffPTData<u32, u32, HybridPointsToSet<u32>>;

fn elems(set: Option<&HybridPointsToSet<u32>>) -> Vec<u32> {
    let mut v: Vec<u32> = match set {
        Some(s) => {
            let mut out = Vec::new();
            let mut it = s.iter();
            while let Some(x) = it.next() {
                out.push(x);
            }
            out
        }
        None => vec![],
    };
    v.sort();
    v
}

fn set_of(items: &[u32]) -> HybridPointsToSet<u32> {
    let mut s = HybridPointsToSet::new();
    for i in items {
        s.insert(*i);
    }
    s
}

#[test]
fn points_to_sets_and_their_reverse() {
    let mut d: Base = BasePTData::new();
    assert!(d.add_pts(1, 10));
    assert!(!d.add_pts(1, 10));
    assert!(d.add_pts(2, 10));
    assert!(d.add_pts(2, 11));
    assert_eq!(elems(d.get_pts(1)), vec![10]);
    assert_eq!(d.get_rev_pts(10), Some(&HashSet::from([1, 2])));
    assert_eq!(d.get_rev_pts(11), Some(&HashSet::from([2])));
    assert!(d.get_pts(7).is_none());
    // union of the set of 2 into 3
    assert!(d.union_pts(3, 2));
    assert!(!d.union_pts(3, 2));
    assert_eq!(elems(d.get_pts(3)), vec![10, 11]);
    assert!(d.get_rev_pts(11).unwrap().contains(&3));
    // a set given from outside
    assert!(d.union_pts_to(4, &set_of(&[12, 10])));
    assert!(!d.union_pts_to(4, &set_of(&[12])));
    assert_eq!(elems(d.get_pts(4)), vec![10, 12]);
    // removal keeps the reverse sets in step
    assert!(d.remove_pts_elem(2, 10));
    assert!(!d.remove_pts_elem(2, 10));
    assert_eq!(elems(d.get_pts(2)), vec![11]);
    assert!(!d.get_rev_pts(10).unwrap().contains(&2));
    d.clear_pts(3);
    assert_eq!(elems(d.get_pts(3)), Vec::<u32>::new());
    assert!(!d.get_rev_pts(11).unwrap().contains(&3));
    assert_eq!(d.get_pts_map().len(), 4);
    // a set changed in place
    d.get_mut_pts(1).unwrap().insert(13);
    assert_eq!(elems(d.get_pts(1)), vec![10, 13]);
    assert!(d.get_mut_pts(9).is_none());
    d.clear();
    assert!(d.get_pts(1).is_none());
    assert!(d.get_rev_pts(10).is_none());
}

#[test]
fn differences_wait_until_flushed() {
    let mut d: Diff = DiffPTData::new();
    assert!(d.add_pts(1, 10));
    assert!(!d.add_pts(1, 10));
    assert_eq!(elems(d.get_diff_pts(1)), vec![10]);
    assert!(d.get_propa_pts(1).is_none());
    d.flush(1);
    assert_eq!(elems(d.get_diff_pts(1)), Vec::<u32>::new());
    assert_eq!(elems(d.get_propa_pts(1)), vec![10]);
    // what was propagated is not added again
    assert!(!d.add_pts(1, 10));
    assert!(d.add_pts(1, 11));
    assert_eq!(elems(d.get_diff_pts(1)), vec![11]);
    // the differences of 1 go to 2, all of 1 goes to 3
    assert!(d.union_diff_pts(2, 1));
    assert_eq!(elems(d.get_diff_pts(2)), vec![11]);
    assert!(!d.union_diff_pts(1, 1));
    assert!(!d.union_diff_pts(2, 5));
    assert!(d.union_pts(3, 1));
    assert_eq!(elems(d.get_diff_pts(3)), vec![10, 11]);
    assert!(d.union_pts_to(4, &set_of(&[20])));
    assert_eq!(elems(d.get_diff_pts(4)), vec![20]);
    assert!(d.remove_pts_elem(1, 10));
    assert_eq!(elems(d.get_propa_pts(1)), Vec::<u32>::new());
    d.get_mut_diff_pts(2).unwrap().insert(12);
    assert_eq!(elems(d.get_diff_pts(2)), vec![11, 12]);
    d.flush(2);
    d.get_mut_propa_pts(2).unwrap().insert(13);
    assert_eq!(elems(d.get_propa_pts(2)), vec![11, 12, 13]);
    d.flush(3);
    assert_eq!(elems(d.get_propa_pts(3)), vec![10, 11]);
    d.clear_diff_pts(3);
    assert_eq!(elems(d.get_propa_pts(3)), Vec::<u32>::new());
    d.clear_propa_pts(2);
    assert_eq!(elems(d.get_propa_pts(2)), Vec::<u32>::new());
    d.clear_pts(4);
    assert_eq!(elems(d.get_diff_pts(4)), Vec::<u32>::new());
    d.clear();
    assert!(d.get_diff_pts(1).is_none());
    assert!(d.get_propa_pts(2).is_none());
}
