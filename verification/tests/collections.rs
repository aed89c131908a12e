use rupta::info_collector::vec_set::VecSet;
use rupta::util::chunked_queue::{ChunkedQueue, CHUNK_CAP};
use rupta::ssa_mir::path::{Path as SsaPath, PathEnum as SsaPathEnum};
use rupta::util::bit_vec::BitVec;
use rupta::util::type_util::TypeCache;

#[test]
fn vec_set_stores_each_value_once() {
    let mut set: VecSet<String> = VecSet::new();
    assert_eq!(set.insert("a".to_string()), 0);
    assert_eq!(set.insert("b".to_string()), 1);
    assert_eq!(set.insert("a".to_string()), 0);
    assert_eq!(set.data.len(), 2);
    assert_eq!(*set.data[1], "b");
    let empty: VecSet<usize> = VecSet::default();
    assert!(empty.data.is_empty());
}

#[test]
fn chunked_queue_keeps_push_order_across_chunks() {
    let mut q: ChunkedQueue<usize> = ChunkedQueue::new();
    assert!(q.is_empty());
    let n = 3 * CHUNK_CAP + 7;
    for i in 0..n {
        q.push(i * 2);
    }
    assert_eq!(q.len(), n);
    let mut it = q.iter();
    let mut seen = Vec::new();
    while let Some(x) = it.next() {
        seen.push(*x);
    }
    assert_eq!(seen, (0..n).map(|i| i * 2).collect::<Vec<_>>());
    assert!(it.next().is_none());
}

#[test]
fn copied_iterator_sees_later_pushes() {
    let mut q: ChunkedQueue<u32> = ChunkedQueue::new();
    q.push(1);
    let mut it = q.iter_copied();
    assert_eq!(it.next(&q), Some(1));
    assert_eq!(it.next(&q), None);
    for i in 2..=(CHUNK_CAP as u32 + 2) {
        q.push(i);
    }
    let mut got = Vec::new();
    while let Some(x) = it.next(&q) {
        got.push(x);
    }
    assert_eq!(got, (2..=(CHUNK_CAP as u32 + 2)).collect::<Vec<_>>());
}

#[test]
fn bit_vectors_filled_up() {
    let mut b: BitVec<usize> = BitVec::with_capacity(70);
    b.insert(3);
    b.insert_all();
    assert!(b.contains(0) && b.contains(69) && b.contains(127));
    assert_eq!(b.count(), 128);
    assert!(!b.contains(128));
}

#[test]
fn undefined_ssa_values() {
    assert_eq!(SsaPath::undef().value, SsaPathEnum::Undef);
    assert_ne!(SsaPath::undef().value, SsaPathEnum::Value(0));
}

#[test]
fn type_cache_numbers_each_type_once() {
    let mut cache: TypeCache<usize> = TypeCache::default();
    assert_eq!(cache.get_index(&40), 0);
    assert_eq!(cache.get_index(&7), 1);
    assert_eq!(cache.get_index(&40), 0);
    assert_eq!(cache.get_type(1), Some(7));
    assert_eq!(cache.get_type(2), None);
    assert_eq!(cache.type_list(), &vec![40, 7]);
}
