use std::cell::Cell;
use std::rc::Rc;

use vorpal::fixture::ord_map;
use vorpal::iter::unfold;
use vorpal::pool::{PoolHandle, RefPool};
use vorpal::util::{clone_ref, linear_search_by, swap_indices, to_range, FilePool, RangeBound};

#[test]
fn swap_twice_restores() {
    let mut v = vec![10, 20, 30, 40];
    swap_indices(&mut v, 0, 3);
    assert_eq!(v, vec![40, 20, 30, 10]);
    swap_indices(&mut v, 0, 3);
    assert_eq!(v, vec![10, 20, 30, 40]);
}

#[test]
fn swap_self_is_noop() {
    let mut v = vec![String::from("a"), String::from("b")];
    swap_indices(&mut v, 1, 1);
    assert_eq!(v, vec![String::from("a"), String::from("b")]);
}

#[test]
fn to_range_all_bound_combinations() {
    let starts = [
        (RangeBound::Included(2), 2usize),
        (RangeBound::Excluded(2), 3usize),
        (RangeBound::Unbounded, 0usize),
    ];
    let ends = [
        (RangeBound::Included(5), 6usize),
        (RangeBound::Excluded(5), 5usize),
        (RangeBound::Unbounded, 10usize),
    ];
    for &(s, expect_start) in starts.iter() {
        for &(e, expect_end) in ends.iter() {
            let r = to_range(s, e, 10);
            assert_eq!(r.start, expect_start);
            assert_eq!(r.end, expect_end);
        }
    }
}

#[test]
fn to_range_fully_unbounded() {
    let r = to_range(RangeBound::Unbounded, RangeBound::Unbounded, 10);
    assert_eq!(r, 0..10);
}

#[test]
fn linear_search_finds_and_inserts() {
    let v = vec![1, 3, 5, 7];
    assert_eq!(linear_search_by(&v, |x: &i32| x.cmp(&5)), Ok(2));
    assert_eq!(linear_search_by(&v, |x: &i32| x.cmp(&4)), Err(2));
    assert_eq!(linear_search_by(&v, |x: &i32| x.cmp(&8)), Err(4));
}

#[test]
fn linear_search_empty() {
    let v: Vec<i32> = Vec::new();
    assert_eq!(linear_search_by(&v, |x: &i32| x.cmp(&1)), Err(0));
}

#[derive(Debug)]
struct Counted {
    n: u64,
    clones: Rc<Cell<u64>>,
}

impl Clone for Counted {
    fn clone(&self) -> Self {
        self.clones.set(self.clones.get() + 1);
        Counted { n: self.n, clones: self.clones.clone() }
    }
}

#[test]
fn clone_ref_unique_owner_reclaims_without_clone() {
    let clones = Rc::new(Cell::new(0));
    let handle = Rc::new(Counted { n: 7, clones: clones.clone() });
    let value = clone_ref(handle);
    assert_eq!(value.n, 7);
    assert_eq!(clones.get(), 0);
}

#[test]
fn clone_ref_shared_owner_clones() {
    let clones = Rc::new(Cell::new(0));
    let handle = Rc::new(Counted { n: 9, clones: clones.clone() });
    let other = handle.clone();
    let value = clone_ref(handle);
    assert_eq!(value.n, 9);
    assert_eq!(clones.get(), 1);
    assert_eq!(other.n, 9);
}

#[test]
fn pool_handle_identity() {
    let mut pool: RefPool<u64> = RefPool::new(16);
    let first = pool.new_ref(5);
    let alias = first.clone();
    assert!(PoolHandle::ptr_eq(&first, &alias));
    let other = pool.new_ref(5);
    assert!(!PoolHandle::ptr_eq(&first, &other));
}

#[test]
fn pool_new_ref_and_get() {
    let mut pool: RefPool<String> = RefPool::new(4);
    let h = pool.new_ref(String::from("node"));
    assert_eq!(*PoolHandle::get(&h), "node");
}

#[test]
fn pool_zero_size_still_allocates() {
    let mut pool: RefPool<u64> = RefPool::new(0);
    let h = pool.new_ref(11);
    assert_eq!(*PoolHandle::get(&h), 11);
}

#[test]
fn pool_default_ref_holds_default() {
    let mut pool: RefPool<u64> = RefPool::new(8);
    let h = pool.default_ref();
    assert_eq!(*PoolHandle::get(&h), 0);
}

#[test]
fn pool_make_mut_shared_leaves_other_owner() {
    let mut pool: RefPool<u64> = RefPool::new(8);
    let original = pool.new_ref(1);
    let mut edited = original.clone();
    pool.make_mut(&mut edited, 2);
    assert_eq!(*PoolHandle::get(&original), 1);
    assert_eq!(*PoolHandle::get(&edited), 2);
    assert!(!PoolHandle::ptr_eq(&original, &edited));
}

#[test]
fn pool_make_mut_unique_writes_in_place() {
    let mut pool: RefPool<u64> = RefPool::new(8);
    let mut only = pool.new_ref(1);
    pool.make_mut(&mut only, 42);
    assert_eq!(*PoolHandle::get(&only), 42);
}

#[test]
fn file_pool_identity_and_contents() {
    let mut pool: FilePool<String> = FilePool::new(8);
    let a = pool.new_ref(String::from("x"));
    let b = pool.new_ref(String::from("x"));
    assert!(FilePool::<String>::ptr_eq(&a, &a));
    assert!(!FilePool::<String>::ptr_eq(&a, &b));
    assert_eq!(pool.get(a), Some(&String::from("x")));
    assert_eq!(pool.get(b), Some(&String::from("x")));
}

#[test]
fn file_pool_make_mut_rebinds_handle() {
    let mut pool: FilePool<u64> = FilePool::new(4);
    let shared = pool.new_ref(1);
    let mut edited = shared;
    pool.make_mut(&mut edited, 2);
    assert_ne!(shared, edited);
    assert_eq!(pool.get(shared), Some(&1));
    assert_eq!(pool.get(edited), Some(&2));
}

#[test]
fn file_pool_release_reuses_ids() {
    let mut pool: FilePool<u64> = FilePool::new(0);
    let a = pool.new_ref(1);
    let b = pool.new_ref(2);
    pool.release(a);
    assert_eq!(pool.get(a), None);
    let c = pool.new_ref(3);
    assert_eq!(c, a);
    assert_eq!(pool.get(c), Some(&3));
    assert_eq!(pool.get(b), Some(&2));
}

#[test]
fn file_pool_default_ref() {
    let mut pool: FilePool<u64> = FilePool::new(2);
    let id = pool.default_ref();
    assert_eq!(pool.get(id), Some(&0));
}

#[test]
fn unfold_counts_to_three() {
    let mut it = unfold(0u64, |n: u64| if n < 3 { Some((n, n + 1)) } else { None });
    assert_eq!(it.next(), Some(0));
    assert_eq!(it.next(), Some(1));
    assert_eq!(it.next(), Some(2));
    assert_eq!(it.next(), None);
    assert_eq!(it.next(), None);
}

#[test]
fn unfold_can_end_immediately() {
    let mut it = unfold(5u64, |_n: u64| None::<(u64, u64)>);
    assert_eq!(it.next(), None);
}

#[test]
fn ord_map_deduplicates_and_sorts() {
    let pairs = vec![(3u64, "a"), (1u64, "b"), (3u64, "c")];
    let m = ord_map(pairs, 0).unwrap();
    assert_eq!(m, vec![(1u64, "b"), (3u64, "c")]);
}

#[test]
fn ord_map_rejects_small_samples() {
    let pairs = vec![(1u64, 10), (1u64, 11), (2u64, 12)];
    assert_eq!(ord_map(pairs, 3), None);
}

#[test]
fn ord_map_size_stays_in_bounds() {
    let min = 10usize;
    let max = 100usize;
    for seed in 0..20u64 {
        // a crude deterministic stand-in for randomly drawn pairs
        let len = (min + (seed as usize * 7) % (max - min)) as u64;
        let pairs: Vec<(u64, u64)> =
            (0..len).map(|i| ((i * 31 + seed) % 97, i)).collect();
        if let Some(m) = ord_map(pairs.clone(), min) {
            assert!(m.len() >= min);
            assert!(m.len() < max);
            assert!(m.len() <= pairs.len());
        }
    }
}

#[test]
fn ord_map_empty_input() {
    let pairs: Vec<(u64, u64)> = Vec::new();
    assert_eq!(ord_map(pairs.clone(), 0), Some(Vec::new()));
    assert_eq!(ord_map(pairs, 1), None);
}
