use std::cell::Cell;
use typed_index_collections::index::{from_position, to_position};
use typed_index_collections::{TiBoxedSlice, TiRange, TiSlice, TiSliceMut, TiVec};

#[derive(Clone, Copy, Debug, PartialEq, Eq)]
struct FooId(usize);

impl From<usize> for FooId {
    fn from(p: usize) -> Self {
        FooId(p)
    }
}

impl From<FooId> for usize {
    fn from(k: FooId) -> Self {
        k.0
    }
}

fn foos(values: &[u32]) -> TiVec<FooId, u32> {
    TiVec::from(values.to_vec())
}

#[test]
fn key_round_trip_reaches_same_element() {
    let v = foos(&[5, 6, 7]);
    for p in 0..v.len() {
        let k: FooId = from_position(p);
        assert_eq!(to_position(k), p);
        assert_eq!(v.get(k), Some(&v.raw[p]));
        assert_eq!(*v.index(k), v.raw[p]);
    }
}

#[test]
fn out_of_bounds_key_is_absent() {
    let empty: TiVec<FooId, u32> = TiVec::new();
    assert_eq!(empty.get(FooId(0)), None);
    let v = foos(&[1, 2]);
    assert_eq!(v.get(FooId(2)), None);
    assert_eq!(v.get(FooId(100)), None);
    assert_eq!(v.as_slice().get(FooId(2)), None);
}

#[test]
fn vec_round_trip() {
    let raw = vec![3, 1, 4, 1, 5];
    let v: TiVec<FooId, i32> = TiVec::from(raw.clone());
    let back: Vec<i32> = Vec::from(v);
    assert_eq!(back, raw);
    let v2: TiVec<FooId, i32> = TiVec::from_vec(raw.clone());
    assert_eq!(v2.into_vec(), raw);
}

#[test]
fn slice_round_trip() {
    let raw = [9u8, 8, 7];
    let s: TiSlice<'_, FooId, u8> = TiSlice::from_ref(&raw[..]);
    assert_eq!(s.len(), 3);
    assert_eq!(s.into_raw(), &raw[..]);
}

#[test]
fn enumerated_iteration_in_order_and_reverse() {
    let v = foos(&[10, 20, 30]);
    let fwd = v.as_slice().iter_enumerated();
    assert_eq!(fwd, vec![(FooId(0), &10), (FooId(1), &20), (FooId(2), &30)]);
    let rev = v.as_slice().iter_enumerated_rev();
    assert_eq!(rev, vec![(FooId(2), &30), (FooId(1), &20), (FooId(0), &10)]);
    assert_eq!(v.as_slice().keys(), vec![FooId(0), FooId(1), FooId(2)]);
    let owned = v.into_iter_enumerated();
    assert_eq!(owned, vec![(FooId(0), 10), (FooId(1), 20), (FooId(2), 30)]);
}

#[test]
fn insert_then_get_and_remove() {
    let mut v = foos(&[1, 2, 3]);
    v.insert(FooId(1), 9);
    assert_eq!(v.len(), 4);
    assert_eq!(v.get(FooId(1)), Some(&9));
    let r = v.remove(FooId(1));
    assert_eq!(r, 9);
    assert_eq!(v.len(), 3);
    assert_eq!(v.raw, vec![1, 2, 3]);
}

#[test]
fn insert_scenario() {
    let mut v = foos(&[10, 11, 13]);
    v.insert(FooId(2), 12);
    assert_eq!(v.raw, vec![10, 11, 12, 13]);
    assert_eq!(*v.index(FooId(2)), 12);
}

#[test]
fn split_off_scenario() {
    let mut v = foos(&[10, 11, 12, 13]);
    let mut tail = v.split_off(FooId(1));
    assert_eq!(v.raw, vec![10]);
    assert_eq!(tail.raw, vec![11, 12, 13]);
    assert_eq!(tail.get(FooId(0)), Some(&11));
    tail.push(14);
    v.push(20);
    assert_eq!(v.raw, vec![10, 20]);
    assert_eq!(tail.raw, vec![11, 12, 13, 14]);
}

#[test]
fn binary_search_scenario() {
    let v = foos(&[1, 3, 5, 7]);
    let s = v.as_slice();
    assert_eq!(s.binary_search(&5), Ok(FooId(2)));
    assert_eq!(s.binary_search(&4), Err(FooId(2)));
    assert_eq!(s.binary_search(&0), Err(FooId(0)));
    assert_eq!(s.binary_search(&8), Err(FooId(4)));
    let empty: TiVec<FooId, u32> = TiVec::new();
    assert_eq!(empty.as_slice().binary_search(&1), Err(FooId(0)));
}

#[test]
fn position_finds_first_match() {
    let v = foos(&[4, 7, 8, 9]);
    assert_eq!(v.as_slice().position(|x| x % 2 == 1), Some(FooId(1)));
    assert_eq!(v.as_slice().position(|x| *x > 100), None);
}

#[test]
fn first_and_last() {
    let v = foos(&[4, 5, 6]);
    let s = v.as_slice();
    assert_eq!(s.first(), Some(&4));
    assert_eq!(s.last(), Some(&6));
    assert_eq!(s.first_key_value(), Some((FooId(0), &4)));
    assert_eq!(s.last_key_value(), Some((FooId(2), &6)));
    let empty: TiVec<FooId, u32> = TiVec::new();
    assert_eq!(empty.as_slice().first(), None);
    assert_eq!(empty.as_slice().last_key_value(), None);
    assert!(empty.as_slice().is_empty());
    assert!(empty.is_empty());
}

#[test]
fn swap_remove_moves_last() {
    let mut v = foos(&[1, 2, 3, 4]);
    assert_eq!(v.swap_remove(FooId(1)), 2);
    assert_eq!(v.raw, vec![1, 4, 3]);
}

#[test]
fn replace_returns_old_value() {
    let mut v = foos(&[1, 2, 3]);
    assert_eq!(v.replace(FooId(2), 30), 3);
    assert_eq!(v.raw, vec![1, 2, 30]);
}

#[test]
fn push_pop_truncate_clear() {
    let mut v: TiVec<FooId, u32> = TiVec::with_capacity(4);
    assert!(v.is_empty());
    v.push(1);
    v.push(2);
    v.push(3);
    assert_eq!(v.pop(), Some(3));
    v.truncate(5);
    assert_eq!(v.raw, vec![1, 2]);
    v.truncate(1);
    assert_eq!(v.raw, vec![1]);
    v.clear();
    assert_eq!(v.pop(), None);
}

#[test]
fn append_moves_everything() {
    let mut a = foos(&[1, 2]);
    let mut b = foos(&[3]);
    a.append(&mut b);
    assert_eq!(a.raw, vec![1, 2, 3]);
    assert!(b.is_empty());
}

#[test]
fn drain_ranges() {
    let mut v = foos(&[0, 1, 2, 3, 4, 5]);
    assert_eq!(v.drain(TiRange::Between(FooId(1), FooId(3))), vec![1, 2]);
    assert_eq!(v.raw, vec![0, 3, 4, 5]);
    assert_eq!(v.drain(TiRange::BetweenInclusive(FooId(1), FooId(2))), vec![3, 4]);
    assert_eq!(v.raw, vec![0, 5]);
    assert_eq!(v.drain(TiRange::From(FooId(1))), vec![5]);
    assert_eq!(v.drain(TiRange::ToInclusive(FooId(0))), vec![0]);
    let mut w = foos(&[7, 8]);
    assert_eq!(w.drain(TiRange::To(FooId(1))), vec![7]);
    assert_eq!(w.drain(TiRange::Full), vec![8]);
    assert!(w.is_empty());
}

#[test]
fn range_resolves_to_positions() {
    assert_eq!(TiRange::Full::<FooId>.into_range(4), (0, 4));
    assert_eq!(TiRange::From(FooId(1)).into_range(4), (1, 4));
    assert_eq!(TiRange::To(FooId(2)).into_range(4), (0, 2));
    assert_eq!(TiRange::ToInclusive(FooId(2)).into_range(4), (0, 3));
    assert_eq!(TiRange::Between(FooId(1), FooId(3)).into_range(4), (1, 3));
    assert_eq!(TiRange::BetweenInclusive(FooId(1), FooId(3)).into_range(4), (1, 4));
}

#[test]
fn splice_replaces_range() {
    let mut v = foos(&[1, 2, 3, 4]);
    let removed = v.splice(TiRange::Between(FooId(1), FooId(3)), vec![20, 30, 40]);
    assert_eq!(removed, vec![2, 3]);
    assert_eq!(v.raw, vec![1, 20, 30, 40, 4]);
}

#[test]
fn retain_keeps_matching() {
    let mut v = foos(&[1, 2, 3, 4, 5, 6]);
    v.retain(|x| x % 2 == 0);
    assert_eq!(v.raw, vec![2, 4, 6]);
}

#[test]
fn retain_asks_in_order() {
    let seen = Cell::new(0u32);
    let mut v = foos(&[1, 2, 3]);
    v.retain(|x| {
        assert_eq!(*x, seen.get() + 1);
        seen.set(*x);
        true
    });
    assert_eq!(seen.get(), 3);
    assert_eq!(v.raw, vec![1, 2, 3]);
}

#[test]
fn dedup_variants() {
    let mut v = foos(&[1, 1, 2, 3, 3, 3, 1]);
    v.dedup();
    assert_eq!(v.raw, vec![1, 2, 3, 1]);
    let mut w = foos(&[10, 11, 20, 21, 30]);
    w.dedup_by_key(|x| x / 10);
    assert_eq!(w.raw, vec![10, 20, 30]);
    let mut u = foos(&[1, 2, 4, 5, 7]);
    u.dedup_by(|a, b| *a == *b + 1);
    assert_eq!(u.raw, vec![1, 4, 7]);
    let mut e: TiVec<FooId, u32> = TiVec::new();
    e.dedup();
    assert!(e.is_empty());
}

#[test]
fn resize_and_resize_with() {
    let mut v = foos(&[1, 2]);
    v.resize(4, 9);
    assert_eq!(v.raw, vec![1, 2, 9, 9]);
    v.resize(1, 0);
    assert_eq!(v.raw, vec![1]);
    v.resize_with(3, || 7);
    assert_eq!(v.raw, vec![1, 7, 7]);
    v.resize_with(2, || 0);
    assert_eq!(v.raw, vec![1, 7]);
}

#[test]
fn extend_from_slice_clones() {
    let mut v = foos(&[1]);
    let other = foos(&[2, 3]);
    v.extend_from_slice(&other.as_slice());
    assert_eq!(v.raw, vec![1, 2, 3]);
    assert_eq!(other.raw, vec![2, 3]);
}

#[test]
fn capacity_management_keeps_elements() {
    let mut v = foos(&[1, 2, 3]);
    assert!(v.capacity() >= 3);
    v.reserve(10);
    assert!(v.capacity() >= 13);
    v.reserve_exact(20);
    assert!(v.capacity() >= 23);
    assert!(v.try_reserve(5).is_ok());
    assert!(v.try_reserve_exact(5).is_ok());
    v.shrink_to(4);
    assert!(v.capacity() >= 4);
    v.shrink_to_fit();
    assert!(v.capacity() >= 3);
    assert_eq!(v.raw, vec![1, 2, 3]);
    assert!(v.try_reserve(usize::MAX).is_err());
    assert!(v.try_reserve_exact(usize::MAX).is_err());
    assert_eq!(v.raw, vec![1, 2, 3]);
}

#[test]
fn into_boxed_slice_keeps_elements() {
    let v = foos(&[4, 5]);
    let b = v.into_boxed_slice();
    assert_eq!(b.len(), 2);
    assert_eq!(b.as_slice().get(FooId(1)), Some(&5));
    assert_eq!(b.as_slice().get(FooId(2)), None);
    let raw = b.into_boxed();
    assert_eq!(&*raw, &[4, 5][..]);
    let again: TiBoxedSlice<FooId, u32> = TiBoxedSlice::from_boxed(raw);
    assert_eq!(again.as_slice().first_key_value(), Some((FooId(0), &4)));
}

#[test]
fn default_is_empty() {
    let v: TiVec<FooId, u32> = TiVec::default();
    assert!(v.is_empty());
    assert_eq!(v.len(), 0);
}

#[test]
fn usize_keys_work() {
    let mut v: TiVec<usize, char> = TiVec::new();
    v.push('a');
    v.insert(1, 'b');
    assert_eq!(v.get(0), Some(&'a'));
    assert_eq!(v.as_slice().binary_search(&'b'), Ok(1));
}

#[test]
fn swap_reverse_rotate() {
    let mut v = foos(&[1, 2, 3, 4, 5]);
    v.swap(FooId(0), FooId(4));
    assert_eq!(v.raw, vec![5, 2, 3, 4, 1]);
    v.swap(FooId(2), FooId(2));
    assert_eq!(v.raw, vec![5, 2, 3, 4, 1]);
    v.reverse();
    assert_eq!(v.raw, vec![1, 4, 3, 2, 5]);
    v.rotate_left(FooId(2));
    assert_eq!(v.raw, vec![3, 2, 5, 1, 4]);
    v.rotate_right(2);
    assert_eq!(v.raw, vec![1, 4, 3, 2, 5]);
}

#[test]
fn sort_orders_elements() {
    let mut v = foos(&[3, 1, 2, 1]);
    v.sort();
    assert_eq!(v.raw, vec![1, 1, 2, 3]);
    assert_eq!(v.as_slice().binary_search(&2), Ok(FooId(2)));
}

#[test]
fn fill_clones_value() {
    let mut v = foos(&[1, 2, 3]);
    v.fill(8);
    assert_eq!(v.raw, vec![8, 8, 8]);
}

#[test]
fn sub_views() {
    let v = foos(&[10, 11, 12, 13]);
    let s = v.as_slice();
    let mid = s.index_range(TiRange::Between(FooId(1), FooId(3)));
    assert_eq!(mid.raw, &[11, 12][..]);
    assert_eq!(mid.get(FooId(0)), Some(&11));
    let got = s.get_range(TiRange::BetweenInclusive(FooId(2), FooId(3))).unwrap();
    assert_eq!(got.raw, &[12, 13][..]);
    assert!(s.get_range(TiRange::To(FooId(5))).is_none());
    assert!(s.get_range(TiRange::ToInclusive(FooId(4))).is_none());
    assert!(s.get_range(TiRange::Between(FooId(3), FooId(1))).is_none());
    let (a, b) = s.split_at(FooId(1));
    assert_eq!(a.raw, &[10][..]);
    assert_eq!(b.raw, &[11, 12, 13][..]);
}

#[test]
fn clone_is_equal_and_independent() {
    let v = foos(&[1, 2]);
    let mut w = v.clone();
    assert_eq!(v, w);
    w.push(3);
    assert_ne!(v, w);
    assert_eq!(v.raw, vec![1, 2]);
}

#[test]
fn mutable_access_by_key() {
    let mut v = foos(&[1, 2, 3]);
    *v.index_mut(FooId(1)) = 20;
    if let Some(x) = v.get_mut(FooId(2)) {
        *x = 30;
    }
    assert!(v.get_mut(FooId(3)).is_none());
    assert_eq!(v.raw, vec![1, 20, 30]);
}

#[test]
fn mutable_view_changes_vector() {
    let mut v = foos(&[5, 4, 3, 2]);
    {
        let mut m = v.as_mut_slice();
        assert_eq!(m.len(), 4);
        assert!(!m.is_empty());
        m.set(FooId(0), 50);
        m.swap(FooId(1), FooId(3));
        assert_eq!(m.as_slice().get(FooId(1)), Some(&2));
        m.rotate_right(1);
        m.reverse();
        m.rotate_left(FooId(1));
    }
    assert_eq!(v.raw, vec![2, 50, 4, 3]);
    let mut raw = [3, 2, 1];
    let mut m: TiSliceMut<'_, FooId, i32> = TiSliceMut::from_mut(&mut raw[..]);
    m.sort();
    m.fill(7);
    assert_eq!(raw, [7, 7, 7]);
}
