use vstd::prelude::*;
use core::cmp::Ordering;
use core::marker::PhantomData;
use vstd::std_specs::cmp::{OrdSpec, PartialOrdSpec};
use crate::range::{range_end, range_start, range_within, TiRange};
use crate::index::{from_position, in_bounds, key_at, keys_have_positions, position_of, positions_have_keys, to_position};

verus! {

/// A borrowed, fixed-length view of elements that are reached through keys of type `K`.
#[derive(Debug)]
pub struct TiSlice<'a, K, V> {
    /// The elements, in position order.
    pub raw: &'a [V],
    /// Ties the key type to the view; holds nothing at run time.
    pub _marker: PhantomData<K>,
}

/// `cmp` and `partial_cmp` on `V` follow their specifications, agree with each other, and
/// order values totally.
pub open spec fn total_order<V: Ord>() -> bool {
    &&& <V as OrdSpec>::obeys_cmp_spec()
    &&& <V as PartialOrdSpec>::obeys_partial_cmp_spec()
    &&& forall|a: V, b: V| #[trigger] a.partial_cmp_spec(&b) == Some(a.cmp_spec(&b))
    &&& forall|a: V, b: V|
        #[trigger] a.cmp_spec(&b) == Ordering::Less <==> b.cmp_spec(&a) == Ordering::Greater
    &&& forall|a: V, b: V, c: V|
        #![trigger a.cmp_spec(&b), b.cmp_spec(&c)]
        a.cmp_spec(&b) != Ordering::Greater && b.cmp_spec(&c) == Ordering::Less
            ==> a.cmp_spec(&c) == Ordering::Less
    &&& forall|a: V, b: V, c: V|
        #![trigger a.cmp_spec(&b), b.cmp_spec(&c)]
        a.cmp_spec(&b) == Ordering::Less && b.cmp_spec(&c) != Ordering::Greater
            ==> a.cmp_spec(&c) == Ordering::Less
}

/// The elements of `s` never decrease.
pub open spec fn sorted_by_cmp<V: Ord>(s: Seq<V>) -> bool {
    forall|i: int, j: int| 0 <= i < j < s.len() ==> #[trigger] s[i].cmp_spec(&s[j]) != Ordering::Greater
}

/// Every element of `s` before position `p` is less than `x`, and every one from `p` on
/// is greater: `p` is where `x` would go to keep `s` in order.
pub open spec fn insertion_point<V: Ord>(s: Seq<V>, x: V, p: int) -> bool {
    &&& 0 <= p <= s.len()
    &&& forall|i: int| 0 <= i < p ==> #[trigger] s[i].cmp_spec(&x) == Ordering::Less
    &&& forall|i: int| p <= i < s.len() ==> #[trigger] s[i].cmp_spec(&x) == Ordering::Greater
}

/// Relies on `<[V]>::swap`: the elements at `a` and `b` trade places; it panics when either
/// is out of bounds.
#[verifier::external_body]
fn slice_swap<V>(v: &mut [V], a: usize, b: usize)
    requires
        a < old(v)@.len(),
        b < old(v)@.len(),
    ensures
        final(v)@ == old(v)@.update(a as int, old(v)@[b as int]).update(b as int, old(v)@[a as int]),
{
    v.swap(a, b)
}

/// Relies on `<[V]>::reverse`: the elements end up in the opposite order.
#[verifier::external_body]
fn slice_reverse<V>(v: &mut [V])
    ensures
        final(v)@ == old(v)@.reverse(),
{
    v.reverse()
}

/// Relies on `<[V]>::rotate_left`: the first `mid` elements move to the end; it panics when
/// `mid` exceeds the length.
#[verifier::external_body]
fn slice_rotate_left<V>(v: &mut [V], mid: usize)
    requires
        mid <= old(v)@.len(),
    ensures
        final(v)@ == old(v)@.subrange(mid as int, old(v)@.len() as int) + old(v)@.subrange(0, mid as int),
{
    v.rotate_left(mid)
}

/// Relies on `<[V]>::rotate_right`: the last `k` elements move to the front; it panics when
/// `k` exceeds the length.
#[verifier::external_body]
fn slice_rotate_right<V>(v: &mut [V], k: usize)
    requires
        k <= old(v)@.len(),
    ensures
        final(v)@ == old(v)@.subrange(old(v)@.len() - k, old(v)@.len() as int) + old(v)@.subrange(
            0,
            old(v)@.len() - k,
        ),
{
    v.rotate_right(k)
}

/// Relies on `<[V]>::sort`: when `<` and `cmp` agree on a total order, the result holds the
/// same elements, in non-decreasing order.
#[verifier::external_body]
fn slice_sort<V: Ord>(v: &mut [V])
    requires
        total_order::<V>(),
    ensures
        final(v)@.to_multiset() == old(v)@.to_multiset(),
        sorted_by_cmp(final(v)@),
{
    v.sort()
}

impl<'a, K, V> View for TiSlice<'a, K, V> {
    type V = Seq<V>;

    open spec fn view(&self) -> Seq<V> {
        self.raw@
    }
}

impl<'a, K, V> Clone for TiSlice<'a, K, V> {
    fn clone(&self) -> (r: Self)
        ensures
            r@ == self@,
    {
        TiSlice { raw: self.raw, _marker: PhantomData }
    }
}

impl<'a, K, V> Copy for TiSlice<'a, K, V> {

}

impl<'a, K, V> TiSlice<'a, K, V> {
    /// Views a native slice through keys of type `K`.
    pub fn from_ref(raw: &'a [V]) -> (r: Self)
        ensures
            r.raw == raw,
            r@ == raw@,
    {
        TiSlice { raw, _marker: PhantomData }
    }

    /// The native slice behind this view.
    pub fn into_raw(self) -> (r: &'a [V])
        ensures
            r == self.raw,
            r@ == self@,
    {
        self.raw
    }

    /// Number of elements.
    pub fn len(&self) -> (r: usize)
        ensures
            r == self@.len(),
    {
        self.raw.len()
    }

    /// Whether there are no elements.
    pub fn is_empty(&self) -> (r: bool)
        ensures
            r == (self@.len() == 0),
    {
        self.raw.len() == 0
    }

    /// The element at `index`; the caller guarantees that it is in bounds.
    pub fn index(&self, index: K) -> (r: &'a V)
        where usize: From<K>,
        requires
            keys_have_positions::<K>(),
            in_bounds(index, self@.len()),
        ensures
            *r == self@[position_of(index) as int],
    {
        let p = to_position(index);
        &self.raw[p]
    }

    /// The element at `index`, or `None` when `index` is out of bounds.
    pub fn get(&self, index: K) -> (r: Option<&'a V>)
        where usize: From<K>,
        requires
            keys_have_positions::<K>(),
        ensures
            in_bounds(index, self@.len()) ==> r == Some(&self@[position_of(index) as int]),
            !in_bounds(index, self@.len()) ==> r.is_none(),
    {
        let p = to_position(index);
        if p < self.raw.len() {
            Some(&self.raw[p])
        } else {
            None
        }
    }

    /// The first element, if any.
    pub fn first(&self) -> (r: Option<&'a V>)
        ensures
            self@.len() > 0 ==> r == Some(&self@[0]),
            self@.len() == 0 ==> r.is_none(),
    {
        if self.raw.len() > 0 {
            Some(&self.raw[0])
        } else {
            None
        }
    }

    /// The last element, if any.
    pub fn last(&self) -> (r: Option<&'a V>)
        ensures
            self@.len() > 0 ==> r == Some(&self@.last()),
            self@.len() == 0 ==> r.is_none(),
    {
        let n = self.raw.len();
        if n > 0 {
            Some(&self.raw[n - 1])
        } else {
            None
        }
    }

    /// The key of the first position together with its element, if any.
    pub fn first_key_value(&self) -> (r: Option<(K, &'a V)>)
        where K: From<usize>,
        requires
            positions_have_keys::<K>(),
        ensures
            self@.len() > 0 ==> r == Some((key_at::<K>(0), &self@[0])),
            self@.len() == 0 ==> r.is_none(),
    {
        if self.raw.len() > 0 {
            Some((from_position(0), &self.raw[0]))
        } else {
            None
        }
    }

    /// The key of the last position together with its element, if any.
    pub fn last_key_value(&self) -> (r: Option<(K, &'a V)>)
        where K: From<usize>,
        requires
            positions_have_keys::<K>(),
        ensures
            self@.len() > 0 ==> r == Some((key_at::<K>((self@.len() - 1) as usize), &self@.last())),
            self@.len() == 0 ==> r.is_none(),
    {
        let n = self.raw.len();
        if n > 0 {
            Some((from_position(n - 1), &self.raw[n - 1]))
        } else {
            None
        }
    }

    /// The key of every position, in order.
    pub fn keys(&self) -> (r: Vec<K>)
        where K: From<usize>,
        requires
            positions_have_keys::<K>(),
        ensures
            r@.len() == self@.len(),
            forall|i: int| 0 <= i < r@.len() ==> r@[i] == key_at::<K>(i as usize),
    {
        let n = self.raw.len();
        let mut r: Vec<K> = Vec::new();
        for i in 0..n
            invariant
                n == self@.len(),
                positions_have_keys::<K>(),
                r@.len() == i,
                forall|j: int| 0 <= j < i ==> r@[j] == key_at::<K>(j as usize),
        {
            r.push(from_position(i));
        }
        r
    }

    /// Each element paired with the key of its position, in position order.
    pub fn iter_enumerated(&self) -> (r: Vec<(K, &'a V)>)
        where K: From<usize>,
        requires
            positions_have_keys::<K>(),
        ensures
            r@.len() == self@.len(),
            forall|i: int| 0 <= i < r@.len() ==> r@[i] == (key_at::<K>(i as usize), &self@[i]),
    {
        let n = self.raw.len();
        let mut r: Vec<(K, &'a V)> = Vec::new();
        for i in 0..n
            invariant
                n == self@.len(),
                positions_have_keys::<K>(),
                r@.len() == i,
                forall|j: int| 0 <= j < i ==> r@[j] == (key_at::<K>(j as usize), &self@[j]),
        {
            r.push((from_position(i), &self.raw[i]));
        }
        r
    }

    /// The same pairs as `iter_enumerated`, last position first.
    pub fn iter_enumerated_rev(&self) -> (r: Vec<(K, &'a V)>)
        where K: From<usize>,
        requires
            positions_have_keys::<K>(),
        ensures
            r@.len() == self@.len(),
            forall|i: int|
                #![trigger r@[i]]
                0 <= i < r@.len() ==> r@[i] == (
                    key_at::<K>((self@.len() - 1 - i) as usize),
                    &self@[self@.len() - 1 - i],
                ),
    {
        let n = self.raw.len();
        let mut r: Vec<(K, &'a V)> = Vec::new();
        let mut p: usize = n;
        while p > 0
            invariant
                n == self@.len(),
                p <= n,
                positions_have_keys::<K>(),
                r@.len() == n - p,
                forall|j: int|
                    #![trigger r@[j]]
                    0 <= j < n - p ==> r@[j] == (key_at::<K>((n - 1 - j) as usize), &self@[n - 1 - j]),
            decreases p,
        {
            p = p - 1;
            r.push((from_position(p), &self.raw[p]));
        }
        r
    }

    /// Searches the sorted elements for `x`: the key of a position that holds a value equal
    /// to it, or else the key of the position where it would go to keep the order.
    pub fn binary_search(&self, x: &V) -> (r: Result<K, K>)
        where K: From<usize>, V: Ord,
        requires
            positions_have_keys::<K>(),
            total_order::<V>(),
            sorted_by_cmp(self@),
        ensures
            match r {
                Ok(k) => exists|i: int|
                    0 <= i < self@.len() && k == key_at::<K>(i as usize)
                        && #[trigger] self@[i].cmp_spec(x) == Ordering::Equal,
                Err(k) => exists|p: int|
                    insertion_point(self@, *x, p) && k == key_at::<K>(p as usize),
            },
    {
        let n = self.raw.len();
        let mut lo: usize = 0;
        let mut hi: usize = n;
        while lo < hi
            invariant
                n == self@.len(),
                lo <= hi <= n,
                positions_have_keys::<K>(),
                total_order::<V>(),
                sorted_by_cmp(self@),
                forall|i: int| 0 <= i < lo ==> #[trigger] self@[i].cmp_spec(x) == Ordering::Less,
                forall|i: int| hi <= i < n ==> #[trigger] self@[i].cmp_spec(x) == Ordering::Greater,
            decreases hi - lo,
        {
            let mid = lo + (hi - lo) / 2;
            let c = self.raw[mid].cmp(x);
            match c {
                Ordering::Less => {
                    assert forall|i: int| 0 <= i <= mid implies #[trigger] self@[i].cmp_spec(x)
                        == Ordering::Less by {
                        if i < mid {
                            assert(self@[i].cmp_spec(&self@[mid as int]) != Ordering::Greater);
                        }
                    }
                    lo = mid + 1;
                },
                Ordering::Greater => {
                    assert forall|i: int| mid <= i < n implies #[trigger] self@[i].cmp_spec(x)
                        == Ordering::Greater by {
                        if i > mid {
                            assert(self@[mid as int].cmp_spec(&self@[i]) != Ordering::Greater);
                            assert(x.cmp_spec(&self@[mid as int]) == Ordering::Less);
                            assert(x.cmp_spec(&self@[i]) == Ordering::Less);
                        }
                    }
                    hi = mid;
                },
                Ordering::Equal => {
                    return Ok(from_position(mid));
                },
            }
        }
        assert(insertion_point(self@, *x, lo as int));
        Err(from_position(lo))
    }

    /// The key of the first element for which `f` answers true, if any.
    pub fn position<F>(&self, f: F) -> (r: Option<K>)
        where K: From<usize>, F: Fn(&V) -> bool,
        requires
            positions_have_keys::<K>(),
            forall|i: int| 0 <= i < self@.len() ==> f.requires((&self@[i],)),
        ensures
            match r {
                Some(k) => exists|i: int|
                    0 <= i < self@.len() && k == key_at::<K>(i as usize)
                        && #[trigger] f.ensures((&self@[i],), true)
                        && forall|j: int| 0 <= j < i ==> f.ensures((&self@[j],), false),
                None => forall|i: int| 0 <= i < self@.len() ==> f.ensures((&self@[i],), false),
            },
    {
        let n = self.raw.len();
        for i in 0..n
            invariant
                n == self@.len(),
                positions_have_keys::<K>(),
                forall|j: int| 0 <= j < self@.len() ==> f.requires((&self@[j],)),
                forall|j: int| 0 <= j < i ==> f.ensures((&self@[j],), false),
        {
            if f(&self.raw[i]) {
                return Some(from_position(i));
            }
        }
        None
    }
    /// The view of the part that `range` covers; the caller guarantees that it is valid.
    pub fn index_range(&self, range: TiRange<K>) -> (r: TiSlice<'a, K, V>)
        where usize: From<K>,
        requires
            keys_have_positions::<K>(),
            range_within(range, self@.len()),
        ensures
            r@ == self@.subrange(range_start(range), range_end(range, self@.len())),
    {
        let (s, e) = range.into_range(self.raw.len());
        TiSlice::from_ref(vstd::slice::slice_subrange(self.raw, s, e))
    }

    /// The view of the part that `range` covers, or `None` when the range ends past the
    /// last element or starts after it ends.
    pub fn get_range(&self, range: TiRange<K>) -> (r: Option<TiSlice<'a, K, V>>)
        where usize: From<K>,
        requires
            keys_have_positions::<K>(),
        ensures
            range_within(range, self@.len()) ==> r is Some && r->0@ == self@.subrange(
                range_start(range),
                range_end(range, self@.len()),
            ),
            !range_within(range, self@.len()) ==> r is None,
    {
        let n = self.raw.len();
        let (s, e) = match range {
            TiRange::Full => (0, n),
            TiRange::From(a) => (to_position(a), n),
            TiRange::To(b) => (0, to_position(b)),
            TiRange::ToInclusive(b) => {
                let pb = to_position(b);
                if pb >= n {
                    return None;
                }
                (0, pb + 1)
            },
            TiRange::Between(a, b) => (to_position(a), to_position(b)),
            TiRange::BetweenInclusive(a, b) => {
                let pb = to_position(b);
                if pb >= n {
                    return None;
                }
                (to_position(a), pb + 1)
            },
        };
        if s <= e && e <= n {
            Some(TiSlice::from_ref(vstd::slice::slice_subrange(self.raw, s, e)))
        } else {
            None
        }
    }

    /// Splits the view into the part before key `mid` and the part from it on.
    pub fn split_at(&self, mid: K) -> (r: (TiSlice<'a, K, V>, TiSlice<'a, K, V>))
        where usize: From<K>,
        requires
            keys_have_positions::<K>(),
            position_of(mid) <= self@.len(),
        ensures
            r.0@ == self@.subrange(0, position_of(mid) as int),
            r.1@ == self@.subrange(position_of(mid) as int, self@.len() as int),
    {
        let p = to_position(mid);
        let n = self.raw.len();
        (
            TiSlice::from_ref(vstd::slice::slice_subrange(self.raw, 0, p)),
            TiSlice::from_ref(vstd::slice::slice_subrange(self.raw, p, n)),
        )
    }
}

/// A borrowed, fixed-length view of elements that are reached through keys of type `K`,
/// through which they can be changed in place.
#[derive(Debug)]
pub struct TiSliceMut<'a, K, V> {
    /// The elements, in position order.
    pub raw: &'a mut [V],
    /// Ties the key type to the view; holds nothing at run time.
    pub _marker: PhantomData<K>,
}

impl<'a, K, V> View for TiSliceMut<'a, K, V> {
    type V = Seq<V>;

    open spec fn view(&self) -> Seq<V> {
        self.raw@
    }
}

impl<'a, K, V> TiSliceMut<'a, K, V> {
    /// Views a native mutable slice through keys of type `K`.
    pub fn from_mut(raw: &'a mut [V]) -> (r: Self)
        ensures
            r@ == old(raw)@,
            final(raw)@ == final(r.raw)@,
    {
        TiSliceMut { raw, _marker: PhantomData }
    }

    /// Number of elements.
    pub fn len(&self) -> (r: usize)
        ensures
            r == self@.len(),
    {
        self.raw.len()
    }

    /// Whether there are no elements.
    pub fn is_empty(&self) -> (r: bool)
        ensures
            r == (self@.len() == 0),
    {
        self.raw.len() == 0
    }

    /// A shared keyed view of the same elements.
    pub fn as_slice(&self) -> (r: TiSlice<'_, K, V>)
        ensures
            r@ == self@,
    {
        TiSlice::from_ref(&*self.raw)
    }

    /// Sets the element at `index` to `value`.
    pub fn set(&mut self, index: K, value: V)
        where usize: From<K>,
        requires
            keys_have_positions::<K>(),
            in_bounds(index, old(self)@.len()),
        ensures
            final(self)@ == old(self)@.update(position_of(index) as int, value),
            final(final(self).raw)@ == final(old(self).raw)@,
    {
        let p = to_position(index);
        self.raw[p] = value;
    }

    /// Swaps the elements at keys `a` and `b`.
    pub fn swap(&mut self, a: K, b: K)
        where usize: From<K>,
        requires
            keys_have_positions::<K>(),
            in_bounds(a, old(self)@.len()),
            in_bounds(b, old(self)@.len()),
        ensures
            final(self)@ == old(self)@.update(position_of(a) as int, old(self)@[position_of(b) as int]).update(
                position_of(b) as int,
                old(self)@[position_of(a) as int],
            ),
            final(final(self).raw)@ == final(old(self).raw)@,
    {
        let pa = to_position(a);
        let pb = to_position(b);
        slice_swap(self.raw, pa, pb)
    }

    /// Reverses the order of the elements.
    pub fn reverse(&mut self)
        ensures
            final(self)@ == old(self)@.reverse(),
            final(final(self).raw)@ == final(old(self).raw)@,
    {
        slice_reverse(self.raw)
    }

    /// Moves the elements before key `mid` to the end, keeping their order.
    pub fn rotate_left(&mut self, mid: K)
        where usize: From<K>,
        requires
            keys_have_positions::<K>(),
            position_of(mid) <= old(self)@.len(),
        ensures
            final(self)@ == old(self)@.subrange(position_of(mid) as int, old(self)@.len() as int)
                + old(self)@.subrange(0, position_of(mid) as int),
            final(final(self).raw)@ == final(old(self).raw)@,
    {
        let p = to_position(mid);
        slice_rotate_left(self.raw, p)
    }

    /// Moves the last `k` elements to the front, keeping their order.
    pub fn rotate_right(&mut self, k: usize)
        requires
            k <= old(self)@.len(),
        ensures
            final(self)@ == old(self)@.subrange(old(self)@.len() - k, old(self)@.len() as int)
                + old(self)@.subrange(0, old(self)@.len() - k),
            final(final(self).raw)@ == final(old(self).raw)@,
    {
        slice_rotate_right(self.raw, k)
    }

    /// Sorts the elements into non-decreasing order.
    pub fn sort(&mut self)
        where V: Ord,
        requires
            total_order::<V>(),
        ensures
            final(self)@.to_multiset() == old(self)@.to_multiset(),
            sorted_by_cmp(final(self)@),
            final(final(self).raw)@ == final(old(self).raw)@,
    {
        slice_sort(self.raw)
    }

    /// Sets every element to a clone of `value`.
    pub fn fill(&mut self, value: V)
        where V: Clone,
        ensures
            final(self)@.len() == old(self)@.len(),
            forall|i: int| 0 <= i < final(self)@.len() ==> cloned::<V>(value, #[trigger] final(self)@[i]),
            final(final(self).raw)@ == final(old(self).raw)@,
    {
        let n = self.raw.len();
        for i in 0..n
            invariant
                n == self@.len(),
                final(self.raw)@ == final(old(self).raw)@,
                forall|j: int| 0 <= j < i ==> cloned::<V>(value, #[trigger] self@[j]),
        {
            let c = value.clone();
            self.raw[i] = c;
        }
    }
}

/// An owned, fixed-length, boxed run of elements that are reached through keys of type `K`.
#[derive(Debug)]
pub struct TiBoxedSlice<K, V> {
    /// The elements, in position order.
    pub raw: Box<[V]>,
    /// Ties the key type to the slice; holds nothing at run time.
    pub _marker: PhantomData<K>,
}

impl<K, V> View for TiBoxedSlice<K, V> {
    type V = Seq<V>;

    open spec fn view(&self) -> Seq<V> {
        self.raw@
    }
}

impl<K, V> TiBoxedSlice<K, V> {
    /// Adopts a boxed native slice without copying it.
    pub fn from_boxed(raw: Box<[V]>) -> (r: Self)
        ensures
            r@ == raw@,
    {
        TiBoxedSlice { raw, _marker: PhantomData }
    }

    /// Gives back the boxed native slice without copying it.
    pub fn into_boxed(self) -> (r: Box<[V]>)
        ensures
            r@ == self@,
    {
        self.raw
    }

    /// Number of elements.
    pub fn len(&self) -> (r: usize)
        ensures
            r == self@.len(),
    {
        self.raw.len()
    }

    /// A keyed view of all elements.
    pub fn as_slice(&self) -> (r: TiSlice<'_, K, V>)
        ensures
            r@ == self@,
    {
        TiSlice::from_ref(&*self.raw)
    }
}

} // verus!
