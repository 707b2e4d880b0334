use vstd::prelude::*;
use core::marker::PhantomData;
use vstd::layout::size_of;
use vstd::std_specs::cmp::PartialEqSpec;
use std::collections::TryReserveError;
use crate::index::{from_position, in_bounds, key_at, keys_have_positions, position_of, positions_have_keys, to_position};
use crate::range::{range_end, range_start, range_within, TiRange};
use crate::slice::{sorted_by_cmp, total_order, TiBoxedSlice, TiSlice, TiSliceMut};

verus! {

/// A growable array whose elements are reached through keys of type `K`.
#[derive(Debug, PartialEq, Eq, Hash, PartialOrd, Ord)]
pub struct TiVec<K, V> {
    /// The elements, in position order.
    pub raw: Vec<V>,
    /// Ties the key type to the vector; holds nothing at run time.
    pub _marker: PhantomData<K>,
}

impl<K, V> View for TiVec<K, V> {
    type V = Seq<V>;

    open spec fn view(&self) -> Seq<V> {
        self.raw@
    }
}

/// Relies on `Vec::capacity`: a vector can always hold at least its length.
#[verifier::external_body]
fn vec_capacity<V>(v: &Vec<V>) -> (r: usize)
    ensures
        r >= v@.len(),
{
    v.capacity()
}

/// Room for `n` elements of `V` stays within what one allocation may hold: at most
/// `usize::MAX` elements and `isize::MAX` bytes.
pub open spec fn fits_allocation<V>(n: int) -> bool {
    n <= usize::MAX && n * size_of::<V>() <= isize::MAX
}

/// Relies on `Vec::reserve_exact`: only the allocation changes, never the elements; it
/// panics when the new capacity would not fit an allocation.
#[verifier::external_body]
fn vec_reserve_exact<V>(v: &mut Vec<V>, additional: usize)
    requires
        fits_allocation::<V>(old(v)@.len() + additional),
    ensures
        final(v)@ == old(v)@,
{
    v.reserve_exact(additional)
}

/// Relies on `Vec::try_reserve`: only the allocation changes, never the elements, and a
/// capacity past `usize::MAX` is reported as an error.
#[verifier::external_body]
fn vec_try_reserve<V>(v: &mut Vec<V>, additional: usize) -> (r: Result<(), TryReserveError>)
    ensures
        final(v)@ == old(v)@,
        old(v)@.len() + additional > usize::MAX ==> r is Err,
{
    v.try_reserve(additional)
}

/// Relies on `Vec::try_reserve_exact`: only the allocation changes, never the elements, and
/// a capacity past `usize::MAX` is reported as an error.
#[verifier::external_body]
fn vec_try_reserve_exact<V>(v: &mut Vec<V>, additional: usize) -> (r: Result<(), TryReserveError>)
    ensures
        final(v)@ == old(v)@,
        old(v)@.len() + additional > usize::MAX ==> r is Err,
{
    v.try_reserve_exact(additional)
}

/// Relies on `Vec::shrink_to_fit`: only the allocation changes, never the elements.
#[verifier::external_body]
fn vec_shrink_to_fit<V>(v: &mut Vec<V>)
    ensures
        final(v)@ == old(v)@,
{
    v.shrink_to_fit()
}

/// Relies on `Vec::shrink_to`: only the allocation changes, never the elements.
#[verifier::external_body]
fn vec_shrink_to<V>(v: &mut Vec<V>, min_capacity: usize)
    ensures
        final(v)@ == old(v)@,
{
    v.shrink_to(min_capacity)
}

/// Relies on `Vec::into_boxed_slice`: the box holds the same elements in the same order.
#[verifier::external_body]
fn vec_into_boxed_slice<V>(v: Vec<V>) -> (r: Box<[V]>)
    ensures
        r@ == v@,
{
    v.into_boxed_slice()
}

/// `r` is `v` in reverse order.
pub open spec fn is_reverse_of<V>(r: Seq<V>, v: Seq<V>) -> bool {
    &&& r.len() == v.len()
    &&& forall|j: int| 0 <= j < r.len() ==> #[trigger] r[j] == v[v.len() - 1 - j]
}

/// The elements of `s` whose flag in `keep` is set, in order.
pub open spec fn kept<V>(s: Seq<V>, keep: Seq<bool>) -> Seq<V>
    decreases s.len(),
{
    if s.len() == 0 {
        Seq::empty()
    } else {
        let prev = kept(s.drop_last(), keep.drop_last());
        if keep.last() {
            prev.push(s.last())
        } else {
            prev
        }
    }
}

/// `keep` records what `f` answered for each element of `s` when asked whether to keep it.
pub open spec fn retain_trace<V, F: Fn(&V) -> bool>(f: F, s: Seq<V>, keep: Seq<bool>) -> bool {
    &&& keep.len() == s.len()
    &&& forall|i: int| 0 <= i < s.len() ==> f.ensures((&s[i],), #[trigger] keep[i])
}

/// `keep` records the choices of a removal of consecutive duplicates from `s`: the first
/// element stays, and each later one stays unless `same` answered true when asked about it
/// and the last element kept before it.
pub open spec fn dedup_trace<V, F: Fn(&V, &V) -> bool>(same: F, s: Seq<V>, keep: Seq<bool>) -> bool {
    &&& keep.len() == s.len()
    &&& s.len() > 0 ==> keep[0]
    &&& forall|i: int|
        0 < i < s.len() ==> same.ensures(
            (&s[i], &kept(s.subrange(0, i), keep.subrange(0, i)).last()),
            !#[trigger] keep[i],
        )
}

/// `s` with each run of consecutive equal elements cut down to its first element; an
/// element is compared with the last one kept.
pub open spec fn deduped<V: PartialEq>(s: Seq<V>) -> Seq<V>
    decreases s.len(),
{
    if s.len() == 0 {
        s
    } else {
        let prev = deduped(s.drop_last());
        if prev.len() > 0 && s.last().eq_spec(&prev.last()) {
            prev
        } else {
            prev.push(s.last())
        }
    }
}

/// `key` gave `a` and `b` keys, and `differ` says whether those keys were unequal.
pub open spec fn keys_differ<V, K2: PartialEq, F: Fn(&V) -> K2>(key: F, a: V, b: V, differ: bool) -> bool {
    exists|ka: K2, kb: K2|
        key.ensures((&a,), ka) && key.ensures((&b,), kb) && differ == !ka.eq_spec(&kb)
}

/// `keep` records the choices of a removal of consecutive elements with equal keys from
/// `s`: the first element stays, and each later one stays exactly when `key` gave it a key
/// unequal to the one it gave the last element kept before it.
pub open spec fn key_dedup_trace<V, K2: PartialEq, F: Fn(&V) -> K2>(key: F, s: Seq<V>, keep: Seq<bool>) -> bool {
    &&& keep.len() == s.len()
    &&& s.len() > 0 ==> keep[0]
    &&& forall|i: int|
        0 < i < s.len() ==> keys_differ(
            key,
            s[i],
            kept(s.subrange(0, i), keep.subrange(0, i)).last(),
            #[trigger] keep[i],
        )
}

/// Adding one element with its flag extends `kept` by that element exactly when the flag
/// is set.
proof fn lemma_kept_push<V>(s: Seq<V>, keep: Seq<bool>, v: V, b: bool)
    ensures
        kept(s.push(v), keep.push(b)) == if b { kept(s, keep).push(v) } else { kept(s, keep) },
{
    assert(s.push(v).drop_last() =~= s);
    assert(keep.push(b).drop_last() =~= keep);
}

/// Extends a record of key comparisons by one more element.
proof fn lemma_key_dedup_trace_push<V, K2: PartialEq, F: Fn(&V) -> K2>(
    key: F,
    s: Seq<V>,
    keep: Seq<bool>,
    v: V,
    b: bool,
)
    requires
        key_dedup_trace(key, s, keep),
        s.len() == 0 ==> b,
        s.len() > 0 ==> keys_differ(key, v, kept(s, keep).last(), b),
    ensures
        key_dedup_trace(key, s.push(v), keep.push(b)),
{
    let s1 = s.push(v);
    let k1 = keep.push(b);
    let i = s.len() as int;
    assert(s1.subrange(0, i) =~= s);
    assert(k1.subrange(0, i) =~= keep);
    assert forall|j: int| 0 < j < s1.len() implies keys_differ(
        key,
        s1[j],
        kept(s1.subrange(0, j), k1.subrange(0, j)).last(),
        #[trigger] k1[j],
    ) by {
        if j < i {
            assert(keep[j] == k1[j]);
            assert(s.subrange(0, j) =~= s1.subrange(0, j));
            assert(keep.subrange(0, j) =~= k1.subrange(0, j));
            assert(s[j] == s1[j]);
        }
    }
    if s.len() > 0 {
        assert(k1[0] == keep[0]);
    }
}

/// Moves the elements of `v` into a new vector, last first.
fn reversed<V>(v: Vec<V>) -> (r: Vec<V>)
    ensures
        is_reverse_of(r@, v@),
{
    let ghost orig = v@;
    let mut v = v;
    let mut r: Vec<V> = Vec::new();
    while v.len() > 0
        invariant
            v@ == orig.subrange(0, v@.len() as int),
            r@.len() + v@.len() == orig.len(),
            forall|j: int| 0 <= j < r@.len() ==> #[trigger] r@[j] == orig[orig.len() - 1 - j],
        decreases v@.len(),
    {
        let x = v.pop().unwrap();
        r.push(x);
    }
    r
}

impl<K, V> TiVec<K, V> {
    /// An empty vector.
    pub fn new() -> (r: Self)
        ensures
            r@ == Seq::<V>::empty(),
    {
        TiVec { raw: Vec::new(), _marker: PhantomData }
    }

    /// An empty vector with room for at least `capacity` elements.
    pub fn with_capacity(capacity: usize) -> (r: Self)
        ensures
            r@ == Seq::<V>::empty(),
    {
        TiVec { raw: Vec::with_capacity(capacity), _marker: PhantomData }
    }

    /// Adopts a native vector without copying it.
    pub fn from_vec(raw: Vec<V>) -> (r: Self)
        ensures
            r@ == raw@,
    {
        TiVec { raw, _marker: PhantomData }
    }

    /// Gives back the native vector without copying it.
    pub fn into_vec(self) -> (r: Vec<V>)
        ensures
            r@ == self@,
    {
        self.raw
    }

    /// Number of elements the vector can hold without reallocating.
    pub fn capacity(&self) -> (r: usize)
        ensures
            r >= self@.len(),
    {
        vec_capacity(&self.raw)
    }

    /// Makes room for at least `additional` more elements.
    pub fn reserve(&mut self, additional: usize)
        requires
            fits_allocation::<V>(old(self)@.len() + additional),
        ensures
            final(self)@ == old(self)@,
    {
        self.raw.reserve(additional)
    }

    /// Makes room for exactly `additional` more elements.
    pub fn reserve_exact(&mut self, additional: usize)
        requires
            fits_allocation::<V>(old(self)@.len() + additional),
        ensures
            final(self)@ == old(self)@,
    {
        vec_reserve_exact(&mut self.raw, additional)
    }

    /// Tries to make room for at least `additional` more elements.
    pub fn try_reserve(&mut self, additional: usize) -> (r: Result<(), TryReserveError>)
        ensures
            final(self)@ == old(self)@,
            old(self)@.len() + additional > usize::MAX ==> r is Err,
    {
        vec_try_reserve(&mut self.raw, additional)
    }

    /// Tries to make room for exactly `additional` more elements.
    pub fn try_reserve_exact(&mut self, additional: usize) -> (r: Result<(), TryReserveError>)
        ensures
            final(self)@ == old(self)@,
            old(self)@.len() + additional > usize::MAX ==> r is Err,
    {
        vec_try_reserve_exact(&mut self.raw, additional)
    }

    /// Gives back as much spare room as the allocator allows.
    pub fn shrink_to_fit(&mut self)
        ensures
            final(self)@ == old(self)@,
    {
        vec_shrink_to_fit(&mut self.raw)
    }

    /// Gives back spare room, keeping at least `min_capacity`.
    pub fn shrink_to(&mut self, min_capacity: usize)
        ensures
            final(self)@ == old(self)@,
    {
        vec_shrink_to(&mut self.raw, min_capacity)
    }

    /// The elements as a boxed native slice.
    pub fn into_boxed_slice(self) -> (r: TiBoxedSlice<K, V>)
        ensures
            r@ == self@,
    {
        TiBoxedSlice::from_boxed(vec_into_boxed_slice(self.raw))
    }

    /// Keeps the first `len` elements and drops the rest.
    pub fn truncate(&mut self, len: usize)
        ensures
            len <= old(self)@.len() ==> final(self)@ == old(self)@.subrange(0, len as int),
            len > old(self)@.len() ==> final(self)@ == old(self)@,
    {
        self.raw.truncate(len)
    }

    /// A keyed view of all elements.
    pub fn as_slice(&self) -> (r: TiSlice<'_, K, V>)
        ensures
            r@ == self@,
    {
        TiSlice::from_ref(self.raw.as_slice())
    }

    /// A keyed mutable view of all elements.
    pub fn as_mut_slice(&mut self) -> (r: TiSliceMut<'_, K, V>)
        ensures
            r@ == old(self)@,
            final(self)@ == final(r.raw)@,
    {
        TiSliceMut::from_mut(self.raw.as_mut_slice())
    }

    /// Removes the element at `index` and moves the last element into its place.
    pub fn swap_remove(&mut self, index: K) -> (r: V)
        where usize: From<K>,
        requires
            keys_have_positions::<K>(),
            in_bounds(index, old(self)@.len()),
        ensures
            r == old(self)@[position_of(index) as int],
            final(self)@ == old(self)@.update(position_of(index) as int, old(self)@.last()).drop_last(),
    {
        let p = to_position(index);
        self.raw.swap_remove(p)
    }

    /// Inserts `element` at the position of `index`, shifting later elements up.
    pub fn insert(&mut self, index: K, element: V)
        where usize: From<K>,
        requires
            keys_have_positions::<K>(),
            position_of(index) <= old(self)@.len(),
        ensures
            final(self)@ == old(self)@.insert(position_of(index) as int, element),
    {
        let p = to_position(index);
        self.raw.insert(p, element);
    }

    /// Removes and returns the element at `index`, shifting later elements down.
    pub fn remove(&mut self, index: K) -> (r: V)
        where usize: From<K>,
        requires
            keys_have_positions::<K>(),
            in_bounds(index, old(self)@.len()),
        ensures
            r == old(self)@[position_of(index) as int],
            final(self)@ == old(self)@.remove(position_of(index) as int),
    {
        let p = to_position(index);
        self.raw.remove(p)
    }

    /// Appends `value` at the end.
    pub fn push(&mut self, value: V)
        ensures
            final(self)@ == old(self)@.push(value),
    {
        self.raw.push(value)
    }

    /// Removes and returns the last element, if any.
    pub fn pop(&mut self) -> (r: Option<V>)
        ensures
            old(self)@.len() > 0 ==> r == Some(old(self)@.last())
                && final(self)@ == old(self)@.drop_last(),
            old(self)@.len() == 0 ==> r.is_none() && final(self)@ == old(self)@,
    {
        self.raw.pop()
    }

    /// Moves every element of `other` to the end of this vector.
    pub fn append(&mut self, other: &mut Self)
        ensures
            final(self)@ == old(self)@ + old(other)@,
            final(other)@ == Seq::<V>::empty(),
    {
        self.raw.append(&mut other.raw)
    }

    /// Removes the elements that `range` covers and returns them in order.
    pub fn drain(&mut self, range: TiRange<K>) -> (r: Vec<V>)
        where usize: From<K>,
        requires
            keys_have_positions::<K>(),
            range_within(range, old(self)@.len()),
        ensures
            r@ == old(self)@.subrange(range_start(range), range_end(range, old(self)@.len())),
            final(self)@ == old(self)@.subrange(0, range_start(range)) + old(self)@.subrange(
                range_end(range, old(self)@.len()),
                old(self)@.len() as int,
            ),
    {
        let (s, e) = range.into_range(self.raw.len());
        let mut tail = self.raw.split_off(e);
        let removed = self.raw.split_off(s);
        self.raw.append(&mut tail);
        removed
    }

    /// Removes every element.
    pub fn clear(&mut self)
        ensures
            final(self)@ == Seq::<V>::empty(),
    {
        self.raw.clear()
    }

    /// Number of elements.
    pub fn len(&self) -> (r: usize)
        ensures
            r == self@.len(),
    {
        self.raw.len()
    }

    /// Whether there are no elements.
    pub fn is_empty(&self) -> (r: bool)
        ensures
            r == (self@.len() == 0),
    {
        self.raw.is_empty()
    }

    /// Splits the vector at `at`: this one keeps the elements before it, the result holds
    /// the rest.
    pub fn split_off(&mut self, at: K) -> (r: Self)
        where usize: From<K>,
        requires
            keys_have_positions::<K>(),
            position_of(at) <= old(self)@.len(),
        ensures
            final(self)@ == old(self)@.subrange(0, position_of(at) as int),
            r@ == old(self)@.subrange(position_of(at) as int, old(self)@.len() as int),
    {
        let p = to_position(at);
        TiVec { raw: self.raw.split_off(p), _marker: PhantomData }
    }

    /// Sets the length to `new_len`, dropping elements or appending clones of `value`.
    pub fn resize(&mut self, new_len: usize, value: V)
        where V: Clone,
        ensures
            new_len <= old(self)@.len() ==> final(self)@ == old(self)@.subrange(0, new_len as int),
            new_len > old(self)@.len() ==> {
                &&& final(self)@.len() == new_len
                &&& final(self)@.subrange(0, old(self)@.len() as int) == old(self)@
                &&& forall|i: int|
                    old(self)@.len() <= i < new_len ==> cloned::<V>(value, #[trigger] final(self)@[i])
            },
    {
        self.raw.resize(new_len, value)
    }

    /// Appends clones of the elements of `other`.
    pub fn extend_from_slice(&mut self, other: &TiSlice<'_, K, V>)
        where V: Clone,
        ensures
            final(self)@.len() == old(self)@.len() + other@.len(),
            forall|i: int|
                0 <= i < old(self)@.len() ==> #[trigger] final(self)@[i] == old(self)@[i],
            forall|i: int|
                old(self)@.len() <= i < final(self)@.len() ==> cloned::<V>(
                    other@[i - old(self)@.len()],
                    #[trigger] final(self)@[i],
                ),
    {
        self.raw.extend_from_slice(other.raw)
    }

    /// Replaces the elements that `range` covers with `replace_with`, and returns the
    /// elements removed.
    pub fn splice(&mut self, range: TiRange<K>, replace_with: Vec<V>) -> (r: Vec<V>)
        where usize: From<K>,
        requires
            keys_have_positions::<K>(),
            range_within(range, old(self)@.len()),
        ensures
            r@ == old(self)@.subrange(range_start(range), range_end(range, old(self)@.len())),
            final(self)@ == old(self)@.subrange(0, range_start(range)) + replace_with@
                + old(self)@.subrange(range_end(range, old(self)@.len()), old(self)@.len() as int),
    {
        let (s, e) = range.into_range(self.raw.len());
        let mut tail = self.raw.split_off(e);
        let removed = self.raw.split_off(s);
        let mut middle = replace_with;
        self.raw.append(&mut middle);
        self.raw.append(&mut tail);
        removed
    }

    /// Keeps only the elements for which `f` answers true, in their order.
    pub fn retain<F>(&mut self, f: F)
        where F: Fn(&V) -> bool,
        requires
            forall|i: int| 0 <= i < old(self)@.len() ==> f.requires((&old(self)@[i],)),
        ensures
            exists|keep: Seq<bool>|
                retain_trace(f, old(self)@, keep) && final(self)@ == kept(old(self)@, keep),
    {
        let ghost orig = self@;
        let mut rest = reversed(self.raw.split_off(0));
        let ghost mut keep: Seq<bool> = Seq::empty();
        while rest.len() > 0
            invariant
                orig.len() == keep.len() + rest@.len(),
                forall|i: int| 0 <= i < orig.len() ==> f.requires((&orig[i],)),
                forall|j: int| 0 <= j < rest@.len() ==> #[trigger] rest@[j] == orig[orig.len() - 1 - j],
                retain_trace(f, orig.subrange(0, keep.len() as int), keep),
                self@ == kept(orig.subrange(0, keep.len() as int), keep),
            decreases rest@.len(),
        {
            let ghost i = keep.len() as int;
            let v = rest.pop().unwrap();
            assert(v == orig[i]);
            let b = f(&v);
            proof {
                let s1 = orig.subrange(0, i + 1);
                assert(s1.drop_last() =~= orig.subrange(0, i));
                assert(keep.push(b).drop_last() =~= keep);
                keep = keep.push(b);
                assert forall|j: int| 0 <= j < s1.len() implies f.ensures((&s1[j],), #[trigger] keep[j]) by {
                    if j < i {
                        assert(orig.subrange(0, i)[j] == s1[j]);
                    }
                }
            }
            if b {
                self.raw.push(v);
            }
        }
        assert(orig.subrange(0, orig.len() as int) =~= orig);
    }

    /// Removes consecutive elements for which `same_bucket(later, earlier)` answers true,
    /// comparing each element with the last one kept.
    pub fn dedup_by<F>(&mut self, same_bucket: F)
        where F: Fn(&V, &V) -> bool,
        requires
            forall|a: &V, b: &V| same_bucket.requires((a, b)),
        ensures
            exists|keep: Seq<bool>|
                dedup_trace(same_bucket, old(self)@, keep) && final(self)@ == kept(old(self)@, keep),
    {
        let ghost orig = self@;
        let mut rest = reversed(self.raw.split_off(0));
        let ghost mut keep: Seq<bool> = Seq::empty();
        while rest.len() > 0
            invariant
                orig.len() == keep.len() + rest@.len(),
                forall|a: &V, b: &V| same_bucket.requires((a, b)),
                forall|j: int| 0 <= j < rest@.len() ==> #[trigger] rest@[j] == orig[orig.len() - 1 - j],
                dedup_trace(same_bucket, orig.subrange(0, keep.len() as int), keep),
                self@ == kept(orig.subrange(0, keep.len() as int), keep),
                keep.len() > 0 ==> self@.len() > 0,
            decreases rest@.len(),
        {
            let ghost i = keep.len() as int;
            let v = rest.pop().unwrap();
            assert(v == orig[i]);
            let ghost s0 = orig.subrange(0, i);
            let ghost s1 = orig.subrange(0, i + 1);
            proof {
                assert(s1.drop_last() =~= s0);
            }
            if self.raw.len() == 0 {
                proof {
                    keep = keep.push(true);
                    assert(keep.drop_last() =~= keep.subrange(0, i));
                }
                self.raw.push(v);
            } else {
                let n = self.raw.len();
                let b = same_bucket(&v, &self.raw[n - 1]);
                proof {
                    assert(keep.push(!b).drop_last() =~= keep);
                    keep = keep.push(!b);
                }
                if !b {
                    self.raw.push(v);
                }
            }
            proof {
                assert(keep.subrange(0, i) =~= keep.drop_last());
                assert forall|j: int| 0 < j < s1.len() implies same_bucket.ensures(
                    (&s1[j], &kept(s1.subrange(0, j), keep.subrange(0, j)).last()),
                    !#[trigger] keep[j],
                ) by {
                    if j < i {
                        assert(s0.subrange(0, j) =~= s1.subrange(0, j));
                        assert(keep.drop_last().subrange(0, j) =~= keep.subrange(0, j));
                        assert(keep.drop_last()[j] == keep[j]);
                    } else {
                        assert(s1.subrange(0, j) =~= s0);
                    }
                }
            }
        }
        assert(orig.subrange(0, orig.len() as int) =~= orig);
    }

    /// Removes consecutive elements whose keys under `key` are equal, comparing each element
    /// with the last one kept.
    pub fn dedup_by_key<F, K2>(&mut self, key: F)
        where F: Fn(&V) -> K2, K2: PartialEq,
        requires
            <K2 as PartialEqSpec>::obeys_eq_spec(),
            forall|a: &V| key.requires((a,)),
        ensures
            exists|keep: Seq<bool>|
                key_dedup_trace(key, old(self)@, keep) && final(self)@ == kept(old(self)@, keep),
    {
        let ghost orig = self@;
        let mut rest = reversed(self.raw.split_off(0));
        let ghost mut keep: Seq<bool> = Seq::empty();
        while rest.len() > 0
            invariant
                orig.len() == keep.len() + rest@.len(),
                <K2 as PartialEqSpec>::obeys_eq_spec(),
                forall|a: &V| key.requires((a,)),
                forall|j: int| 0 <= j < rest@.len() ==> #[trigger] rest@[j] == orig[orig.len() - 1 - j],
                key_dedup_trace(key, orig.subrange(0, keep.len() as int), keep),
                self@ == kept(orig.subrange(0, keep.len() as int), keep),
                keep.len() > 0 ==> self@.len() > 0,
            decreases rest@.len(),
        {
            let ghost i = keep.len() as int;
            let ghost s0 = orig.subrange(0, i);
            let v = rest.pop().unwrap();
            proof {
                assert(orig.subrange(0, i + 1) =~= s0.push(v));
            }
            let mut b = true;
            if self.raw.len() > 0 {
                let n = self.raw.len();
                let ka = key(&v);
                let kb = key(&self.raw[n - 1]);
                b = !(ka == kb);
            }
            proof {
                lemma_kept_push(s0, keep, v, b);
                lemma_key_dedup_trace_push(key, s0, keep, v, b);
                keep = keep.push(b);
            }
            if b {
                self.raw.push(v);
            }
        }
        assert(orig.subrange(0, orig.len() as int) =~= orig);
    }

    /// Removes consecutive equal elements, comparing each element with the last one kept.
    pub fn dedup(&mut self)
        where V: PartialEq,
        requires
            <V as PartialEqSpec>::obeys_eq_spec(),
        ensures
            final(self)@ == deduped(old(self)@),
    {
        let ghost orig = self@;
        let mut rest = reversed(self.raw.split_off(0));
        while rest.len() > 0
            invariant
                <V as PartialEqSpec>::obeys_eq_spec(),
                rest@.len() <= orig.len(),
                forall|j: int| 0 <= j < rest@.len() ==> #[trigger] rest@[j] == orig[orig.len() - 1 - j],
                self@ == deduped(orig.subrange(0, orig.len() - rest@.len())),
            decreases rest@.len(),
        {
            let ghost i = orig.len() - rest@.len();
            let v = rest.pop().unwrap();
            assert(v == orig[i]);
            assert(orig.subrange(0, i + 1).drop_last() =~= orig.subrange(0, i));
            let n = self.raw.len();
            if n == 0 || !(v == self.raw[n - 1]) {
                self.raw.push(v);
            }
        }
        assert(orig.subrange(0, orig.len() as int) =~= orig);
    }

    /// Sets the length to `new_len`, dropping elements or appending values that `f` makes.
    pub fn resize_with<F>(&mut self, new_len: usize, f: F)
        where F: Fn() -> V,
        requires
            f.requires(()),
        ensures
            new_len <= old(self)@.len() ==> final(self)@ == old(self)@.subrange(0, new_len as int),
            new_len > old(self)@.len() ==> {
                &&& final(self)@.len() == new_len
                &&& final(self)@.subrange(0, old(self)@.len() as int) == old(self)@
                &&& forall|i: int|
                    old(self)@.len() <= i < new_len ==> f.ensures((), #[trigger] final(self)@[i])
            },
    {
        let ghost orig = self@;
        if new_len <= self.raw.len() {
            self.raw.truncate(new_len);
        } else {
            while self.raw.len() < new_len
                invariant
                    orig.len() <= self@.len() <= new_len,
                    f.requires(()),
                    self@.subrange(0, orig.len() as int) == orig,
                    forall|i: int| orig.len() <= i < self@.len() ==> f.ensures((), #[trigger] self@[i]),
                decreases new_len - self@.len(),
            {
                let v = f();
                let ghost before = self@;
                self.raw.push(v);
                assert(self@.subrange(0, orig.len() as int) =~= before.subrange(0, orig.len() as int));
            }
        }
    }

    /// The element at `index`; the caller guarantees that it is in bounds.
    pub fn index(&self, index: K) -> (r: &V)
        where usize: From<K>,
        requires
            keys_have_positions::<K>(),
            in_bounds(index, self@.len()),
        ensures
            *r == self@[position_of(index) as int],
    {
        let p = to_position(index);
        &self.raw[p]
    }

    /// The element at `index`, or `None` when `index` is out of bounds.
    pub fn get(&self, index: K) -> (r: Option<&V>)
        where usize: From<K>,
        requires
            keys_have_positions::<K>(),
        ensures
            in_bounds(index, self@.len()) ==> r == Some(&self@[position_of(index) as int]),
            !in_bounds(index, self@.len()) ==> r.is_none(),
    {
        let p = to_position(index);
        if p < self.raw.len() {
            Some(&self.raw[p])
        } else {
            None
        }
    }

    /// A mutable reference to the element at `index`; the caller guarantees that it is in
    /// bounds.
    pub fn index_mut(&mut self, index: K) -> (r: &mut V)
        where usize: From<K>,
        requires
            keys_have_positions::<K>(),
            in_bounds(index, old(self)@.len()),
        ensures
            *r == old(self)@[position_of(index) as int],
            final(self)@ == old(self)@.update(position_of(index) as int, *final(r)),
    {
        let p = to_position(index);
        &mut self.raw[p]
    }

    /// A mutable reference to the element at `index`, or `None` when `index` is out of
    /// bounds.
    pub fn get_mut(&mut self, index: K) -> (r: Option<&mut V>)
        where usize: From<K>,
        requires
            keys_have_positions::<K>(),
        ensures
            in_bounds(index, old(self)@.len()) ==> r is Some && *r->0 == old(self)@[position_of(
                index,
            ) as int] && final(self)@ == old(self)@.update(position_of(index) as int, *final(r->0)),
            !in_bounds(index, old(self)@.len()) ==> r is None && final(self)@ == old(self)@,
    {
        let p = to_position(index);
        if p < self.raw.len() {
            Some(&mut self.raw[p])
        } else {
            None
        }
    }

    /// Replaces the element at `index` with `value` and returns the one it held.
    pub fn replace(&mut self, index: K, value: V) -> (r: V)
        where usize: From<K>,
        requires
            keys_have_positions::<K>(),
            in_bounds(index, old(self)@.len()),
        ensures
            r == old(self)@[position_of(index) as int],
            final(self)@ == old(self)@.update(position_of(index) as int, value),
    {
        let p = to_position(index);
        self.raw.push(value);
        let r = self.raw.swap_remove(p);
        assert(self@ =~= old(self)@.update(p as int, value));
        r
    }

    /// Swaps the elements at keys `a` and `b`.
    pub fn swap(&mut self, a: K, b: K)
        where usize: From<K>,
        requires
            keys_have_positions::<K>(),
            in_bounds(a, old(self)@.len()),
            in_bounds(b, old(self)@.len()),
        ensures
            final(self)@ == old(self)@.update(position_of(a) as int, old(self)@[position_of(b) as int]).update(
                position_of(b) as int,
                old(self)@[position_of(a) as int],
            ),
    {
        let mut view = self.as_mut_slice();
        view.swap(a, b)
    }

    /// Reverses the order of the elements.
    pub fn reverse(&mut self)
        ensures
            final(self)@ == old(self)@.reverse(),
    {
        let mut view = self.as_mut_slice();
        view.reverse()
    }

    /// Moves the elements before key `mid` to the end, keeping their order.
    pub fn rotate_left(&mut self, mid: K)
        where usize: From<K>,
        requires
            keys_have_positions::<K>(),
            position_of(mid) <= old(self)@.len(),
        ensures
            final(self)@ == old(self)@.subrange(position_of(mid) as int, old(self)@.len() as int)
                + old(self)@.subrange(0, position_of(mid) as int),
    {
        let mut view = self.as_mut_slice();
        view.rotate_left(mid)
    }

    /// Moves the last `k` elements to the front, keeping their order.
    pub fn rotate_right(&mut self, k: usize)
        requires
            k <= old(self)@.len(),
        ensures
            final(self)@ == old(self)@.subrange(old(self)@.len() - k, old(self)@.len() as int)
                + old(self)@.subrange(0, old(self)@.len() - k),
    {
        let mut view = self.as_mut_slice();
        view.rotate_right(k)
    }

    /// Sorts the elements into non-decreasing order.
    pub fn sort(&mut self)
        where V: Ord,
        requires
            total_order::<V>(),
        ensures
            final(self)@.to_multiset() == old(self)@.to_multiset(),
            sorted_by_cmp(final(self)@),
    {
        let mut view = self.as_mut_slice();
        view.sort()
    }

    /// Sets every element to a clone of `value`.
    pub fn fill(&mut self, value: V)
        where V: Clone,
        ensures
            final(self)@.len() == old(self)@.len(),
            forall|i: int| 0 <= i < final(self)@.len() ==> cloned::<V>(value, #[trigger] final(self)@[i]),
    {
        let mut view = self.as_mut_slice();
        view.fill(value)
    }

    /// Consumes the vector, pairing each element with the key of its position.
    pub fn into_iter_enumerated(self) -> (r: Vec<(K, V)>)
        where K: From<usize>,
        requires
            positions_have_keys::<K>(),
        ensures
            r@.len() == self@.len(),
            forall|i: int| 0 <= i < r@.len() ==> #[trigger] r@[i] == (key_at::<K>(i as usize), self@[i]),
    {
        let ghost orig = self@;
        let mut rest = reversed(self.raw);
        let mut r: Vec<(K, V)> = Vec::new();
        while rest.len() > 0
            invariant
                positions_have_keys::<K>(),
                r@.len() + rest@.len() == orig.len(),
                forall|j: int| 0 <= j < rest@.len() ==> #[trigger] rest@[j] == orig[orig.len() - 1 - j],
                forall|i: int| 0 <= i < r@.len() ==> #[trigger] r@[i] == (key_at::<K>(i as usize), orig[i]),
            decreases rest@.len(),
        {
            let p = r.len();
            let v = rest.pop().unwrap();
            r.push((from_position(p), v));
        }
        r
    }
}

impl<K, V: Clone> Clone for TiVec<K, V> {
    fn clone(&self) -> (r: Self)
        ensures
            r@.len() == self@.len(),
            forall|i: int| 0 <= i < self@.len() ==> cloned::<V>(self@[i], #[trigger] r@[i]),
    {
        TiVec { raw: self.raw.clone(), _marker: PhantomData }
    }
}

impl<K, V> Default for TiVec<K, V> {
    fn default() -> (r: Self)
        ensures
            r@ == Seq::<V>::empty(),
    {
        TiVec::new()
    }
}

impl<K, V> From<Vec<V>> for TiVec<K, V> {
    fn from(raw: Vec<V>) -> (r: Self) {
        TiVec { raw, _marker: PhantomData }
    }
}

impl<K, V> vstd::std_specs::convert::FromSpecImpl<Vec<V>> for TiVec<K, V> {
    open spec fn obeys_from_spec() -> bool {
        true
    }

    open spec fn from_spec(raw: Vec<V>) -> Self {
        TiVec { raw, _marker: PhantomData }
    }
}

impl<K, V> From<TiVec<K, V>> for Vec<V> {
    fn from(v: TiVec<K, V>) -> (r: Self) {
        v.raw
    }
}

impl<K, V> vstd::std_specs::convert::FromSpecImpl<TiVec<K, V>> for Vec<V> {
    open spec fn obeys_from_spec() -> bool {
        true
    }

    open spec fn from_spec(v: TiVec<K, V>) -> Self {
        v.raw
    }
}

} // verus!
