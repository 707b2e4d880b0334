use vstd::prelude::*;
use core::marker::PhantomData;
use vstd::std_specs::convert::FromSpec;
use crate::index::{in_bounds, is_index, key_at, position_of};
use crate::vec::TiVec;

verus! {

/// Turning a position inside the vector into a key and back gives the same position, and
/// that key reaches the element stored at the position.
pub proof fn lemma_key_round_trip<K, V>(v: TiVec<K, V>, p: usize)
    where K: From<usize>, usize: From<K>,
    requires
        is_index::<K>(),
        p < v@.len(),
    ensures
        position_of(key_at::<K>(p)) == p,
        position_of(key_at::<K>(p)) < v@.len(),
        v@[position_of(key_at::<K>(p)) as int] == v.raw@[p as int],
{
}

/// A key whose position is not below the length is out of bounds, so the direct accessors
/// cannot be called with it and the checked ones answer `None`; in an empty vector no key
/// is in bounds.
pub proof fn lemma_out_of_bounds<K, V>(v: TiVec<K, V>, k: K)
    where usize: From<K>,
    requires
        position_of(k) >= v@.len(),
    ensures
        !in_bounds(k, v@.len()),
        v@.len() == 0 ==> forall|j: K| !#[trigger] in_bounds(j, v@.len()),
{
}

/// Turning a native vector into a keyed one and back gives the vector it started from.
pub proof fn lemma_vec_round_trip<K, V>(raw: Vec<V>)
    ensures
        <Vec<V> as FromSpec<TiVec<K, V>>>::from_spec(
            <TiVec<K, V> as FromSpec<Vec<V>>>::from_spec(raw),
        ) == raw,
        <TiVec<K, V> as FromSpec<Vec<V>>>::from_spec(raw)@ == raw@,
{
}

/// Turning a keyed vector into a native one and back gives the vector it started from.
pub proof fn lemma_ti_vec_round_trip<K, V>(v: TiVec<K, V>)
    ensures
        <TiVec<K, V> as FromSpec<Vec<V>>>::from_spec(
            <Vec<V> as FromSpec<TiVec<K, V>>>::from_spec(v),
        ) == v,
{
    assert(v._marker == PhantomData::<K>);
}

/// The pairs of a reverse enumeration are those of the forward one, last first.
pub proof fn lemma_enumerated_reverse<K, V>(s: Seq<V>, fwd: Seq<(K, &V)>, rev: Seq<(K, &V)>)
    where K: From<usize>,
    requires
        fwd.len() == s.len(),
        forall|i: int| 0 <= i < fwd.len() ==> #[trigger] fwd[i] == (key_at::<K>(i as usize), &s[i]),
        rev.len() == s.len(),
        forall|i: int|
            #![trigger rev[i]]
            0 <= i < rev.len() ==> rev[i] == (key_at::<K>((s.len() - 1 - i) as usize), &s[s.len() - 1 - i]),
    ensures
        rev == fwd.reverse(),
{
    assert(rev =~= fwd.reverse());
}

/// After inserting `x` at the key of position `i`, that key reaches `x`, and the length has
/// grown by one.
pub proof fn lemma_insert_then_get<K, V>(s: Seq<V>, i: usize, x: V)
    where K: From<usize>, usize: From<K>,
    requires
        is_index::<K>(),
        i <= s.len(),
    ensures
        ({
            let t = s.insert(position_of(key_at::<K>(i)) as int, x);
            &&& t.len() == s.len() + 1
            &&& t[position_of(key_at::<K>(i)) as int] == x
        }),
{
}

/// Removing at the key of position `i` returns the element stored there, and the length
/// shrinks by one.
pub proof fn lemma_remove_at_key<K, V>(s: Seq<V>, i: usize)
    where K: From<usize>, usize: From<K>,
    requires
        is_index::<K>(),
        i < s.len(),
    ensures
        ({
            let p = position_of(key_at::<K>(i)) as int;
            &&& p == i
            &&& s.remove(p).len() == s.len() - 1
            &&& s[p] == s[i as int]
        }),
{
}

} // verus!
