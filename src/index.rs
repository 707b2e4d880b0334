//! Keys and positions. A key type `K` is any type with conversions `usize: From<K>` and
//! `K: From<usize>`; contracts reason about those conversions through their `FromSpec`
//! specifications, so a key type whose conversions are to be reasoned about also implements
//! `FromSpecImpl` for both directions.
use vstd::prelude::*;
use vstd::std_specs::convert::FromSpec;

verus! {

/// The position that the key `k` stands for.
pub open spec fn position_of<K>(k: K) -> usize where usize: From<K> {
    <usize as FromSpec<K>>::from_spec(k)
}

/// The key that stands for position `p`.
pub open spec fn key_at<K>(p: usize) -> K where K: From<usize> {
    <K as FromSpec<usize>>::from_spec(p)
}

/// Turning a key into a position follows `position_of`.
pub open spec fn keys_have_positions<K>() -> bool where usize: From<K> {
    <usize as FromSpec<K>>::obeys_from_spec()
}

/// Turning a position into a key follows `key_at`.
pub open spec fn positions_have_keys<K>() -> bool where K: From<usize> {
    <K as FromSpec<usize>>::obeys_from_spec()
}

/// The key `k` reaches an element of a sequence of length `len`.
pub open spec fn in_bounds<K>(k: K, len: nat) -> bool where usize: From<K> {
    position_of(k) < len
}

/// `K` can serve as a key type: both conversions follow their specifications, and turning
/// a position into a key and back gives the same position.
pub open spec fn is_index<K>() -> bool where K: From<usize>, usize: From<K> {
    &&& keys_have_positions::<K>()
    &&& positions_have_keys::<K>()
    &&& forall|p: usize| #[trigger] position_of(key_at::<K>(p)) == p
}

/// Converts a key into the position it stands for.
pub fn to_position<K>(k: K) -> (r: usize)
    where usize: From<K>,
    requires
        keys_have_positions::<K>(),
    ensures
        r == position_of(k),
{
    usize::from(k)
}

/// Converts a position into the key that stands for it.
pub fn from_position<K>(p: usize) -> (r: K)
    where K: From<usize>,
    requires
        positions_have_keys::<K>(),
    ensures
        r == key_at::<K>(p),
{
    K::from(p)
}

} // verus!
