use vstd::prelude::*;
use crate::index::{keys_have_positions, position_of, to_position};

verus! {

/// A range of keys, in the shapes that Rust's range syntax offers.
#[derive(Debug, PartialEq, Eq)]
pub enum TiRange<K> {
    /// `..`: every position.
    Full,
    /// `start..`: from `start` to the end.
    From(K),
    /// `..end`: up to `end`, excluding it.
    To(K),
    /// `..=end`: up to `end`, including it.
    ToInclusive(K),
    /// `start..end`.
    Between(K, K),
    /// `start..=end`.
    BetweenInclusive(K, K),
}

/// The first position that `r` covers.
pub open spec fn range_start<K>(r: TiRange<K>) -> int where usize: From<K> {
    match r {
        TiRange::From(s) => position_of(s) as int,
        TiRange::Between(s, _) => position_of(s) as int,
        TiRange::BetweenInclusive(s, _) => position_of(s) as int,
        _ => 0,
    }
}

/// The position just past the last one that `r` covers, for a sequence of length `len`.
pub open spec fn range_end<K>(r: TiRange<K>, len: nat) -> int where usize: From<K> {
    match r {
        TiRange::To(e) => position_of(e) as int,
        TiRange::Between(_, e) => position_of(e) as int,
        TiRange::ToInclusive(e) => position_of(e) + 1,
        TiRange::BetweenInclusive(_, e) => position_of(e) + 1,
        _ => len as int,
    }
}

/// `r` names a valid part of a sequence of length `len`.
pub open spec fn range_within<K>(r: TiRange<K>, len: nat) -> bool where usize: From<K> {
    0 <= range_start(r) <= range_end(r, len) <= len
}

impl<K> TiRange<K> {
    /// The half-open range of positions `[start, end)` that this range of keys covers
    /// within a sequence of length `len`.
    pub fn into_range(self, len: usize) -> (r: (usize, usize))
        where usize: From<K>,
        requires
            keys_have_positions::<K>(),
            range_within(self, len as nat),
        ensures
            r.0 == range_start(self),
            r.1 == range_end(self, len as nat),
    {
        match self {
            TiRange::Full => (0, len),
            TiRange::From(s) => (to_position(s), len),
            TiRange::To(e) => (0, to_position(e)),
            TiRange::ToInclusive(e) => (0, to_position(e) + 1),
            TiRange::Between(s, e) => (to_position(s), to_position(e)),
            TiRange::BetweenInclusive(s, e) => (to_position(s), to_position(e) + 1),
        }
    }
}

} // verus!
