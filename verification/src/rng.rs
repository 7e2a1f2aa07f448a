//! Random draws for bot spawning, behind trusted wrappers around `rand`.

use vstd::prelude::*;

verus! {

/// Relies on rand::random_range: the draw lies within the given inclusive
/// range (the call panics on an empty range, which the bounds exclude).
#[verifier::external_body]
pub(crate) fn random_range_i64(lo: i64, hi: i64) -> (r: i64)
    requires
        lo <= hi,
    ensures
        lo <= r <= hi,
{
    rand::random_range(lo..=hi)
}

/// Relies on rand::random_range: the draw is a valid index below `n`.
#[verifier::external_body]
pub(crate) fn random_index(n: usize) -> (r: usize)
    requires
        0 < n,
    ensures
        r < n,
{
    rand::random_range(0..n)
}

pub open spec fn imin(a: int, b: int) -> int {
    if a < b {
        a
    } else {
        b
    }
}

pub open spec fn imax(a: int, b: int) -> int {
    if a < b {
        b
    } else {
        a
    }
}

/// Whether `x` lies between the two ends of `range`, in either order.
pub open spec fn sampled_in(x: int, range: (i64, i64)) -> bool {
    imin(range.0 as int, range.1 as int) <= x <= imax(range.0 as int, range.1 as int)
}

/// A draw between the two ends of `range`, whichever way round they are.
pub fn rnd(range: (i64, i64)) -> (r: i64)
    ensures
        sampled_in(r as int, range),
{
    let (a, b) = range;
    let lo = if a < b {
        a
    } else {
        b
    };
    let hi = if a < b {
        b
    } else {
        a
    };
    random_range_i64(lo, hi)
}

} // verus!
