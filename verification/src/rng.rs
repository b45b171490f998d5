//! The spawner's randomness, behind trusted wrappers.
//!
//! Nothing beyond the stated range is assumed of any draw: every caller is
//! verified for every value the range admits.

use vstd::prelude::*;
use rand::Rng;

verus! {

/// Relies on `rand::thread_rng` and `rand::Rng::gen_range` over `lo..hi`:
/// the result lies in the half-open range, and the range is non-empty, so
/// the call does not panic.
#[verifier::external_body]
pub(crate) fn random_i64_in(lo: i64, hi: i64) -> (r: i64)
    requires
        lo < hi,
    ensures
        lo <= r < hi,
{
    rand::thread_rng().gen_range(lo..hi)
}

/// Relies on `rand::thread_rng` and `rand::Rng::gen_range` over `lo..hi`:
/// the result lies in the half-open range, and the range is non-empty, so
/// the call does not panic.
#[verifier::external_body]
pub(crate) fn random_u32_in(lo: u32, hi: u32) -> (r: u32)
    requires
        lo < hi,
    ensures
        lo <= r < hi,
{
    rand::thread_rng().gen_range(lo..hi)
}

/// Relies on `rand::thread_rng` and `rand::Rng::gen_range` over `0..3`: the
/// drawn lane index is one of the three lanes.
#[verifier::external_body]
pub(crate) fn random_lane() -> (r: usize)
    ensures
        r < 3,
{
    rand::thread_rng().gen_range(0usize..3usize)
}

} // verus!
