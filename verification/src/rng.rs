//! The core's only source of randomness: thin trusted wrappers over the
//! `rand` crate. Everything that consumes a draw is verified for every
//! value the contracts below admit.

use vstd::prelude::*;

verus! {

/// Relies on rand's `Rng::gen_range` over a half-open `i64` range: the
/// sample lies in `[lo, hi)`; the call panics on an empty range, so the
/// contract requires it non-empty.
#[verifier::external_body]
pub(crate) fn rand_range_i64(lo: i64, hi: i64) -> (r: i64)
    requires
        lo < hi,
    ensures
        lo <= r < hi,
{
    rand::Rng::gen_range(&mut rand::thread_rng(), lo..hi)
}

/// Relies on rand's `Rng::gen_ratio`: a Bernoulli draw with chance
/// `num` in `den`, guaranteed false when `num` is zero and true when
/// `num` equals `den`; the call panics when `den` is zero or `num`
/// exceeds `den`, so the contract excludes both.
#[verifier::external_body]
pub(crate) fn rand_chance(num: u32, den: u32) -> (r: bool)
    requires
        0 < den,
        num <= den,
    ensures
        num == 0 ==> !r,
        num == den ==> r,
{
    rand::Rng::gen_ratio(&mut rand::thread_rng(), num, den)
}

} // verus!
