//! Randomness for the session logic. Every draw goes through one of these
//! wrappers; the logic that consumes a draw is verified for every value the
//! wrapper may return.

use vstd::prelude::*;
use rand::Rng;
use rand::seq::SliceRandom;

verus! {

/// Relies on rand::Rng::gen_range on thread_rng: a value drawn uniformly from
/// `lo..hi`; the call panics on an empty range, so one is ruled out here.
#[verifier::external_body]
pub(crate) fn rand_range_u8(lo: u8, hi: u8) -> (r: u8)
    requires
        lo < hi,
    ensures
        lo <= r < hi,
{
    rand::thread_rng().gen_range(lo..hi)
}

/// Relies on rand::Rng::gen_range on thread_rng: a value drawn uniformly from
/// `lo..hi`; the call panics on an empty range, so one is ruled out here.
#[verifier::external_body]
pub(crate) fn rand_range_u16(lo: u16, hi: u16) -> (r: u16)
    requires
        lo < hi,
    ensures
        lo <= r < hi,
{
    rand::thread_rng().gen_range(lo..hi)
}

/// Relies on rand::Rng::gen_range on thread_rng: a value drawn uniformly from
/// `lo..hi`; the call panics on an empty range, so one is ruled out here.
#[verifier::external_body]
pub(crate) fn rand_range_usize(lo: usize, hi: usize) -> (r: usize)
    requires
        lo < hi,
    ensures
        lo <= r < hi,
{
    rand::thread_rng().gen_range(lo..hi)
}

/// Relies on rand::Rng::gen_ratio on thread_rng: true with probability
/// `num/den`; the call panics when `den` is zero or `num > den`, so those are
/// ruled out here. Nothing can be promised about the value itself.
#[verifier::external_body]
pub(crate) fn rand_ratio(num: u32, den: u32) -> (r: bool)
    requires
        0 < den,
        num <= den,
{
    rand::thread_rng().gen_ratio(num, den)
}

/// Relies on rand::seq::SliceRandom::shuffle on thread_rng: the slice is
/// permuted in place, so it holds the same points afterwards.
#[verifier::external_body]
pub(crate) fn shuffle_points(v: &mut Vec<(u16, u16)>)
    ensures
        final(v)@.len() == old(v)@.len(),
        final(v)@.to_multiset() == old(v)@.to_multiset(),
{
    v.shuffle(&mut rand::thread_rng());
}

} // verus!
