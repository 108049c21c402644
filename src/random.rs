//! Random draws, from the thread-local generator of `rand`.

use vstd::prelude::*;
use rand::Rng;
use rand::rngs::ThreadRng;

verus! {

#[verifier::external_type_specification]
#[verifier::external_body]
pub struct ExThreadRng(ThreadRng);

/// Relies on rand's `Rng::gen_range` over a half-open range: the value lies
/// in `[lo, hi)`; the range must not be empty, or the call panics.
#[verifier::external_body]
fn draw_in(rng: &mut ThreadRng, lo: u64, hi: u64) -> (r: u64)
    requires
        lo < hi,
    ensures
        lo <= r < hi,
{
    rng.gen_range(lo..hi)
}

/// An index drawn uniformly from `[0, n)`.
pub fn draw_index(rng: &mut ThreadRng, n: usize) -> (r: usize)
    requires
        n > 0,
    ensures
        r < n,
{
    draw_in(rng, 0, n as u64) as usize
}

/// The silence after a track, in seconds: drawn uniformly from
/// `[min_seconds, max_seconds)`; when that range is empty, `min_seconds`.
pub fn draw_delay(rng: &mut ThreadRng, min_seconds: u64, max_seconds: u64) -> (r: u64)
    ensures
        min_seconds < max_seconds ==> min_seconds <= r < max_seconds,
        min_seconds >= max_seconds ==> r == min_seconds,
{
    if min_seconds < max_seconds {
        draw_in(rng, min_seconds, max_seconds)
    } else {
        min_seconds
    }
}

} // verus!
