//! Random draws: from the seeded ChaCha8 generators that carve the mazes and
//! spawn creatures, and from the thread generator.

use vstd::prelude::*;
use rand::Rng;
use rand::SeedableRng;

verus! {

#[verifier::external_type_specification]
#[verifier::external_body]
pub struct ExChaCha8Rng(rand_chacha::ChaCha8Rng);

/// `rand::Rng::gen_range(0..n)` on a `ChaCha8Rng` drawing a `usize`: rand
/// documents a value in `0..n` and a panic on an empty range. Which value
/// comes out depends on the generator's hidden state, so nothing more is
/// stated. rand draws an integer of a range `lo..hi` (or `lo..=hi`) as `lo`
/// plus a value below the range's size, so `lo` plus this draw is the draw
/// of any `usize` range of size `n`.
#[verifier::external_body]
pub(crate) fn rng_below(rng: &mut rand_chacha::ChaCha8Rng, n: usize) -> (r: usize)
    requires
        n > 0,
    ensures
        r < n,
{
    rng.gen_range(0..n)
}

/// `rand::Rng::gen_range(0..n)` on a `ChaCha8Rng` drawing a `u32`: a value
/// in `0..n`, as for `rng_below`. rand draws a 32-bit integer in `lo..hi`
/// as `lo` plus such a value below `hi - lo`, for `i32` as for `u32`, so
/// this is also the draw of any 32-bit range of that size.
#[verifier::external_body]
pub(crate) fn rng_below_u32(rng: &mut rand_chacha::ChaCha8Rng, n: u32) -> (r: u32)
    requires
        n > 0,
    ensures
        r < n,
{
    rng.gen_range(0..n)
}

/// `rand::SeedableRng::seed_from_u64` for `ChaCha8Rng`: the generator a
/// 64-bit seed gives. Nothing is stated of it: its state is hidden.
#[verifier::external_body]
pub(crate) fn rng_from_seed(seed: u64) -> rand_chacha::ChaCha8Rng {
    rand_chacha::ChaCha8Rng::seed_from_u64(seed)
}

/// `rand::Rng::gen_range(0..n)` on `rand::thread_rng()`, drawing a `u32`:
/// a value in `0..n`, as rand documents; which one depends on the thread's
/// generator, seeded from the system, so nothing more is stated. As for
/// `rng_below_u32`, this is also the draw of any 32-bit range of that size.
#[verifier::external_body]
pub(crate) fn thread_rng_below_u32(n: u32) -> (r: u32)
    requires
        n > 0,
    ensures
        r < n,
{
    rand::thread_rng().gen_range(0..n)
}

/// `rand::Rng::gen_range(0..n)` on `rand::thread_rng()`, drawing a `usize`:
/// rand documents a value in `0..n` (and a panic on an empty range). The
/// value depends on the thread's generator, seeded from the system, so
/// nothing more is stated.
#[verifier::external_body]
pub(crate) fn thread_rng_below(n: usize) -> (r: usize)
    requires
        n > 0,
    ensures
        r < n,
{
    rand::thread_rng().gen_range(0..n)
}

} // verus!
