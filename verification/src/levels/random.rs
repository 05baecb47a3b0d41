use vstd::prelude::*;
use rand::rngs::StdRng;
use rand::{Rng, SeedableRng};

verus! {

/// The 32-byte key of draw number `counter` of a level made with `seed`: the seed
/// and the counter as little-endian bytes, then zeros.
pub open spec fn spec_draw_key(seed: u32, counter: u32) -> Seq<u8> {
    seq![
        seed as u8, (seed >> 8) as u8, (seed >> 16) as u8, (seed >> 24) as u8,
        counter as u8, (counter >> 8) as u8, (counter >> 16) as u8, (counter >> 24) as u8,
    ] + Seq::new(24, |i: int| 0u8)
}

/// The key of draw number `counter` of a level made with `seed`.
pub fn draw_key(seed: u32, counter: u32) -> (key: [u8; 32])
    ensures
        key@ == spec_draw_key(seed, counter),
{
    let key: [u8; 32] = [
        seed as u8, (seed >> 8) as u8, (seed >> 16) as u8, (seed >> 24) as u8,
        counter as u8, (counter >> 8) as u8, (counter >> 16) as u8, (counter >> 24) as u8,
        0, 0, 0, 0, 0, 0, 0, 0, 0, 0, 0, 0, 0, 0, 0, 0, 0, 0, 0, 0, 0, 0, 0, 0,
    ];
    assert(key@ =~= spec_draw_key(seed, counter));
    key
}

/// The value that `Rng::gen_range(low..high)` gives on a `StdRng` made by
/// `SeedableRng::from_seed(key)`.
pub uninterp spec fn seeded_range(key: Seq<u8>, low: u32, high: u32) -> u32;

/// The value that `Rng::gen_ratio(numerator, denominator)` gives on a `StdRng` made
/// by `SeedableRng::from_seed(key)`.
pub uninterp spec fn seeded_ratio(key: Seq<u8>, numerator: u32, denominator: u32) -> bool;

/// `Rng::gen_range` over `low..high` on a fresh `rand::rngs::StdRng` seeded with
/// `key`. Claimed: the value lies in the range, and it is the same whenever the key
/// and the range are (`StdRng` is ChaCha12 in the `rand` version this crate is
/// built with, and `u32` ranges draw the same numbers on every platform). Which
/// value it is is not stated. `rand` panics on an empty range, which `requires`
/// rules out.
#[verifier::external_body]
pub(crate) fn draw_range(key: [u8; 32], low: u32, high: u32) -> (r: u32)
    requires
        low < high,
    ensures
        low <= r < high,
        r == seeded_range(key@, low, high),
{
    StdRng::from_seed(key).gen_range(low..high)
}

/// `Rng::gen_ratio` on a fresh `rand::rngs::StdRng` seeded with `key`: `true` with
/// probability `numerator / denominator` over keys. Claimed: what `rand` documents
/// for the ends (always `true` when the two are equal, always `false` when
/// `numerator` is 0), and the same value whenever the key and the ratio are. `rand`
/// panics when `denominator` is 0 or below `numerator`, which `requires` rules out.
#[verifier::external_body]
pub(crate) fn draw_ratio(key: [u8; 32], numerator: u32, denominator: u32) -> (b: bool)
    requires
        0 < denominator,
        numerator <= denominator,
    ensures
        numerator == denominator ==> b,
        numerator == 0 ==> !b,
        b == seeded_ratio(key@, numerator, denominator),
{
    StdRng::from_seed(key).gen_ratio(numerator, denominator)
}

} // verus!
