use rand::{RngCore, SeedableRng};
use rand_xoshiro::{Xoroshiro128StarStar, Xoshiro128StarStar};
use vstd::prelude::*;

verus! {

/// The xoshiro128** generator of `rand_xoshiro`. Nothing is known of a value
/// of it but what the items below say.
#[verifier::external_type_specification]
#[verifier::external_body]
pub struct ExXoshiro128StarStar(Xoshiro128StarStar);

/// The xoroshiro128** generator of `rand_xoshiro`. Nothing is known of a
/// value of it but what the items below say.
#[verifier::external_type_specification]
#[verifier::external_body]
pub struct ExXoroshiro128StarStar(Xoroshiro128StarStar);

/// The state words that a xoshiro128** generator holds. Its output depends
/// on nothing else.
pub uninterp spec fn xoshiro128_state(rng: Xoshiro128StarStar) -> Seq<u32>;

/// The state in which `Xoshiro128StarStar::seed_from_u64` leaves a new
/// generator.
pub uninterp spec fn xoshiro128_seeded(seed: u64) -> Seq<u32>;

/// What `next_u32` does to a xoshiro128** generator in state `state`: the
/// number that it returns, and the state that it leaves.
pub uninterp spec fn xoshiro128_next(state: Seq<u32>) -> (u32, Seq<u32>);

/// The state of a xoshiro128** generator that was in `state` and has been
/// drawn from `n` times.
pub open spec fn xoshiro128_after(state: Seq<u32>, n: nat) -> Seq<u32>
    decreases n,
{
    if n == 0 {
        state
    } else {
        xoshiro128_next(xoshiro128_after(state, (n - 1) as nat)).1
    }
}

/// The number that a xoshiro128** generator in `state` returns at draw `n`,
/// the first draw being draw 0.
pub open spec fn xoshiro128_draw(state: Seq<u32>, n: nat) -> u32 {
    xoshiro128_next(xoshiro128_after(state, n)).0
}

/// Calls `Xoshiro128StarStar::seed_from_u64`. The state of the new generator
/// is a function of the seed alone; which function is not stated.
#[verifier::external_body]
pub(crate) fn xoshiro128_from_seed(seed: u64) -> (rng: Xoshiro128StarStar)
    ensures
        xoshiro128_state(rng) == xoshiro128_seeded(seed),
{
    Xoshiro128StarStar::seed_from_u64(seed)
}

/// Calls `next_u32` on a xoshiro128** generator. The number returned and the
/// state left are functions of the state before; which functions is not
/// stated.
#[verifier::external_body]
pub(crate) fn xoshiro128_next_u32(rng: &mut Xoshiro128StarStar) -> (r: u32)
    ensures
        r == xoshiro128_next(xoshiro128_state(*old(rng))).0,
        xoshiro128_state(*final(rng)) == xoshiro128_next(xoshiro128_state(*old(rng))).1,
{
    rng.next_u32()
}

/// The state words that a xoroshiro128** generator holds. Its output
/// depends on nothing else.
pub uninterp spec fn xoroshiro128_state(rng: Xoroshiro128StarStar) -> Seq<u64>;

/// The state in which `Xoroshiro128StarStar::seed_from_u64` leaves a new
/// generator.
pub uninterp spec fn xoroshiro128_seeded(seed: u64) -> Seq<u64>;

/// What `next_u32` does to a xoroshiro128** generator in state `state`: the
/// number that it returns, and the state that it leaves.
pub uninterp spec fn xoroshiro128_next(state: Seq<u64>) -> (u32, Seq<u64>);

/// The state of a xoroshiro128** generator that was in `state` and has been
/// drawn from `n` times.
pub open spec fn xoroshiro128_after(state: Seq<u64>, n: nat) -> Seq<u64>
    decreases n,
{
    if n == 0 {
        state
    } else {
        xoroshiro128_next(xoroshiro128_after(state, (n - 1) as nat)).1
    }
}

/// The number that a xoroshiro128** generator in `state` returns at draw
/// `n`, the first draw being draw 0.
pub open spec fn xoroshiro128_draw(state: Seq<u64>, n: nat) -> u32 {
    xoroshiro128_next(xoroshiro128_after(state, n)).0
}

/// Calls `Xoroshiro128StarStar::seed_from_u64`. The state of the new
/// generator is a function of the seed alone; which function is not stated.
#[verifier::external_body]
pub(crate) fn xoroshiro128_from_seed(seed: u64) -> (rng: Xoroshiro128StarStar)
    ensures
        xoroshiro128_state(rng) == xoroshiro128_seeded(seed),
{
    Xoroshiro128StarStar::seed_from_u64(seed)
}

/// Calls `next_u32` on a xoroshiro128** generator. The number returned and
/// the state left are functions of the state before; which functions is not
/// stated.
#[verifier::external_body]
pub(crate) fn xoroshiro128_next_u32(rng: &mut Xoroshiro128StarStar) -> (r: u32)
    ensures
        r == xoroshiro128_next(xoroshiro128_state(*old(rng))).0,
        xoroshiro128_state(*final(rng)) == xoroshiro128_next(xoroshiro128_state(*old(rng))).1,
{
    rng.next_u32()
}

} // verus!
