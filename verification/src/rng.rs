//! The congruential step that stands in for randomness.

use vstd::prelude::*;

verus! {

/// Multiplier of the congruential step.
pub const MAGIC_NUMBER: i32 = 435885720;

/// Number of distinct values the step can produce.
pub const RAND_SPAN: i32 = 255;

/// Smallest value the step can produce.
pub const RAND_BASE: i32 = -315;

/// The step as a function on the integers: `|seed * K| mod 255 - 315`.
pub open spec fn next_rand(seed: int) -> int {
    let product = seed * MAGIC_NUMBER;
    let magnitude = if product < 0 { -product } else { product };
    magnitude % (RAND_SPAN as int) + RAND_BASE
}

/// The offset of slot `slot` in a chain that starts from `seed`: the step
/// applied `slot + 1` times.
pub open spec fn chain(seed: int, slot: nat) -> int
    decreases slot,
{
    if slot == 0 {
        next_rand(seed)
    } else {
        next_rand(chain(seed, (slot - 1) as nat))
    }
}

/// Every offset of a chain lies in `-315 ..= -61`.
pub proof fn lemma_chain_range(seed: int, slot: nat)
    ensures
        -315 <= chain(seed, slot) <= -61,
    decreases slot,
{
    if slot > 0 {
        lemma_chain_range(seed, (slot - 1) as nat);
    }
}

/// One step of the chain that places the pipes.
pub fn new_rand(current_rand: i32) -> (next: i32)
    ensures
        next == next_rand(current_rand as int),
        -315 <= next <= -61,
{
    let product: i64 = (current_rand as i64) * (MAGIC_NUMBER as i64);
    assert(product == current_rand * 435_885_720);
    let magnitude: i64 = if product < 0 { -product } else { product };
    ((magnitude % (RAND_SPAN as i64)) + (RAND_BASE as i64)) as i32
}

/// One offset for each slot, chained from `seed`: each offset is the
/// step of the one before it, the first that of the seed.
pub fn chain_offsets(seed: i32) -> (offsets: [i32; 5])
    ensures
        forall|slot: int| 0 <= slot < 5 ==> offsets[slot] == chain(seed as int, slot as nat),
{
    let first = new_rand(seed);
    let second = new_rand(first);
    let third = new_rand(second);
    let fourth = new_rand(third);
    let fifth = new_rand(fourth);
    assert(chain(seed as int, 1) == second) by {
        assert(chain(seed as int, 0) == first);
    }
    assert(chain(seed as int, 2) == third);
    assert(chain(seed as int, 3) == fourth);
    [first, second, third, fourth, fifth]
}

} // verus!
