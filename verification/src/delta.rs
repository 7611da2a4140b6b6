//! Time steps as they travel in a trace: the bit pattern of a single-precision
//! number of seconds, read with integer arithmetic only.

use vstd::arithmetic::div_mod::lemma_basic_div;
use vstd::arithmetic::power2::{
    lemma2_to64, lemma2_to64_rest, lemma_pow2_strictly_increases, lemma_pow2_unfold, pow2,
};
use vstd::bits::{lemma_u64_pow2_no_overflow, lemma_u64_shl_is_mul};
use vstd::prelude::*;

verus! {

/// Bit patterns below this one are the finite, non-negative numbers under 4096 seconds.
pub const DELTA_LIMIT_BITS: u32 = 0x4580_0000;

/// Largest number of milliseconds a time step can stand for.
pub const MAX_MILLIS: u32 = 4_096_000;

/// Two to the power 23: the weight of the exponent field, and of the hidden bit.
pub const HIDDEN_BIT: u32 = 0x80_0000;

/// The integer significand of a bit pattern: the fraction field, with the
/// hidden bit added unless the exponent field is zero.
pub open spec fn significand(bits: u32) -> nat {
    let fraction = (bits % HIDDEN_BIT) as nat;
    if bits / HIDDEN_BIT == 0 {
        fraction
    } else {
        fraction + HIDDEN_BIT as nat
    }
}

/// The power of two by which the significand is divided: the number that
/// `bits` stands for is `significand(bits) / 2^down_shift(bits)` seconds.
pub open spec fn down_shift(bits: u32) -> nat
    recommends
        bits < DELTA_LIMIT_BITS,
{
    let exponent = bits / HIDDEN_BIT;
    if exponent == 0 {
        149
    } else {
        (150 - exponent) as nat
    }
}

/// The number of seconds that `bits` stands for, in milliseconds, rounded to
/// the nearest whole millisecond with halves rounded up.
pub open spec fn millis_of_bits(bits: u32) -> nat
    recommends
        bits < DELTA_LIMIT_BITS,
{
    let shift = down_shift(bits);
    (significand(bits) * 1000 + pow2((shift - 1) as nat)) / pow2(shift)
}

/// A time step: a finite, non-negative number of seconds below 4096, kept as
/// the bit pattern it has on the wire.
#[derive(Clone, Copy, Debug, PartialEq, Eq)]
pub struct Delta {
    bits: u32,
}

impl Delta {
    /// The bit pattern.
    pub closed spec fn spec_bits(self) -> u32 {
        self.bits
    }

    /// The step with the given bit pattern.
    pub closed spec fn spec_from_bits(bits: u32) -> Delta {
        Delta { bits }
    }

    /// Whether the pattern is one that `from_bits` accepts. Every `Delta`
    /// that executable code holds is well formed.
    #[verifier::type_invariant]
    pub open spec fn wf(self) -> bool {
        self.spec_bits() < DELTA_LIMIT_BITS
    }

    /// The length of the step in milliseconds.
    pub open spec fn spec_millis(self) -> nat {
        millis_of_bits(self.spec_bits())
    }

    /// Reads a bit pattern; patterns of negative numbers, of numbers from
    /// 4096 seconds on, of infinities and of NaNs are refused.
    pub fn from_bits(bits: u32) -> (delta: Option<Delta>)
        ensures
            delta == if bits < DELTA_LIMIT_BITS {
                Some(Delta::spec_from_bits(bits))
            } else {
                None
            },
            delta matches Some(d) ==> d.spec_bits() == bits && d.wf(),
    {
        if bits < DELTA_LIMIT_BITS {
            Some(Delta { bits })
        } else {
            None
        }
    }

    /// The bit pattern of the step.
    pub fn bits(&self) -> (bits: u32)
        ensures
            bits == self.spec_bits(),
            self.wf(),
    {
        proof {
            use_type_invariant(self);
        }
        self.bits
    }

    /// The length of the step in milliseconds.
    pub fn millis(&self) -> (ms: u32)
        ensures
            ms == self.spec_millis(),
            ms <= MAX_MILLIS,
            self.wf(),
    {
        proof {
            use_type_invariant(self);
        }
        let exponent: u32 = self.bits / HIDDEN_BIT;
        let fraction: u32 = self.bits % HIDDEN_BIT;
        let (sig, shift): (u32, u32) = if exponent == 0 {
            (fraction, 149)
        } else {
            (fraction + HIDDEN_BIT, 150 - exponent)
        };
        if shift > 35 {
            proof {
                lemma_rounds_to_zero(sig as nat, shift as nat);
            }
            0
        } else {
            let scaled: u64 = (sig as u64) * 1000;
            proof {
                lemma2_to64();
                lemma_u64_pow2_no_overflow(shift as nat);
                lemma_u64_pow2_no_overflow((shift - 1) as nat);
                lemma_u64_shl_is_mul(1, shift as u64);
                lemma_u64_shl_is_mul(1, (shift - 1) as u64);
                lemma_pow2_unfold(shift as nat);
                if shift > 12 {
                    lemma_pow2_strictly_increases(11, (shift - 1) as nat);
                }
            }
            let unit: u64 = 1u64 << (shift as u64);
            let half: u64 = 1u64 << ((shift - 1) as u64);
            let rounded: u64 = (scaled + half) / unit;
            assert(rounded <= 4_096_000) by (nonlinear_arith)
                requires
                    rounded == (scaled + half) / (unit as int),
                    unit == 2 * half,
                    half >= 2048,
                    scaled <= 16_777_215_000,
            ;
            rounded as u32
        }
    }
}

/// A step is its bit pattern, and nothing else.
pub proof fn lemma_delta_is_its_bits(delta: Delta, bits: u32)
    ensures
        Delta::spec_from_bits(bits).spec_bits() == bits,
        Delta::spec_from_bits(delta.spec_bits()) == delta,
{
}

/// Below a quarter of a millisecond a step counts as no time at all.
proof fn lemma_rounds_to_zero(sig: nat, shift: nat)
    requires
        sig < 0x100_0000,
        shift > 35,
    ensures
        (sig * 1000 + pow2((shift - 1) as nat)) / pow2(shift) == 0,
{
    lemma2_to64();
    lemma2_to64_rest();
    lemma_pow2_unfold(shift);
    if shift > 36 {
        lemma_pow2_strictly_increases(35, (shift - 1) as nat);
    }
    lemma_basic_div((sig * 1000 + pow2((shift - 1) as nat)) as int, pow2(shift) as int);
}

} // verus!
