use vstd::arithmetic::power2::{lemma2_to64, lemma_pow2_strictly_increases, lemma_pow2_unfold, pow2};
use vstd::prelude::*;

verus! {

/// Multiplier of Knuth's MMIX linear congruential generator.
pub const LCG_MUL: u64 = 6364136223846793005;

/// Increment of Knuth's MMIX linear congruential generator.
pub const LCG_ADD: u64 = 1442695040888963407;

/// One step of the generator, modulo 2^64.
pub open spec fn lcg_next(x: u64) -> u64 {
    ((LCG_MUL as int * x as int + LCG_ADD as int) % 0x1_0000_0000_0000_0000) as u64
}

/// Relies on rand::random: an arbitrary `u64` from the thread's generator.
/// Nothing is promised of the value.
pub assume_specification<T>[ rand::random::<T> ]() -> (r: T)
    where
        rand::distributions::Standard: rand::distributions::Distribution<T>,
;

/// A fresh seed for a thread's generator, drawn from the system's randomness.
pub fn seed() -> u64 {
    rand::random::<u64>()
}

/// Advances the generator `state` by one step and returns its previous
/// value reduced modulo `max`.
pub fn thread_num(state: &mut u64, max: usize) -> (r: usize)
    requires
        max > 0,
    ensures
        *final(state) == lcg_next(*old(state)),
        r as int == *old(state) as int % max as int,
        r < max,
{
    let value = *state;
    let m = value.wrapping_mul(LCG_MUL);
    let n = m.wrapping_add(LCG_ADD);
    assert(n == lcg_next(value)) by {
        assert(m as int == (value as int * LCG_MUL as int) % 0x1_0000_0000_0000_0000);
        assert(n as int == (m as int + LCG_ADD as int) % 0x1_0000_0000_0000_0000);
        assert(((value as int * LCG_MUL as int) % 0x1_0000_0000_0000_0000 + LCG_ADD as int)
            % 0x1_0000_0000_0000_0000 == (LCG_MUL as int * value as int + LCG_ADD as int)
            % 0x1_0000_0000_0000_0000) by (nonlinear_arith);
    }
    *state = n;
    (value % (max as u64)) as usize
}

/// A random number in `[min, max)` from the generator `state`.
pub fn thread_num_between(state: &mut u64, min: usize, max: usize) -> (r: usize)
    requires
        min < max,
    ensures
        *final(state) == lcg_next(*old(state)),
        r as int == min as int + *old(state) as int % (max - min) as int,
        min <= r < max,
{
    let k = thread_num(state, max - min);
    min + k
}

/// The largest exponent that the backoff helpers accept.
pub const MAX_SHIFT: usize = 16;

/// `2^e`, the length of an exponential backoff round.
pub fn backoff_limit(e: usize) -> (r: usize)
    requires
        e <= MAX_SHIFT,
    ensures
        r as nat == pow2(e as nat),
        r >= 1,
{
    proof {
        lemma2_to64();
        if e < MAX_SHIFT {
            lemma_pow2_strictly_increases(e as nat, MAX_SHIFT as nat);
        }
    }
    let mut r: usize = 1;
    let mut i: usize = 0;
    while i < e
        invariant
            i <= e <= MAX_SHIFT,
            r as nat == pow2(i as nat),
            pow2(e as nat) <= pow2(MAX_SHIFT as nat),
            pow2(MAX_SHIFT as nat) == 0x10000,
        decreases e - i,
    {
        proof {
            lemma_pow2_unfold((i + 1) as nat);
            if i + 1 < e {
                lemma_pow2_strictly_increases((i + 1) as nat, e as nat);
            }
        }
        r = r * 2;
        i = i + 1;
    }
    proof {
        vstd::arithmetic::power2::lemma_pow2_pos(e as nat);
    }
    r
}

} // verus!
