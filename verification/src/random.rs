//! A source of bytes for where the machine offers none: a linear
//! congruential generator seeded with the time.

use vstd::prelude::*;

verus! {

/// The state that follows `seed`: `seed` times 1103515245 plus 12345, both
/// taken modulo two to the power 64.
pub open spec fn next_seed(seed: u64) -> u64 {
    vstd::wrapping::u64_specs::wrapping_add(
        vstd::wrapping::u64_specs::wrapping_mul(seed, 1103515245),
        12345,
    )
}

/// The byte that the state `seed` gives: its bits 16 to 23.
pub open spec fn byte_of(seed: u64) -> u8 {
    (seed / 65536 % 256) as u8
}

/// The state after `n` steps from `seed`.
pub open spec fn seed_after(seed: u64, n: nat) -> u64
    decreases n,
{
    if n == 0 {
        seed
    } else {
        next_seed(seed_after(seed, (n - 1) as nat))
    }
}

/// Fills `buf` with bytes drawn from the generator, beginning at the state
/// `time`: the byte at place `i` is the one that the state after `i + 1`
/// steps gives.
pub fn custom_random(buf: &mut Vec<u8>, time: u64)
    ensures
        final(buf).len() == old(buf).len(),
        forall|i: int|
            0 <= i < final(buf).len() ==> (#[trigger] final(buf)[i]) == byte_of(
                seed_after(time, (i + 1) as nat),
            ),
{
    let mut seed = time;
    let mut i: usize = 0;
    while i < buf.len()
        invariant
            i <= buf.len(),
            buf.len() == old(buf).len(),
            seed == seed_after(time, i as nat),
            forall|j: int|
                0 <= j < i ==> (#[trigger] buf[j]) == byte_of(seed_after(time, (j + 1) as nat)),
        decreases buf.len() - i,
    {
        let next = seed.wrapping_mul(1103515245).wrapping_add(12345);
        let byte = (next / 65536 % 256) as u8;
        buf[i] = byte;
        seed = next;
        i += 1;
    }
}

} // verus!
