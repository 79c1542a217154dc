//! Word-level mixing primitives shared by the ROM builder and the engine.

use vstd::prelude::*;

verus! {

/// Increment used to advance the instruction-stream state between draws.
pub const GAMMA: u64 = 0x9E3779B97F4A7C15;

/// First multiplier of the 64-bit finalizer.
pub const MIX_M1: u64 = 0xBF58476D1CE4E5B9;

/// Second multiplier of the 64-bit finalizer.
pub const MIX_M2: u64 = 0x94D049BB133111EB;

/// Left rotation of a 64-bit word by `k & 63` bit positions.
pub open spec fn rotl64(x: u64, k: u64) -> u64 {
    let s = k & 63;
    if s == 0 {
        x
    } else {
        (x << s) | (x >> (64 - s))
    }
}

/// Executable left rotation, exactly [`rotl64`].
pub fn rotl(x: u64, k: u64) -> (r: u64)
    ensures
        r == rotl64(x, k),
{
    let s: u64 = k & 63;
    assert(k & 63 < 64) by (bit_vector);
    if s == 0 {
        x
    } else {
        (x << s) | (x >> (64 - s))
    }
}

/// A 64-bit finalizer: a bijective avalanche mix of one word
/// (multiply-and-xorshift rounds).
pub open spec fn mix64(z: u64) -> u64 {
    let z1 = vstd::wrapping::u64_specs::wrapping_mul(z ^ (z >> 30), MIX_M1);
    let z2 = vstd::wrapping::u64_specs::wrapping_mul(z1 ^ (z1 >> 27), MIX_M2);
    z2 ^ (z2 >> 31)
}

/// Executable finalizer, exactly [`mix64`].
pub fn mix(z: u64) -> (r: u64)
    ensures
        r == mix64(z),
{
    let z1 = (z ^ (z >> 30)).wrapping_mul(MIX_M1);
    let z2 = (z1 ^ (z1 >> 27)).wrapping_mul(MIX_M2);
    z2 ^ (z2 >> 31)
}

} // verus!
