use vstd::prelude::*;

verus! {

/// SplitMix64 output for counter value `seed`.
pub open spec fn spec_splitmix64(seed: u64) -> u64 {
    let x0 = vstd::wrapping::u64_specs::wrapping_add(seed, 0x9E3779B97F4A7C15u64);
    let x1 = vstd::wrapping::u64_specs::wrapping_mul(x0 ^ (x0 >> 30u64), 0xBF58476D1CE4E5B9u64);
    let x2 = vstd::wrapping::u64_specs::wrapping_mul(x1 ^ (x1 >> 27u64), 0x94D049BB133111EBu64);
    x2 ^ (x2 >> 31u64)
}

/// SplitMix64 scramble of a monotonic counter value — cheap, non-cryptographic,
/// good enough for gameplay rolls.
pub fn splitmix64(seed: u64) -> (x: u64)
    ensures
        x == spec_splitmix64(seed),
{
    let mut x = seed.wrapping_add(0x9E3779B97F4A7C15u64);
    x = (x ^ (x >> 30u64)).wrapping_mul(0xBF58476D1CE4E5B9u64);
    x = (x ^ (x >> 27u64)).wrapping_mul(0x94D049BB133111EBu64);
    x ^ (x >> 31u64)
}

/// The 32 random bits that a gameplay roll scales into `[0, 1)`: the low half
/// of the scrambled counter value.
pub fn roll_bits(seed: u64) -> (bits: u32)
    ensures
        bits == spec_splitmix64(seed) as u32,
{
    splitmix64(seed) as u32
}

} // verus!
