use vstd::prelude::*;

verus! {

/// Multiplier of the linear-congruential generator (glibc's constant).
pub const LCG_MULTIPLIER: u64 = 1103515245;

/// Increment of the linear-congruential generator (glibc's constant).
pub const LCG_INCREMENT: u64 = 12345;

/// Modulus of the linear-congruential generator, `2^31`.
pub const LCG_MODULUS: u64 = 0x8000_0000;

/// The generator state that follows `s`: `(s * 1103515245 + 12345) mod 2^31`.
pub open spec fn lcg_next(s: u32) -> u32 {
    ((s * 1103515245 + 12345) % 0x8000_0000) as u32
}

/// The byte drawn from state `s`: its bits 8 to 15. The low byte is avoided
/// because its least significant bit alternates.
pub open spec fn random_byte(s: u32) -> u8 {
    ((s / 256) % 256) as u8
}

/// Advances the generator state by one step.
pub fn next_state(s: u32) -> (r: u32)
    ensures
        r == lcg_next(s),
{
    proof {
        assert(s * LCG_MULTIPLIER <= 0xFFFF_FFFFu64 * LCG_MULTIPLIER) by (nonlinear_arith)
            requires s <= 0xFFFF_FFFFu32;
    }
    let wide: u64 = ((s as u64) * LCG_MULTIPLIER + LCG_INCREMENT) % LCG_MODULUS;
    wide as u32
}

/// The byte drawn from generator state `s`.
pub fn byte_of_state(s: u32) -> (r: u8)
    ensures
        r == random_byte(s),
{
    proof {
        assert((s >> 8u32) as u8 == ((s / 256) % 256) as u8) by (bit_vector);
    }
    (s >> 8u32) as u8
}

} // verus!
