use vstd::prelude::*;

verus! {

/// The first value a standard generator freshly seeded with `seed` draws
/// from [0, n): a pure function of the seed and the bound alone, in every
/// process and on every machine, since rand documents both the seeding
/// construction and the generator's value stream as value-breaking to change.
pub uninterp spec fn spec_rng_draw(seed: u64, n: u32) -> u32;

/// Relies on rand's SeedableRng::seed_from_u64 and Rng::gen_range: a
/// freshly seeded standard generator is built deterministically from the
/// seed, and its first draw from [0, n) is uniform in that range, so the
/// result is `spec_rng_draw(seed, n)` and lies below `n`.
#[verifier::external_body]
fn rng_first_below(seed: u64, n: u32) -> (r: u32)
    requires
        n >= 1,
    ensures
        r == spec_rng_draw(seed, n),
        r < n,
{
    let mut rng: rand::rngs::StdRng = rand::SeedableRng::seed_from_u64(seed);
    rand::Rng::gen_range(&mut rng, 0..n)
}

/// The unsigned reading of a signed 64-bit value (its two's-complement bits).
pub open spec fn spec_unsigned_bits(x: i64) -> u64 {
    if x >= 0 {
        x as u64
    } else {
        ((x + 0x4000_0000_0000_0000i64) + 0x4000_0000_0000_0000i64) as u64
    }
}

fn unsigned_bits(x: i64) -> (r: u64)
    ensures
        r == spec_unsigned_bits(x),
{
    if x >= 0 {
        x as u64
    } else {
        let shifted: u64 = ((x + 0x4000_0000_0000_0000i64) + 0x4000_0000_0000_0000i64) as u64;
        shifted
    }
}

/// One round of 64-bit avalanche mixing.
#[verifier::opaque]
pub open spec fn spec_mix64(v: u64) -> u64 {
    let a = (v ^ (v >> 30)).wrapping_mul(0xBF58_476D_1CE4_E5B9);
    let b = (a ^ (a >> 27)).wrapping_mul(0x94D0_49BB_1331_11EB);
    b ^ (b >> 31)
}

fn mix64(v: u64) -> (r: u64)
    ensures
        r == spec_mix64(v),
{
    proof {
        reveal(spec_mix64);
    }
    let a = (v ^ (v >> 30)).wrapping_mul(0xBF58_476D_1CE4_E5B9);
    let b = (a ^ (a >> 27)).wrapping_mul(0x94D0_49BB_1331_11EB);
    b ^ (b >> 31)
}

/// The deterministic seed that drives all randomness of the structure anchor
/// at world column (world_x, world_z): a pure mix of the column and the world
/// seed, so the same anchor always rolls the same structure.
pub open spec fn spec_position_seed(world_x: i64, world_z: i64, world_seed: u32) -> u64 {
    spec_mix64(
        spec_unsigned_bits(world_x).wrapping_mul(0x9E37_79B9_7F4A_7C15) ^ spec_unsigned_bits(
            world_z,
        ).wrapping_mul(0xC2B2_AE3D_27D4_EB4F) ^ (world_seed as u64),
    )
}

/// Derive the structure seed of a world column from the world seed.
pub fn position_seed(world_x: i64, world_z: i64, world_seed: u32) -> (r: u64)
    ensures
        r == spec_position_seed(world_x, world_z, world_seed),
{
    let h: u64 = unsigned_bits(world_x).wrapping_mul(0x9E37_79B9_7F4A_7C15) ^ unsigned_bits(
        world_z,
    ).wrapping_mul(0xC2B2_AE3D_27D4_EB4F) ^ (world_seed as u64);
    mix64(h)
}

/// The seed of draw number `k` of the stream seeded by `seed`.
#[verifier::opaque]
pub open spec fn spec_sub_seed(seed: u64, k: u64) -> u64 {
    spec_mix64(seed ^ k.wrapping_mul(0x9E37_79B9_7F4A_7C15))
}

/// Draw `k` from [0, n) of the stream seeded by `seed`: a pure function of
/// the three values, so everything derived from a seeded stream is pinned.
pub open spec fn spec_stream_draw(seed: u64, k: u64, n: u32) -> u32 {
    spec_rng_draw(spec_sub_seed(seed, k), n)
}

/// A deterministic stream of bounded draws: draw number k is the first value
/// of a standard generator seeded by a mix of the stream seed and k. The
/// stream is a pure function of its seed, which makes every consumer's
/// output a function of that seed.
pub struct SeededRng {
    /// The stream's seed; never changes.
    pub seed: u64,
    /// How many values have been drawn so far.
    pub drawn: u64,
}

impl SeededRng {
    pub fn new(seed: u64) -> (r: SeededRng)
        ensures
            r.seed == seed,
            r.drawn == 0,
    {
        SeededRng { seed, drawn: 0 }
    }

    /// Draw the stream's next value from [0, n).
    pub fn below(&mut self, n: u32) -> (r: u32)
        requires
            n >= 1,
            old(self).drawn < u64::MAX,
        ensures
            r == spec_stream_draw(old(self).seed, old(self).drawn, n),
            r < n,
            final(self).seed == old(self).seed,
            final(self).drawn == old(self).drawn + 1,
    {
        proof {
            reveal(spec_sub_seed);
        }
        let sub = mix64(self.seed ^ self.drawn.wrapping_mul(0x9E37_79B9_7F4A_7C15));
        self.drawn = self.drawn + 1;
        rng_first_below(sub, n)
    }
}

} // verus!
