//! Seeding of the spark particles emitted where notes meet the keyboard. A
//! small integer hash stands in for a random number generator; the physics
//! that moves the particles works on these draws.

use vstd::prelude::*;

verus! {

/// Most particles alive at once.
pub const MAX_PARTICLES: usize = 2000;

/// Pseudo-random draws are whole numbers below this bound: a draw `r`
/// stands for the fraction `r / RANDOM_SCALE` in `[0, 1)`.
pub const RANDOM_SCALE: u32 = 10000;

/// The xorshift hash behind the pseudo-random draws.
pub open spec fn xorshift(seed: u32) -> u32 {
    let a = seed ^ (seed << 13u32);
    let b = a ^ (a >> 17u32);
    b ^ (b << 5u32)
}

/// Pseudo-random draw for a seed, in `0..RANDOM_SCALE`.
pub open spec fn spec_pseudo_random(seed: u32) -> u32 {
    xorshift(seed) % RANDOM_SCALE
}

/// Simple pseudo-random hash of an integer seed, in ten-thousandths:
/// the result `r` stands for `r / 10000` in `[0, 1)`.
pub fn pseudo_random(seed: u32) -> (r: u32)
    ensures
        r == spec_pseudo_random(seed),
        r < RANDOM_SCALE,
{
    let mut s = seed;
    s ^= s.wrapping_shl(13);
    s ^= s.wrapping_shr(17);
    s ^= s.wrapping_shl(5);
    s % RANDOM_SCALE
}

/// The four draws that shape one spark: direction, speed, lifetime and size,
/// each in `0..RANDOM_SCALE`.
#[derive(Clone, Copy, Debug, PartialEq, Eq, Structural)]
pub struct SparkDraw {
    pub angle: u32,
    pub speed: u32,
    pub life: u32,
    pub size: u32,
}

/// `x * k` wrapped to 32 bits.
pub open spec fn wrap_mul(x: u32, k: u32) -> u32 {
    ((x as nat * k as nat) % 0x1_0000_0000) as u32
}

/// The draws for the spark with seed `s`: `s`, `7s`, `13s` and `19s` hashed.
pub open spec fn spec_spark_draw(s: u32) -> SparkDraw {
    SparkDraw {
        angle: spec_pseudo_random(s),
        speed: spec_pseudo_random(wrap_mul(s, 7)),
        life: spec_pseudo_random(wrap_mul(s, 13)),
        size: spec_pseudo_random(wrap_mul(s, 19)),
    }
}

/// Seed of the `i`-th spark of a batch started at `seed`: the counter moves
/// one step per spark and the spark adds its index on top.
pub open spec fn spark_seed(seed: u32, i: int) -> u32 {
    ((seed + 2 * i) % 0x1_0000_0000) as u32
}

/// How many of `count` requested sparks fit next to `live` ones.
pub open spec fn spark_count(live: int, count: int) -> int {
    if live >= MAX_PARTICLES {
        0
    } else if count < MAX_PARTICLES - live {
        count
    } else {
        MAX_PARTICLES - live
    }
}

/// Draws for one spark.
pub fn spark_draw(s: u32) -> (d: SparkDraw)
    ensures
        d == spec_spark_draw(s),
{
    SparkDraw {
        angle: pseudo_random(s),
        speed: pseudo_random(s.wrapping_mul(7)),
        life: pseudo_random(s.wrapping_mul(13)),
        size: pseudo_random(s.wrapping_mul(19)),
    }
}

/// Plans a burst of up to `count` sparks next to `live` existing ones: as
/// many as fit under `MAX_PARTICLES`, each with its draws, and the counter
/// to use for the next burst.
pub fn spawn_sparks(live: usize, count: usize, seed: u32) -> (out: (Vec<SparkDraw>, u32))
    ensures
        out.0@.len() == spark_count(live as int, count as int),
        forall|i: int| 0 <= i < out.0@.len() ==> #[trigger] out.0@[i] == spec_spark_draw(spark_seed(seed, i)),
        out.1 == (seed + out.0@.len()) % 0x1_0000_0000,
{
    let n: usize = if live >= MAX_PARTICLES {
        0
    } else if count < MAX_PARTICLES - live {
        count
    } else {
        MAX_PARTICLES - live
    };
    let mut draws: Vec<SparkDraw> = Vec::new();
    let mut counter: u32 = seed;
    let mut i: usize = 0;
    while i < n
        invariant
            n <= MAX_PARTICLES,
            n == spark_count(live as int, count as int),
            i <= n,
            counter == (seed + i) % 0x1_0000_0000,
            draws@.len() == i,
            forall|j: int| 0 <= j < i ==> #[trigger] draws@[j] == spec_spark_draw(spark_seed(seed, j)),
        decreases n - i,
    {
        let s = counter.wrapping_add(i as u32);
        proof {
            vstd::arithmetic::div_mod::lemma_add_mod_noop((seed + i) as int, i as int, 0x1_0000_0000);
            vstd::arithmetic::div_mod::lemma_add_mod_noop((seed + i) as int, 1, 0x1_0000_0000);
            assert((i as int) % 0x1_0000_0000 == i);
        }
        counter = counter.wrapping_add(1);
        draws.push(spark_draw(s));
        i = i + 1;
    }
    (draws, counter)
}

/// A burst never pushes the particle count past `MAX_PARTICLES`, and never
/// spawns more sparks than asked for.
pub proof fn lemma_spawn_within_capacity(live: int, count: int)
    requires
        0 <= live,
        0 <= count,
    ensures
        0 <= spark_count(live, count) <= count,
        live <= MAX_PARTICLES ==> live + spark_count(live, count) <= MAX_PARTICLES,
        live < MAX_PARTICLES && count > 0 ==> spark_count(live, count) > 0,
{
}

} // verus!
