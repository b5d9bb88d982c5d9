use piano_fall::particles::{pseudo_random, spark_draw, spawn_sparks, SparkDraw, MAX_PARTICLES, RANDOM_SCALE};

fn reference_hash(seed: u32) -> u32 {
    let mut s = seed;
    s ^= s.wrapping_shl(13);
    s ^= s.wrapping_shr(17);
    s ^= s.wrapping_shl(5);
    s % 10000
}

#[test]
fn pseudo_random_values() {
    assert_eq!(pseudo_random(0), 0);
    // 1 -> 1 ^ (1 << 13) = 8193 -> unchanged by >> 17 -> 8193 ^ (8193 << 5) = 270369
    assert_eq!(pseudo_random(1), 270369 % 10000);
    for seed in [2u32, 7, 12345, u32::MAX, 0xdead_beef] {
        assert_eq!(pseudo_random(seed), reference_hash(seed));
        assert!(pseudo_random(seed) < RANDOM_SCALE);
    }
}

#[test]
fn spark_uses_scaled_seeds() {
    let s = 5u32;
    assert_eq!(
        spark_draw(s),
        SparkDraw {
            angle: pseudo_random(5),
            speed: pseudo_random(35),
            life: pseudo_random(65),
            size: pseudo_random(95),
        }
    );
}

#[test]
fn burst_seeds_step_by_two() {
    let (draws, next) = spawn_sparks(0, 3, 100);
    assert_eq!(draws.len(), 3);
    assert_eq!(next, 103);
    assert_eq!(draws[0], spark_draw(100));
    assert_eq!(draws[1], spark_draw(102));
    assert_eq!(draws[2], spark_draw(104));
}

#[test]
fn burst_respects_capacity() {
    let (draws, next) = spawn_sparks(MAX_PARTICLES - 2, 3, 7);
    assert_eq!(draws.len(), 2);
    assert_eq!(next, 9);
    let (draws, next) = spawn_sparks(MAX_PARTICLES, 3, 7);
    assert!(draws.is_empty());
    assert_eq!(next, 7);
    let (draws, _) = spawn_sparks(MAX_PARTICLES + 5, 3, 7);
    assert!(draws.is_empty());
}

#[test]
fn counter_wraps() {
    let (draws, next) = spawn_sparks(0, 3, u32::MAX);
    assert_eq!(next, 2);
    assert_eq!(draws[1], spark_draw(1));
}
