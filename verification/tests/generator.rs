//! Behavioural tests of the generator: known values, determinism, range,
//! statistics, validation boundaries, and cursor distinctness.

use unirand::InvalidSeed;
use unirand::MarsagliaUniRng;

/// One generated value as the fraction it stands for: numerator over 2^24.
fn uni_f32(rng: &mut MarsagliaUniRng) -> f32 {
    rng.uni() as f32 / 16777216.0
}

#[test]
fn test_rng_output() {
    let mut rng = MarsagliaUniRng::new();
    rng.rinit(170).unwrap();
    let random_value = uni_f32(&mut rng);
    let expected = 0.68753344;
    let tolerance = 1e-6;
    assert!(
        (random_value - expected).abs() < tolerance,
        "Expected {}, got {}",
        expected,
        random_value
    );
}

#[test]
fn test_rng_statistics() {
    let mut rng = MarsagliaUniRng::new();
    rng.rinit(170).unwrap();
    let n = 10_000;
    let sum: f32 = (0..n).map(|_| uni_f32(&mut rng)).sum();
    let mean = sum / n as f32;
    assert!(
        (mean - 0.5).abs() < 0.01,
        "Mean out of expected range: {}",
        mean
    );
}

#[test]
fn test_rng_reproducibility() {
    let mut rng1 = MarsagliaUniRng::new();
    let mut rng2 = MarsagliaUniRng::new();
    rng1.rinit(42).unwrap();
    rng2.rinit(42).unwrap();
    for _ in 0..100 {
        assert!((uni_f32(&mut rng1) - uni_f32(&mut rng2)).abs() < 1e-7);
    }
}

#[test]
fn test_rinit_rejects_low_seed() {
    let mut rng = MarsagliaUniRng::new();
    assert_eq!(rng.rinit(-1), Err(InvalidSeed::SeedOutOfRange(-1)));
}

#[test]
fn test_rinit_rejects_high_seed() {
    let mut rng = MarsagliaUniRng::new();
    assert_eq!(
        rng.rinit(900_000_001),
        Err(InvalidSeed::SeedOutOfRange(900_000_001))
    );
}

#[test]
fn test_rinit_accepts_boundary_seeds() {
    let mut rng = MarsagliaUniRng::new();
    assert_eq!(rng.rinit(0), Ok(()));
    assert_eq!(rng.rinit(900_000_000), Ok(()));
}

#[test]
fn test_failed_rinit_leaves_state_unchanged() {
    let mut rng1 = MarsagliaUniRng::new();
    let mut rng2 = MarsagliaUniRng::new();
    rng1.rinit(170).unwrap();
    rng2.rinit(170).unwrap();
    assert!(rng2.rinit(-7).is_err());
    for _ in 0..200 {
        assert_eq!(rng1.uni(), rng2.uni());
    }
}

#[test]
fn test_determinism_over_thousand_calls() {
    let mut rng1 = MarsagliaUniRng::new();
    let mut rng2 = MarsagliaUniRng::new();
    rng1.rinit(648_372).unwrap();
    rng2.rinit(648_372).unwrap();
    for _ in 0..1000 {
        assert_eq!(rng1.uni(), rng2.uni());
    }
}

#[test]
fn test_outputs_stay_in_range() {
    for seed in [0, 170, 900_000_000] {
        let mut rng = MarsagliaUniRng::new();
        rng.rinit(seed).unwrap();
        for _ in 0..100_000 {
            assert!(rng.uni() < 16777216);
        }
    }
}

#[test]
fn test_seed_decomposition_matches_rstart() {
    // 170 decomposes as ij = 0, kl = 170, hence (i, j, k, l) = (2, 2, 2, 1).
    let mut decomposed = MarsagliaUniRng::new();
    decomposed.rinit(170).unwrap();
    let mut direct = MarsagliaUniRng::new();
    direct.rstart(2, 2, 2, 1);
    for _ in 0..500 {
        assert_eq!(decomposed.uni(), direct.uni());
    }
}

#[test]
fn test_cursors_stay_distinct() {
    let mut rng = MarsagliaUniRng::new();
    rng.rinit(170).unwrap();
    let (ui, uj) = rng.cursors();
    assert_eq!((ui, uj), (97, 33));
    for _ in 0..1000 {
        rng.uni();
        let (ui, uj) = rng.cursors();
        assert_ne!(ui, uj);
    }
}

#[test]
fn test_unseeded_generator_is_degenerate() {
    // An unseeded generator is well defined: all-zero state yields zeros.
    let mut rng = MarsagliaUniRng::new();
    for _ in 0..10 {
        assert_eq!(rng.uni(), 0);
    }
}

#[test]
fn test_default_matches_new() {
    let mut a = MarsagliaUniRng::default();
    let mut b = MarsagliaUniRng::new();
    a.rinit(12_345).unwrap();
    b.rinit(12_345).unwrap();
    for _ in 0..100 {
        assert_eq!(a.uni(), b.uni());
    }
}
