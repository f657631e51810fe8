use particle_life::force::{classify, force_magnitude, Zone};

const BETA: i64 = 200_000;
const GAMMA: i64 = 800_000;

#[test]
fn zones_are_cut_at_beta_and_gamma() {
    assert_eq!(classify(0, BETA, GAMMA), Zone::Near);
    assert_eq!(classify(BETA - 1, BETA, GAMMA), Zone::Near);
    assert_eq!(classify(BETA, BETA, GAMMA), Zone::Mid);
    assert_eq!(classify(500_000, BETA, GAMMA), Zone::Mid);
    assert_eq!(classify(GAMMA - 1, BETA, GAMMA), Zone::Mid);
    assert_eq!(classify(GAMMA, BETA, GAMMA), Zone::Far);
    assert_eq!(classify(999_999, BETA, GAMMA), Zone::Far);
}

#[test]
fn near_zone_ignores_the_affinity() {
    // -1 + 0.1 / 0.2 = -0.5
    assert_eq!(force_magnitude(100_000, 1_000_000, BETA, GAMMA), -500_000);
    assert_eq!(force_magnitude(100_000, -1_000_000, BETA, GAMMA), -500_000);
    assert_eq!(force_magnitude(100_000, 0, BETA, GAMMA), -500_000);
    assert_eq!(force_magnitude(100_000, 333_333, BETA, GAMMA), -500_000);
}

#[test]
fn zero_distance_repels_at_full_strength() {
    assert_eq!(force_magnitude(0, 1_000_000, BETA, GAMMA), -1_000_000);
    assert_eq!(force_magnitude(0, -700_000, BETA, GAMMA), -1_000_000);
}

#[test]
fn near_zone_is_always_negative() {
    let mut nd: i64 = 0;
    while nd < BETA {
        let m: i64 = force_magnitude(nd, 1_000_000, BETA, GAMMA);
        assert!(-1_000_000 <= m && m < 0);
        nd += 1_999;
    }
}

#[test]
fn middle_zone_ramps_up_to_the_affinity() {
    // 1.0 * (0.5 - 0.2) / (0.8 - 0.2) = 0.5
    assert_eq!(force_magnitude(500_000, 1_000_000, BETA, GAMMA), 500_000);
    // 0.6 * (0.35 - 0.2) / 0.6 = 0.15
    assert_eq!(force_magnitude(350_000, 600_000, BETA, GAMMA), 150_000);
    // -0.6 * (0.35 - 0.2) / 0.6 = -0.15
    assert_eq!(force_magnitude(350_000, -600_000, BETA, GAMMA), -150_000);
}

#[test]
fn far_zone_ramps_down_to_zero() {
    // 1.0 * (1 - 0.9) / (1 - 0.8) = 0.5
    assert_eq!(force_magnitude(900_000, 1_000_000, BETA, GAMMA), 500_000);
    // -0.4 * (1 - 0.95) / 0.2 = -0.1
    assert_eq!(force_magnitude(950_000, -400_000, BETA, GAMMA), -100_000);
}

#[test]
fn magnitude_is_continuous_at_beta() {
    let behaviors: Vec<i64> = vec![-1_000_000, -250_000, 0, 1, 999_999, 1_000_000];
    for b in behaviors {
        // from below: -1 + (beta - 1e-6) / beta, one step short of zero
        assert_eq!(force_magnitude(BETA - 1, b, BETA, GAMMA), -5);
        // from above: exactly zero, whatever the affinity
        assert_eq!(force_magnitude(BETA, b, BETA, GAMMA), 0);
    }
}

#[test]
fn magnitude_is_the_affinity_at_gamma() {
    let behaviors: Vec<i64> = vec![-1_000_000, -250_000, 0, 1, 999_999, 1_000_000];
    for b in behaviors {
        assert_eq!(force_magnitude(GAMMA, b, BETA, GAMMA), b);
        let below: i64 = force_magnitude(GAMMA - 1, b, BETA, GAMMA);
        assert!((below - b).abs() <= 2);
    }
}

#[test]
fn magnitude_vanishes_toward_the_radius() {
    // 1.0 * 0.000001 / 0.2 = 0.000005
    assert_eq!(force_magnitude(999_999, 1_000_000, BETA, GAMMA), 5);
    assert_eq!(force_magnitude(999_999, -1_000_000, BETA, GAMMA), -5);
    assert_eq!(force_magnitude(999_999, 100_000, BETA, GAMMA), 0);
}

#[test]
fn quotients_round_toward_zero() {
    // 1.0 * 0.1 / 0.3 = 0.333333...
    assert_eq!(force_magnitude(300_000, 1_000_000, 200_000, 500_000), 333_333);
    assert_eq!(force_magnitude(300_000, -1_000_000, 200_000, 500_000), -333_333);
}

#[test]
fn opposite_affinities_give_opposite_magnitudes_outside_the_near_zone() {
    let mut nd: i64 = BETA;
    while nd < 1_000_000 {
        let m: i64 = force_magnitude(nd, 730_001, BETA, GAMMA);
        let n: i64 = force_magnitude(nd, -730_001, BETA, GAMMA);
        assert_eq!(m, -n);
        assert!(0 <= m && m <= 730_001);
        nd += 7_919;
    }
}
