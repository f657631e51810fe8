use particle_life::params::{
    ConfigError, RadiusProfile, SimulationParameters, BASE_SPEED, BETA_MAX, BETA_MIN,
    FIXED_RADIUS, GAMMA_MAX, GAMMA_MIN, MAX_SPEED, MIN_SPEED, RADIUS_MAX, RADIUS_MIN,
};

#[test]
fn new_keeps_what_it_is_given() {
    let p: SimulationParameters =
        SimulationParameters::new(1_000_000, 200_000, 800_000, 10_000_000).unwrap();
    assert_eq!(p.speed(), 1_000_000);
    assert_eq!(p.beta(), 200_000);
    assert_eq!(p.gamma(), 800_000);
    assert_eq!(p.attraction_radius(), 10_000_000);
}

#[test]
fn new_refuses_a_speed_that_is_not_positive() {
    assert_eq!(
        SimulationParameters::new(0, 200_000, 800_000, 10_000_000).err(),
        Some(ConfigError::NonPositiveSpeed)
    );
    assert_eq!(
        SimulationParameters::new(-5, 200_000, 800_000, 10_000_000).err(),
        Some(ConfigError::NonPositiveSpeed)
    );
}

#[test]
fn new_refuses_beta_outside_the_unit_interval() {
    assert_eq!(
        SimulationParameters::new(1, 0, 800_000, 10_000_000).err(),
        Some(ConfigError::BetaOutOfRange)
    );
    assert_eq!(
        SimulationParameters::new(1, 1_000_000, 800_000, 10_000_000).err(),
        Some(ConfigError::BetaOutOfRange)
    );
    assert_eq!(
        SimulationParameters::new(1, -1, 800_000, 10_000_000).err(),
        Some(ConfigError::BetaOutOfRange)
    );
}

#[test]
fn new_refuses_gamma_outside_the_unit_interval() {
    assert_eq!(
        SimulationParameters::new(1, 200_000, 0, 10_000_000).err(),
        Some(ConfigError::GammaOutOfRange)
    );
    assert_eq!(
        SimulationParameters::new(1, 200_000, 1_000_000, 10_000_000).err(),
        Some(ConfigError::GammaOutOfRange)
    );
}

#[test]
fn new_refuses_beta_not_below_gamma() {
    assert_eq!(
        SimulationParameters::new(1, 800_000, 800_000, 10_000_000).err(),
        Some(ConfigError::BetaNotBelowGamma)
    );
    assert_eq!(
        SimulationParameters::new(1, 800_000, 200_000, 10_000_000).err(),
        Some(ConfigError::BetaNotBelowGamma)
    );
}

#[test]
fn new_refuses_a_radius_that_is_not_positive() {
    assert_eq!(
        SimulationParameters::new(1, 200_000, 800_000, 0).err(),
        Some(ConfigError::NonPositiveRadius)
    );
    assert_eq!(
        SimulationParameters::new(1, 200_000, 800_000, -10_000_000).err(),
        Some(ConfigError::NonPositiveRadius)
    );
}

#[test]
fn new_reports_the_first_fault() {
    assert_eq!(SimulationParameters::new(0, 0, 0, 0).err(), Some(ConfigError::NonPositiveSpeed));
    assert_eq!(SimulationParameters::new(1, 0, 0, 0).err(), Some(ConfigError::BetaOutOfRange));
    assert_eq!(SimulationParameters::new(1, 1, 0, 0).err(), Some(ConfigError::GammaOutOfRange));
    assert_eq!(SimulationParameters::new(1, 2, 1, 0).err(), Some(ConfigError::BetaNotBelowGamma));
    assert_eq!(SimulationParameters::new(1, 1, 2, 0).err(), Some(ConfigError::NonPositiveRadius));
}

#[test]
fn new_accepts_the_narrowest_and_widest_shapes() {
    assert!(SimulationParameters::new(1, 1, 2, 1).is_ok());
    assert!(SimulationParameters::new(i64::MAX, 1, 999_999, i64::MAX).is_ok());
}

#[test]
fn init_draws_from_the_documented_intervals() {
    for _ in 0..200 {
        let p: SimulationParameters = SimulationParameters::init(RadiusProfile::Fixed);
        assert_eq!(p.speed(), BASE_SPEED);
        assert_eq!(p.speed(), 1_600_000_000);
        assert!(BETA_MIN <= p.beta() && p.beta() <= BETA_MAX);
        assert!(100_000 <= p.beta() && p.beta() <= 400_000);
        assert!(GAMMA_MIN <= p.gamma() && p.gamma() <= GAMMA_MAX);
        assert!(600_000 <= p.gamma() && p.gamma() <= 900_000);
        assert!(p.beta() < p.gamma());
        assert_eq!(p.attraction_radius(), FIXED_RADIUS);
        assert_eq!(p.attraction_radius(), 100_000_000);
    }
}

#[test]
fn init_samples_the_radius_under_the_sampled_profile() {
    for _ in 0..200 {
        let p: SimulationParameters = SimulationParameters::init(RadiusProfile::Sampled);
        assert!(RADIUS_MIN <= p.attraction_radius() && p.attraction_radius() <= RADIUS_MAX);
        assert!(50_000_000 <= p.attraction_radius() && p.attraction_radius() <= 200_000_000);
    }
}

#[test]
fn init_does_not_hand_back_the_ends_of_its_intervals() {
    let mut betas: Vec<i64> = Vec::new();
    let mut gammas: Vec<i64> = Vec::new();
    let mut radii: Vec<i64> = Vec::new();
    for _ in 0..64 {
        let p: SimulationParameters = SimulationParameters::init(RadiusProfile::Sampled);
        betas.push(p.beta());
        gammas.push(p.gamma());
        radii.push(p.attraction_radius());
    }
    assert!(betas.iter().any(|b| *b != betas[0]));
    assert!(gammas.iter().any(|g| *g != gammas[0]));
    assert!(radii.iter().any(|r| *r != radii[0]));
}

#[test]
fn regenerating_the_shape_leaves_the_speed_alone() {
    let mut p: SimulationParameters =
        SimulationParameters::new(3_000_000, 999_998, 999_999, 7).unwrap();
    p.regenerate_shape_constants(RadiusProfile::Fixed);
    assert_eq!(p.speed(), 3_000_000);
    assert!(100_000 <= p.beta() && p.beta() <= 400_000);
    assert!(600_000 <= p.gamma() && p.gamma() <= 900_000);
    assert_eq!(p.attraction_radius(), 100_000_000);
    p.regenerate_shape_constants(RadiusProfile::Sampled);
    assert_eq!(p.speed(), 3_000_000);
    assert!(50_000_000 <= p.attraction_radius() && p.attraction_radius() <= 200_000_000);
}

#[test]
fn doubling_and_halving_change_the_speed_only() {
    let mut p: SimulationParameters =
        SimulationParameters::new(1_600_000_000, 200_000, 800_000, 10_000_000).unwrap();
    p.double_speed();
    assert_eq!(p.speed(), 3_200_000_000);
    p.double_speed();
    assert_eq!(p.speed(), 6_400_000_000);
    p.halve_speed();
    p.halve_speed();
    p.halve_speed();
    assert_eq!(p.speed(), 800_000_000);
    assert_eq!(p.beta(), 200_000);
    assert_eq!(p.gamma(), 800_000);
    assert_eq!(p.attraction_radius(), 10_000_000);
}

#[test]
fn doubling_stops_at_the_largest_speed() {
    let mut p: SimulationParameters =
        SimulationParameters::new(1_600_000_000, 200_000, 800_000, 10_000_000).unwrap();
    for _ in 0..100 {
        p.double_speed();
    }
    assert_eq!(p.speed(), MAX_SPEED);
    assert_eq!(p.speed(), i64::MAX);
    p.double_speed();
    assert_eq!(p.speed(), i64::MAX);
}

#[test]
fn halving_stops_at_the_smallest_speed() {
    let mut p: SimulationParameters =
        SimulationParameters::new(5, 200_000, 800_000, 10_000_000).unwrap();
    p.halve_speed();
    assert_eq!(p.speed(), 2);
    p.halve_speed();
    assert_eq!(p.speed(), 1);
    p.halve_speed();
    assert_eq!(p.speed(), MIN_SPEED);
    assert_eq!(p.speed(), 1);
}
