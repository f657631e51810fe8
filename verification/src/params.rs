//! The scalar knobs of the simulation: the speed multiplier and the three
//! shape constants of the force law.

use crate::fixed::ONE;
use crate::force::thresholds_ok;
use crate::random::random_in_range;
use vstd::prelude::*;

verus! {

/// The speed that a fresh parameter set starts with (`1600.0`).
pub const BASE_SPEED: i64 = 1_600_000_000;

/// The largest speed; doubling stops here.
pub const MAX_SPEED: i64 = i64::MAX;

/// The smallest speed (one millionth); halving stops here.
pub const MIN_SPEED: i64 = 1;

/// The interval that a generated `beta` is drawn from (`0.1 ..= 0.4`).
pub const BETA_MIN: i64 = 100_000;

pub const BETA_MAX: i64 = 400_000;

/// The interval that a generated `gamma` is drawn from (`0.6 ..= 0.9`).
pub const GAMMA_MIN: i64 = 600_000;

pub const GAMMA_MAX: i64 = 900_000;

/// The attraction radius of the fixed profile (`100.0`).
pub const FIXED_RADIUS: i64 = 100_000_000;

/// The interval that the sampled profile draws the attraction radius from
/// (`50.0 ..= 200.0`).
pub const RADIUS_MIN: i64 = 50_000_000;

pub const RADIUS_MAX: i64 = 200_000_000;

/// The parameters as mathematical integers (millionths).
pub struct ParametersModel {
    pub speed: int,
    pub beta: int,
    pub gamma: int,
    pub attraction_radius: int,
}

impl ParametersModel {
    /// The force law is well formed: a positive speed and radius, and
    /// `0 < beta < gamma < 1`.
    pub open spec fn valid(self) -> bool {
        &&& self.speed > 0
        &&& thresholds_ok(self.beta, self.gamma)
        &&& self.attraction_radius > 0
    }
}

/// Why a set of parameters is refused.
#[derive(Clone, Copy, Debug, PartialEq, Eq, Structural)]
pub enum ConfigError {
    /// The speed is zero or negative.
    NonPositiveSpeed,
    /// `beta` is not strictly between 0 and 1.
    BetaOutOfRange,
    /// `gamma` is not strictly between 0 and 1.
    GammaOutOfRange,
    /// `beta` is not strictly below `gamma`.
    BetaNotBelowGamma,
    /// The attraction radius is zero or negative.
    NonPositiveRadius,
}

/// The first fault of a proposed parameter set, if it has one.
pub open spec fn config_fault(
    speed: int,
    beta: int,
    gamma: int,
    attraction_radius: int,
) -> Option<ConfigError> {
    if speed <= 0 {
        Some(ConfigError::NonPositiveSpeed)
    } else if !(0 < beta < ONE) {
        Some(ConfigError::BetaOutOfRange)
    } else if !(0 < gamma < ONE) {
        Some(ConfigError::GammaOutOfRange)
    } else if beta >= gamma {
        Some(ConfigError::BetaNotBelowGamma)
    } else if attraction_radius <= 0 {
        Some(ConfigError::NonPositiveRadius)
    } else {
        None
    }
}

/// A parameter set has no fault exactly when it is valid.
pub proof fn lemma_no_fault_iff_valid(m: ParametersModel)
    ensures
        config_fault(m.speed, m.beta, m.gamma, m.attraction_radius) is None <==> m.valid(),
{
}

/// How the attraction radius of a generated parameter set is chosen.
#[derive(Clone, Copy, Debug, PartialEq, Eq, Structural)]
pub enum RadiusProfile {
    /// Always `FIXED_RADIUS`.
    Fixed,
    /// Drawn uniformly from `RADIUS_MIN ..= RADIUS_MAX`.
    Sampled,
}

/// The shape constants lie where generation draws them from.
pub open spec fn generated_shape(m: ParametersModel, profile: RadiusProfile) -> bool {
    &&& BETA_MIN <= m.beta <= BETA_MAX
    &&& GAMMA_MIN <= m.gamma <= GAMMA_MAX
    &&& match profile {
        RadiusProfile::Fixed => m.attraction_radius == FIXED_RADIUS,
        RadiusProfile::Sampled => RADIUS_MIN <= m.attraction_radius <= RADIUS_MAX,
    }
}

/// The speed after a doubling: twice the speed, held at `MAX_SPEED`.
pub open spec fn doubled(speed: int) -> int {
    if 2 * speed <= MAX_SPEED {
        2 * speed
    } else {
        MAX_SPEED as int
    }
}

/// The speed after a halving: half the speed rounded down, held at
/// `MIN_SPEED`.
pub open spec fn halved(speed: int) -> int {
    if speed / 2 >= MIN_SPEED {
        speed / 2
    } else {
        MIN_SPEED as int
    }
}

/// Halving undoes a doubling that did not hit the largest speed, and doubling
/// undoes a halving of an even speed.
pub proof fn lemma_doubling_and_halving(speed: int)
    requires
        speed >= MIN_SPEED,
    ensures
        2 * speed <= MAX_SPEED ==> halved(doubled(speed)) == speed,
        speed % 2 == 0 && speed <= MAX_SPEED ==> doubled(halved(speed)) == speed,
{
}

/// The tunable scalars of the simulation. Every value of this type is valid:
/// its speed and attraction radius are positive and `0 < beta < gamma < 1`.
#[derive(Clone, Copy, Debug)]
pub struct SimulationParameters {
    speed: i64,
    beta: i64,
    gamma: i64,
    attraction_radius: i64,
}

impl View for SimulationParameters {
    type V = ParametersModel;

    closed spec fn view(&self) -> ParametersModel {
        ParametersModel {
            speed: self.speed as int,
            beta: self.beta as int,
            gamma: self.gamma as int,
            attraction_radius: self.attraction_radius as int,
        }
    }
}

impl SimulationParameters {
    #[verifier::type_invariant]
    pub open spec fn well_formed(self) -> bool {
        self@.valid()
    }

    /// Builds a parameter set from explicit values, refusing an invalid one.
    pub fn new(speed: i64, beta: i64, gamma: i64, attraction_radius: i64) -> (r: Result<
        Self,
        ConfigError,
    >)
        ensures
            match r {
                Ok(p) => {
                    &&& config_fault(
                        speed as int,
                        beta as int,
                        gamma as int,
                        attraction_radius as int,
                    ) is None
                    &&& p@ == (ParametersModel {
                        speed: speed as int,
                        beta: beta as int,
                        gamma: gamma as int,
                        attraction_radius: attraction_radius as int,
                    })
                    &&& p@.valid()
                },
                Err(e) => config_fault(
                    speed as int,
                    beta as int,
                    gamma as int,
                    attraction_radius as int,
                ) == Some(e),
            },
    {
        if speed <= 0 {
            Err(ConfigError::NonPositiveSpeed)
        } else if beta <= 0 || beta >= ONE {
            Err(ConfigError::BetaOutOfRange)
        } else if gamma <= 0 || gamma >= ONE {
            Err(ConfigError::GammaOutOfRange)
        } else if beta >= gamma {
            Err(ConfigError::BetaNotBelowGamma)
        } else if attraction_radius <= 0 {
            Err(ConfigError::NonPositiveRadius)
        } else {
            Ok(SimulationParameters { speed, beta, gamma, attraction_radius })
        }
    }

    /// A fresh parameter set: the base speed, and shape constants drawn at
    /// random from their intervals.
    pub fn init(profile: RadiusProfile) -> (p: Self)
        ensures
            p@.valid(),
            p@.speed == BASE_SPEED,
            generated_shape(p@, profile),
    {
        let beta: i64 = random_in_range(BETA_MIN, BETA_MAX);
        let gamma: i64 = random_in_range(GAMMA_MIN, GAMMA_MAX);
        let attraction_radius: i64 = match profile {
            RadiusProfile::Fixed => FIXED_RADIUS,
            RadiusProfile::Sampled => random_in_range(RADIUS_MIN, RADIUS_MAX),
        };
        SimulationParameters { speed: BASE_SPEED, beta, gamma, attraction_radius }
    }

    /// Draws `beta`, `gamma` and the attraction radius anew, as `init` does,
    /// and leaves the speed alone.
    pub fn regenerate_shape_constants(&mut self, profile: RadiusProfile)
        ensures
            final(self)@.valid(),
            final(self)@.speed == old(self)@.speed,
            generated_shape(final(self)@, profile),
    {
        proof {
            use_type_invariant(&*self);
        }
        let fresh: SimulationParameters = SimulationParameters::init(profile);
        *self = SimulationParameters {
            speed: self.speed,
            beta: fresh.beta,
            gamma: fresh.gamma,
            attraction_radius: fresh.attraction_radius,
        };
    }

    /// Doubles the speed. The speed never exceeds `MAX_SPEED`.
    pub fn double_speed(&mut self)
        ensures
            final(self)@ == (ParametersModel { speed: doubled(old(self)@.speed), ..old(self)@ }),
            final(self)@.valid(),
    {
        proof {
            use_type_invariant(&*self);
        }
        let speed: i64 = if self.speed <= MAX_SPEED / 2 {
            self.speed * 2
        } else {
            MAX_SPEED
        };
        *self = SimulationParameters { speed, ..*self };
    }

    /// Halves the speed. The speed never falls below `MIN_SPEED`.
    pub fn halve_speed(&mut self)
        ensures
            final(self)@ == (ParametersModel { speed: halved(old(self)@.speed), ..old(self)@ }),
            final(self)@.valid(),
    {
        proof {
            use_type_invariant(&*self);
        }
        let speed: i64 = if self.speed / 2 >= MIN_SPEED {
            self.speed / 2
        } else {
            MIN_SPEED
        };
        *self = SimulationParameters { speed, ..*self };
    }

    /// The speed multiplier.
    pub fn speed(&self) -> (r: i64)
        ensures
            r == self@.speed,
            r > 0,
    {
        proof {
            use_type_invariant(self);
        }
        self.speed
    }

    /// The boundary between the near and the middle zone.
    pub fn beta(&self) -> (r: i64)
        ensures
            r == self@.beta,
            0 < r < ONE,
    {
        proof {
            use_type_invariant(self);
        }
        self.beta
    }

    /// The boundary between the middle and the far zone.
    pub fn gamma(&self) -> (r: i64)
        ensures
            r == self@.gamma,
            self@.beta < r < ONE,
    {
        proof {
            use_type_invariant(self);
        }
        self.gamma
    }

    /// The distance beyond which two particles do not interact.
    pub fn attraction_radius(&self) -> (r: i64)
        ensures
            r == self@.attraction_radius,
            r > 0,
    {
        proof {
            use_type_invariant(self);
        }
        self.attraction_radius
    }
}

} // verus!
