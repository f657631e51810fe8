//! The three-zone force law.
//!
//! The magnitude of the force that one particle feels from another depends on
//! their normalised distance `nd` (the distance as a fraction of the
//! attraction radius, `0 <= nd < ONE`), on the affinity `behavior` of the
//! first particle's class for the second's, and on the two thresholds
//! `beta < gamma`:
//!
//! * near zone, `nd < beta`: `-1 + nd / beta`, a repulsion that ignores the
//!   affinity;
//! * middle zone, `beta <= nd < gamma`: a ramp from `0` up to `behavior`;
//! * far zone, `gamma <= nd`: a ramp from `behavior` back down to `0` at the
//!   attraction radius.

use crate::fixed::{
    div_toward_zero, fixed_div, lemma_div_toward_zero_bounds, lemma_div_toward_zero_exact,
    lemma_div_toward_zero_magnitude, ONE,
};
use vstd::prelude::*;

verus! {

/// The zone of the force law that a normalised distance falls in.
#[derive(Clone, Copy, Debug, PartialEq, Eq, Structural)]
pub enum Zone {
    Near,
    Mid,
    Far,
}

/// The thresholds cut the unit interval into three non-empty zones.
pub open spec fn thresholds_ok(beta: int, gamma: int) -> bool {
    0 < beta && beta < gamma && gamma < ONE
}

/// The zone of the normalised distance `nd`.
pub open spec fn zone_of(nd: int, beta: int, gamma: int) -> Zone {
    if nd < beta {
        Zone::Near
    } else if nd < gamma {
        Zone::Mid
    } else {
        Zone::Far
    }
}

/// The near-zone formula, `-1 + nd / beta`.
pub open spec fn near_magnitude(nd: int, beta: int) -> int {
    -ONE + fixed_div(nd, beta)
}

/// The middle-zone formula, `behavior * (nd - beta) / (gamma - beta)`.
pub open spec fn mid_magnitude(nd: int, behavior: int, beta: int, gamma: int) -> int {
    div_toward_zero(behavior * (nd - beta), gamma - beta)
}

/// The far-zone formula, `behavior * (1 - nd) / (1 - gamma)`.
pub open spec fn far_magnitude(nd: int, behavior: int, gamma: int) -> int {
    div_toward_zero(behavior * (ONE - nd), ONE - gamma)
}

/// The force magnitude at normalised distance `nd`: the formula of the zone
/// that `nd` falls in.
pub open spec fn magnitude_at(nd: int, behavior: int, beta: int, gamma: int) -> int {
    match zone_of(nd, beta, gamma) {
        Zone::Near => near_magnitude(nd, beta),
        Zone::Mid => mid_magnitude(nd, behavior, beta, gamma),
        Zone::Far => far_magnitude(nd, behavior, gamma),
    }
}

/// In the near zone the force repels, whatever the affinity: the magnitude
/// lies in `[-1, 0)`, and it is `-1` at distance zero.
pub proof fn lemma_near_zone_repels(nd: int, behavior: int, beta: int, gamma: int)
    requires
        thresholds_ok(beta, gamma),
        0 <= nd < beta,
    ensures
        magnitude_at(nd, behavior, beta, gamma) == near_magnitude(nd, beta),
        -ONE <= near_magnitude(nd, beta) < 0,
        near_magnitude(0, beta) == -ONE,
{
    let q: int = fixed_div(nd, beta);
    lemma_div_toward_zero_bounds(nd * ONE, beta);
    assert(q < ONE) by (nonlinear_arith)
        requires
            q * beta <= nd * ONE,
            nd < beta,
            beta > 0,
    ;
    assert(0int / beta == 0) by (nonlinear_arith)
        requires
            beta > 0,
    ;
}

/// The near-zone magnitude is the exact value `-(beta - nd) / beta` rounded
/// toward minus infinity by less than one millionth, so it tends to zero as
/// `nd` approaches `beta` from below.
pub proof fn lemma_near_zone_tends_to_zero(nd: int, beta: int)
    requires
        0 <= nd < beta,
    ensures
        -((beta - nd) * ONE) - beta < near_magnitude(nd, beta) * beta,
        near_magnitude(nd, beta) * beta <= -((beta - nd) * ONE),
{
    let q: int = fixed_div(nd, beta);
    lemma_div_toward_zero_bounds(nd * ONE, beta);
    assert((-ONE + q) * beta == q * beta - beta * ONE) by (nonlinear_arith);
    assert((q + 1) * beta == q * beta + beta) by (nonlinear_arith);
    assert((beta - nd) * ONE == beta * ONE - nd * ONE) by (nonlinear_arith);
}

/// The three formulas agree where the zones meet, for every affinity: the
/// near and the middle formula both give `0` at `beta`, the middle and the far
/// formula both give `behavior` at `gamma`, and the far formula gives `0` at
/// the attraction radius.
pub proof fn lemma_zones_meet(behavior: int, beta: int, gamma: int)
    requires
        thresholds_ok(beta, gamma),
    ensures
        near_magnitude(beta, beta) == 0,
        mid_magnitude(beta, behavior, beta, gamma) == 0,
        mid_magnitude(gamma, behavior, beta, gamma) == behavior,
        far_magnitude(gamma, behavior, gamma) == behavior,
        far_magnitude(ONE as int, behavior, gamma) == 0,
{
    lemma_div_toward_zero_exact(ONE as int, beta);
    assert(beta * ONE == ONE * beta) by (nonlinear_arith);
    assert(behavior * (beta - beta) == 0) by (nonlinear_arith);
    assert(0int / (gamma - beta) == 0) by (nonlinear_arith)
        requires
            gamma - beta > 0,
    ;
    lemma_div_toward_zero_exact(behavior, gamma - beta);
    lemma_div_toward_zero_exact(behavior, ONE - gamma);
    assert(behavior * (ONE - ONE) == 0) by (nonlinear_arith);
    assert(0int / (ONE - gamma) == 0) by (nonlinear_arith)
        requires
            ONE - gamma > 0,
    ;
}

/// In the far zone the magnitude is bounded by the exact ramp
/// `|behavior| * (1 - nd) / (1 - gamma)`, so it tends to zero as `nd`
/// approaches the attraction radius.
pub proof fn lemma_far_zone_tends_to_zero(nd: int, behavior: int, gamma: int)
    requires
        0 < gamma < ONE,
        gamma <= nd <= ONE,
    ensures
        behavior >= 0 ==> {
            &&& 0 <= far_magnitude(nd, behavior, gamma) * (ONE - gamma)
            &&& far_magnitude(nd, behavior, gamma) * (ONE - gamma) <= behavior * (ONE - nd)
        },
        behavior <= 0 ==> {
            &&& behavior * (ONE - nd) <= far_magnitude(nd, behavior, gamma) * (ONE - gamma)
            &&& far_magnitude(nd, behavior, gamma) * (ONE - gamma) <= 0
        },
{
    let a: int = behavior * (ONE - nd);
    lemma_div_toward_zero_bounds(a, ONE - gamma);
    if behavior >= 0 {
        assert(a >= 0) by (nonlinear_arith)
            requires
                a == behavior * (ONE - nd),
                behavior >= 0,
                ONE - nd >= 0,
        ;
    }
    if behavior <= 0 {
        assert(a <= 0) by (nonlinear_arith)
            requires
                a == behavior * (ONE - nd),
                behavior <= 0,
                ONE - nd >= 0,
        ;
    }
}

/// Outside the near zone the magnitude never exceeds the affinity, and it has
/// the affinity's sign; everywhere it lies in `[-1, 1]`.
pub proof fn lemma_magnitude_bounds(nd: int, behavior: int, beta: int, gamma: int)
    requires
        thresholds_ok(beta, gamma),
        0 <= nd < ONE,
        -ONE <= behavior <= ONE,
    ensures
        -ONE <= magnitude_at(nd, behavior, beta, gamma) <= ONE,
        nd >= beta && behavior >= 0 ==> 0 <= magnitude_at(nd, behavior, beta, gamma) <= behavior,
        nd >= beta && behavior <= 0 ==> behavior <= magnitude_at(nd, behavior, beta, gamma) <= 0,
{
    if nd < beta {
        lemma_near_zone_repels(nd, behavior, beta, gamma);
    } else {
        let (num, den): (int, int) = if nd < gamma {
            (nd - beta, gamma - beta)
        } else {
            (ONE - nd, ONE - gamma)
        };
        assert(0 <= num <= den && den > 0);
        let k: int = if behavior >= 0 { behavior } else { -behavior };
        assert(-(k * den) <= behavior * num <= k * den) by (nonlinear_arith)
            requires
                0 <= num <= den,
                k >= 0,
                behavior == k || behavior == -k,
        ;
        lemma_div_toward_zero_magnitude(behavior * num, den, k);
        lemma_div_toward_zero_bounds(behavior * num, den);
        let q: int = div_toward_zero(behavior * num, den);
        assert(q == magnitude_at(nd, behavior, beta, gamma));
        if behavior >= 0 {
            assert(behavior * num >= 0) by (nonlinear_arith)
                requires
                    behavior >= 0,
                    num >= 0,
            ;
            assert(q >= 0) by (nonlinear_arith)
                requires
                    (q + 1) * den > behavior * num,
                    behavior * num >= 0,
                    den > 0,
            ;
        }
        if behavior <= 0 {
            assert(behavior * num <= 0) by (nonlinear_arith)
                requires
                    behavior <= 0,
                    num >= 0,
            ;
            assert(q <= 0) by (nonlinear_arith)
                requires
                    (q - 1) * den < behavior * num,
                    behavior * num <= 0,
                    den > 0,
            ;
        }
    }
}

/// Tells which zone of the force law the normalised distance `nd` falls in.
pub fn classify(nd: i64, beta: i64, gamma: i64) -> (zone: Zone)
    ensures
        zone == zone_of(nd as int, beta as int, gamma as int),
{
    if nd < beta {
        Zone::Near
    } else if nd < gamma {
        Zone::Mid
    } else {
        Zone::Far
    }
}

/// The scalar force magnitude at normalised distance `nd` for the affinity
/// `behavior`, under the thresholds `beta` and `gamma`.
pub fn force_magnitude(nd: i64, behavior: i64, beta: i64, gamma: i64) -> (magnitude: i64)
    requires
        thresholds_ok(beta as int, gamma as int),
        0 <= nd < ONE,
        -ONE <= behavior <= ONE,
    ensures
        magnitude == magnitude_at(nd as int, behavior as int, beta as int, gamma as int),
        -ONE <= magnitude <= ONE,
{
    proof {
        lemma_magnitude_bounds(nd as int, behavior as int, beta as int, gamma as int);
    }
    match classify(nd, beta, gamma) {
        Zone::Near => {
            assert(nd * ONE <= 1_000_000_000_000) by (nonlinear_arith)
                requires
                    0 <= nd < 1_000_000,
            ;
            -ONE + (nd * ONE) / beta
        },
        Zone::Mid => {
            assert(-1_000_000_000_000 <= behavior * (nd - beta) <= 1_000_000_000_000)
                by (nonlinear_arith)
                requires
                    -1_000_000 <= behavior <= 1_000_000,
                    0 <= nd - beta <= 1_000_000,
            ;
            (behavior * (nd - beta)) / (gamma - beta)
        },
        Zone::Far => {
            assert(-1_000_000_000_000 <= behavior * (ONE - nd) <= 1_000_000_000_000)
                by (nonlinear_arith)
                requires
                    -1_000_000 <= behavior <= 1_000_000,
                    0 <= ONE - nd <= 1_000_000,
            ;
            (behavior * (ONE - nd)) / (ONE - gamma)
        },
    }
}

} // verus!
