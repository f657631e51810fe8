//! The interaction kernel: from a snapshot of all particles to the force on
//! each of them, and on to their next positions.
//!
//! A tick reads nothing but the snapshot it is given and writes into a fresh
//! buffer, so the force on a particle never depends on a position that the
//! same tick has already advanced.

use crate::fixed::{
    div_toward_zero, fixed_div, fixed_mul, isqrt, lemma_div_toward_zero_bounds,
    lemma_div_toward_zero_magnitude, lemma_sqrt_floor_below, lemma_sqrt_floor_exists, sqrt_floor,
    ONE,
};
use crate::force::{force_magnitude, lemma_magnitude_bounds, magnitude_at};
use crate::matrix::{is_affinity, is_behavior_matrix, row_ok, BehaviorMatrix};
use crate::params::{ParametersModel, SimulationParameters};
use vstd::prelude::*;

verus! {

/// A particle of the snapshot: where it is, in millionths, and which color
/// class it belongs to.
#[derive(Clone, Copy, Debug, PartialEq, Eq, Structural)]
pub struct Particle {
    pub x: i64,
    pub y: i64,
    pub color_class: usize,
}

/// The square of the distance between `p` and `q`.
pub open spec fn distance_squared(p: Particle, q: Particle) -> int {
    (q.x - p.x) * (q.x - p.x) + (q.y - p.y) * (q.y - p.y)
}

/// The distance between `p` and `q`, rounded down.
pub open spec fn distance(p: Particle, q: Particle) -> int {
    sqrt_floor(distance_squared(p, q))
}

/// `q` acts on `p`: it lies somewhere else than `p`, and closer than the
/// attraction radius. A particle at the very position of `p` (`p` itself
/// among them) does not act on it, whatever its color class.
pub open spec fn interacts(p: Particle, q: Particle, radius: int) -> bool {
    (q.x != p.x || q.y != p.y) && distance_squared(p, q) < radius * radius
}

/// The distance between `p` and `q` as a fraction of the attraction radius.
pub open spec fn normalized_distance(p: Particle, q: Particle, radius: int) -> int {
    (distance(p, q) * ONE) / radius
}

/// The unit vector from `p` toward `q`.
pub open spec fn direction(p: Particle, q: Particle) -> (int, int) {
    (fixed_div(q.x - p.x, distance(p, q)), fixed_div(q.y - p.y, distance(p, q)))
}

/// The force that `q` exerts on `p`, where `behavior` is the affinity of the
/// class of `p` for the class of `q`: the unit vector toward `q`, scaled by
/// the magnitude that the force law gives at their normalised distance.
pub open spec fn force_between(
    p: Particle,
    q: Particle,
    behavior: int,
    params: ParametersModel,
) -> (int, int) {
    let magnitude = magnitude_at(
        normalized_distance(p, q, params.attraction_radius),
        behavior,
        params.beta,
        params.gamma,
    );
    (fixed_mul(direction(p, q).0, magnitude), fixed_mul(direction(p, q).1, magnitude))
}

/// Every particle of the snapshot carries a class of a matrix with `classes`
/// classes.
pub open spec fn classes_known(snapshot: Seq<Particle>, classes: nat) -> bool {
    forall|k: int| 0 <= k < snapshot.len() ==> (#[trigger] snapshot[k]).color_class < classes
}

/// How many of the first `end` particles of the snapshot act on particle `i`.
pub open spec fn neighbor_count(snapshot: Seq<Particle>, i: int, end: int, radius: int) -> int
    decreases end,
{
    if end <= 0 {
        0
    } else {
        neighbor_count(snapshot, i, end - 1, radius) + if interacts(
            snapshot[i],
            snapshot[end - 1],
            radius,
        ) {
            1int
        } else {
            0int
        }
    }
}

/// The force of particle `j` on particle `i`; the affinity is looked up from
/// the class of `i` to the class of `j`, in that order.
pub open spec fn force_from(
    snapshot: Seq<Particle>,
    i: int,
    j: int,
    matrix: Seq<Seq<i64>>,
    params: ParametersModel,
) -> (int, int) {
    force_between(
        snapshot[i],
        snapshot[j],
        matrix[snapshot[i].color_class as int][snapshot[j].color_class as int] as int,
        params,
    )
}

/// The sum of the forces on particle `i` from those of the first `end`
/// particles that act on it.
pub open spec fn force_sum(
    snapshot: Seq<Particle>,
    i: int,
    end: int,
    matrix: Seq<Seq<i64>>,
    params: ParametersModel,
) -> (int, int)
    decreases end,
{
    if end <= 0 {
        (0, 0)
    } else {
        let rest = force_sum(snapshot, i, end - 1, matrix, params);
        if interacts(snapshot[i], snapshot[end - 1], params.attraction_radius) {
            let f = force_from(snapshot, i, end - 1, matrix, params);
            (rest.0 + f.0, rest.1 + f.1)
        } else {
            rest
        }
    }
}

/// The net force on particle `i`: the mean, not the sum, of the forces from
/// the particles that act on it, and exactly zero where none does.
pub open spec fn mean_force(
    snapshot: Seq<Particle>,
    i: int,
    matrix: Seq<Seq<i64>>,
    params: ParametersModel,
) -> (int, int) {
    let count = neighbor_count(snapshot, i, snapshot.len() as int, params.attraction_radius);
    let sum = force_sum(snapshot, i, snapshot.len() as int, matrix, params);
    if count > 0 {
        (div_toward_zero(sum.0, count), div_toward_zero(sum.1, count))
    } else {
        (0, 0)
    }
}

/// The velocity of particle `i`: its net force times the speed.
pub open spec fn velocity_of(
    snapshot: Seq<Particle>,
    i: int,
    matrix: Seq<Seq<i64>>,
    params: ParametersModel,
) -> (int, int) {
    let force = mean_force(snapshot, i, matrix, params);
    (fixed_mul(force.0, params.speed), fixed_mul(force.1, params.speed))
}

/// The position of particle `i` after a step of `dt`: one explicit Euler
/// step, `position + velocity * dt`.
pub open spec fn position_after(
    snapshot: Seq<Particle>,
    i: int,
    matrix: Seq<Seq<i64>>,
    params: ParametersModel,
    dt: int,
) -> (int, int) {
    let velocity = velocity_of(snapshot, i, matrix, params);
    (snapshot[i].x + fixed_mul(velocity.0, dt), snapshot[i].y + fixed_mul(velocity.1, dt))
}

/// Both coordinates can be stored.
pub open spec fn representable(position: (int, int)) -> bool {
    i64::MIN <= position.0 <= i64::MAX && i64::MIN <= position.1 <= i64::MAX
}

/// A nonzero integer has a square of at least one.
proof fn lemma_square_positive(a: int)
    requires
        a != 0,
    ensures
        a * a >= 1,
{
    assert(a * a >= 1) by (nonlinear_arith)
        requires
            a != 0,
    ;
}

/// A coordinate difference as large as the radius puts the pair out of reach.
proof fn lemma_far_apart(a: int, b: int, radius: int)
    requires
        radius > 0,
        a >= radius || a <= -radius,
    ensures
        a * a + b * b >= radius * radius,
{
    assert(a * a >= radius * radius) by (nonlinear_arith)
        requires
            radius > 0,
            a >= radius || a <= -radius,
    ;
    assert(b * b >= 0) by (nonlinear_arith);
}

/// A coordinate difference is no longer than the distance, rounded down.
proof fn lemma_leg_within_distance(a: int, b: int)
    ensures
        -sqrt_floor(a * a + b * b) <= a <= sqrt_floor(a * a + b * b),
{
    let n: int = a * a + b * b;
    assert(a * a >= 0 && b * b >= 0) by (nonlinear_arith);
    lemma_sqrt_floor_exists(n);
    let r: int = sqrt_floor(n);
    if a > r {
        assert(a * a >= (r + 1) * (r + 1)) by (nonlinear_arith)
            requires
                a >= r + 1,
                r >= 0,
        ;
    }
    if a < -r {
        assert(a * a >= (r + 1) * (r + 1)) by (nonlinear_arith)
            requires
                a <= -(r + 1),
                r >= 0,
        ;
    }
}

/// Where `q` acts on `p`: their distance is at least one millionth and below
/// the radius, the normalised distance lies in `[0, 1)`, and no component of
/// the direction or of the force exceeds one in magnitude.
pub proof fn lemma_force_between_bounds(
    p: Particle,
    q: Particle,
    behavior: int,
    params: ParametersModel,
)
    requires
        params.valid(),
        -ONE <= behavior <= ONE,
        interacts(p, q, params.attraction_radius),
    ensures
        1 <= distance(p, q) < params.attraction_radius,
        0 <= normalized_distance(p, q, params.attraction_radius) < ONE,
        -ONE <= direction(p, q).0 <= ONE,
        -ONE <= direction(p, q).1 <= ONE,
        -ONE <= force_between(p, q, behavior, params).0 <= ONE,
        -ONE <= force_between(p, q, behavior, params).1 <= ONE,
{
    let dx: int = q.x - p.x;
    let dy: int = q.y - p.y;
    let d2: int = distance_squared(p, q);
    let radius: int = params.attraction_radius;
    assert(dx * dx >= 0 && dy * dy >= 0) by (nonlinear_arith);
    if dx != 0 {
        lemma_square_positive(dx);
    } else {
        lemma_square_positive(dy);
    }
    lemma_sqrt_floor_exists(d2);
    lemma_sqrt_floor_below(d2, radius);
    let dist: int = distance(p, q);
    assert(dist >= 1) by {
        if dist == 0 {
            assert((dist + 1) * (dist + 1) == 1) by (nonlinear_arith)
                requires
                    dist == 0,
            ;
        }
    }
    let nd: int = normalized_distance(p, q, radius);
    assert(0 <= nd < ONE) by {
        lemma_div_toward_zero_bounds(dist * ONE, radius);
        assert(nd == div_toward_zero(dist * ONE, radius));
        assert(nd < ONE) by (nonlinear_arith)
            requires
                nd * radius <= dist * ONE,
                dist < radius,
                radius > 0,
        ;
    }
    lemma_leg_within_distance(dx, dy);
    assert(dy * dy + dx * dx == dx * dx + dy * dy);
    lemma_leg_within_distance(dy, dx);
    assert(-(ONE * dist) <= dx * ONE <= ONE * dist) by (nonlinear_arith)
        requires
            -dist <= dx <= dist,
    ;
    assert(-(ONE * dist) <= dy * ONE <= ONE * dist) by (nonlinear_arith)
        requires
            -dist <= dy <= dist,
    ;
    lemma_div_toward_zero_magnitude(dx * ONE, dist, ONE as int);
    lemma_div_toward_zero_magnitude(dy * ONE, dist, ONE as int);
    lemma_magnitude_bounds(nd, behavior, params.beta, params.gamma);
    let magnitude: int = magnitude_at(nd, behavior, params.beta, params.gamma);
    let ux: int = direction(p, q).0;
    let uy: int = direction(p, q).1;
    assert(-(ONE * ONE) <= ux * magnitude <= ONE * ONE) by (nonlinear_arith)
        requires
            -ONE <= ux <= ONE,
            -ONE <= magnitude <= ONE,
    ;
    assert(-(ONE * ONE) <= uy * magnitude <= ONE * ONE) by (nonlinear_arith)
        requires
            -ONE <= uy <= ONE,
            -ONE <= magnitude <= ONE,
    ;
    lemma_div_toward_zero_magnitude(ux * magnitude, ONE as int, ONE as int);
    lemma_div_toward_zero_magnitude(uy * magnitude, ONE as int, ONE as int);
}

/// The force that `q` exerts on `p`, or `None` where `q` does not act on `p`:
/// at the same position, or at the attraction radius and beyond. `behavior`
/// is the affinity of the class of `p` for the class of `q`.
pub fn pair_force(p: &Particle, q: &Particle, behavior: i64, params: &SimulationParameters) -> (r:
    Option<(i64, i64)>)
    requires
        is_affinity(behavior),
    ensures
        r is Some <==> interacts(*p, *q, params@.attraction_radius),
        r matches Some(f) ==> (f.0 as int, f.1 as int) == force_between(
            *p,
            *q,
            behavior as int,
            params@,
        ),
        r matches Some(f) ==> -ONE <= f.0 <= ONE && -ONE <= f.1 <= ONE,
{
    if q.x == p.x && q.y == p.y {
        return None;
    }
    proof {
        use_type_invariant(params);
    }
    let radius: i128 = params.attraction_radius() as i128;
    let dx: i128 = q.x as i128 - p.x as i128;
    let dy: i128 = q.y as i128 - p.y as i128;
    if dx >= radius || dx <= -radius {
        proof {
            lemma_far_apart(dx as int, dy as int, radius as int);
        }
        return None;
    }
    if dy >= radius || dy <= -radius {
        proof {
            lemma_far_apart(dy as int, dx as int, radius as int);
        }
        return None;
    }
    assert(0 <= dx * dx < radius * radius && 0 <= dy * dy < radius * radius && radius * radius
        <= 0x4000_0000_0000_0000_0000_0000_0000_0000) by (nonlinear_arith)
        requires
            -radius < dx < radius,
            -radius < dy < radius,
            0 < radius <= 0x8000_0000_0000_0000,
    ;
    let d2: i128 = dx * dx + dy * dy;
    if d2 >= radius * radius {
        return None;
    }
    proof {
        lemma_force_between_bounds(*p, *q, behavior as int, params@);
    }
    let dist: i128 = isqrt(d2 as u128) as i128;
    assert(dist * ONE < radius * ONE <= 0x8000_0000_0000_0000 * 1_000_000) by (nonlinear_arith)
        requires
            0 <= dist < radius <= 0x8000_0000_0000_0000,
    ;
    let nd: i128 = (dist * (ONE as i128)) / radius;
    assert(-(0x8000_0000_0000_0000 * 1_000_000) <= dx * ONE <= 0x8000_0000_0000_0000 * 1_000_000
        && -(0x8000_0000_0000_0000 * 1_000_000) <= dy * ONE <= 0x8000_0000_0000_0000 * 1_000_000)
        by (nonlinear_arith)
        requires
            -0x8000_0000_0000_0000 <= dx <= 0x8000_0000_0000_0000,
            -0x8000_0000_0000_0000 <= dy <= 0x8000_0000_0000_0000,
    ;
    let ux: i128 = (dx * (ONE as i128)) / dist;
    let uy: i128 = (dy * (ONE as i128)) / dist;
    let magnitude: i128 = force_magnitude(nd as i64, behavior, params.beta(), params.gamma())
        as i128;
    assert(-1_000_000_000_000 <= ux * magnitude <= 1_000_000_000_000 && -1_000_000_000_000 <= uy
        * magnitude <= 1_000_000_000_000) by (nonlinear_arith)
        requires
            -1_000_000 <= ux <= 1_000_000,
            -1_000_000 <= uy <= 1_000_000,
            -1_000_000 <= magnitude <= 1_000_000,
    ;
    let fx: i128 = (ux * magnitude) / (ONE as i128);
    let fy: i128 = (uy * magnitude) / (ONE as i128);
    Some((fx as i64, fy as i64))
}

/// Why a tick was refused. A refused tick has changed nothing.
#[derive(Clone, Copy, Debug, PartialEq, Eq, Structural)]
pub enum TickError {
    /// This particle carries a color class that the matrix does not have.
    UnknownColorClass { particle: usize },
    /// The next position of this particle cannot be stored.
    PositionOutOfRange { particle: usize },
}

/// `particle` is the first of the snapshot whose class the matrix lacks.
pub open spec fn first_unknown_class(snapshot: Seq<Particle>, classes: nat, particle: int) -> bool {
    &&& 0 <= particle < snapshot.len()
    &&& snapshot[particle].color_class >= classes
    &&& forall|k: int| 0 <= k < particle ==> (#[trigger] snapshot[k]).color_class < classes
}

/// `particle` is the first of the snapshot whose next position cannot be
/// stored.
pub open spec fn first_out_of_range(
    snapshot: Seq<Particle>,
    matrix: Seq<Seq<i64>>,
    params: ParametersModel,
    dt: int,
    particle: int,
) -> bool {
    &&& 0 <= particle < snapshot.len()
    &&& !representable(position_after(snapshot, particle, matrix, params, dt))
    &&& forall|k: int|
        0 <= k < particle ==> representable(
            #[trigger] position_after(snapshot, k, matrix, params, dt),
        )
}

/// `next` is the snapshot one step of `dt` later: particle for particle the
/// same class, at the position that the net force of the old snapshot takes
/// it to.
pub open spec fn is_next_snapshot(
    snapshot: Seq<Particle>,
    matrix: Seq<Seq<i64>>,
    params: ParametersModel,
    dt: int,
    next: Seq<Particle>,
) -> bool {
    &&& next.len() == snapshot.len()
    &&& forall|k: int|
        0 <= k < snapshot.len() ==> {
            &&& (#[trigger] next[k]).color_class == snapshot[k].color_class
            &&& (next[k].x as int, next[k].y as int) == position_after(
                snapshot,
                k,
                matrix,
                params,
                dt,
            )
        }
}

/// A tick succeeds on these inputs: every particle carries a class of the
/// matrix, and every next position can be stored.
pub open spec fn tick_succeeds(
    snapshot: Seq<Particle>,
    matrix: Seq<Seq<i64>>,
    params: ParametersModel,
    dt: int,
) -> bool {
    &&& classes_known(snapshot, matrix.len())
    &&& forall|k: int|
        0 <= k < snapshot.len() ==> representable(
            #[trigger] position_after(snapshot, k, matrix, params, dt),
        )
}

/// `outcome` is what a tick on these inputs returns: the next snapshot, or
/// the first particle whose class the matrix lacks, or, where there is none
/// such, the first particle whose next position cannot be stored.
pub open spec fn is_tick_outcome(
    snapshot: Seq<Particle>,
    matrix: Seq<Seq<i64>>,
    params: ParametersModel,
    dt: int,
    outcome: Result<Seq<Particle>, TickError>,
) -> bool {
    match outcome {
        Ok(next) => {
            &&& classes_known(snapshot, matrix.len())
            &&& is_next_snapshot(snapshot, matrix, params, dt, next)
        },
        Err(TickError::UnknownColorClass { particle }) => first_unknown_class(
            snapshot,
            matrix.len(),
            particle as int,
        ),
        Err(TickError::PositionOutOfRange { particle }) => {
            &&& classes_known(snapshot, matrix.len())
            &&& first_out_of_range(snapshot, matrix, params, dt, particle as int)
        },
    }
}

/// The sum of the forces on a particle is bounded by the number of particles
/// that act on it, and that number by the number of particles looked at.
pub proof fn lemma_force_sum_bounds(
    snapshot: Seq<Particle>,
    i: int,
    end: int,
    matrix: Seq<Seq<i64>>,
    params: ParametersModel,
)
    requires
        params.valid(),
        is_behavior_matrix(matrix),
        classes_known(snapshot, matrix.len()),
        0 <= i < snapshot.len(),
        0 <= end <= snapshot.len(),
    ensures
        0 <= neighbor_count(snapshot, i, end, params.attraction_radius) <= end,
        -(neighbor_count(snapshot, i, end, params.attraction_radius) * ONE) <= force_sum(
            snapshot,
            i,
            end,
            matrix,
            params,
        ).0 <= neighbor_count(snapshot, i, end, params.attraction_radius) * ONE,
        -(neighbor_count(snapshot, i, end, params.attraction_radius) * ONE) <= force_sum(
            snapshot,
            i,
            end,
            matrix,
            params,
        ).1 <= neighbor_count(snapshot, i, end, params.attraction_radius) * ONE,
    decreases end,
{
    if end > 0 {
        lemma_force_sum_bounds(snapshot, i, end - 1, matrix, params);
        if interacts(snapshot[i], snapshot[end - 1], params.attraction_radius) {
            lemma_affinity_known(snapshot, i, end - 1, matrix);
            lemma_force_between_bounds(
                snapshot[i],
                snapshot[end - 1],
                matrix[snapshot[i].color_class as int][snapshot[end - 1].color_class as int] as int,
                params,
            );
        }
    }
}

/// Between two particles of known classes the matrix holds an affinity.
pub proof fn lemma_affinity_known(snapshot: Seq<Particle>, i: int, j: int, matrix: Seq<Seq<i64>>)
    requires
        is_behavior_matrix(matrix),
        classes_known(snapshot, matrix.len()),
        0 <= i < snapshot.len(),
        0 <= j < snapshot.len(),
    ensures
        is_affinity(matrix[snapshot[i].color_class as int][snapshot[j].color_class as int]),
{
    assert(row_ok(matrix, snapshot[i].color_class as int));
    assert(snapshot[j].color_class < matrix.len());
}

/// No component of a net force exceeds one in magnitude.
pub proof fn lemma_mean_force_bounds(
    snapshot: Seq<Particle>,
    i: int,
    matrix: Seq<Seq<i64>>,
    params: ParametersModel,
)
    requires
        params.valid(),
        is_behavior_matrix(matrix),
        classes_known(snapshot, matrix.len()),
        0 <= i < snapshot.len(),
    ensures
        -ONE <= mean_force(snapshot, i, matrix, params).0 <= ONE,
        -ONE <= mean_force(snapshot, i, matrix, params).1 <= ONE,
{
    let n: int = snapshot.len() as int;
    let count: int = neighbor_count(snapshot, i, n, params.attraction_radius);
    let sum: (int, int) = force_sum(snapshot, i, n, matrix, params);
    lemma_force_sum_bounds(snapshot, i, n, matrix, params);
    if count > 0 {
        assert(count * ONE == ONE * count) by (nonlinear_arith);
        lemma_div_toward_zero_magnitude(sum.0, count, ONE as int);
        lemma_div_toward_zero_magnitude(sum.1, count, ONE as int);
    }
}

/// The index of the first particle whose color class the matrix lacks, if
/// there is one.
pub fn find_unknown_class(snapshot: &Vec<Particle>, matrix: &BehaviorMatrix) -> (r: Option<usize>)
    ensures
        r is None <==> classes_known(snapshot@, matrix.classes()),
        r matches Some(particle) ==> first_unknown_class(
            snapshot@,
            matrix.classes(),
            particle as int,
        ),
{
    let classes: usize = matrix.size();
    let mut k: usize = 0;
    while k < snapshot.len()
        invariant
            k <= snapshot.len(),
            classes == matrix.classes(),
            forall|j: int| 0 <= j < k ==> (#[trigger] snapshot@[j]).color_class < classes,
        decreases snapshot.len() - k,
    {
        if snapshot[k].color_class >= classes {
            return Some(k);
        }
        k += 1;
    }
    None
}

/// The net force on particle `i` of the snapshot: the mean of the forces
/// from every particle that acts on it, and `(0, 0)` where none does.
pub fn net_force(
    snapshot: &Vec<Particle>,
    i: usize,
    matrix: &BehaviorMatrix,
    params: &SimulationParameters,
) -> (force: (i64, i64))
    requires
        i < snapshot.len(),
        classes_known(snapshot@, matrix.classes()),
    ensures
        (force.0 as int, force.1 as int) == mean_force(snapshot@, i as int, matrix@, params@),
        -ONE <= force.0 <= ONE,
        -ONE <= force.1 <= ONE,
{
    proof {
        use_type_invariant(matrix);
        use_type_invariant(params);
    }
    let n: usize = snapshot.len();
    let me: Particle = snapshot[i];
    let mut sum_x: i128 = 0;
    let mut sum_y: i128 = 0;
    let mut count: usize = 0;
    let mut j: usize = 0;
    while j < n
        invariant
            n == snapshot.len(),
            i < n,
            j <= n,
            me == snapshot@[i as int],
            params@.valid(),
            is_behavior_matrix(matrix@),
            classes_known(snapshot@, matrix.classes()),
            count == neighbor_count(snapshot@, i as int, j as int, params@.attraction_radius),
            (sum_x as int, sum_y as int) == force_sum(snapshot@, i as int, j as int, matrix@, params@),
        decreases n - j,
    {
        proof {
            lemma_force_sum_bounds(snapshot@, i as int, j as int, matrix@, params@);
            lemma_force_sum_bounds(snapshot@, i as int, j as int + 1, matrix@, params@);
            lemma_affinity_known(snapshot@, i as int, j as int, matrix@);
        }
        let other: Particle = snapshot[j];
        let behavior: i64 = matrix.lookup(me.color_class, other.color_class);
        match pair_force(&me, &other, behavior, params) {
            Some(f) => {
                sum_x = sum_x + f.0 as i128;
                sum_y = sum_y + f.1 as i128;
                count = count + 1;
            },
            None => {},
        }
        j += 1;
    }
    proof {
        lemma_force_sum_bounds(snapshot@, i as int, n as int, matrix@, params@);
        lemma_mean_force_bounds(snapshot@, i as int, matrix@, params@);
    }
    if count > 0 {
        ((sum_x / (count as i128)) as i64, (sum_y / (count as i128)) as i64)
    } else {
        (0, 0)
    }
}

/// The velocity that the force `force` gives at the speed of `params`.
fn velocity_from(force: (i64, i64), params: &SimulationParameters) -> (v: (i64, i64))
    requires
        -ONE <= force.0 <= ONE,
        -ONE <= force.1 <= ONE,
    ensures
        v.0 == fixed_mul(force.0 as int, params@.speed),
        v.1 == fixed_mul(force.1 as int, params@.speed),
{
    let speed: i128 = params.speed() as i128;
    proof {
        let s: int = speed as int;
        assert(-(s * ONE) <= force.0 * s <= s * ONE && -(s * ONE) <= force.1 * s <= s * ONE)
            by (nonlinear_arith)
            requires
                s > 0,
                -ONE <= force.0 <= ONE,
                -ONE <= force.1 <= ONE,
        ;
        assert(s * ONE <= 0x7FFF_FFFF_FFFF_FFFF * 1_000_000) by (nonlinear_arith)
            requires
                0 < s <= 0x7FFF_FFFF_FFFF_FFFF,
        ;
        lemma_div_toward_zero_magnitude(force.0 * s, ONE as int, s);
        lemma_div_toward_zero_magnitude(force.1 * s, ONE as int, s);
    }
    let vx: i128 = (force.0 as i128 * speed) / (ONE as i128);
    let vy: i128 = (force.1 as i128 * speed) / (ONE as i128);
    (vx as i64, vy as i64)
}

/// The velocity of every particle of the snapshot, for a host that leaves
/// the integration to a physics stepper: the net force on the particle times
/// the speed. Refused where a particle carries a class that the matrix
/// lacks.
pub fn velocities(
    snapshot: &Vec<Particle>,
    matrix: &BehaviorMatrix,
    params: &SimulationParameters,
) -> (r: Result<Vec<(i64, i64)>, TickError>)
    ensures
        r is Ok <==> classes_known(snapshot@, matrix.classes()),
        r matches Ok(v) ==> {
            &&& v@.len() == snapshot@.len()
            &&& forall|k: int|
                0 <= k < snapshot@.len() ==> ((#[trigger] v@[k]).0 as int, v@[k].1 as int)
                    == velocity_of(snapshot@, k, matrix@, params@)
        },
        r matches Err(e) ==> {
            &&& e matches TickError::UnknownColorClass { particle }
            &&& first_unknown_class(snapshot@, matrix.classes(), particle as int)
        },
{
    if let Some(particle) = find_unknown_class(snapshot, matrix) {
        return Err(TickError::UnknownColorClass { particle });
    }
    let n: usize = snapshot.len();
    let mut out: Vec<(i64, i64)> = Vec::new();
    let mut i: usize = 0;
    while i < n
        invariant
            n == snapshot.len(),
            i <= n,
            out@.len() == i,
            classes_known(snapshot@, matrix.classes()),
            forall|k: int|
                0 <= k < i ==> ((#[trigger] out@[k]).0 as int, out@[k].1 as int) == velocity_of(
                    snapshot@,
                    k,
                    matrix@,
                    params@,
                ),
        decreases n - i,
    {
        let force: (i64, i64) = net_force(snapshot, i, matrix, params);
        let v: (i64, i64) = velocity_from(force, params);
        out.push(v);
        i += 1;
    }
    Ok(out)
}

/// The position that `particle` reaches after `dt` at velocity `v`, or `None`
/// where it cannot be stored.
fn advance(particle: &Particle, v: (i64, i64), dt: u64) -> (r: Option<Particle>)
    ensures
        r is Some <==> representable(
            (particle.x + fixed_mul(v.0 as int, dt as int), particle.y + fixed_mul(
                v.1 as int,
                dt as int,
            )),
        ),
        r matches Some(next) ==> {
            &&& next.color_class == particle.color_class
            &&& next.x == particle.x + fixed_mul(v.0 as int, dt as int)
            &&& next.y == particle.y + fixed_mul(v.1 as int, dt as int)
        },
{
    let step: i128 = dt as i128;
    proof {
        let s: int = step as int;
        assert(-(0x8000_0000_0000_0000 * 0xFFFF_FFFF_FFFF_FFFF) <= v.0 * s <= 0x8000_0000_0000_0000
            * 0xFFFF_FFFF_FFFF_FFFF && -(0x8000_0000_0000_0000 * 0xFFFF_FFFF_FFFF_FFFF) <= v.1 * s
            <= 0x8000_0000_0000_0000 * 0xFFFF_FFFF_FFFF_FFFF) by (nonlinear_arith)
            requires
                0 <= s <= 0xFFFF_FFFF_FFFF_FFFF,
                -0x8000_0000_0000_0000 <= v.0 <= 0x8000_0000_0000_0000,
                -0x8000_0000_0000_0000 <= v.1 <= 0x8000_0000_0000_0000,
        ;
        let bound: int = 0x8000_0000_0000_0000int * 0xFFFF_FFFF_FFFF_FFFFint;
        assert(bound * ONE >= bound) by (nonlinear_arith)
            requires
                bound >= 0,
        ;
        lemma_div_toward_zero_magnitude(v.0 * s, ONE as int, bound);
        lemma_div_toward_zero_magnitude(v.1 * s, ONE as int, bound);
    }
    let x: i128 = particle.x as i128 + (v.0 as i128 * step) / (ONE as i128);
    let y: i128 = particle.y as i128 + (v.1 as i128 * step) / (ONE as i128);
    if x < i64::MIN as i128 || x > i64::MAX as i128 || y < i64::MIN as i128 || y > i64::MAX as i128 {
        None
    } else {
        Some(Particle { x: x as i64, y: y as i64, color_class: particle.color_class })
    }
}

/// One tick: the snapshot one step of `dt` later, computed from the given
/// snapshot alone and returned in a fresh buffer, particle for particle in
/// the same order. Refused as a whole where a particle carries a class that
/// the matrix lacks, or where a next position cannot be stored; then the
/// error names the first such particle.
pub fn tick(
    snapshot: &Vec<Particle>,
    matrix: &BehaviorMatrix,
    params: &SimulationParameters,
    dt: u64,
) -> (r: Result<Vec<Particle>, TickError>)
    ensures
        r is Ok <==> tick_succeeds(snapshot@, matrix@, params@, dt as int),
        match r {
            Ok(next) => is_tick_outcome(snapshot@, matrix@, params@, dt as int, Ok(next@)),
            Err(e) => is_tick_outcome(snapshot@, matrix@, params@, dt as int, Err(e)),
        },
{
    if let Some(particle) = find_unknown_class(snapshot, matrix) {
        return Err(TickError::UnknownColorClass { particle });
    }
    let n: usize = snapshot.len();
    let mut next: Vec<Particle> = Vec::new();
    let mut i: usize = 0;
    while i < n
        invariant
            n == snapshot.len(),
            i <= n,
            next@.len() == i,
            classes_known(snapshot@, matrix.classes()),
            forall|k: int|
                0 <= k < i ==> {
                    &&& (#[trigger] next@[k]).color_class == snapshot@[k].color_class
                    &&& (next@[k].x as int, next@[k].y as int) == position_after(
                        snapshot@,
                        k,
                        matrix@,
                        params@,
                        dt as int,
                    )
                },
            forall|k: int|
                0 <= k < i ==> representable(
                    #[trigger] position_after(snapshot@, k, matrix@, params@, dt as int),
                ),
        decreases n - i,
    {
        let force: (i64, i64) = net_force(snapshot, i, matrix, params);
        let v: (i64, i64) = velocity_from(force, params);
        match advance(&snapshot[i], v, dt) {
            Some(moved) => {
                next.push(moved);
            },
            None => {
                assert(!representable(
                    position_after(snapshot@, i as int, matrix@, params@, dt as int),
                ));
                return Err(TickError::PositionOutOfRange { particle: i });
            },
        }
        i += 1;
    }
    Ok(next)
}

} // verus!
