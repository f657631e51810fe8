//! What holds of every tick, stated over the model of the engine and proved.

use crate::engine::{
    classes_known, direction, distance, distance_squared, force_between, force_from, force_sum,
    interacts, is_tick_outcome, lemma_force_between_bounds, lemma_mean_force_bounds, mean_force,
    neighbor_count, normalized_distance, position_after, representable, tick_succeeds,
    velocity_of, Particle, TickError,
};
use crate::fixed::{
    lemma_div_toward_zero_exact, lemma_div_toward_zero_magnitude, lemma_div_toward_zero_neg, ONE,
};
use crate::matrix::is_behavior_matrix;
use crate::force::magnitude_at;
use crate::params::ParametersModel;
use vstd::prelude::*;

verus! {

/// Where none of the first `end` particles acts on particle `i`, none is
/// counted and nothing is summed.
proof fn lemma_nothing_acts(
    snapshot: Seq<Particle>,
    i: int,
    end: int,
    matrix: Seq<Seq<i64>>,
    params: ParametersModel,
)
    requires
        0 <= end <= snapshot.len(),
        forall|j: int|
            0 <= j < snapshot.len() ==> !#[trigger] interacts(
                snapshot[i],
                snapshot[j],
                params.attraction_radius,
            ),
    ensures
        neighbor_count(snapshot, i, end, params.attraction_radius) == 0,
        force_sum(snapshot, i, end, matrix, params) == (0int, 0int),
    decreases end,
{
    if end > 0 {
        lemma_nothing_acts(snapshot, i, end - 1, matrix, params);
        assert(!interacts(snapshot[i], snapshot[end - 1], params.attraction_radius));
    }
}

/// Zero-neighbor invariance: a particle on which no particle of the snapshot
/// acts (each of them is at its very position, or at the attraction radius
/// and beyond) feels a net force of exactly zero, has no velocity, and is
/// after the tick where it was before, whatever the matrix, the speed and
/// the length of the step.
pub proof fn lemma_isolated_particle_rests(
    snapshot: Seq<Particle>,
    i: int,
    matrix: Seq<Seq<i64>>,
    params: ParametersModel,
    dt: int,
)
    requires
        0 <= i < snapshot.len(),
        forall|j: int|
            0 <= j < snapshot.len() ==> !#[trigger] interacts(
                snapshot[i],
                snapshot[j],
                params.attraction_radius,
            ),
    ensures
        mean_force(snapshot, i, matrix, params) == (0int, 0int),
        velocity_of(snapshot, i, matrix, params) == (0int, 0int),
        position_after(snapshot, i, matrix, params, dt) == (
            snapshot[i].x as int,
            snapshot[i].y as int,
        ),
{
    lemma_nothing_acts(snapshot, i, snapshot.len() as int, matrix, params);
    assert(0 * params.speed == 0) by (nonlinear_arith);
    assert(0 * dt == 0) by (nonlinear_arith);
    assert(0int / (ONE as int) == 0);
}

/// No runaway in a crowd: however many particles act on a particle, no
/// component of its net force exceeds one in magnitude, and none of its
/// velocity exceeds the speed.
pub proof fn lemma_speed_limit(
    snapshot: Seq<Particle>,
    i: int,
    matrix: Seq<Seq<i64>>,
    params: ParametersModel,
)
    requires
        params.valid(),
        is_behavior_matrix(matrix),
        classes_known(snapshot, matrix.len()),
        0 <= i < snapshot.len(),
    ensures
        -ONE <= mean_force(snapshot, i, matrix, params).0 <= ONE,
        -ONE <= mean_force(snapshot, i, matrix, params).1 <= ONE,
        -params.speed <= velocity_of(snapshot, i, matrix, params).0 <= params.speed,
        -params.speed <= velocity_of(snapshot, i, matrix, params).1 <= params.speed,
{
    lemma_mean_force_bounds(snapshot, i, matrix, params);
    let force: (int, int) = mean_force(snapshot, i, matrix, params);
    let speed: int = params.speed;
    assert(-(speed * ONE) <= force.0 * speed <= speed * ONE && -(speed * ONE) <= force.1 * speed
        <= speed * ONE) by (nonlinear_arith)
        requires
            speed > 0,
            -ONE <= force.0 <= ONE,
            -ONE <= force.1 <= ONE,
    ;
    lemma_div_toward_zero_magnitude(force.0 * speed, ONE as int, speed);
    lemma_div_toward_zero_magnitude(force.1 * speed, ONE as int, speed);
}

/// Where each of the first `end` particles that acts on particle `i` exerts
/// the same force on it, the sum is that force times their number.
proof fn lemma_equal_forces_sum(
    snapshot: Seq<Particle>,
    i: int,
    end: int,
    matrix: Seq<Seq<i64>>,
    params: ParametersModel,
    force: (int, int),
)
    requires
        0 <= end <= snapshot.len(),
        forall|j: int|
            0 <= j < snapshot.len() && interacts(snapshot[i], snapshot[j], params.attraction_radius)
                ==> #[trigger] force_from(snapshot, i, j, matrix, params) == force,
    ensures
        neighbor_count(snapshot, i, end, params.attraction_radius) >= 0,
        force_sum(snapshot, i, end, matrix, params) == (
            neighbor_count(snapshot, i, end, params.attraction_radius) * force.0,
            neighbor_count(snapshot, i, end, params.attraction_radius) * force.1,
        ),
    decreases end,
{
    if end > 0 {
        lemma_equal_forces_sum(snapshot, i, end - 1, matrix, params, force);
        let before: int = neighbor_count(snapshot, i, end - 1, params.attraction_radius);
        if interacts(snapshot[i], snapshot[end - 1], params.attraction_radius) {
            assert(force_from(snapshot, i, end - 1, matrix, params) == force);
            assert((before + 1) * force.0 == before * force.0 + force.0) by (nonlinear_arith);
            assert((before + 1) * force.1 == before * force.1 + force.1) by (nonlinear_arith);
        }
    } else {
        assert(0 * force.0 == 0 && 0 * force.1 == 0) by (nonlinear_arith);
    }
}

/// Mean, not sum: where `k >= 1` particles act on particle `i` and each of
/// them exerts the same force on it, the forces add up to `k` times that
/// force and the net force is that force itself, whatever `k` is.
pub proof fn lemma_mean_not_sum(
    snapshot: Seq<Particle>,
    i: int,
    matrix: Seq<Seq<i64>>,
    params: ParametersModel,
    force: (int, int),
)
    requires
        0 <= i < snapshot.len(),
        neighbor_count(snapshot, i, snapshot.len() as int, params.attraction_radius) >= 1,
        forall|j: int|
            0 <= j < snapshot.len() && interacts(snapshot[i], snapshot[j], params.attraction_radius)
                ==> #[trigger] force_from(snapshot, i, j, matrix, params) == force,
    ensures
        force_sum(snapshot, i, snapshot.len() as int, matrix, params) == (
            neighbor_count(snapshot, i, snapshot.len() as int, params.attraction_radius) * force.0,
            neighbor_count(snapshot, i, snapshot.len() as int, params.attraction_radius) * force.1,
        ),
        mean_force(snapshot, i, matrix, params) == force,
{
    let n: int = snapshot.len() as int;
    let k: int = neighbor_count(snapshot, i, n, params.attraction_radius);
    lemma_equal_forces_sum(snapshot, i, n, matrix, params, force);
    lemma_div_toward_zero_exact(force.0, k);
    lemma_div_toward_zero_exact(force.1, k);
    assert(k * force.0 == force.0 * k && k * force.1 == force.1 * k) by (nonlinear_arith);
}

/// Determinism: a tick is a function of the snapshot, the matrix, the
/// parameters and the length of the step. Whatever two ticks on the same
/// inputs return, be it a next snapshot or an error, they return the same.
pub proof fn lemma_tick_is_deterministic(
    snapshot: Seq<Particle>,
    matrix: Seq<Seq<i64>>,
    params: ParametersModel,
    dt: int,
    first: Result<Seq<Particle>, TickError>,
    second: Result<Seq<Particle>, TickError>,
)
    requires
        is_tick_outcome(snapshot, matrix, params, dt, first),
        is_tick_outcome(snapshot, matrix, params, dt, second),
    ensures
        first == second,
{
    match (first, second) {
        (Ok(a), Ok(b)) => {
            assert forall|k: int| 0 <= k < a.len() implies a[k] == b[k] by {
                assert(a[k].color_class == snapshot[k].color_class);
                assert(b[k].color_class == snapshot[k].color_class);
            }
            assert(a =~= b);
        },
        (Ok(a), Err(e)) => {
            lemma_outcomes_exclusive(snapshot, matrix, params, dt, a, e);
        },
        (Err(e), Ok(b)) => {
            lemma_outcomes_exclusive(snapshot, matrix, params, dt, b, e);
        },
        (Err(e1), Err(e2)) => {
            lemma_error_unique(snapshot, matrix, params, dt, e1, e2);
        },
    }
}

/// A tick cannot both succeed and fail.
proof fn lemma_outcomes_exclusive(
    snapshot: Seq<Particle>,
    matrix: Seq<Seq<i64>>,
    params: ParametersModel,
    dt: int,
    next: Seq<Particle>,
    error: TickError,
)
    requires
        is_tick_outcome(snapshot, matrix, params, dt, Ok(next)),
    ensures
        !is_tick_outcome(snapshot, matrix, params, dt, Err(error)),
{
    if is_tick_outcome(snapshot, matrix, params, dt, Err(error)) {
        match error {
            TickError::UnknownColorClass { particle } => {
                assert(snapshot[particle as int].color_class < matrix.len());
            },
            TickError::PositionOutOfRange { particle } => {
                let k: int = particle as int;
                assert(next[k].color_class == snapshot[k].color_class);
                assert((next[k].x as int, next[k].y as int) == position_after(
                    snapshot,
                    k,
                    matrix,
                    params,
                    dt,
                ));
            },
        }
    }
}

/// A tick fails in one way only.
proof fn lemma_error_unique(
    snapshot: Seq<Particle>,
    matrix: Seq<Seq<i64>>,
    params: ParametersModel,
    dt: int,
    e1: TickError,
    e2: TickError,
)
    requires
        is_tick_outcome(snapshot, matrix, params, dt, Err(e1)),
        is_tick_outcome(snapshot, matrix, params, dt, Err(e2)),
    ensures
        e1 == e2,
{
    match (e1, e2) {
        (
            TickError::UnknownColorClass { particle: a },
            TickError::UnknownColorClass { particle: b },
        ) => {
            if a < b {
                assert(snapshot[a as int].color_class < matrix.len());
            } else if b < a {
                assert(snapshot[b as int].color_class < matrix.len());
            }
        },
        (
            TickError::PositionOutOfRange { particle: a },
            TickError::PositionOutOfRange { particle: b },
        ) => {
            if a < b {
                assert(representable(position_after(snapshot, a as int, matrix, params, dt)));
            } else if b < a {
                assert(representable(position_after(snapshot, b as int, matrix, params, dt)));
            }
        },
        (TickError::UnknownColorClass { particle: a }, TickError::PositionOutOfRange { .. }) => {
            assert(snapshot[a as int].color_class < matrix.len());
        },
        (TickError::PositionOutOfRange { .. }, TickError::UnknownColorClass { particle: b }) => {
            assert(snapshot[b as int].color_class < matrix.len());
        },
    }
}

/// A tick succeeds exactly on the inputs on which it is owed: its outcome is
/// a next snapshot if and only if every class is known and every next
/// position can be stored.
pub proof fn lemma_tick_success(
    snapshot: Seq<Particle>,
    matrix: Seq<Seq<i64>>,
    params: ParametersModel,
    dt: int,
    outcome: Result<Seq<Particle>, TickError>,
)
    requires
        is_tick_outcome(snapshot, matrix, params, dt, outcome),
    ensures
        outcome is Ok <==> tick_succeeds(snapshot, matrix, params, dt),
{
    match outcome {
        Ok(next) => {
            assert forall|k: int| 0 <= k < snapshot.len() implies representable(
                #[trigger] position_after(snapshot, k, matrix, params, dt),
            ) by {
                assert(next[k].color_class == snapshot[k].color_class);
            }
        },
        Err(TickError::UnknownColorClass { particle }) => {
            assert(snapshot[particle as int].color_class >= matrix.len());
        },
        Err(TickError::PositionOutOfRange { particle }) => {
            assert(!representable(position_after(snapshot, particle as int, matrix, params, dt)));
        },
    }
}

/// Seen from the other particle, the distance is the same and the direction
/// is the opposite.
pub proof fn lemma_direction_reverses(p: Particle, q: Particle)
    requires
        distance(p, q) > 0,
    ensures
        distance_squared(q, p) == distance_squared(p, q),
        distance(q, p) == distance(p, q),
        direction(q, p).0 == -direction(p, q).0,
        direction(q, p).1 == -direction(p, q).1,
{
    let dx: int = q.x - p.x;
    let dy: int = q.y - p.y;
    assert((-dx) * (-dx) == dx * dx && (-dy) * (-dy) == dy * dy) by (nonlinear_arith);
    assert(distance_squared(q, p) == distance_squared(p, q));
    let dist: int = distance(p, q);
    assert((-dx) * ONE == -(dx * ONE) && (-dy) * ONE == -(dy * ONE)) by (nonlinear_arith);
    lemma_div_toward_zero_neg(dx * ONE, dist);
    lemma_div_toward_zero_neg(dy * ONE, dist);
    assert(p.x - q.x == -dx && p.y - q.y == -dy);
}

/// Equal affinities oppose: where `p` is as fond of `q` as `q` is of `p`,
/// the force of `p` on `q` is the exact opposite of the force of `q` on `p`.
pub proof fn lemma_equal_affinities_oppose(
    p: Particle,
    q: Particle,
    behavior: int,
    params: ParametersModel,
)
    requires
        params.valid(),
        -ONE <= behavior <= ONE,
        interacts(p, q, params.attraction_radius),
    ensures
        interacts(q, p, params.attraction_radius),
        force_between(q, p, behavior, params).0 == -force_between(p, q, behavior, params).0,
        force_between(q, p, behavior, params).1 == -force_between(p, q, behavior, params).1,
{
    lemma_force_between_bounds(p, q, behavior, params);
    lemma_direction_reverses(p, q);
    let nd: int = normalized_distance(p, q, params.attraction_radius);
    assert(normalized_distance(q, p, params.attraction_radius) == nd);
    let m: int = magnitude_at(nd, behavior, params.beta, params.gamma);
    let ux: int = direction(p, q).0;
    let uy: int = direction(p, q).1;
    assert((-ux) * m == -(ux * m) && (-uy) * m == -(uy * m)) by (nonlinear_arith);
    lemma_div_toward_zero_neg(ux * m, ONE as int);
    lemma_div_toward_zero_neg(uy * m, ONE as int);
}

/// Opposite affinities chase: beyond the near zone, where `p` is drawn to
/// `q` as strongly as `q` is driven from `p`, both feel the very same force,
/// so the one follows and the other flees. The matrix need not be symmetric,
/// and the force on each particle goes by its own affinity for the other.
pub proof fn lemma_opposite_affinities_chase(
    p: Particle,
    q: Particle,
    behavior: int,
    params: ParametersModel,
)
    requires
        params.valid(),
        -ONE <= behavior <= ONE,
        interacts(p, q, params.attraction_radius),
        normalized_distance(p, q, params.attraction_radius) >= params.beta,
    ensures
        interacts(q, p, params.attraction_radius),
        force_between(q, p, -behavior, params) == force_between(p, q, behavior, params),
{
    lemma_force_between_bounds(p, q, behavior, params);
    lemma_direction_reverses(p, q);
    let nd: int = normalized_distance(p, q, params.attraction_radius);
    assert(normalized_distance(q, p, params.attraction_radius) == nd);
    let m: int = magnitude_at(nd, behavior, params.beta, params.gamma);
    let opposite: int = magnitude_at(nd, -behavior, params.beta, params.gamma);
    assert(opposite == -m) by {
        if nd < params.gamma {
            assert((-behavior) * (nd - params.beta) == -(behavior * (nd - params.beta)))
                by (nonlinear_arith);
            lemma_div_toward_zero_neg(
                behavior * (nd - params.beta),
                params.gamma - params.beta,
            );
        } else {
            assert((-behavior) * (ONE - nd) == -(behavior * (ONE - nd))) by (nonlinear_arith);
            lemma_div_toward_zero_neg(behavior * (ONE - nd), ONE - params.gamma);
        }
    }
    let ux: int = direction(p, q).0;
    let uy: int = direction(p, q).1;
    assert((-ux) * (-m) == ux * m && (-uy) * (-m) == uy * m) by (nonlinear_arith);
}

/// The sum of `term` over the particles of `s`.
spec fn sum_over(s: Seq<Particle>, term: spec_fn(Particle) -> int) -> int
    decreases s.len(),
{
    if s.len() == 0 {
        0
    } else {
        sum_over(s.drop_last(), term) + term(s.last())
    }
}

/// Taking one particle out of a sequence takes its term out of the sum.
proof fn lemma_sum_without(s: Seq<Particle>, term: spec_fn(Particle) -> int, k: int)
    requires
        0 <= k < s.len(),
    ensures
        sum_over(s, term) == sum_over(s.remove(k), term) + term(s[k]),
    decreases s.len(),
{
    if k == s.len() - 1 {
        assert(s.remove(k) =~= s.drop_last());
    } else {
        lemma_sum_without(s.drop_last(), term, k);
        assert(s.drop_last().remove(k) =~= s.remove(k).drop_last());
        assert(s.remove(k).last() == s.last());
        assert(s.drop_last()[k] == s[k]);
    }
}

/// A sum over particles does not depend on their order.
proof fn lemma_sum_any_order(s1: Seq<Particle>, s2: Seq<Particle>, term: spec_fn(Particle) -> int)
    requires
        s1.to_multiset() == s2.to_multiset(),
    ensures
        sum_over(s1, term) == sum_over(s2, term),
    decreases s1.len(),
{
    s1.to_multiset_ensures();
    s2.to_multiset_ensures();
    if s1.len() == 0 {
        assert(s2.len() == 0);
    } else {
        let q: Particle = s1.last();
        let last: int = s1.len() - 1;
        assert(s1.contains(q));
        assert(s2.to_multiset().count(q) > 0);
        assert(s2.contains(q));
        let k: int = choose|k: int| 0 <= k < s2.len() && s2[k] == q;
        assert(s1.remove(last) =~= s1.drop_last());
        assert(s1.drop_last().to_multiset() =~= s2.remove(k).to_multiset());
        lemma_sum_any_order(s1.drop_last(), s2.remove(k), term);
        lemma_sum_without(s2, term, k);
    }
}

/// What `q` adds to the count of the particles that act on `p`.
spec fn count_term(p: Particle, radius: int) -> spec_fn(Particle) -> int {
    |q: Particle|
        if interacts(p, q, radius) {
            1int
        } else {
            0int
        }
}

/// What `q` adds to the first component of the sum of the forces on `p`.
spec fn force_term_x(
    p: Particle,
    matrix: Seq<Seq<i64>>,
    params: ParametersModel,
) -> spec_fn(Particle) -> int {
    |q: Particle|
        if interacts(p, q, params.attraction_radius) {
            force_between(
                p,
                q,
                matrix[p.color_class as int][q.color_class as int] as int,
                params,
            ).0
        } else {
            0int
        }
}

/// What `q` adds to the second component of the sum of the forces on `p`.
spec fn force_term_y(
    p: Particle,
    matrix: Seq<Seq<i64>>,
    params: ParametersModel,
) -> spec_fn(Particle) -> int {
    |q: Particle|
        if interacts(p, q, params.attraction_radius) {
            force_between(
                p,
                q,
                matrix[p.color_class as int][q.color_class as int] as int,
                params,
            ).1
        } else {
            0int
        }
}

/// The count and the sum that the engine accumulates are sums, term by
/// term, over the particles looked at.
proof fn lemma_accumulated_sums(
    snapshot: Seq<Particle>,
    i: int,
    end: int,
    matrix: Seq<Seq<i64>>,
    params: ParametersModel,
)
    requires
        0 <= i < snapshot.len(),
        0 <= end <= snapshot.len(),
    ensures
        neighbor_count(snapshot, i, end, params.attraction_radius) == sum_over(
            snapshot.take(end),
            count_term(snapshot[i], params.attraction_radius),
        ),
        force_sum(snapshot, i, end, matrix, params).0 == sum_over(
            snapshot.take(end),
            force_term_x(snapshot[i], matrix, params),
        ),
        force_sum(snapshot, i, end, matrix, params).1 == sum_over(
            snapshot.take(end),
            force_term_y(snapshot[i], matrix, params),
        ),
    decreases end,
{
    if end > 0 {
        lemma_accumulated_sums(snapshot, i, end - 1, matrix, params);
        assert(snapshot.take(end).drop_last() =~= snapshot.take(end - 1));
        assert(snapshot.take(end).last() == snapshot[end - 1]);
    }
}

/// Order independence: the net force on a particle, its velocity and its
/// next position depend on the particle and on which particles the snapshot
/// holds, and not on the order in which the snapshot lists them.
pub proof fn lemma_order_independence(
    first: Seq<Particle>,
    i: int,
    second: Seq<Particle>,
    j: int,
    matrix: Seq<Seq<i64>>,
    params: ParametersModel,
    dt: int,
)
    requires
        0 <= i < first.len(),
        0 <= j < second.len(),
        first[i] == second[j],
        first.to_multiset() == second.to_multiset(),
    ensures
        mean_force(first, i, matrix, params) == mean_force(second, j, matrix, params),
        velocity_of(first, i, matrix, params) == velocity_of(second, j, matrix, params),
        position_after(first, i, matrix, params, dt) == position_after(
            second,
            j,
            matrix,
            params,
            dt,
        ),
{
    let p: Particle = first[i];
    lemma_accumulated_sums(first, i, first.len() as int, matrix, params);
    lemma_accumulated_sums(second, j, second.len() as int, matrix, params);
    assert(first.take(first.len() as int) =~= first);
    assert(second.take(second.len() as int) =~= second);
    lemma_sum_any_order(first, second, count_term(p, params.attraction_radius));
    lemma_sum_any_order(first, second, force_term_x(p, matrix, params));
    lemma_sum_any_order(first, second, force_term_y(p, matrix, params));
}

} // verus!
