//! Contact between balls: detection, classification by type, and the
//! velocity a ball leaves a contact with.

use crate::ball::{
    lemma_debounce_window, window_after_check, window_after_checks, window_allows, Ball,
    BallMovementType, BallProperty, BallState, BallType, BallView, HIT_WINDOW,
};
use crate::vector::{
    clamp_coord, lemma_square_bound, lemma_trunc_div_error, lemma_trunc_div_exact, mul_bounded,
    saturate, trunc_div, trunc_divide, Vector, COORD_MAX,
};
use std::collections::HashMap;
use vstd::prelude::*;
use vstd::std_specs::hash::group_hash_axioms;

verus! {

/// The geometry of a contact.
#[derive(Clone, Copy, Debug, PartialEq, Eq, Structural)]
pub enum HitType {
    /// The balls do not touch.
    NoHit,
    /// Two balls touch from the outside.
    Outside,
    /// A ball touches the wall of a bowl, or has passed it.
    Inside,
}

/// What a ball needs to know about the opponent it bounces off.
#[derive(Clone, Copy, Debug, PartialEq, Eq, Structural)]
pub struct HitMoveInfo {
    pub hit_type: HitType,
    pub opponent_entity: u64,
    pub opponent_property: BallProperty,
}

/// What a contact asks of one of the two balls.
#[derive(Clone, Copy, Debug, PartialEq, Eq, Structural)]
pub enum HitAction {
    Move(HitMoveInfo),
    Success,
    Failure,
}

/// The contact between two balls with the given properties.
///
/// Two balls of which none is a bowl touch from the outside when their
/// centres are no farther apart than the sum of their radii. Where one is a
/// bowl, the contact is an inside one when the centres are farther apart
/// than the difference of the radii. Distances are compared by their
/// squares, which is exact.
pub open spec fn spec_detect_hit(p1: BallProperty, p2: BallProperty) -> HitType {
    let d2 = p1.pos.spec_distance_squared(p2.pos);
    if p1.movement_type != BallMovementType::FixedReversed && p2.movement_type
        != BallMovementType::FixedReversed {
        if d2 <= (p1.radius + p2.radius) * (p1.radius + p2.radius) {
            HitType::Outside
        } else {
            HitType::NoHit
        }
    } else {
        if d2 > (p1.radius - p2.radius) * (p1.radius - p2.radius) {
            HitType::Inside
        } else {
            HitType::NoHit
        }
    }
}

/// Detects the contact between two balls.
pub fn detect_hit(b1: &Ball, b2: &Ball) -> (hit: HitType)
    requires
        b1.wf(),
        b2.wf(),
    ensures
        hit == spec_detect_hit(b1@.property, b2@.property),
{
    let p1 = b1.property();
    let p2 = b2.property();
    let d2 = p1.pos.distance_squared(&p2.pos);
    let r1: i128 = p1.radius as i128;
    let r2: i128 = p2.radius as i128;
    if p1.movement_type != BallMovementType::FixedReversed && p2.movement_type
        != BallMovementType::FixedReversed {
        let reach = mul_bounded(r1 + r2, r1 + r2, Ghost(2 * COORD_MAX), Ghost(2 * COORD_MAX));
        if d2 > reach {
            HitType::NoHit
        } else {
            HitType::Outside
        }
    } else {
        let gap = mul_bounded(r1 - r2, r1 - r2, Ghost(COORD_MAX as int), Ghost(COORD_MAX as int));
        if d2 > gap {
            HitType::Inside
        } else {
            HitType::NoHit
        }
    }
}

/// Two balls of which none is a bowl are in contact exactly when the
/// distance of their centres is at most the sum of their radii, the case of
/// equality included.
pub proof fn lemma_outside_contact(p1: BallProperty, p2: BallProperty)
    requires
        p1.movement_type != BallMovementType::FixedReversed,
        p2.movement_type != BallMovementType::FixedReversed,
    ensures
        spec_detect_hit(p1, p2) != HitType::NoHit <==> p1.pos.spec_distance_squared(p2.pos) <= (
        p1.radius + p2.radius) * (p1.radius + p2.radius),
        spec_detect_hit(p1, p2) != HitType::NoHit ==> spec_detect_hit(p1, p2) == HitType::Outside,
        spec_detect_hit(p1, p2) == spec_detect_hit(p2, p1),
{
    assert(p1.pos.spec_distance_squared(p2.pos) == p2.pos.spec_distance_squared(p1.pos))
        by (nonlinear_arith);
    assert((p1.radius + p2.radius) * (p1.radius + p2.radius) == (p2.radius + p1.radius) * (p2.radius
        + p1.radius));
}

/// The contact normal: from the opponent to the ball for an outside
/// contact, from the ball to the opponent otherwise.
pub open spec fn hit_normal(hit_type: HitType, p1: Vector, p2: Vector) -> (int, int) {
    if hit_type == HitType::Outside {
        (p1.x - p2.x, p1.y - p2.y)
    } else {
        (p2.x - p1.x, p2.y - p1.y)
    }
}

/// The velocity the first ball would have after a contact with the second
/// if velocities knew no bound.
///
/// With the normal `n`, masses `m = r * r` and velocities `v1`, `v2`:
/// - centres that coincide give no normal, and the velocity stays;
/// - off a movable opponent the ball takes the elastic impulse
///   `v1 - 2 m2 ((v1 - v2) . n) n / ((m1 + m2) (n . n))`;
/// - off a bowl, a ball that moves toward the bowl's centre keeps its
///   velocity;
/// - off any other immovable opponent the ball is reflected:
///   `v1 - 2 (v1 . n) n / (n . n)`.
/// Each quotient is rounded toward zero.
pub open spec fn raw_velocity_after_hit(hit_type: HitType, bp1: BallProperty, bp2: BallProperty) -> (
    int,
    int,
) {
    let n = hit_normal(hit_type, bp1.pos, bp2.pos);
    let d = n.0 * n.0 + n.1 * n.1;
    if d == 0 {
        (bp1.v.x as int, bp1.v.y as int)
    } else if bp2.movement_type == BallMovementType::Movable {
        let m1 = bp1.radius * bp1.radius;
        let m2 = bp2.radius * bp2.radius;
        let dot = (bp1.v.x - bp2.v.x) * n.0 + (bp1.v.y - bp2.v.y) * n.1;
        let c = 2 * m2 * dot;
        let den = (m1 + m2) * d;
        (bp1.v.x - trunc_div(c * n.0, den), bp1.v.y - trunc_div(c * n.1, den))
    } else {
        let dot = bp1.v.x * n.0 + bp1.v.y * n.1;
        if bp2.movement_type == BallMovementType::FixedReversed && dot > 0 {
            (bp1.v.x as int, bp1.v.y as int)
        } else {
            let c = 2 * dot;
            (bp1.v.x - trunc_div(c * n.0, d), bp1.v.y - trunc_div(c * n.1, d))
        }
    }
}

/// Both components lie inside the coordinate range.
pub open spec fn in_range(v: (int, int)) -> bool {
    &&& -COORD_MAX <= v.0 <= COORD_MAX
    &&& -COORD_MAX <= v.1 <= COORD_MAX
}

/// The velocity the first ball has after a contact with the second: the
/// unbounded one with each component saturated.
pub open spec fn velocity_after_hit(hit_type: HitType, bp1: BallProperty, bp2: BallProperty) -> Vector {
    let raw = raw_velocity_after_hit(hit_type, bp1, bp2);
    Vector { x: clamp_coord(raw.0) as i64, y: clamp_coord(raw.1) as i64 }
}

/// Computes the velocity of the ball `bp1` after its contact with `bp2`.
pub fn calcuate_v_after_hit(hit_type: &HitType, bp1: &BallProperty, bp2: &BallProperty) -> (v: Vector)
    requires
        bp1.wf(),
        bp2.wf(),
    ensures
        v == velocity_after_hit(*hit_type, *bp1, *bp2),
        v.wf(),
{
    let ghost l = COORD_MAX as int;
    let v1x: i128 = bp1.v.x as i128;
    let v1y: i128 = bp1.v.y as i128;
    let nx: i128 = if *hit_type == HitType::Outside {
        bp1.pos.x as i128 - bp2.pos.x as i128
    } else {
        bp2.pos.x as i128 - bp1.pos.x as i128
    };
    let ny: i128 = if *hit_type == HitType::Outside {
        bp1.pos.y as i128 - bp2.pos.y as i128
    } else {
        bp2.pos.y as i128 - bp1.pos.y as i128
    };
    proof {
        lemma_square_bound(nx as int, 2 * l);
        lemma_square_bound(ny as int, 2 * l);
    }
    let d: i128 = nx * nx + ny * ny;
    if d == 0 {
        return bp1.v;
    }
    if bp2.movement_type == BallMovementType::Movable {
        let r1: i128 = bp1.radius as i128;
        let r2: i128 = bp2.radius as i128;
        proof {
            lemma_square_bound(r1 as int, l);
            lemma_square_bound(r2 as int, l);
            assert(r1 * r1 > 0) by (nonlinear_arith)
                requires
                    r1 > 0,
            ;
        }
        let m1: i128 = r1 * r1;
        let m2: i128 = r2 * r2;
        let dvx: i128 = v1x - bp2.v.x as i128;
        let dvy: i128 = v1y - bp2.v.y as i128;
        let px = mul_bounded(dvx, nx, Ghost(2 * l), Ghost(2 * l));
        let py = mul_bounded(dvy, ny, Ghost(2 * l), Ghost(2 * l));
        let dot: i128 = px + py;
        let c = mul_bounded(2 * m2, dot, Ghost(2 * l * l), Ghost(8 * l * l));
        let den = mul_bounded(m1 + m2, d, Ghost(2 * l * l), Ghost(8 * l * l));
        proof {
            assert((m1 + m2) * d > 0) by (nonlinear_arith)
                requires
                    m1 + m2 > 0,
                    d > 0,
            ;
        }
        let num_x = mul_bounded(c, nx, Ghost(16 * l * l * l * l), Ghost(2 * l));
        let num_y = mul_bounded(c, ny, Ghost(16 * l * l * l * l), Ghost(2 * l));
        let qx = trunc_divide(num_x, den, Ghost(32 * l * l * l * l * l));
        let qy = trunc_divide(num_y, den, Ghost(32 * l * l * l * l * l));
        Vector { x: saturate(v1x - qx), y: saturate(v1y - qy) }
    } else {
        let px = mul_bounded(v1x, nx, Ghost(l), Ghost(2 * l));
        let py = mul_bounded(v1y, ny, Ghost(l), Ghost(2 * l));
        let dot: i128 = px + py;
        if bp2.movement_type == BallMovementType::FixedReversed && dot > 0 {
            bp1.v
        } else {
            let c: i128 = 2 * dot;
            let num_x = mul_bounded(c, nx, Ghost(8 * l * l), Ghost(2 * l));
            let num_y = mul_bounded(c, ny, Ghost(8 * l * l), Ghost(2 * l));
            let qx = trunc_divide(num_x, d, Ghost(16 * l * l * l));
            let qy = trunc_divide(num_y, d, Ghost(16 * l * l * l));
            Vector { x: saturate(v1x - qx), y: saturate(v1y - qy) }
        }
    }
}

/// With equal masses `m`, `c = 2 m (2 s)` and `den = (m + m) d`, a
/// component `n` of the normal with `s n = v d` makes the numerator `c n`
/// the exact multiple `2 v` of the denominator.
proof fn lemma_head_on_numerator(m: int, s: int, n: int, v: int, d: int, c: int, den: int)
    requires
        c == 2 * m * (2 * s),
        den == (m + m) * d,
        s * n == v * d,
    ensures
        c * n == (2 * v) * den,
{
    assert(c == 4 * (m * s)) by (nonlinear_arith)
        requires
            c == 2 * m * (2 * s),
    ;
    assert(c * n == 4 * (m * (s * n))) by (nonlinear_arith)
        requires
            c == 4 * (m * s),
    ;
    assert(m * (s * n) == m * (v * d));
    assert((2 * v) * den == 4 * (m * (v * d))) by (nonlinear_arith)
        requires
            den == (m + m) * d,
    ;
}

/// Two movable balls of equal radius that meet head-on with opposite
/// velocities: the first leaves with the velocity the second came with.
proof fn lemma_head_on_takes_opposite(hit_type: HitType, bp1: BallProperty, bp2: BallProperty)
    requires
        bp1.wf(),
        bp2.wf(),
        bp2.movement_type == BallMovementType::Movable,
        bp1.radius == bp2.radius,
        bp2.v.x == -bp1.v.x,
        bp2.v.y == -bp1.v.y,
        bp1.pos != bp2.pos,
        bp1.v.x * (bp1.pos.y - bp2.pos.y) == bp1.v.y * (bp1.pos.x - bp2.pos.x),
    ensures
        velocity_after_hit(hit_type, bp1, bp2) == bp2.v,
{
    let n = hit_normal(hit_type, bp1.pos, bp2.pos);
    let (nx, ny) = n;
    let d = nx * nx + ny * ny;
    let vx = bp1.v.x as int;
    let vy = bp1.v.y as int;
    let m = bp1.radius * bp1.radius;
    let dot = (bp1.v.x - bp2.v.x) * nx + (bp1.v.y - bp2.v.y) * ny;
    let c = 2 * m * dot;
    let den = (m + m) * d;
    assert(vx * ny == vy * nx) by (nonlinear_arith)
        requires
            vx * (bp1.pos.y - bp2.pos.y) == vy * (bp1.pos.x - bp2.pos.x),
            (nx == bp1.pos.x - bp2.pos.x && ny == bp1.pos.y - bp2.pos.y) || (nx == bp2.pos.x
                - bp1.pos.x && ny == bp2.pos.y - bp1.pos.y),
    ;
    assert(d > 0) by (nonlinear_arith)
        requires
            d == nx * nx + ny * ny,
            nx != 0 || ny != 0,
    ;
    assert(m > 0) by (nonlinear_arith)
        requires
            m == bp1.radius * bp1.radius,
            bp1.radius > 0,
    ;
    assert(den > 0) by (nonlinear_arith)
        requires
            den == (m + m) * d,
            m > 0,
            d > 0,
    ;
    assert(dot == 2 * (vx * nx + vy * ny)) by (nonlinear_arith)
        requires
            dot == (vx - (-vx)) * nx + (vy - (-vy)) * ny,
    ;
    assert(c == 2 * m * (2 * (vx * nx + vy * ny)));
    assert((vx * nx + vy * ny) * nx == vx * d && (vx * nx + vy * ny) * ny == vy * d)
        by (nonlinear_arith)
        requires
            vx * ny == vy * nx,
            d == nx * nx + ny * ny,
    ;
    lemma_head_on_numerator(m, vx * nx + vy * ny, nx, vx, d, c, den);
    lemma_head_on_numerator(m, vx * nx + vy * ny, ny, vy, d, c, den);
    lemma_trunc_div_exact(2 * vx, den);
    lemma_trunc_div_exact(2 * vy, den);
}

/// Two movable balls of equal radius that collide head-on with equal and
/// opposite velocities swap their velocities, whatever the kind of contact.
///
/// Head-on means that the velocity points along the line of the centres.
pub proof fn lemma_head_on_swap(hit_type: HitType, bp1: BallProperty, bp2: BallProperty)
    requires
        bp1.wf(),
        bp2.wf(),
        bp1.movement_type == BallMovementType::Movable,
        bp2.movement_type == BallMovementType::Movable,
        bp1.radius == bp2.radius,
        bp2.v.x == -bp1.v.x,
        bp2.v.y == -bp1.v.y,
        bp1.pos != bp2.pos,
        bp1.v.x * (bp1.pos.y - bp2.pos.y) == bp1.v.y * (bp1.pos.x - bp2.pos.x),
    ensures
        velocity_after_hit(hit_type, bp1, bp2) == bp2.v,
        velocity_after_hit(hit_type, bp2, bp1) == bp1.v,
{
    lemma_head_on_takes_opposite(hit_type, bp1, bp2);
    assert(bp2.v.x * (bp2.pos.y - bp1.pos.y) == bp2.v.y * (bp2.pos.x - bp1.pos.x))
        by (nonlinear_arith)
        requires
            bp1.v.x * (bp1.pos.y - bp2.pos.y) == bp1.v.y * (bp1.pos.x - bp2.pos.x),
            bp2.v.x == -bp1.v.x,
            bp2.v.y == -bp1.v.y,
    ;
    lemma_head_on_takes_opposite(hit_type, bp2, bp1);
}

/// The two impulses of an elastic contact balance: with the numerators
/// `(2 m2 t) n` and `(2 m1 t) (-n)` over the common denominator `den`,
/// quotients `q1`, `q2` that miss the exact ones by less than one unit give
/// `|m1 q1 + m2 q2| < m1 + m2`.
proof fn lemma_impulses_balance(m1: int, m2: int, den: int, n: int, t: int, q1: int, q2: int)
    requires
        m1 > 0,
        m2 > 0,
        den > 0,
        -den < (2 * m2 * t) * n - den * q1 < den,
        -den < (2 * m1 * t) * (-n) - den * q2 < den,
    ensures
        -(m1 + m2) < m1 * q1 + m2 * q2 < m1 + m2,
{
    let num1 = (2 * m2 * t) * n;
    let num2 = (2 * m1 * t) * (-n);
    let e1 = num1 - den * q1;
    let e2 = num2 - den * q2;
    let sum = m1 * q1 + m2 * q2;
    assert(m1 * num1 + m2 * num2 == 0) by (nonlinear_arith)
        requires
            num1 == (2 * m2 * t) * n,
            num2 == (2 * m1 * t) * (-n),
    ;
    assert(den * sum == m1 * (den * q1) + m2 * (den * q2)) by (nonlinear_arith)
        requires
            sum == m1 * q1 + m2 * q2,
    ;
    assert(m1 * (den * q1) == m1 * num1 - m1 * e1) by (nonlinear_arith)
        requires
            e1 == num1 - den * q1,
    ;
    assert(m2 * (den * q2) == m2 * num2 - m2 * e2) by (nonlinear_arith)
        requires
            e2 == num2 - den * q2,
    ;
    assert(-(m1 * den) < m1 * e1 < m1 * den) by (nonlinear_arith)
        requires
            m1 > 0,
            -den < e1 < den,
    ;
    assert(-(m2 * den) < m2 * e2 < m2 * den) by (nonlinear_arith)
        requires
            m2 > 0,
            -den < e2 < den,
    ;
    assert((m1 + m2) * den == m1 * den + m2 * den) by (nonlinear_arith);
    assert(-((m1 + m2) * den) < den * sum < (m1 + m2) * den);
    assert(-(m1 + m2) < sum < m1 + m2) by (nonlinear_arith)
        requires
            den > 0,
            -((m1 + m2) * den) < den * sum < (m1 + m2) * den,
    ;
}

/// Two movable balls that collide keep their total momentum, up to the
/// rounding of the two responses: with the masses `m = r * r`, the sum
/// `m1 v1 + m2 v2` changes by less than `m1 + m2` on each axis. Contacts
/// whose response is saturated are left out.
pub proof fn lemma_momentum_is_kept(hit_type: HitType, bp1: BallProperty, bp2: BallProperty)
    requires
        bp1.wf(),
        bp2.wf(),
        bp1.movement_type == BallMovementType::Movable,
        bp2.movement_type == BallMovementType::Movable,
        bp1.pos != bp2.pos,
        in_range(raw_velocity_after_hit(hit_type, bp1, bp2)),
        in_range(raw_velocity_after_hit(hit_type, bp2, bp1)),
    ensures
        ({
            let m1 = bp1.radius * bp1.radius;
            let m2 = bp2.radius * bp2.radius;
            let after1 = velocity_after_hit(hit_type, bp1, bp2);
            let after2 = velocity_after_hit(hit_type, bp2, bp1);
            &&& -(m1 + m2) < (m1 * after1.x + m2 * after2.x) - (m1 * bp1.v.x + m2 * bp2.v.x) < m1
                + m2
            &&& -(m1 + m2) < (m1 * after1.y + m2 * after2.y) - (m1 * bp1.v.y + m2 * bp2.v.y) < m1
                + m2
        }),
{
    let m1 = bp1.radius * bp1.radius;
    let m2 = bp2.radius * bp2.radius;
    let n = hit_normal(hit_type, bp1.pos, bp2.pos);
    let back = hit_normal(hit_type, bp2.pos, bp1.pos);
    let (nx, ny) = n;
    let d = nx * nx + ny * ny;
    let t = (bp1.v.x - bp2.v.x) * nx + (bp1.v.y - bp2.v.y) * ny;
    let den = (m1 + m2) * d;
    assert(back.0 == -nx && back.1 == -ny);
    assert(back.0 * back.0 + back.1 * back.1 == d) by (nonlinear_arith)
        requires
            back.0 == -nx,
            back.1 == -ny,
            d == nx * nx + ny * ny,
    ;
    assert((bp2.v.x - bp1.v.x) * back.0 + (bp2.v.y - bp1.v.y) * back.1 == t) by (nonlinear_arith)
        requires
            back.0 == -nx,
            back.1 == -ny,
            t == (bp1.v.x - bp2.v.x) * nx + (bp1.v.y - bp2.v.y) * ny,
    ;
    assert(m1 > 0) by (nonlinear_arith)
        requires
            m1 == bp1.radius * bp1.radius,
            bp1.radius > 0,
    ;
    assert(m2 > 0) by (nonlinear_arith)
        requires
            m2 == bp2.radius * bp2.radius,
            bp2.radius > 0,
    ;
    assert(d > 0) by (nonlinear_arith)
        requires
            d == nx * nx + ny * ny,
            nx != 0 || ny != 0,
    ;
    assert(den > 0) by (nonlinear_arith)
        requires
            den == (m1 + m2) * d,
            m1 + m2 > 0,
            d > 0,
    ;
    assert((m2 + m1) * d == den);
    let q1x = trunc_div((2 * m2 * t) * nx, den);
    let q1y = trunc_div((2 * m2 * t) * ny, den);
    let q2x = trunc_div((2 * m1 * t) * (-nx), den);
    let q2y = trunc_div((2 * m1 * t) * (-ny), den);
    lemma_trunc_div_error((2 * m2 * t) * nx, den);
    lemma_trunc_div_error((2 * m2 * t) * ny, den);
    lemma_trunc_div_error((2 * m1 * t) * (-nx), den);
    lemma_trunc_div_error((2 * m1 * t) * (-ny), den);
    lemma_impulses_balance(m1, m2, den, nx, t, q1x, q2x);
    lemma_impulses_balance(m1, m2, den, ny, t, q1y, q2y);
    let after1 = velocity_after_hit(hit_type, bp1, bp2);
    let after2 = velocity_after_hit(hit_type, bp2, bp1);
    assert(after1.x == bp1.v.x - q1x && after1.y == bp1.v.y - q1y);
    assert(after2.x == bp2.v.x - q2x && after2.y == bp2.v.y - q2y);
    assert((m1 * after1.x + m2 * after2.x) - (m1 * bp1.v.x + m2 * bp2.v.x) == -(m1 * q1x + m2
        * q2x)) by (nonlinear_arith)
        requires
            after1.x == bp1.v.x - q1x,
            after2.x == bp2.v.x - q2x,
    ;
    assert((m1 * after1.y + m2 * after2.y) - (m1 * bp1.v.y + m2 * bp2.v.y) == -(m1 * q1y + m2
        * q2y)) by (nonlinear_arith)
        requires
            after1.y == bp1.v.y - q1y,
            after2.y == bp2.v.y - q2y,
    ;
}

/// `(p - q)^2 = p^2 - 2 p q + q^2`.
proof fn lemma_square_of_difference(p: int, q: int)
    by (nonlinear_arith)
    ensures
        (p - q) * (p - q) == p * p - 2 * (p * q) + q * q,
{
}

/// `(d a)^2 + (d b)^2 = d^2 (a^2 + b^2)`.
proof fn lemma_scaled_norm(d: int, a: int, b: int)
    by (nonlinear_arith)
    ensures
        (d * a) * (d * a) + (d * b) * (d * b) == d * d * (a * a + b * b),
{
}

/// A positive factor can be cancelled.
proof fn lemma_mul_cancel(k: int, x: int, y: int)
    by (nonlinear_arith)
    requires
        k > 0,
        k * x == k * y,
    ensures
        x == y,
{
}

/// `(d a)(2 t n) = 2 (d t) (a n)`.
proof fn lemma_four_product(d: int, a: int, t: int, n: int)
    by (nonlinear_arith)
    ensures
        (d * a) * (2 * t * n) == 2 * ((d * t) * (a * n)),
{
}

/// `k (x + y) = k x + k y`.
proof fn lemma_distribute(k: int, x: int, y: int)
    by (nonlinear_arith)
    ensures
        k * (x + y) == k * x + k * y,
{
}

/// The mixed terms of the squared reflection: with `t = (v . n)`,
/// `(d a)(2 t nx) + (d b)(2 t ny) = 2 (d t) (a nx + b ny)`.
proof fn lemma_reflection_mixed(d: int, t: int, a: int, b: int, nx: int, ny: int)
    ensures
        (d * a) * (2 * t * nx) + (d * b) * (2 * t * ny) == 2 * ((d * t) * (a * nx + b * ny)),
{
    lemma_four_product(d, a, t, nx);
    lemma_four_product(d, b, t, ny);
    lemma_distribute(d * t, a * nx, b * ny);
}

/// The squares of the subtracted part: `(2 t nx)^2 + (2 t ny)^2 = 4 t^2 (n . n)`.
proof fn lemma_reflection_squares(t: int, nx: int, ny: int)
    by (nonlinear_arith)
    ensures
        (2 * t * nx) * (2 * t * nx) + (2 * t * ny) * (2 * t * ny) == 4 * (t * t * (nx * nx + ny
            * ny)),
{
}

/// The exact reflection keeps the length: with `d = n . n` and `t = v . n`,
/// `|d v - 2 t n|^2 = d^2 |v|^2`.
proof fn lemma_scaled_reflection_norm(a: int, b: int, nx: int, ny: int)
    ensures
        ({
            let d = nx * nx + ny * ny;
            let t = a * nx + b * ny;
            let w0 = d * a - 2 * t * nx;
            let w1 = d * b - 2 * t * ny;
            w0 * w0 + w1 * w1 == d * d * (a * a + b * b)
        }),
{
    let d = nx * nx + ny * ny;
    let t = a * nx + b * ny;
    lemma_square_of_difference(d * a, 2 * t * nx);
    lemma_square_of_difference(d * b, 2 * t * ny);
    lemma_scaled_norm(d, a, b);
    lemma_reflection_mixed(d, t, a, b, nx, ny);
    lemma_reflection_squares(t, nx, ny);
    assert((d * t) * t == t * t * d) by (nonlinear_arith);
}

/// The reflection of `v` off the normal `n`, scaled by `n . n`: the
/// component along `x` and the component along `y` of
/// `(n . n) v - 2 (v . n) n`.
pub open spec fn scaled_reflection(v: Vector, n: (int, int)) -> (int, int) {
    let d = n.0 * n.0 + n.1 * n.1;
    let dot = v.x * n.0 + v.y * n.1;
    (d * v.x - 2 * dot * n.0, d * v.y - 2 * dot * n.1)
}

/// The ball `bp1` is reflected by its contact with `bp2`: the opponent is
/// a solid obstacle, or a bowl toward whose centre the ball does not move.
pub open spec fn is_reflected(hit_type: HitType, bp1: BallProperty, bp2: BallProperty) -> bool {
    let n = hit_normal(hit_type, bp1.pos, bp2.pos);
    match bp2.movement_type {
        BallMovementType::Movable => false,
        BallMovementType::Fixed => true,
        BallMovementType::FixedReversed => bp1.v.x * n.0 + bp1.v.y * n.1 <= 0,
    }
}

/// A ball inside a bowl that moves toward the bowl's centre keeps its
/// velocity, so that the wall never throws it outward.
pub proof fn lemma_inward_ball_keeps_velocity(bp1: BallProperty, bp2: BallProperty)
    requires
        bp1.wf(),
        bp2.movement_type == BallMovementType::FixedReversed,
        bp1.v.x * (bp2.pos.x - bp1.pos.x) + bp1.v.y * (bp2.pos.y - bp1.pos.y) > 0,
    ensures
        velocity_after_hit(HitType::Inside, bp1, bp2) == bp1.v,
{
}

/// A ball that bounces off an immovable opponent keeps its speed.
///
/// The exact reflection, taken `n . n` times, is as long as the velocity
/// taken `n . n` times. The velocity after the contact is that reflection
/// with each component rounded toward zero: it misses the exact one by less
/// than one unit on each axis, and not at all where the division comes out
/// even, in which case the speed is the same to the last unit. Contacts
/// whose response is saturated are left out.
pub proof fn lemma_reflection_keeps_speed(hit_type: HitType, bp1: BallProperty, bp2: BallProperty)
    requires
        bp1.wf(),
        bp2.wf(),
        is_reflected(hit_type, bp1, bp2),
        bp1.pos != bp2.pos,
        in_range(raw_velocity_after_hit(hit_type, bp1, bp2)),
    ensures
        ({
            let n = hit_normal(hit_type, bp1.pos, bp2.pos);
            let d = n.0 * n.0 + n.1 * n.1;
            let w = scaled_reflection(bp1.v, n);
            let t = bp1.v.x * n.0 + bp1.v.y * n.1;
            let after = velocity_after_hit(hit_type, bp1, bp2);
            &&& d > 0
            &&& w.0 * w.0 + w.1 * w.1 == d * d * bp1.v.norm_squared()
            &&& -d < d * after.x - w.0 < d
            &&& -d < d * after.y - w.1 < d
            &&& (2 * t * n.0) % d == 0 && (2 * t * n.1) % d == 0 ==> after.norm_squared()
                == bp1.v.norm_squared()
        }),
{
    let n = hit_normal(hit_type, bp1.pos, bp2.pos);
    let (nx, ny) = n;
    let d = nx * nx + ny * ny;
    let vx = bp1.v.x as int;
    let vy = bp1.v.y as int;
    let dot = vx * nx + vy * ny;
    let w = scaled_reflection(bp1.v, n);
    let after = velocity_after_hit(hit_type, bp1, bp2);
    let qx = trunc_div(2 * dot * nx, d);
    let qy = trunc_div(2 * dot * ny, d);
    assert(d > 0) by (nonlinear_arith)
        requires
            d == nx * nx + ny * ny,
            nx != 0 || ny != 0,
    ;
    lemma_scaled_reflection_norm(vx, vy, nx, ny);
    lemma_trunc_div_error(2 * dot * nx, d);
    lemma_trunc_div_error(2 * dot * ny, d);
    assert(after.x == vx - qx);
    assert(after.y == vy - qy);
    assert(d * after.x - w.0 == 2 * dot * nx - d * qx) by (nonlinear_arith)
        requires
            after.x == vx - qx,
            w.0 == d * vx - 2 * dot * nx,
    ;
    assert(d * after.y - w.1 == 2 * dot * ny - d * qy) by (nonlinear_arith)
        requires
            after.y == vy - qy,
            w.1 == d * vy - 2 * dot * ny,
    ;
    if (2 * dot * nx) % d == 0 && (2 * dot * ny) % d == 0 {
        assert(d * after.x == w.0 && d * after.y == w.1);
        let ax = after.x as int;
        let ay = after.y as int;
        lemma_scaled_norm(d, ax, ay);
        assert(d * d > 0) by (nonlinear_arith)
            requires
                d > 0,
        ;
        lemma_mul_cancel(d * d, ax * ax + ay * ay, vx * vx + vy * vy);
    }
}

/// The kind of outcome a contact has, decided by the types of the two balls.
#[derive(Clone, Copy, Debug, PartialEq, Eq, Structural)]
pub enum HitStatus {
    /// The balls bounce off each other.
    Hit,
    /// A stone has reached a goal.
    Success,
    /// A stone has met a bomb.
    Failure,
}

/// The outcome table: a stone and a goal succeed, a stone and a bomb fail,
/// every other pair bounces.
pub open spec fn spec_hit_status(t1: BallType, t2: BallType) -> HitStatus {
    match (t1, t2) {
        (BallType::Stone, BallType::Goal) => HitStatus::Success,
        (BallType::Goal, BallType::Stone) => HitStatus::Success,
        (BallType::Stone, BallType::Bomb) => HitStatus::Failure,
        (BallType::Bomb, BallType::Stone) => HitStatus::Failure,
        _ => HitStatus::Hit,
    }
}

/// Looks the outcome of a contact up in the outcome table.
pub fn hit_status(t1: BallType, t2: BallType) -> (status: HitStatus)
    ensures
        status == spec_hit_status(t1, t2),
{
    match t1 {
        BallType::Stone => match t2 {
            BallType::Stone => HitStatus::Hit,
            BallType::Goal => HitStatus::Success,
            BallType::Bomb => HitStatus::Failure,
        },
        BallType::Goal => match t2 {
            BallType::Stone => HitStatus::Success,
            BallType::Goal => HitStatus::Hit,
            BallType::Bomb => HitStatus::Hit,
        },
        BallType::Bomb => match t2 {
            BallType::Stone => HitStatus::Failure,
            BallType::Goal => HitStatus::Hit,
            BallType::Bomb => HitStatus::Hit,
        },
    }
}

/// What a contact of the given outcome asks of a ball whose opponent is
/// `opponent`.
pub open spec fn action_against(
    status: HitStatus,
    hit_type: HitType,
    opponent_entity: u64,
    opponent: BallView,
) -> HitAction {
    match status {
        HitStatus::Hit => HitAction::Move(
            HitMoveInfo { hit_type, opponent_entity, opponent_property: opponent.property },
        ),
        HitStatus::Success => HitAction::Success,
        HitStatus::Failure => HitAction::Failure,
    }
}

/// The actions that one contact adds to the list of the entity `e`: the
/// first ball's action if `e` is the first ball, then the second ball's
/// action if `e` is the second.
pub open spec fn pair_contribution(
    hit_type: HitType,
    e1: u64,
    b1: BallView,
    e2: u64,
    b2: BallView,
    e: u64,
) -> Seq<HitAction> {
    let status = spec_hit_status(b1.ball_type, b2.ball_type);
    let first = if e == e1 {
        seq![action_against(status, hit_type, e2, b2)]
    } else {
        Seq::empty()
    };
    let second = if e == e2 {
        seq![action_against(status, hit_type, e1, b1)]
    } else {
        Seq::empty()
    };
    first + second
}

/// The actions a hit map holds for the entity `e`; none where it has no
/// entry.
pub open spec fn pending_actions(m: Map<u64, Vec<HitAction>>, e: u64) -> Seq<HitAction> {
    if m.contains_key(e) {
        m[e]@
    } else {
        Seq::empty()
    }
}

/// Appends one action to the list of the entity `e`.
fn push_action(hit_map: &mut HashMap<u64, Vec<HitAction>>, e: u64, action: HitAction)
    ensures
        forall|k: u64|
            #[trigger] pending_actions(final(hit_map)@, k) == if k == e {
                pending_actions(old(hit_map)@, k).push(action)
            } else {
                pending_actions(old(hit_map)@, k)
            },
        forall|k: u64|
            #[trigger] final(hit_map)@.contains_key(k) <==> old(hit_map)@.contains_key(k) || k == e,
{
    broadcast use group_hash_axioms;

    let mut actions = match hit_map.remove(&e) {
        Some(actions) => actions,
        None => Vec::new(),
    };
    actions.push(action);
    hit_map.insert(e, actions);
}

/// Enters one detected contact between the balls `b1` and `b2`, known under
/// the entities `e1` and `e2`, in the hit map: each ball gets the action
/// that the outcome table asks of it, appended to what it already has.
pub fn record_hit_action(
    hit_map: &mut HashMap<u64, Vec<HitAction>>,
    hit_type: HitType,
    e1: u64,
    b1: &Ball,
    e2: u64,
    b2: &Ball,
)
    ensures
        forall|k: u64|
            #[trigger] pending_actions(final(hit_map)@, k) == pending_actions(old(hit_map)@, k)
                + pair_contribution(hit_type, e1, b1@, e2, b2@, k),
        forall|k: u64|
            #[trigger] final(hit_map)@.contains_key(k) <==> old(hit_map)@.contains_key(k) || k == e1
                || k == e2,
{
    let status = hit_status(b1.ball_type(), b2.ball_type());
    let e1_action: HitAction;
    let e2_action: HitAction;
    match status {
        HitStatus::Hit => {
            e1_action =
            HitAction::Move(
                HitMoveInfo { hit_type, opponent_entity: e2, opponent_property: b2.property() },
            );
            e2_action =
            HitAction::Move(
                HitMoveInfo { hit_type, opponent_entity: e1, opponent_property: b1.property() },
            );
        },
        HitStatus::Success => {
            e1_action = HitAction::Success;
            e2_action = HitAction::Success;
        },
        HitStatus::Failure => {
            e1_action = HitAction::Failure;
            e2_action = HitAction::Failure;
        },
    }
    let ghost before = hit_map@;
    push_action(hit_map, e1, e1_action);
    let ghost between = hit_map@;
    push_action(hit_map, e2, e2_action);
    proof {
        assert forall|k: u64|
            #[trigger] pending_actions(hit_map@, k) == pending_actions(before, k)
                + pair_contribution(hit_type, e1, b1@, e2, b2@, k) by {
            let mid = pending_actions(between, k);
            assert(pending_actions(hit_map@, k) =~= pending_actions(before, k) + pair_contribution(
                hit_type,
                e1,
                b1@,
                e2,
                b2@,
                k,
            ));
        }
    }
}

/// The contact between two balls of the active set: balls that are not
/// both running do not touch.
pub open spec fn contact(b1: BallView, b2: BallView) -> HitType {
    if b1.state == BallState::Running && b2.state == BallState::Running {
        spec_detect_hit(b1.property, b2.property)
    } else {
        HitType::NoHit
    }
}

/// What the pair of the balls at the places `i` and `j` adds to the list of
/// the entity `e`.
pub open spec fn pair_entry(balls: Seq<BallView>, i: int, j: int, e: u64) -> Seq<HitAction> {
    let hit = contact(balls[i], balls[j]);
    if hit == HitType::NoHit {
        Seq::empty()
    } else {
        pair_contribution(hit, balls[i].root_entity, balls[i], balls[j].root_entity, balls[j], e)
    }
}

/// What the pairs `(i, j)` with `i < j < j_end` add to the list of `e`, in
/// the order of `j`.
pub open spec fn row_actions(balls: Seq<BallView>, i: int, j_end: int, e: u64) -> Seq<HitAction>
    decreases j_end - i,
{
    if j_end <= i + 1 {
        Seq::empty()
    } else {
        row_actions(balls, i, j_end - 1, e) + pair_entry(balls, i, j_end - 1, e)
    }
}

/// What all pairs whose first place is below `i_end` add to the list of
/// `e`, row after row.
pub open spec fn hit_actions_upto(balls: Seq<BallView>, i_end: int, e: u64) -> Seq<HitAction>
    decreases i_end,
{
    if i_end <= 0 {
        Seq::empty()
    } else {
        hit_actions_upto(balls, i_end - 1, e) + row_actions(balls, i_end - 1, balls.len() as int, e)
    }
}

/// The actions of one tick for the entity `e`: every pair of places
/// `i < j` is looked at once, in the order of `i` and then of `j`, and each
/// contact between two running balls contributes in that order.
pub open spec fn hit_actions(balls: Seq<BallView>, e: u64) -> Seq<HitAction> {
    hit_actions_upto(balls, balls.len() as int, e)
}

/// The views of the balls of a list, place by place.
pub open spec fn ball_views(balls: Seq<Ball>) -> Seq<BallView> {
    Seq::new(balls.len(), |i: int| balls[i]@)
}

/// Every ball of the list is well formed.
pub open spec fn all_wf(balls: Seq<Ball>) -> bool {
    forall|i: int| 0 <= i < balls.len() ==> (#[trigger] balls[i]).wf()
}

/// Builds the hit map of one tick: for each entity the actions that the
/// contacts among the running balls ask of it. An entity without a contact
/// has no entry.
pub fn build_hit_map(balls: &Vec<Ball>) -> (hit_map: HashMap<u64, Vec<HitAction>>)
    requires
        all_wf(balls@),
    ensures
        forall|e: u64| #[trigger]
            pending_actions(hit_map@, e) == hit_actions(ball_views(balls@), e),
        forall|e: u64| #[trigger]
            hit_map@.contains_key(e) <==> hit_actions(ball_views(balls@), e).len() > 0,
{
    let ghost views = ball_views(balls@);
    let mut hit_map: HashMap<u64, Vec<HitAction>> = HashMap::new();
    let n = balls.len();
    let mut i: usize = 0;
    while i < n
        invariant
            n == balls@.len(),
            views == ball_views(balls@),
            i <= n,
            all_wf(balls@),
            forall|e: u64| #[trigger]
                pending_actions(hit_map@, e) == hit_actions_upto(views, i as int, e),
            forall|e: u64| #[trigger]
                hit_map@.contains_key(e) <==> hit_actions_upto(views, i as int, e).len() > 0,
        decreases n - i,
    {
        let mut j: usize = i + 1;
        while j < n
            invariant
                n == balls@.len(),
                views == ball_views(balls@),
                i < n,
                i + 1 <= j <= n,
                all_wf(balls@),
                forall|e: u64| #[trigger]
                    pending_actions(hit_map@, e) == hit_actions_upto(views, i as int, e)
                        + row_actions(views, i as int, j as int, e),
                forall|e: u64| #[trigger]
                    hit_map@.contains_key(e) <==> (hit_actions_upto(views, i as int, e)
                        + row_actions(views, i as int, j as int, e)).len() > 0,
            decreases n - j,
        {
            let b1 = &balls[i];
            let b2 = &balls[j];
            let ghost before = hit_map@;
            if b1.state() == BallState::Running && b2.state() == BallState::Running {
                let hit_type = detect_hit(b1, b2);
                if hit_type != HitType::NoHit {
                    record_hit_action(
                        &mut hit_map,
                        hit_type,
                        b1.root_entity(),
                        b1,
                        b2.root_entity(),
                        b2,
                    );
                }
            }
            proof {
                assert forall|e: u64|
                    #[trigger] pending_actions(hit_map@, e) == hit_actions_upto(
                        views,
                        i as int,
                        e,
                    ) + row_actions(views, i as int, j + 1, e) by {
                    let done = hit_actions_upto(views, i as int, e);
                    let row = row_actions(views, i as int, j as int, e);
                    let entry = pair_entry(views, i as int, j as int, e);
                    assert(pending_actions(before, e) == done + row);
                    assert(pending_actions(hit_map@, e) == pending_actions(before, e) + entry);
                    assert((done + row) + entry =~= done + (row + entry));
                }
                assert forall|e: u64| #[trigger]
                    hit_map@.contains_key(e) <==> (hit_actions_upto(views, i as int, e)
                        + row_actions(views, i as int, j + 1, e)).len() > 0 by {
                    let done = hit_actions_upto(views, i as int, e);
                    let row = row_actions(views, i as int, j as int, e);
                    let entry = pair_entry(views, i as int, j as int, e);
                    assert(before.contains_key(e) <==> (done + row).len() > 0);
                    assert(pending_actions(hit_map@, e) == done + row_actions(
                        views,
                        i as int,
                        j + 1,
                        e,
                    ));
                }
            }
            j += 1;
        }
        i += 1;
    }
    hit_map
}

/// Where no pair of balls adds anything to the list of `e`, the list of
/// `e` is empty.
pub proof fn lemma_no_entries_no_actions(balls: Seq<BallView>, e: u64)
    requires
        forall|i: int, j: int|
            0 <= i < j < balls.len() ==> (#[trigger] pair_entry(balls, i, j, e)).len() == 0,
    ensures
        hit_actions(balls, e) == Seq::<HitAction>::empty(),
{
    lemma_no_entries_upto(balls, balls.len() as int, e);
}

/// The same for the rows below `i_end`.
proof fn lemma_no_entries_upto(balls: Seq<BallView>, i_end: int, e: u64)
    requires
        forall|i: int, j: int|
            0 <= i < j < balls.len() ==> (#[trigger] pair_entry(balls, i, j, e)).len() == 0,
        i_end <= balls.len(),
    ensures
        hit_actions_upto(balls, i_end, e) == Seq::<HitAction>::empty(),
    decreases i_end,
{
    if i_end > 0 {
        lemma_no_entries_upto(balls, i_end - 1, e);
        lemma_no_entries_row(balls, i_end - 1, balls.len() as int, e);
        assert(hit_actions_upto(balls, i_end, e) =~= Seq::<HitAction>::empty());
    }
}

/// The same for one row.
proof fn lemma_no_entries_row(balls: Seq<BallView>, i: int, j_end: int, e: u64)
    requires
        forall|i: int, j: int|
            0 <= i < j < balls.len() ==> (#[trigger] pair_entry(balls, i, j, e)).len() == 0,
        0 <= i,
        j_end <= balls.len(),
    ensures
        row_actions(balls, i, j_end, e) == Seq::<HitAction>::empty(),
    decreases j_end - i,
{
    if j_end > i + 1 {
        lemma_no_entries_row(balls, i, j_end - 1, e);
        assert(pair_entry(balls, i, j_end - 1, e).len() == 0);
        assert(row_actions(balls, i, j_end, e) =~= Seq::<HitAction>::empty());
    }
}

/// Where no two balls touch, nobody has anything to do: in particular a
/// field with fewer than two running balls gives an empty hit map.
pub proof fn lemma_no_contact_no_actions(balls: Seq<BallView>, e: u64)
    requires
        forall|i: int, j: int|
            0 <= i < j < balls.len() ==> contact(#[trigger] balls[i], #[trigger] balls[j])
                == HitType::NoHit,
    ensures
        hit_actions(balls, e) == Seq::<HitAction>::empty(),
{
    assert forall|i: int, j: int| 0 <= i < j < balls.len() implies (#[trigger] pair_entry(
        balls,
        i,
        j,
        e,
    )).len() == 0 by {
        assert(contact(balls[i], balls[j]) == HitType::NoHit);
    }
    lemma_no_entries_no_actions(balls, e);
}

/// The entities of the balls are all different.
pub open spec fn distinct_entities(balls: Seq<BallView>) -> bool {
    forall|i: int, j: int|
        0 <= i < j < balls.len() ==> (#[trigger] balls[i]).root_entity != (
        #[trigger] balls[j]).root_entity
}

/// A ball that is not running has nothing to do, given that no other ball
/// goes by its entity.
pub proof fn lemma_idle_ball_has_no_actions(balls: Seq<BallView>, i: int)
    requires
        0 <= i < balls.len(),
        distinct_entities(balls),
        balls[i].state != BallState::Running,
    ensures
        hit_actions(balls, balls[i].root_entity) == Seq::<HitAction>::empty(),
{
    let e = balls[i].root_entity;
    assert forall|a: int, b: int| 0 <= a < b < balls.len() implies (#[trigger] pair_entry(
        balls,
        a,
        b,
        e,
    )).len() == 0 by {
        if contact(balls[a], balls[b]) != HitType::NoHit {
            assert(a != i && b != i);
            if a < i {
                assert(balls[a].root_entity != balls[i].root_entity);
            } else {
                assert(balls[i].root_entity != balls[a].root_entity);
            }
            if b < i {
                assert(balls[b].root_entity != balls[i].root_entity);
            } else {
                assert(balls[i].root_entity != balls[b].root_entity);
            }
        }
    }
    lemma_no_entries_no_actions(balls, e);
}

/// What the ball at the place `k` is asked by its contact with the ball at
/// the place `p`, if they touch.
pub open spec fn action_of_pair(balls: Seq<BallView>, k: int, p: int) -> Seq<HitAction> {
    let first = if k < p {
        k
    } else {
        p
    };
    let second = if k < p {
        p
    } else {
        k
    };
    let hit = contact(balls[first], balls[second]);
    if hit == HitType::NoHit {
        Seq::empty()
    } else {
        seq![
            action_against(
                spec_hit_status(balls[first].ball_type, balls[second].ball_type),
                hit,
                balls[p].root_entity,
                balls[p],
            ),
        ]
    }
}

/// What the ball at the place `k` is asked by its contacts with the balls
/// at the places below `p_end`, in the order of their places.
pub open spec fn partner_actions(balls: Seq<BallView>, k: int, p_end: int) -> Seq<HitAction>
    decreases p_end,
{
    if p_end <= 0 {
        Seq::empty()
    } else if p_end - 1 == k {
        partner_actions(balls, k, p_end - 1)
    } else {
        partner_actions(balls, k, p_end - 1) + action_of_pair(balls, k, p_end - 1)
    }
}

/// In a row below `k`, only the pair with `k` speaks to the ball at `k`.
proof fn lemma_row_below(balls: Seq<BallView>, k: int, i: int, j_end: int)
    requires
        distinct_entities(balls),
        0 <= i < k < balls.len(),
        j_end <= balls.len(),
    ensures
        row_actions(balls, i, j_end, balls[k].root_entity) == if j_end > k {
            action_of_pair(balls, k, i)
        } else {
            Seq::empty()
        },
    decreases j_end - i,
{
    let e = balls[k].root_entity;
    if j_end > i + 1 {
        lemma_row_below(balls, k, i, j_end - 1);
        let j = j_end - 1;
        assert(balls[i].root_entity != e);
        if j < k {
            assert(balls[j].root_entity != e);
        } else if j > k {
            assert(e != balls[j].root_entity);
        }
        assert(row_actions(balls, i, j_end, e) =~= if j_end > k {
            action_of_pair(balls, k, i)
        } else {
            Seq::empty()
        });
    }
}

/// The row of `k` speaks to the ball at `k` of its partners above it.
proof fn lemma_row_own(balls: Seq<BallView>, k: int, j_end: int)
    requires
        distinct_entities(balls),
        0 <= k < j_end <= balls.len(),
    ensures
        partner_actions(balls, k, j_end) == partner_actions(balls, k, k) + row_actions(
            balls,
            k,
            j_end,
            balls[k].root_entity,
        ),
    decreases j_end - k,
{
    let e = balls[k].root_entity;
    if j_end > k + 1 {
        lemma_row_own(balls, k, j_end - 1);
        let j = j_end - 1;
        assert(e != balls[j].root_entity);
        assert(pair_entry(balls, k, j, e) =~= action_of_pair(balls, k, j));
        assert(partner_actions(balls, k, j_end) =~= partner_actions(balls, k, k) + row_actions(
            balls,
            k,
            j_end,
            e,
        ));
    } else {
        assert(partner_actions(balls, k, j_end) =~= partner_actions(balls, k, k) + row_actions(
            balls,
            k,
            j_end,
            e,
        ));
    }
}

/// A row above `k` does not speak to the ball at `k`.
proof fn lemma_row_above(balls: Seq<BallView>, k: int, i: int, j_end: int)
    requires
        distinct_entities(balls),
        0 <= k < i,
        j_end <= balls.len(),
    ensures
        row_actions(balls, i, j_end, balls[k].root_entity) == Seq::<HitAction>::empty(),
    decreases j_end - i,
{
    let e = balls[k].root_entity;
    if j_end > i + 1 {
        lemma_row_above(balls, k, i, j_end - 1);
        assert(e != balls[i].root_entity);
        assert(e != balls[j_end - 1].root_entity);
        assert(row_actions(balls, i, j_end, e) =~= Seq::<HitAction>::empty());
    }
}

/// The rows below `i_end` speak to the ball at `k` of its partners below
/// `i_end`, and of all its partners once the row of `k` is among them.
proof fn lemma_actions_by_partner_upto(balls: Seq<BallView>, k: int, i_end: int)
    requires
        distinct_entities(balls),
        0 <= k < balls.len(),
        0 <= i_end <= balls.len(),
    ensures
        hit_actions_upto(balls, i_end, balls[k].root_entity) == if i_end <= k {
            partner_actions(balls, k, i_end)
        } else {
            partner_actions(balls, k, balls.len() as int)
        },
    decreases i_end,
{
    let e = balls[k].root_entity;
    let n = balls.len() as int;
    if i_end > 0 {
        lemma_actions_by_partner_upto(balls, k, i_end - 1);
        let i = i_end - 1;
        if i < k {
            lemma_row_below(balls, k, i, n);
        } else if i == k {
            lemma_row_own(balls, k, n);
        } else {
            lemma_row_above(balls, k, i, n);
            assert(hit_actions_upto(balls, i_end, e) =~= partner_actions(balls, k, n));
        }
    }
}

/// Where the entities of the balls are all different, a ball finds in the
/// hit map one action for each partner it touches, in the order of the
/// partners' places in the list.
pub proof fn lemma_actions_by_partner(balls: Seq<BallView>, k: int)
    requires
        distinct_entities(balls),
        0 <= k < balls.len(),
    ensures
        hit_actions(balls, balls[k].root_entity) == partner_actions(
            balls,
            k,
            balls.len() as int,
        ),
{
    lemma_actions_by_partner_upto(balls, k, balls.len() as int);
}

/// The outcome table does not depend on the order of the two balls.
pub proof fn lemma_hit_status_symmetric(t1: BallType, t2: BallType)
    ensures
        spec_hit_status(t1, t2) == spec_hit_status(t2, t1),
{
}

/// What one part of a list holds, the whole list holds.
proof fn lemma_concat_contains(front: Seq<HitAction>, back: Seq<HitAction>, action: HitAction)
    requires
        front.contains(action) || back.contains(action),
    ensures
        (front + back).contains(action),
{
    if front.contains(action) {
        let k = choose|k: int| 0 <= k < front.len() && front[k] == action;
        assert((front + back)[k] == action);
    } else {
        let k = choose|k: int| 0 <= k < back.len() && back[k] == action;
        assert((front + back)[front.len() + k] == action);
    }
}

/// What the pair `(i, j)` adds to the list of `e` is part of the row of `i`.
proof fn lemma_entry_in_row(
    balls: Seq<BallView>,
    i: int,
    j: int,
    j_end: int,
    e: u64,
    action: HitAction,
)
    requires
        i < j < j_end,
        pair_entry(balls, i, j, e).contains(action),
    ensures
        row_actions(balls, i, j_end, e).contains(action),
    decreases j_end - j,
{
    if j < j_end - 1 {
        lemma_entry_in_row(balls, i, j, j_end - 1, e, action);
    }
    lemma_concat_contains(
        row_actions(balls, i, j_end - 1, e),
        pair_entry(balls, i, j_end - 1, e),
        action,
    );
}

/// What the row of `i` holds is part of the rows up to `i_end`.
proof fn lemma_row_in_hit_actions(
    balls: Seq<BallView>,
    i: int,
    i_end: int,
    e: u64,
    action: HitAction,
)
    requires
        0 <= i < i_end,
        row_actions(balls, i, balls.len() as int, e).contains(action),
    ensures
        hit_actions_upto(balls, i_end, e).contains(action),
    decreases i_end,
{
    if i < i_end - 1 {
        lemma_row_in_hit_actions(balls, i, i_end - 1, e, action);
    }
    lemma_concat_contains(
        hit_actions_upto(balls, i_end - 1, e),
        row_actions(balls, i_end - 1, balls.len() as int, e),
        action,
    );
}

/// Every contact between two running balls reaches both of them: each finds
/// in its actions of the tick what the outcome table asks of it.
pub proof fn lemma_contact_is_recorded(balls: Seq<BallView>, i: int, j: int)
    requires
        0 <= i < j < balls.len(),
        contact(balls[i], balls[j]) != HitType::NoHit,
    ensures
        hit_actions(balls, balls[i].root_entity).contains(
            action_against(
                spec_hit_status(balls[i].ball_type, balls[j].ball_type),
                contact(balls[i], balls[j]),
                balls[j].root_entity,
                balls[j],
            ),
        ),
        hit_actions(balls, balls[j].root_entity).contains(
            action_against(
                spec_hit_status(balls[i].ball_type, balls[j].ball_type),
                contact(balls[i], balls[j]),
                balls[i].root_entity,
                balls[i],
            ),
        ),
{
    let status = spec_hit_status(balls[i].ball_type, balls[j].ball_type);
    let hit = contact(balls[i], balls[j]);
    let e1 = balls[i].root_entity;
    let e2 = balls[j].root_entity;
    let a1 = action_against(status, hit, e2, balls[j]);
    let a2 = action_against(status, hit, e1, balls[i]);
    let n = balls.len() as int;
    let entry1 = pair_entry(balls, i, j, e1);
    assert(entry1[0] == a1);
    lemma_entry_in_row(balls, i, j, n, e1, a1);
    lemma_row_in_hit_actions(balls, i, n, e1, a1);
    let entry2 = pair_entry(balls, i, j, e2);
    assert(entry2[entry2.len() - 1] == a2);
    lemma_entry_in_row(balls, i, j, n, e2, a2);
    lemma_row_in_hit_actions(balls, i, n, e2, a2);
}

/// A stone that touches a goal succeeds, and so does the goal; a stone that
/// touches a bomb fails, and so does the bomb. This holds for every running
/// pair in contact, however deep the overlap and whichever of the two comes
/// first in the list.
pub proof fn lemma_stone_meets_goal_or_bomb(balls: Seq<BallView>, i: int, j: int)
    requires
        0 <= i < balls.len(),
        0 <= j < balls.len(),
        i != j,
        contact(balls[i], balls[j]) != HitType::NoHit,
        balls[i].ball_type == BallType::Stone,
        balls[j].ball_type != BallType::Stone,
    ensures
        balls[j].ball_type == BallType::Goal ==> hit_actions(balls, balls[i].root_entity).contains(
            HitAction::Success,
        ) && hit_actions(balls, balls[j].root_entity).contains(HitAction::Success),
        balls[j].ball_type == BallType::Bomb ==> hit_actions(balls, balls[i].root_entity).contains(
            HitAction::Failure,
        ) && hit_actions(balls, balls[j].root_entity).contains(HitAction::Failure),
{
    if i < j {
        lemma_contact_is_recorded(balls, i, j);
    } else {
        lemma_contact_symmetric(balls[j], balls[i]);
        lemma_contact_is_recorded(balls, j, i);
    }
}

/// Whether two balls touch does not depend on their order.
pub proof fn lemma_contact_symmetric(b1: BallView, b2: BallView)
    ensures
        contact(b1, b2) == contact(b2, b1),
{
    let p1 = b1.property;
    let p2 = b2.property;
    assert(p1.pos.spec_distance_squared(p2.pos) == p2.pos.spec_distance_squared(p1.pos))
        by (nonlinear_arith);
    assert((p1.radius + p2.radius) * (p1.radius + p2.radius) == (p2.radius + p1.radius) * (p2.radius
        + p1.radius));
    assert((p1.radius - p2.radius) * (p1.radius - p2.radius) == (p2.radius - p1.radius) * (p2.radius
        - p1.radius)) by (nonlinear_arith);
}

/// The running account of one ball's resolution pass: the property as the
/// responses so far have left it, the debounce table, and what was seen.
pub struct Resolution {
    pub property: BallProperty,
    pub hit_counter: Map<u64, u8>,
    /// A response was applied.
    pub is_hit: bool,
    /// No contact that asks for a move was seen, applied or suppressed.
    pub no_hit_detected: bool,
}

/// The account before the first action.
pub open spec fn resolution_start(ball: BallView) -> Resolution {
    Resolution {
        property: ball.property,
        hit_counter: ball.hit_counter,
        is_hit: false,
        no_hit_detected: true,
    }
}

/// The account after one more action.
///
/// A move is answered only where the debounce table allows it: the ball
/// then takes the velocity after the contact, advances by it at once, and
/// the window for that opponent is armed anew. A suppressed move still
/// counts the window down. Success and failure leave the account alone.
pub open spec fn resolution_step(r: Resolution, action: HitAction) -> Resolution {
    match action {
        HitAction::Move(info) => {
            let checked = window_after_check(r.hit_counter, info.opponent_entity);
            if window_allows(r.hit_counter, info.opponent_entity) {
                let new_v = velocity_after_hit(info.hit_type, r.property, info.opponent_property);
                Resolution {
                    property: BallProperty {
                        pos: r.property.pos.spec_moved_by(new_v),
                        v: new_v,
                        ..r.property
                    },
                    hit_counter: checked.insert(info.opponent_entity, HIT_WINDOW),
                    is_hit: true,
                    no_hit_detected: false,
                }
            } else {
                Resolution { hit_counter: checked, no_hit_detected: false, ..r }
            }
        },
        _ => r,
    }
}

/// A response that is applied arms the window of its opponent: each of the
/// next `HIT_WINDOW` checks for that opponent is refused, and the one after
/// them is allowed.
pub proof fn lemma_response_arms_window(r: Resolution, info: HitMoveInfo)
    requires
        window_allows(r.hit_counter, info.opponent_entity),
    ensures
        resolution_step(r, HitAction::Move(info)).is_hit,
        forall|n: nat|
            n < HIT_WINDOW ==> !window_allows(
                #[trigger] window_after_checks(
                    resolution_step(r, HitAction::Move(info)).hit_counter,
                    info.opponent_entity,
                    n,
                ),
                info.opponent_entity,
            ),
        window_allows(
            window_after_checks(
                resolution_step(r, HitAction::Move(info)).hit_counter,
                info.opponent_entity,
                HIT_WINDOW as nat,
            ),
            info.opponent_entity,
        ),
{
    lemma_debounce_window(
        window_after_check(r.hit_counter, info.opponent_entity),
        info.opponent_entity,
    );
}

/// The account after the first `n` actions.
pub open spec fn resolution_after(ball: BallView, actions: Seq<HitAction>, n: int) -> Resolution
    decreases n,
{
    if n <= 0 {
        resolution_start(ball)
    } else {
        resolution_step(resolution_after(ball, actions, n - 1), actions[n - 1])
    }
}

/// Whether the resolution pass moves the ball: a response was applied and
/// the ball is movable.
pub open spec fn moved_by_actions(ball: BallView, actions: Seq<HitAction>) -> bool {
    resolution_after(ball, actions, actions.len() as int).is_hit && ball.property.movement_type
        == BallMovementType::Movable
}

/// The ball after its resolution pass.
///
/// A moved ball is placed where the responses took it and has the velocity
/// they left. A ball for which no move was seen forgets its debounce
/// entries; any other keeps the table as the pass left it.
pub open spec fn resolved(ball: BallView, actions: Seq<HitAction>) -> BallView {
    let r = resolution_after(ball, actions, actions.len() as int);
    let placed = if moved_by_actions(ball, actions) {
        ball.placed_at(r.property.pos).with_velocity(r.property.v)
    } else {
        ball
    };
    placed.with_hit_counter(
        if r.no_hit_detected {
            Map::empty()
        } else {
            r.hit_counter
        },
    )
}

/// Every move among the actions names a well-formed opponent.
pub open spec fn actions_wf(actions: Seq<HitAction>) -> bool {
    forall|i: int|
        0 <= i < actions.len() ==> (#[trigger] actions[i] matches HitAction::Move(info)
            ==> info.opponent_property.wf())
}

/// Runs the resolution pass of one ball over the actions that the hit map
/// holds for it. Returns whether the ball was moved.
pub fn resolve_hit_actions(ball: &mut Ball, actions: &Vec<HitAction>) -> (moved: bool)
    requires
        old(ball).wf(),
        actions_wf(actions@),
    ensures
        final(ball)@ == resolved(old(ball)@, actions@),
        moved == moved_by_actions(old(ball)@, actions@),
        final(ball).wf(),
{
    let mut is_hit: bool = false;
    let mut is_no_hit_detected: bool = true;
    let mut bp = ball.property();
    let movable = bp.movement_type == BallMovementType::Movable;
    let mut i: usize = 0;
    while i < actions.len()
        invariant
            i <= actions.len(),
            actions_wf(actions@),
            bp.wf(),
            bp == resolution_after(old(ball)@, actions@, i as int).property,
            is_hit == resolution_after(old(ball)@, actions@, i as int).is_hit,
            is_no_hit_detected == resolution_after(old(ball)@, actions@, i as int).no_hit_detected,
            ball@ == old(ball)@.with_hit_counter(
                resolution_after(old(ball)@, actions@, i as int).hit_counter,
            ),
        decreases actions.len() - i,
    {
        let action = actions[i];
        match action {
            HitAction::Move(info) => {
                if ball.check_hit_window(info.opponent_entity) {
                    let new_v = calcuate_v_after_hit(&info.hit_type, &bp, &info.opponent_property);
                    bp.pos = bp.pos.moved_by(&new_v);
                    bp.v = new_v;
                    ball.store_hit_entity(info.opponent_entity);
                    is_hit = true;
                }
                is_no_hit_detected = false;
            },
            _ => {},
        }
        i += 1;
    }
    if is_hit && movable {
        ball.update_pos(bp.pos);
        ball.update_v(bp.v);
    }
    if is_no_hit_detected {
        ball.clear_hit_counter();
    }
    is_hit && movable
}

} // verus!
