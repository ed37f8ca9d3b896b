//! Fixed-point two-dimensional vectors and the exact integer arithmetic the
//! simulation is built on.
//!
//! Positions, velocities and radii are whole numbers of field units. All
//! formulas of the simulation are homogeneous in these quantities, so the
//! embedding program is free to choose how many units make up a pixel.

use vstd::prelude::*;
use vstd::arithmetic::div_mod::{
    lemma_div_nonincreasing, lemma_div_pos_is_pos, lemma_fundamental_div_mod,
    lemma_fundamental_div_mod_converse, lemma_mod_pos_bound,
};

verus! {

/// Largest magnitude of a coordinate, a velocity component or a radius.
///
/// This is two to the power of 24: the range over which a single-precision
/// float still tells neighbouring integers apart, and small enough for every
/// intermediate product of the collision response to fit in 128 bits.
pub const COORD_MAX: i64 = 16_777_216;

/// The value of `v` pulled back into `[-COORD_MAX, COORD_MAX]`.
pub open spec fn clamp_coord(v: int) -> int {
    if v > COORD_MAX {
        COORD_MAX as int
    } else if v < -COORD_MAX {
        -COORD_MAX
    } else {
        v
    }
}

/// Integer division that rounds toward zero, for a positive divisor.
pub open spec fn trunc_div(a: int, b: int) -> int {
    if a >= 0 {
        a / b
    } else {
        -((-a) / b)
    }
}

/// Saturates a wide intermediate value into the coordinate range.
pub fn saturate(v: i128) -> (r: i64)
    ensures
        r == clamp_coord(v as int),
        -COORD_MAX <= r <= COORD_MAX,
{
    if v > COORD_MAX as i128 {
        COORD_MAX
    } else if v < -(COORD_MAX as i128) {
        -COORD_MAX
    } else {
        v as i64
    }
}

/// A point or a displacement in the field, in whole field units.
#[derive(Clone, Copy, Debug, PartialEq, Eq, Structural)]
pub struct Vector {
    pub x: i64,
    pub y: i64,
}

impl Vector {
    /// Both components lie inside the coordinate range.
    pub open spec fn wf(self) -> bool {
        &&& -COORD_MAX <= self.x <= COORD_MAX
        &&& -COORD_MAX <= self.y <= COORD_MAX
    }

    /// Square of the Euclidean length.
    pub open spec fn norm_squared(self) -> int {
        self.x * self.x + self.y * self.y
    }

    /// Square of the Euclidean distance between two points.
    pub open spec fn spec_distance_squared(self, other: Vector) -> int {
        (self.x - other.x) * (self.x - other.x) + (self.y - other.y) * (self.y - other.y)
    }

    /// The point reached from `self` by the displacement `step`, each
    /// coordinate saturating at the edge of the coordinate range.
    pub open spec fn spec_moved_by(self, step: Vector) -> Vector {
        Vector {
            x: clamp_coord(self.x + step.x) as i64,
            y: clamp_coord(self.y + step.y) as i64,
        }
    }

    /// The vector with the components `x` and `y`.
    pub fn new(x: i64, y: i64) -> (v: Vector)
        ensures
            v.x == x,
            v.y == y,
    {
        Vector { x, y }
    }

    /// Tells whether both components lie inside the coordinate range.
    pub fn is_valid(&self) -> (ok: bool)
        ensures
            ok == self.wf(),
    {
        -COORD_MAX <= self.x && self.x <= COORD_MAX && -COORD_MAX <= self.y && self.y <= COORD_MAX
    }

    /// Square of the distance to `other`, computed exactly.
    pub fn distance_squared(&self, other: &Vector) -> (d: i128)
        requires
            self.wf(),
            other.wf(),
        ensures
            d == self.spec_distance_squared(*other),
            0 <= d <= 2 * (2 * COORD_MAX) * (2 * COORD_MAX),
    {
        let dx: i128 = self.x as i128 - other.x as i128;
        let dy: i128 = self.y as i128 - other.y as i128;
        proof {
            lemma_square_bound(dx as int, 2 * COORD_MAX);
            lemma_square_bound(dy as int, 2 * COORD_MAX);
        }
        dx * dx + dy * dy
    }

    /// Moves by `step`, saturating at the edge of the coordinate range.
    pub fn moved_by(&self, step: &Vector) -> (p: Vector)
        requires
            self.wf(),
            step.wf(),
        ensures
            p == self.spec_moved_by(*step),
            p.wf(),
    {
        Vector {
            x: saturate(self.x as i128 + step.x as i128),
            y: saturate(self.y as i128 + step.y as i128),
        }
    }
}

/// Multiplies two wide values whose magnitudes are known to be bounded.
pub(crate) fn mul_bounded(
    a: i128,
    b: i128,
    Ghost(bound_a): Ghost<int>,
    Ghost(bound_b): Ghost<int>,
) -> (p: i128)
    requires
        -bound_a <= a <= bound_a,
        -bound_b <= b <= bound_b,
        bound_a * bound_b <= i128::MAX,
    ensures
        p == a * b,
        -(bound_a * bound_b) <= p <= bound_a * bound_b,
{
    proof {
        lemma_mul_bound(a as int, b as int, bound_a, bound_b);
    }
    a * b
}

/// Divides by a positive number, rounding toward zero.
pub(crate) fn trunc_divide(num: i128, den: i128, Ghost(bound): Ghost<int>) -> (q: i128)
    requires
        den > 0,
        -bound <= num <= bound,
    ensures
        q == trunc_div(num as int, den as int),
        -bound <= q <= bound,
{
    proof {
        lemma_trunc_div_bound(num as int, den as int, bound);
    }
    num / den
}

/// A product is bounded by the product of the bounds of its factors.
pub proof fn lemma_mul_bound(a: int, b: int, bound_a: int, bound_b: int)
    by (nonlinear_arith)
    requires
        -bound_a <= a <= bound_a,
        -bound_b <= b <= bound_b,
    ensures
        -(bound_a * bound_b) <= a * b <= bound_a * bound_b,
{
}

/// A square is non-negative and bounded by the square of the bound.
pub proof fn lemma_square_bound(a: int, bound: int)
    by (nonlinear_arith)
    requires
        -bound <= a <= bound,
    ensures
        0 <= a * a <= bound * bound,
{
}

/// A quotient by a positive number is no larger in magnitude than the
/// number divided.
pub proof fn lemma_trunc_div_bound(num: int, den: int, bound: int)
    requires
        den > 0,
        -bound <= num <= bound,
    ensures
        -bound <= trunc_div(num, den) <= bound,
{
    if num >= 0 {
        lemma_div_pos_is_pos(num, den);
        lemma_div_nonincreasing(num, den);
    } else {
        lemma_div_pos_is_pos(-num, den);
        lemma_div_nonincreasing(-num, den);
    }
}

/// Dividing an exact multiple gives the factor back.
pub proof fn lemma_trunc_div_exact(k: int, den: int)
    requires
        den > 0,
    ensures
        trunc_div(k * den, den) == k,
{
    if k >= 0 {
        assert(k * den >= 0) by (nonlinear_arith)
            requires
                k >= 0,
                den > 0,
        ;
        lemma_fundamental_div_mod_converse(k * den, den, k, 0);
    } else {
        assert(-(k * den) == (-k) * den && (-k) * den > 0) by (nonlinear_arith)
            requires
                k < 0,
                den > 0,
        ;
        lemma_fundamental_div_mod_converse((-k) * den, den, -k, 0);
    }
}

/// Rounding toward zero never moves a quotient by a whole unit:
/// `den * trunc_div(num, den)` differs from `num` by less than `den`, and
/// not at all where `den` divides `num`.
pub proof fn lemma_trunc_div_error(num: int, den: int)
    requires
        den > 0,
    ensures
        -den < num - den * trunc_div(num, den) < den,
        num % den == 0 ==> den * trunc_div(num, den) == num,
{
    if num >= 0 {
        lemma_fundamental_div_mod(num, den);
        lemma_mod_pos_bound(num, den);
    } else {
        let q = (-num) / den;
        lemma_fundamental_div_mod(-num, den);
        lemma_mod_pos_bound(-num, den);
        assert(den * (-q) == -(den * q)) by (nonlinear_arith);
        if num % den == 0 {
            let k = num / den;
            lemma_fundamental_div_mod(num, den);
            assert(-num == (-k) * den + 0) by (nonlinear_arith)
                requires
                    num == den * k,
            ;
            lemma_fundamental_div_mod_converse(-num, den, -k, 0);
        }
    }
}

} // verus!
