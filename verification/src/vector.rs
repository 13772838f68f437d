//! Vectors in the plane over fixed-point scalars.

use crate::scalar::{
    floor_sqrt, integer_sqrt, lemma_add_zero, lemma_mul_one, lemma_mul_zero, magnitude, narrow,
    quotient_toward_zero, saturate, wide_magnitude, wide_quotient, Scalar, SCALE,
};
use vstd::prelude::*;

verus! {

/// The size of component (millionths) below which a vector is refined a
/// millionfold before its direction is taken, so that its length is known
/// to a millionth of itself or better.
pub const REFINE_BELOW: i64 = 1_000_000_000_000;

/// A point or displacement in the plane.
#[derive(Clone, Copy, Debug, PartialEq, Eq, Structural)]
pub struct Vector {
    pub x: Scalar,
    pub y: Scalar,
}

impl Vector {
    pub open spec fn spec_new(x: Scalar, y: Scalar) -> Vector {
        Vector { x, y }
    }

    pub open spec fn spec_zero() -> Vector {
        Vector { x: Scalar::zero(), y: Scalar::zero() }
    }

    pub open spec fn spec_add(self, rhs: Vector) -> Vector {
        Vector { x: self.x.add(rhs.x), y: self.y.add(rhs.y) }
    }

    pub open spec fn spec_sub(self, rhs: Vector) -> Vector {
        Vector { x: self.x.sub(rhs.x), y: self.y.sub(rhs.y) }
    }

    pub open spec fn spec_scale(self, k: Scalar) -> Vector {
        Vector { x: self.x.mul(k), y: self.y.mul(k) }
    }

    pub open spec fn spec_div(self, k: Scalar) -> Vector {
        Vector { x: self.x.div(k), y: self.y.div(k) }
    }

    pub open spec fn spec_dot(self, rhs: Vector) -> Scalar {
        self.x.mul(rhs.x).add(self.y.mul(rhs.y))
    }

    pub open spec fn spec_length_squared(self) -> Scalar {
        self.dot(self)
    }

    /// The exact square of the length, in squared raw units.
    pub open spec fn norm_squared(self) -> nat {
        (self.x@ * self.x@ + self.y@ * self.y@) as nat
    }

    /// The components in the units in which the direction is taken:
    /// millionths of a millionth for a vector short along both axes,
    /// millionths for any other.
    pub open spec fn refined(self) -> (int, int) {
        if magnitude(self.x@) < REFINE_BELOW && magnitude(self.y@) < REFINE_BELOW {
            (self.x@ * SCALE, self.y@ * SCALE)
        } else {
            (self.x@, self.y@)
        }
    }

    /// The length of the refined vector, rounded down.
    pub open spec fn refined_length(self) -> nat {
        floor_sqrt((self.refined().0 * self.refined().0 + self.refined().1 * self.refined().1) as nat)
    }

    /// The vector divided by its length: each refined component over the
    /// refined length, rounded toward zero to a millionth. The zero vector
    /// has the zero vector for its direction.
    pub open spec fn spec_direction(self) -> Vector {
        if self.refined_length() == 0 {
            Vector::spec_zero()
        } else {
            Vector {
                x: Scalar {
                    raw: saturate(
                        quotient_toward_zero(
                            self.refined().0 * SCALE,
                            self.refined_length() as int,
                        ),
                    ),
                },
                y: Scalar {
                    raw: saturate(
                        quotient_toward_zero(
                            self.refined().1 * SCALE,
                            self.refined_length() as int,
                        ),
                    ),
                },
            }
        }
    }

    pub open spec fn spec_length(self) -> Scalar {
        Scalar { raw: saturate(floor_sqrt(self.norm_squared()) as int) }
    }

    #[verifier::when_used_as_spec(spec_new)]
    pub fn new(x: Scalar, y: Scalar) -> (v: Vector)
        ensures
            v == Vector::spec_new(x, y),
    {
        Vector { x, y }
    }

    #[verifier::when_used_as_spec(spec_zero)]
    pub fn zero() -> (v: Vector)
        ensures
            v == Vector::spec_zero(),
    {
        Vector { x: Scalar::zero(), y: Scalar::zero() }
    }

    /// The componentwise sum.
    #[verifier::when_used_as_spec(spec_add)]
    pub fn add(self, rhs: Vector) -> (v: Vector)
        ensures
            v == self.spec_add(rhs),
    {
        Vector { x: self.x.add(rhs.x), y: self.y.add(rhs.y) }
    }

    /// The componentwise difference.
    #[verifier::when_used_as_spec(spec_sub)]
    pub fn sub(self, rhs: Vector) -> (v: Vector)
        ensures
            v == self.spec_sub(rhs),
    {
        Vector { x: self.x.sub(rhs.x), y: self.y.sub(rhs.y) }
    }

    /// Each component multiplied by `k`.
    #[verifier::when_used_as_spec(spec_scale)]
    pub fn scale(self, k: Scalar) -> (v: Vector)
        ensures
            v == self.spec_scale(k),
    {
        Vector { x: self.x.mul(k), y: self.y.mul(k) }
    }

    /// Each component divided by `k`.
    #[verifier::when_used_as_spec(spec_div)]
    pub fn div(self, k: Scalar) -> (v: Vector)
        ensures
            v == self.spec_div(k),
    {
        Vector { x: self.x.div(k), y: self.y.div(k) }
    }

    /// The inner product: the sum of the two rounded componentwise products.
    #[verifier::when_used_as_spec(spec_dot)]
    pub fn dot(self, rhs: Vector) -> (s: Scalar)
        ensures
            s == self.spec_dot(rhs),
    {
        self.x.mul(rhs.x).add(self.y.mul(rhs.y))
    }

    /// The inner product of the vector with itself.
    #[verifier::when_used_as_spec(spec_length_squared)]
    pub fn length_squared(self) -> (s: Scalar)
        ensures
            s == self.spec_length_squared(),
    {
        self.dot(self)
    }

    /// The exact square of the length, in squared raw units.
    pub fn wide_norm_squared(self) -> (q: u128)
        ensures
            q == self.norm_squared(),
    {
        self.x.wide_square() + self.y.wide_square()
    }

    /// The vector of length one that points the same way, each component
    /// rounded toward zero to a millionth; zero for the zero vector.
    #[verifier::when_used_as_spec(spec_direction)]
    pub fn direction(self) -> (n: Vector)
        ensures
            n == self.spec_direction(),
    {
        let x: i128 = self.x.raw as i128;
        let y: i128 = self.y.raw as i128;
        let short = wide_magnitude(x) < 1_000_000_000_000 && wide_magnitude(y)
            < 1_000_000_000_000;
        let fx: i128 = if short {
            x * 1_000_000
        } else {
            x
        };
        let fy: i128 = if short {
            y * 1_000_000
        } else {
            y
        };
        let mx: u128 = wide_magnitude(fx);
        let my: u128 = wide_magnitude(fy);
        assert(mx * mx == fx * fx && my * my == fy * fy && mx * mx
            <= 0x4000_0000_0000_0000_0000_0000_0000_0000 && my * my
            <= 0x4000_0000_0000_0000_0000_0000_0000_0000) by (nonlinear_arith)
            requires
                mx == magnitude(fx as int),
                my == magnitude(fy as int),
                mx <= 0x8000_0000_0000_0000,
                my <= 0x8000_0000_0000_0000,
        ;
        let d: u64 = integer_sqrt(mx * mx + my * my);
        if d == 0 {
            Vector::zero()
        } else {
            Vector {
                x: Scalar { raw: narrow(wide_quotient(fx * 1_000_000, d as i128)) },
                y: Scalar { raw: narrow(wide_quotient(fy * 1_000_000, d as i128)) },
            }
        }
    }

    /// The Euclidean length, rounded down to a whole number of millionths.
    #[verifier::when_used_as_spec(spec_length)]
    pub fn length(self) -> (s: Scalar)
        ensures
            s == self.spec_length(),
    {
        let r: u64 = integer_sqrt(self.wide_norm_squared());
        if r > 0x7fff_ffff_ffff_ffff {
            Scalar::max_value()
        } else {
            Scalar { raw: r as i64 }
        }
    }
}

/// A vector scaled by zero, and the zero vector scaled by anything, is the
/// zero vector.
pub proof fn lemma_scale_zero(v: Vector, k: Scalar)
    ensures
        v.scale(Scalar::zero()) == Vector::zero(),
        Vector::zero().scale(k) == Vector::zero(),
{
    lemma_mul_zero(v.x);
    lemma_mul_zero(v.y);
    lemma_mul_zero(k);
}

/// A vector scaled by one is itself.
pub proof fn lemma_scale_one(v: Vector)
    ensures
        v.scale(Scalar::one()) == v,
{
    lemma_mul_one(v.x);
    lemma_mul_one(v.y);
}

/// Adding or taking away the zero vector changes nothing.
pub proof fn lemma_add_zero_vector(v: Vector)
    ensures
        v.add(Vector::zero()) == v,
        Vector::zero().add(v) == v,
        v.sub(Vector::zero()) == v,
{
    lemma_add_zero(v.x);
    lemma_add_zero(v.y);
}

} // verus!
