//! Fixed-point scalars: signed counts of millionths that saturate at the ends
//! of their range instead of wrapping.

use vstd::prelude::*;

verus! {

/// Raw units in one whole unit.
pub const SCALE: i64 = 1_000_000;

/// The nearest representable raw value to `x`.
pub open spec fn saturate(x: int) -> i64 {
    if x < i64::MIN {
        i64::MIN
    } else if x > i64::MAX {
        i64::MAX
    } else {
        x as i64
    }
}

/// The distance of `x` from zero.
pub open spec fn magnitude(x: int) -> int {
    if x < 0 {
        -x
    } else {
        x
    }
}

/// The quotient of `n` by `d`, rounded toward zero. Meaningful for `d != 0`.
pub open spec fn quotient_toward_zero(n: int, d: int) -> int {
    let q = magnitude(n) / magnitude(d);
    if (n < 0) != (d < 0) {
        -q
    } else {
        q
    }
}

/// A fixed-point number: `raw` counts millionths of a unit.
#[derive(Clone, Copy, Debug, PartialEq, Eq, Structural)]
pub struct Scalar {
    pub raw: i64,
}

impl View for Scalar {
    type V = int;

    open spec fn view(&self) -> int {
        self.raw as int
    }
}

pub(crate) fn narrow(x: i128) -> (r: i64)
    ensures
        r == saturate(x as int),
{
    if x < i64::MIN as i128 {
        i64::MIN
    } else if x > i64::MAX as i128 {
        i64::MAX
    } else {
        x as i64
    }
}

pub(crate) fn wide_magnitude(x: i128) -> (m: u128)
    requires
        x > i128::MIN,
    ensures
        m == magnitude(x as int),
{
    if x < 0 {
        (-x) as u128
    } else {
        x as u128
    }
}

/// `n / d` rounded toward zero, for operands well inside the 128-bit range.
pub(crate) fn wide_quotient(n: i128, d: i128) -> (q: i128)
    requires
        d != 0,
        i128::MIN < n,
        i128::MIN < d,
    ensures
        q == quotient_toward_zero(n as int, d as int),
{
    let m: u128 = wide_magnitude(n) / wide_magnitude(d);
    assert(m <= magnitude(n as int)) by (nonlinear_arith)
        requires
            m == magnitude(n as int) / magnitude(d as int),
            magnitude(n as int) >= 0,
            magnitude(d as int) > 0,
    ;
    if (n < 0) != (d < 0) {
        -(m as i128)
    } else {
        m as i128
    }
}

/// Whether `r` is the largest number whose square is at most `n`.
pub open spec fn is_floor_sqrt(n: nat, r: nat) -> bool {
    r * r <= n && n < (r + 1) * (r + 1)
}

/// The largest `r` with `r * r <= n`.
pub open spec fn floor_sqrt(n: nat) -> nat {
    choose|r: nat| is_floor_sqrt(n, r)
}

/// At most one number is the floor of the square root of `n`, and
/// `floor_sqrt` names it.
pub proof fn lemma_floor_sqrt_unique(n: nat, r: nat)
    requires
        is_floor_sqrt(n, r),
    ensures
        floor_sqrt(n) == r,
{
    let s = floor_sqrt(n);
    assert(is_floor_sqrt(n, s));
    assert(s == r) by (nonlinear_arith)
        requires
            r * r <= n,
            n < (r + 1) * (r + 1),
            s * s <= n,
            n < (s + 1) * (s + 1),
    ;
}

/// Every number has a floor of its square root, and `floor_sqrt` is it.
pub proof fn lemma_floor_sqrt(n: nat)
    ensures
        is_floor_sqrt(n, floor_sqrt(n)),
    decreases n,
{
    if n == 0 {
        assert(0nat * 0nat == 0 && (0nat + 1) * (0nat + 1) == 1) by (nonlinear_arith);
        assert(is_floor_sqrt(0, 0));
    } else {
        lemma_floor_sqrt((n - 1) as nat);
        let r = floor_sqrt((n - 1) as nat);
        if (r + 1) * (r + 1) <= n {
            assert(is_floor_sqrt(n, r + 1)) by (nonlinear_arith)
                requires
                    (r + 1) * (r + 1) <= n,
                    n - 1 < (r + 1) * (r + 1),
            ;
        } else {
            assert(is_floor_sqrt(n, r));
        }
    }
}

/// The floor of the square root of `n`, found by bisection.
pub fn integer_sqrt(n: u128) -> (r: u64)
    ensures
        r == floor_sqrt(n as nat),
        is_floor_sqrt(n as nat, r as nat),
{
    let mut lo: u128 = 0;
    let mut hi: u128 = 0x1_0000_0000_0000_0000;
    assert(n < hi * hi) by (nonlinear_arith)
        requires
            hi == 0x1_0000_0000_0000_0000,
            n <= u128::MAX,
    ;
    while hi - lo > 1
        invariant
            lo < hi <= 0x1_0000_0000_0000_0000,
            lo * lo <= n,
            n < hi * hi,
        decreases hi - lo,
    {
        let mid: u128 = lo + (hi - lo) / 2;
        assert(mid * mid <= u128::MAX) by (nonlinear_arith)
            requires
                0 <= mid < 0x1_0000_0000_0000_0000,
        ;
        if mid * mid <= n {
            lo = mid;
        } else {
            hi = mid;
        }
    }
    proof {
        lemma_floor_sqrt_unique(n as nat, lo as nat);
    }
    lo as u64
}

impl Scalar {
    pub open spec fn spec_zero() -> Scalar {
        Scalar { raw: 0 }
    }

    pub open spec fn spec_one() -> Scalar {
        Scalar { raw: SCALE }
    }

    pub open spec fn spec_max_value() -> Scalar {
        Scalar { raw: i64::MAX }
    }

    pub open spec fn spec_min_value() -> Scalar {
        Scalar { raw: i64::MIN }
    }

    pub open spec fn spec_from_millionths(raw: i64) -> Scalar {
        Scalar { raw }
    }

    pub open spec fn spec_from_int(units: i64) -> Scalar {
        Scalar { raw: saturate(units * SCALE) }
    }

    pub open spec fn spec_add(self, rhs: Scalar) -> Scalar {
        Scalar { raw: saturate(self@ + rhs@) }
    }

    pub open spec fn spec_sub(self, rhs: Scalar) -> Scalar {
        Scalar { raw: saturate(self@ - rhs@) }
    }

    pub open spec fn spec_neg(self) -> Scalar {
        Scalar { raw: saturate(-self@) }
    }

    pub open spec fn spec_abs(self) -> Scalar {
        Scalar { raw: saturate(magnitude(self@)) }
    }

    pub open spec fn spec_mul(self, rhs: Scalar) -> Scalar {
        Scalar { raw: saturate(quotient_toward_zero(self@ * rhs@, SCALE as int)) }
    }

    /// Division by zero saturates in the direction of the dividend and leaves
    /// zero at zero.
    pub open spec fn spec_div(self, rhs: Scalar) -> Scalar {
        if rhs@ != 0 {
            Scalar { raw: saturate(quotient_toward_zero(self@ * SCALE, rhs@)) }
        } else if self@ > 0 {
            Scalar::spec_max_value()
        } else if self@ < 0 {
            Scalar::spec_min_value()
        } else {
            Scalar::spec_zero()
        }
    }

    /// `self * num / den`, rounded once. A zero `den` saturates in the
    /// direction of the product and leaves zero at zero.
    pub open spec fn spec_mul_div(self, num: Scalar, den: Scalar) -> Scalar {
        if den@ != 0 {
            Scalar { raw: saturate(quotient_toward_zero(self@ * num@, den@)) }
        } else if self@ * num@ > 0 {
            Scalar::spec_max_value()
        } else if self@ * num@ < 0 {
            Scalar::spec_min_value()
        } else {
            Scalar::spec_zero()
        }
    }

    pub open spec fn spec_max(self, other: Scalar) -> Scalar {
        if self@ >= other@ {
            self
        } else {
            other
        }
    }

    pub open spec fn spec_min(self, other: Scalar) -> Scalar {
        if self@ <= other@ {
            self
        } else {
            other
        }
    }

    /// `self` moved into `[lo, hi]`; where the bounds cross, `lo` wins.
    pub open spec fn spec_clamp(self, lo: Scalar, hi: Scalar) -> Scalar {
        if self@ < lo@ {
            lo
        } else if self@ > hi@ {
            hi
        } else {
            self
        }
    }

    #[verifier::when_used_as_spec(spec_zero)]
    pub fn zero() -> (r: Scalar)
        ensures
            r == Scalar::spec_zero(),
    {
        Scalar { raw: 0 }
    }

    #[verifier::when_used_as_spec(spec_one)]
    pub fn one() -> (r: Scalar)
        ensures
            r == Scalar::spec_one(),
    {
        Scalar { raw: SCALE }
    }

    #[verifier::when_used_as_spec(spec_max_value)]
    pub fn max_value() -> (r: Scalar)
        ensures
            r == Scalar::spec_max_value(),
    {
        Scalar { raw: i64::MAX }
    }

    #[verifier::when_used_as_spec(spec_min_value)]
    pub fn min_value() -> (r: Scalar)
        ensures
            r == Scalar::spec_min_value(),
    {
        Scalar { raw: i64::MIN }
    }

    /// The scalar of `raw` millionths.
    #[verifier::when_used_as_spec(spec_from_millionths)]
    pub fn from_millionths(raw: i64) -> (r: Scalar)
        ensures
            r == Scalar::spec_from_millionths(raw),
    {
        Scalar { raw }
    }

    /// The scalar of `units` whole units, saturated.
    #[verifier::when_used_as_spec(spec_from_int)]
    pub fn from_int(units: i64) -> (r: Scalar)
        ensures
            r == Scalar::spec_from_int(units),
    {
        let wide: i128 = units as i128;
        Scalar { raw: narrow(wide * 1_000_000) }
    }

    /// The count of millionths.
    pub fn millionths(self) -> (raw: i64)
        ensures
            raw == self@,
    {
        self.raw
    }

    /// The saturated sum.
    #[verifier::when_used_as_spec(spec_add)]
    pub fn add(self, rhs: Scalar) -> (r: Scalar)
        ensures
            r == self.spec_add(rhs),
    {
        Scalar { raw: narrow(self.raw as i128 + rhs.raw as i128) }
    }

    /// The saturated difference.
    #[verifier::when_used_as_spec(spec_sub)]
    pub fn sub(self, rhs: Scalar) -> (r: Scalar)
        ensures
            r == self.spec_sub(rhs),
    {
        Scalar { raw: narrow(self.raw as i128 - rhs.raw as i128) }
    }

    /// The saturated negation.
    #[verifier::when_used_as_spec(spec_neg)]
    pub fn neg(self) -> (r: Scalar)
        ensures
            r == self.spec_neg(),
    {
        Scalar { raw: narrow(-(self.raw as i128)) }
    }

    /// The saturated absolute value.
    #[verifier::when_used_as_spec(spec_abs)]
    pub fn abs(self) -> (r: Scalar)
        ensures
            r == self.spec_abs(),
    {
        if self.raw < 0 {
            Scalar { raw: narrow(-(self.raw as i128)) }
        } else {
            self
        }
    }

    /// The product, rounded toward zero to a whole number of millionths and
    /// saturated.
    #[verifier::when_used_as_spec(spec_mul)]
    pub fn mul(self, rhs: Scalar) -> (r: Scalar)
        ensures
            r == self.spec_mul(rhs),
    {
        let a: i128 = self.raw as i128;
        let b: i128 = rhs.raw as i128;
        assert(-0x4000_0000_0000_0000_0000_0000_0000_0000 <= a * b
            <= 0x4000_0000_0000_0000_0000_0000_0000_0000) by (nonlinear_arith)
            requires
                -0x8000_0000_0000_0000 <= a <= 0x8000_0000_0000_0000,
                -0x8000_0000_0000_0000 <= b <= 0x8000_0000_0000_0000,
        ;
        Scalar { raw: narrow(wide_quotient(a * b, 1_000_000)) }
    }

    /// The quotient, rounded toward zero to a whole number of millionths and
    /// saturated.
    #[verifier::when_used_as_spec(spec_div)]
    pub fn div(self, rhs: Scalar) -> (r: Scalar)
        ensures
            r == self.spec_div(rhs),
    {
        if rhs.raw != 0 {
            let wide: i128 = self.raw as i128;
            Scalar { raw: narrow(wide_quotient(wide * 1_000_000, rhs.raw as i128)) }
        } else if self.raw > 0 {
            Scalar::max_value()
        } else if self.raw < 0 {
            Scalar::min_value()
        } else {
            Scalar::zero()
        }
    }

    /// The share `num / den` of `self`: the product is taken exactly and
    /// divided once, so nothing is lost but the last rounding toward zero.
    #[verifier::when_used_as_spec(spec_mul_div)]
    pub fn mul_div(self, num: Scalar, den: Scalar) -> (r: Scalar)
        ensures
            r == self.spec_mul_div(num, den),
    {
        let a: i128 = self.raw as i128;
        let b: i128 = num.raw as i128;
        assert(-0x4000_0000_0000_0000_0000_0000_0000_0000 <= a * b
            <= 0x4000_0000_0000_0000_0000_0000_0000_0000) by (nonlinear_arith)
            requires
                -0x8000_0000_0000_0000 <= a <= 0x8000_0000_0000_0000,
                -0x8000_0000_0000_0000 <= b <= 0x8000_0000_0000_0000,
        ;
        let product: i128 = a * b;
        if den.raw != 0 {
            Scalar { raw: narrow(wide_quotient(product, den.raw as i128)) }
        } else if product > 0 {
            Scalar::max_value()
        } else if product < 0 {
            Scalar::min_value()
        } else {
            Scalar::zero()
        }
    }

    /// The exact square, in squared raw units.
    pub fn wide_square(self) -> (q: u128)
        ensures
            q == self@ * self@,
            q <= 0x4000_0000_0000_0000_0000_0000_0000_0000,
    {
        let m: u128 = wide_magnitude(self.raw as i128);
        assert(m * m == self@ * self@ && m * m <= 0x4000_0000_0000_0000_0000_0000_0000_0000)
            by (nonlinear_arith)
            requires
                m == magnitude(self@),
                m <= 0x8000_0000_0000_0000,
        ;
        m * m
    }

    pub fn lt(self, other: Scalar) -> (b: bool)
        ensures
            b == (self@ < other@),
    {
        self.raw < other.raw
    }

    pub fn le(self, other: Scalar) -> (b: bool)
        ensures
            b == (self@ <= other@),
    {
        self.raw <= other.raw
    }

    pub fn gt(self, other: Scalar) -> (b: bool)
        ensures
            b == (self@ > other@),
    {
        self.raw > other.raw
    }

    pub fn ge(self, other: Scalar) -> (b: bool)
        ensures
            b == (self@ >= other@),
    {
        self.raw >= other.raw
    }

    /// The greater of the two.
    #[verifier::when_used_as_spec(spec_max)]
    pub fn max(self, other: Scalar) -> (r: Scalar)
        ensures
            r == self.spec_max(other),
    {
        if self.raw >= other.raw {
            self
        } else {
            other
        }
    }

    /// The lesser of the two.
    #[verifier::when_used_as_spec(spec_min)]
    pub fn min(self, other: Scalar) -> (r: Scalar)
        ensures
            r == self.spec_min(other),
    {
        if self.raw <= other.raw {
            self
        } else {
            other
        }
    }

    /// `self` moved into `[lo, hi]`.
    #[verifier::when_used_as_spec(spec_clamp)]
    pub fn clamp(self, lo: Scalar, hi: Scalar) -> (r: Scalar)
        ensures
            r == self.spec_clamp(lo, hi),
    {
        if self.raw < lo.raw {
            lo
        } else if self.raw > hi.raw {
            hi
        } else {
            self
        }
    }
}

/// Zero times anything is zero, from either side.
pub proof fn lemma_mul_zero(x: Scalar)
    ensures
        x.mul(Scalar::zero()) == Scalar::zero(),
        Scalar::zero().mul(x) == Scalar::zero(),
{
    assert(x@ * 0 == 0 && 0 * x@ == 0) by (nonlinear_arith);
}

/// The share zero of anything is zero, whatever the whole.
pub proof fn lemma_mul_div_zero(x: Scalar, den: Scalar)
    ensures
        x.mul_div(Scalar::zero(), den) == Scalar::zero(),
{
    assert(x@ * 0 == 0) by (nonlinear_arith);
    if den@ != 0 {
        assert(magnitude(0) / magnitude(den@) == 0) by (nonlinear_arith)
            requires
                magnitude(den@) > 0,
                magnitude(0) == 0,
        ;
    }
}

/// One times anything is that thing, from either side.
pub proof fn lemma_mul_one(x: Scalar)
    ensures
        x.mul(Scalar::one()) == x,
        Scalar::one().mul(x) == x,
{
    let m = magnitude(x@);
    assert(x@ * 1_000_000 == 1_000_000 * x@) by (nonlinear_arith);
    assert(magnitude(x@ * 1_000_000) == m * 1_000_000);
    assert((m * 1_000_000) / 1_000_000 == m) by (nonlinear_arith);
    assert(quotient_toward_zero(x@ * 1_000_000, 1_000_000) == x@);
}

/// Adding or taking away zero changes nothing.
pub proof fn lemma_add_zero(x: Scalar)
    ensures
        x.add(Scalar::zero()) == x,
        Scalar::zero().add(x) == x,
        x.sub(Scalar::zero()) == x,
{
}

/// The quotient of two numbers that are not negative lies within one
/// divisor below the dividend.
pub proof fn lemma_quotient_bounds(n: int, d: int)
    requires
        n >= 0,
        d > 0,
    ensures
        quotient_toward_zero(n, d) == n / d,
        0 <= n / d,
        (n / d) * d <= n,
        n < (n / d) * d + d,
{
    assert(0 <= n / d && (n / d) * d <= n && n < (n / d) * d + d) by (nonlinear_arith)
        requires
            n >= 0,
            d > 0,
    ;
}

/// Rounding toward zero commutes with a change of sign.
pub proof fn lemma_quotient_odd(n: int, d: int)
    requires
        d > 0,
    ensures
        quotient_toward_zero(-n, d) == -quotient_toward_zero(n, d),
{
    assert(magnitude(n) / d >= 0) by (nonlinear_arith)
        requires
            magnitude(n) >= 0,
            d > 0,
    ;
    if n == 0 {
        assert(0int / d == 0) by (nonlinear_arith)
            requires
                d > 0,
        ;
    }
}

} // verus!
