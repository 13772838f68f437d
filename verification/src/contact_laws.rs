//! What holds of the contact that is found between two overlapping bodies.

use crate::body::Body;
use crate::contact::{contact_between, overlapping, BodyId};
use crate::scalar::{
    floor_sqrt, lemma_floor_sqrt, lemma_quotient_bounds, lemma_quotient_odd, magnitude, SCALE,
};
use crate::vector::Vector;
use vstd::prelude::*;

verus! {

/// The distance between the centers of `a` and `b`, rounded down to a
/// whole number of millionths.
pub open spec fn center_distance(a: Body, b: Body) -> nat {
    floor_sqrt(b.position.sub(a.position).norm_squared())
}

/// The square of the length of `n`, in squared raw units.
pub open spec fn length_squared(n: Vector) -> int {
    n.x@ * n.x@ + n.y@ * n.y@
}

/// Whether `n` is of length one as nearly as millionths allow: neither
/// component is beyond one, and the square of its length lies within
/// `1 - 0.000004000002` and `1 + 0.000002000001`.
pub open spec fn nearly_unit(n: Vector) -> bool {
    &&& -SCALE <= n.x@ <= SCALE
    &&& -SCALE <= n.y@ <= SCALE
    &&& length_squared(n) + 4 * SCALE + 2 > SCALE * SCALE
    &&& length_squared(n) < (SCALE + 1) * (SCALE + 1)
}

/// The contact of two overlapping bodies is as deep as the sum of their
/// radii is more than the distance of their centers, and that is more than
/// nothing.
pub proof fn penetration_is_overlap_depth(id_a: BodyId, a: Body, id_b: BodyId, b: Body)
    requires
        a.wf(),
        b.wf(),
        overlapping(a, b),
    ensures
        contact_between(id_a, a, id_b, b).penetration@ == a.radius.add(b.radius)@
            - center_distance(a, b),
        contact_between(id_a, a, id_b, b).penetration@ > 0,
{
    let reach = a.radius.add(b.radius)@;
    let q = b.position.sub(a.position).norm_squared();
    let d = floor_sqrt(q);
    lemma_floor_sqrt(q);
    assert(d < reach) by (nonlinear_arith)
        requires
            d * d <= q,
            q < reach * reach,
            reach >= 0,
            d >= 0,
    ;
}

/// The direction of any vector but the zero vector is of length one as
/// nearly as millionths allow, however short or long the vector is.
pub proof fn direction_is_nearly_unit(v: Vector)
    requires
        v.x@ != 0 || v.y@ != 0,
    ensures
        nearly_unit(v.direction()),
{
    let s: int = 1_000_000;
    let f = v.refined();
    let x = magnitude(f.0);
    let y = magnitude(f.1);
    let q = (f.0 * f.0 + f.1 * f.1) as nat;
    assert(x * x == f.0 * f.0 && y * y == f.1 * f.1) by (nonlinear_arith)
        requires
            x == magnitude(f.0),
            y == magnitude(f.1),
    ;
    let d = floor_sqrt(q) as int;
    lemma_floor_sqrt(q);
    assert(v.refined_length() == d);
    assert(x >= s || y >= s);
    assert(q >= s * s) by (nonlinear_arith)
        requires
            q == x * x + y * y,
            x >= s || y >= s,
            x >= 0,
            y >= 0,
            s == 1_000_000,
    ;
    assert(d >= s) by (nonlinear_arith)
        requires
            q < (d + 1) * (d + 1),
            q >= s * s,
            d >= 0,
            s == 1_000_000,
    ;
    assert(x <= d && y <= d) by (nonlinear_arith)
        requires
            x * x + y * y == q,
            q < (d + 1) * (d + 1),
            x >= 0,
            y >= 0,
            d >= 0,
    ;
    let p = (x * s) / d;
    let r = (y * s) / d;
    assert(x * s >= 0 && y * s >= 0) by (nonlinear_arith)
        requires
            x >= 0,
            y >= 0,
            s == 1_000_000,
    ;
    lemma_quotient_bounds(x * s, d);
    lemma_quotient_bounds(y * s, d);
    assert(p <= s && r <= s) by (nonlinear_arith)
        requires
            p * d <= x * s,
            r * d <= y * s,
            x <= d,
            y <= d,
            d >= 1,
            s == 1_000_000,
            p >= 0,
            r >= 0,
    ;
    let n = v.direction();
    assert(f.0 * s == if f.0 < 0 {
        -(x * s)
    } else {
        x * s
    }) by (nonlinear_arith)
        requires
            x == magnitude(f.0),
    ;
    assert(f.1 * s == if f.1 < 0 {
        -(y * s)
    } else {
        y * s
    }) by (nonlinear_arith)
        requires
            y == magnitude(f.1),
    ;
    lemma_quotient_odd(x * s, d);
    lemma_quotient_odd(y * s, d);
    assert(magnitude(n.x@) == p);
    assert(magnitude(n.y@) == r);
    let l = length_squared(n);
    assert(l == p * p + r * r) by (nonlinear_arith)
        requires
            l == n.x@ * n.x@ + n.y@ * n.y@,
            magnitude(n.x@) == p,
            magnitude(n.y@) == r,
    ;
    assert((p * p) * (d * d) <= (s * s) * (x * x)) by (nonlinear_arith)
        requires
            0 <= p * d <= x * s,
    ;
    assert((r * r) * (d * d) <= (s * s) * (y * y)) by (nonlinear_arith)
        requires
            0 <= r * d <= y * s,
    ;
    assert(l * (d * d) < (s * s) * ((d + 1) * (d + 1))) by (nonlinear_arith)
        requires
            l == p * p + r * r,
            (p * p) * (d * d) <= (s * s) * (x * x),
            (r * r) * (d * d) <= (s * s) * (y * y),
            q == x * x + y * y,
            q < (d + 1) * (d + 1),
            s == 1_000_000,
    ;
    assert((s + 1) * d >= s * (d + 1)) by (nonlinear_arith)
        requires
            d >= s,
    ;
    assert(((s + 1) * (s + 1)) * (d * d) >= (s * s) * ((d + 1) * (d + 1))) by (nonlinear_arith)
        requires
            (s + 1) * d >= s * (d + 1),
            s * (d + 1) >= 0,
    ;
    assert(l < (s + 1) * (s + 1)) by (nonlinear_arith)
        requires
            l * (d * d) < (s * s) * ((d + 1) * (d + 1)),
            ((s + 1) * (s + 1)) * (d * d) >= (s * s) * ((d + 1) * (d + 1)),
            d >= 1,
    ;
    assert((p + 1) * d > x * s && (r + 1) * d > y * s) by (nonlinear_arith)
        requires
            x * s < p * d + d,
            y * s < r * d + d,
    ;
    assert(((p + 1) * (p + 1)) * (d * d) > (s * s) * (x * x)) by (nonlinear_arith)
        requires
            (p + 1) * d > x * s,
            x * s >= 0,
            d >= 1,
            p >= 0,
    ;
    assert(((r + 1) * (r + 1)) * (d * d) > (s * s) * (y * y)) by (nonlinear_arith)
        requires
            (r + 1) * d > y * s,
            y * s >= 0,
            d >= 1,
            r >= 0,
    ;
    assert(((p + 1) * (p + 1) + (r + 1) * (r + 1)) * (d * d) > (s * s) * (d * d))
        by (nonlinear_arith)
        requires
            ((p + 1) * (p + 1)) * (d * d) > (s * s) * (x * x),
            ((r + 1) * (r + 1)) * (d * d) > (s * s) * (y * y),
            x * x + y * y >= d * d,
            s == 1_000_000,
    ;
    assert((p + 1) * (p + 1) + (r + 1) * (r + 1) > s * s) by (nonlinear_arith)
        requires
            ((p + 1) * (p + 1) + (r + 1) * (r + 1)) * (d * d) > (s * s) * (d * d),
            d >= 1,
    ;
    assert(p * p + r * r + 4 * s + 2 > s * s) by (nonlinear_arith)
        requires
            (p + 1) * (p + 1) + (r + 1) * (r + 1) > s * s,
            p <= s,
            r <= s,
    ;
    assert(SCALE == 1_000_000);
}

/// The normal of a contact between two bodies whose centers do not
/// coincide is of length one as nearly as millionths allow, however close
/// the centers are.
pub proof fn normal_is_nearly_unit(id_a: BodyId, a: Body, id_b: BodyId, b: Body)
    requires
        b.position.sub(a.position) != Vector::zero(),
    ensures
        nearly_unit(contact_between(id_a, a, id_b, b).normal),
{
    direction_is_nearly_unit(b.position.sub(a.position));
}

} // verus!
