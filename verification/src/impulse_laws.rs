//! What the impulse of a collision does to the velocities of the two
//! bodies, for every normal of length one as nearly as millionths allow,
//! with the tolerances that rounding to millionths asks for.

use crate::body::Body;
use crate::config::PhysicsConfig;
use crate::contact::{
    apply_impulse, correct_positions, normal_velocity, resolve_pair_spec, velocity_change,
    Contact,
};
use crate::contact_laws::{length_squared, nearly_unit};
use crate::scalar::{
    lemma_mul_one, lemma_mul_zero, lemma_quotient_bounds, magnitude, quotient_toward_zero, Scalar,
    SCALE,
};
use crate::vector::Vector;
use vstd::prelude::*;

verus! {

/// The speed along either axis up to which the laws of this file follow
/// an impulse without saturation (millionths): two million units per
/// second.
pub const SPEED_LIMIT: i64 = 2_000_000_000_000;

/// Whether neither component of `v` is beyond the speed limit.
pub open spec fn moderate(v: Vector) -> bool {
    &&& -SPEED_LIMIT <= v.x@ <= SPEED_LIMIT
    &&& -SPEED_LIMIT <= v.y@ <= SPEED_LIMIT
}

/// The restitution that a collision uses: the configured one, kept within
/// zero and one.
pub open spec fn restitution_in_use(config: PhysicsConfig) -> Scalar {
    config.restitution.clamp(Scalar::zero(), Scalar::one())
}

/// The speed at which two bodies that approach at `approach` are due to
/// part again: the restitution times the approach.
pub open spec fn rebound(config: PhysicsConfig, approach: Scalar) -> Scalar {
    restitution_in_use(config).mul(approach)
}

/// Whether a contact between `a` and `b` is one that the laws of this file
/// speak of: its normal is of length one within rounding, the two bodies
/// are no faster than the speed limit, no inverse mass is negative and at
/// least one is positive, and the bodies are not separating.
pub open spec fn followed(a: Body, b: Body, contact: Contact) -> bool {
    &&& nearly_unit(contact.normal)
    &&& moderate(a.velocity)
    &&& moderate(b.velocity)
    &&& a.effective_inverse_mass()@ >= 0
    &&& b.effective_inverse_mass()@ >= 0
    &&& 0 < a.effective_inverse_mass()@ + b.effective_inverse_mass()@ <= i64::MAX
    &&& normal_velocity(a, b, contact.normal)@ <= 0
}

/// The sizes of the changes of velocity that the impulse gives to `a` and
/// to `b`, each along the normal.
pub open spec fn shares(a: Body, b: Body, contact: Contact, config: PhysicsConfig) -> (
    Scalar,
    Scalar,
) {
    let inv_sum = a.effective_inverse_mass().add(b.effective_inverse_mass());
    let change = velocity_change(config.restitution, normal_velocity(a, b, contact.normal));
    (
        change.mul_div(a.effective_inverse_mass(), inv_sum),
        change.mul_div(b.effective_inverse_mass(), inv_sum),
    )
}

/// The product of two bounded numbers is bounded by the product of the
/// bounds.
proof fn lemma_product_bound(x: int, y: int, a: int, b: int)
    requires
        -a <= x <= a,
        -b <= y <= b,
    ensures
        -(a * b) <= x * y <= a * b,
{
    assert((a - x) * (b - y) >= 0 && (a + x) * (b + y) >= 0 && (a - x) * (b + y) >= 0 && (a + x)
        * (b - y) >= 0) by (nonlinear_arith)
        requires
            -a <= x <= a,
            -b <= y <= b,
    ;
    assert(-(a * b) <= x * y <= a * b) by (nonlinear_arith)
        requires
            (a - x) * (b - y) >= 0,
            (a + x) * (b + y) >= 0,
            (a - x) * (b + y) >= 0,
            (a + x) * (b - y) >= 0,
    ;
}

/// A product that is rounded to millionths is less than a millionth off.
proof fn lemma_mul_error(a: Scalar, b: Scalar)
    requires
        -9_000_000_000_000_000_000_000_000 <= a@ * b@ <= 9_000_000_000_000_000_000_000_000,
    ensures
        -SCALE < a.mul(b)@ * SCALE - a@ * b@ < SCALE,
{
    let p = a@ * b@;
    lemma_quotient_bounds(magnitude(p), 1_000_000);
    assert(SCALE == 1_000_000);
    assert(quotient_toward_zero(p, 1_000_000) == if p < 0 {
        -(magnitude(p) / 1_000_000)
    } else {
        magnitude(p) / 1_000_000
    });
}

/// The two shares of a change of velocity add up to it, less what two
/// roundings lose.
proof fn lemma_shares_add_up(t: Scalar, ia: Scalar, ib: Scalar)
    requires
        t@ >= 0,
        ia@ >= 0,
        ib@ >= 0,
        0 < ia@ + ib@ <= i64::MAX,
    ensures
        ({
            let fa = t.mul_div(ia, ia.add(ib))@;
            let fb = t.mul_div(ib, ia.add(ib))@;
            &&& 0 <= fa
            &&& 0 <= fb
            &&& fa + fb <= t@
            &&& t@ < fa + fb + 2
            &&& ia@ == 0 ==> fa == 0
            &&& ib@ == 0 ==> fb == 0
            &&& ia == ib ==> fa == fb
            &&& -ib@ <= fa * ib@ - fb * ia@ <= ia@
        }),
{
    let s = ia@ + ib@;
    let pa = t@ * ia@;
    let pb = t@ * ib@;
    assert(pa >= 0 && pb >= 0 && pa + pb == t@ * s && pa <= t@ * s && pb <= t@ * s
        && (ia@ == 0 ==> pa == 0) && (ib@ == 0 ==> pb == 0)) by (nonlinear_arith)
        requires
            pa == t@ * ia@,
            pb == t@ * ib@,
            s == ia@ + ib@,
            t@ >= 0,
            ia@ >= 0,
            ib@ >= 0,
    ;
    lemma_quotient_bounds(pa, s);
    lemma_quotient_bounds(pb, s);
    let fa = pa / s;
    let fb = pb / s;
    assert(fa <= t@ && fb <= t@ && fa + fb <= t@ && t@ < fa + fb + 2) by (nonlinear_arith)
        requires
            fa * s <= pa < fa * s + s,
            fb * s <= pb < fb * s + s,
            pa + pb == t@ * s,
            pa <= t@ * s,
            pb <= t@ * s,
            s > 0,
            t@ >= 0,
    ;
    if ia@ == 0 {
        assert(0int / s == 0) by (nonlinear_arith)
            requires
                s > 0,
        ;
    }
    if ib@ == 0 {
        assert(0int / s == 0) by (nonlinear_arith)
            requires
                s > 0,
        ;
    }
    assert(-ib@ <= fa * ib@ - fb * ia@ <= ia@) by (nonlinear_arith)
        requires
            fa * s <= t@ * ia@ < fa * s + s,
            fb * s <= t@ * ib@ < fb * s + s,
            s > 0,
            ia@ >= 0,
            ib@ >= 0,
    ;
}

/// What the velocities are after the impulse, and how far rounding can
/// take the parts of the computation from their exact values.
proof fn lemma_impulse(a: Body, b: Body, contact: Contact, config: PhysicsConfig)
    requires
        followed(a, b, contact),
    ensures
        ({
            let n = contact.normal;
            let vn = normal_velocity(a, b, n);
            let w = -vn@;
            let t = velocity_change(config.restitution, vn)@;
            let fa = shares(a, b, contact, config).0;
            let fb = shares(a, b, contact, config).1;
            let pa = n.scale(fa);
            let pb = n.scale(fb);
            let after = apply_impulse(a, b, contact, config);
            &&& 0 <= w <= 4 * SPEED_LIMIT
            &&& t == w + rebound(config, vn.neg())@
            &&& t <= 2 * w
            &&& 0 <= fa@
            &&& 0 <= fb@
            &&& fa@ + fb@ <= t
            &&& t < fa@ + fb@ + 2
            &&& a.effective_inverse_mass() == b.effective_inverse_mass() ==> fa == fb
            &&& -b.effective_inverse_mass()@ <= fa@ * b.effective_inverse_mass()@ - fb@
                * a.effective_inverse_mass()@ <= a.effective_inverse_mass()@
            &&& -SCALE < pa.x@ * SCALE - n.x@ * fa@ < SCALE
            &&& -SCALE < pa.y@ * SCALE - n.y@ * fa@ < SCALE
            &&& -SCALE < pb.x@ * SCALE - n.x@ * fb@ < SCALE
            &&& -SCALE < pb.y@ * SCALE - n.y@ * fb@ < SCALE
            &&& after.0.velocity.x@ == a.velocity.x@ - pa.x@
            &&& after.0.velocity.y@ == a.velocity.y@ - pa.y@
            &&& after.1.velocity.x@ == b.velocity.x@ + pb.x@
            &&& after.1.velocity.y@ == b.velocity.y@ + pb.y@
            &&& -20_000_000_000_000 <= after.0.velocity.x@ <= 20_000_000_000_000
            &&& -20_000_000_000_000 <= after.0.velocity.y@ <= 20_000_000_000_000
            &&& -20_000_000_000_000 <= after.1.velocity.x@ <= 20_000_000_000_000
            &&& -20_000_000_000_000 <= after.1.velocity.y@ <= 20_000_000_000_000
        }),
{
    let n = contact.normal;
    let ia = a.effective_inverse_mass();
    let ib = b.effective_inverse_mass();
    let rv = b.velocity.sub(a.velocity);
    lemma_dot_error(rv, n, 4_000_000_000_000);
    let vn = normal_velocity(a, b, n);
    let w = -vn@;
    assert(0 <= w <= 8_000_000_000_000);
    let e = restitution_in_use(config);
    let e1 = 1_000_000 + e@;
    assert(e1 * w >= 0 && 1_000_000 * w <= e1 * w <= 2_000_000 * w && e@ * w >= 0 && e1 * w
        == 1_000_000 * w + e@ * w && e@ * w <= 1_000_000 * w) by (nonlinear_arith)
        requires
            e1 == 1_000_000 + e@,
            0 <= e@ <= 1_000_000,
            w >= 0,
    ;
    lemma_quotient_bounds(e1 * w, 1_000_000);
    lemma_quotient_bounds(e@ * w, 1_000_000);
    assert((-e1) * vn@ == e1 * w && e@ * vn.neg()@ == e@ * w) by (nonlinear_arith)
        requires
            w == -vn@,
            vn.neg()@ == w,
    ;
    let change = velocity_change(config.restitution, vn);
    assert(Scalar::one().add(e).neg()@ == -e1);
    let t = (e1 * w) / 1_000_000;
    assert(change@ == t);
    let r = (e@ * w) / 1_000_000;
    assert(rebound(config, vn.neg())@ == r);
    assert(t == w + r) by (nonlinear_arith)
        requires
            r * 1_000_000 <= e@ * w < r * 1_000_000 + 1_000_000,
            t * 1_000_000 <= 1_000_000 * w + e@ * w < t * 1_000_000 + 1_000_000,
    ;
    lemma_shares_add_up(change, ia, ib);
    let fa = shares(a, b, contact, config).0;
    let fb = shares(a, b, contact, config).1;
    lemma_product_bound(n.x@, fa@, 1_000_000, 16_000_000_000_000);
    lemma_product_bound(n.y@, fa@, 1_000_000, 16_000_000_000_000);
    lemma_product_bound(n.x@, fb@, 1_000_000, 16_000_000_000_000);
    lemma_product_bound(n.y@, fb@, 1_000_000, 16_000_000_000_000);
    lemma_mul_error(n.x, fa);
    lemma_mul_error(n.y, fa);
    lemma_mul_error(n.x, fb);
    lemma_mul_error(n.y, fb);
    assert(SCALE == 1_000_000);
    if ia@ == 0 {
        assert(n.x@ * 0 == 0 && n.y@ * 0 == 0) by (nonlinear_arith);
    }
    if ib@ == 0 {
        assert(n.x@ * 0 == 0 && n.y@ * 0 == 0) by (nonlinear_arith);
    }
}

/// The inner product with a normal, rounded to millionths, is less than
/// two millionths off.
proof fn lemma_dot_error(v: Vector, n: Vector, bound: int)
    requires
        -SCALE <= n.x@ <= SCALE,
        -SCALE <= n.y@ <= SCALE,
        -bound <= v.x@ <= bound,
        -bound <= v.y@ <= bound,
        0 <= bound <= 1_000_000_000_000_000,
    ensures
        -2 * SCALE < v.dot(n)@ * SCALE - (v.x@ * n.x@ + v.y@ * n.y@) < 2 * SCALE,
        -2 * bound <= v.dot(n)@ <= 2 * bound,
        v.dot(n)@ == v.x.mul(n.x)@ + v.y.mul(n.y)@,
{
    assert(SCALE == 1_000_000);
    lemma_product_bound(v.x@, n.x@, bound, 1_000_000);
    lemma_product_bound(v.y@, n.y@, bound, 1_000_000);
    lemma_mul_error(v.x, n.x);
    lemma_mul_error(v.y, n.y);
}

/// How far the relative velocity along the normal after the impulse can be
/// from the one before with the two shares added.
proof fn lemma_rebound_core(
    nx: int,
    ny: int,
    rvx: int,
    rvy: int,
    vn: int,
    fa: int,
    fb: int,
    pax: int,
    pay: int,
    pbx: int,
    pby: int,
    vn2: int,
)
    requires
        -1_000_000 <= nx <= 1_000_000,
        -1_000_000 <= ny <= 1_000_000,
        -4_000_002 < nx * nx + ny * ny - 1_000_000_000_000 < 2_000_001,
        -2_000_000 < vn * 1_000_000 - (rvx * nx + rvy * ny) < 2_000_000,
        -1_000_000 < pax * 1_000_000 - nx * fa < 1_000_000,
        -1_000_000 < pay * 1_000_000 - ny * fa < 1_000_000,
        -1_000_000 < pbx * 1_000_000 - nx * fb < 1_000_000,
        -1_000_000 < pby * 1_000_000 - ny * fb < 1_000_000,
        -2_000_000 < vn2 * 1_000_000 - ((rvx + pax + pbx) * nx + (rvy + pay + pby) * ny)
            < 2_000_000,
        fa >= 0,
        fb >= 0,
    ensures
        -(4_000_002 * (fa + fb) + 8_000_000_000_000) < (vn2 - vn - (fa + fb))
            * 1_000_000_000_000 < 4_000_002 * (fa + fb) + 8_000_000_000_000,
{
    let f = fa + fb;
    let a1 = pax * 1_000_000 - nx * fa;
    let a2 = pbx * 1_000_000 - nx * fb;
    let a3 = pay * 1_000_000 - ny * fa;
    let a4 = pby * 1_000_000 - ny * fb;
    lemma_product_bound(nx, a1, 1_000_000, 1_000_000);
    lemma_product_bound(nx, a2, 1_000_000, 1_000_000);
    lemma_product_bound(ny, a3, 1_000_000, 1_000_000);
    lemma_product_bound(ny, a4, 1_000_000, 1_000_000);
    let q1 = nx * nx;
    let q2 = ny * ny;
    let eta = q1 + q2 - 1_000_000_000_000;
    lemma_product_bound(eta, f, 4_000_002, f);
    let g = eta * f;
    assert(4_000_002 * f == 4_000_002 * (fa + fb));
    let along_ax = pax * nx;
    let along_bx = pbx * nx;
    let along_ay = pay * ny;
    let along_by = pby * ny;
    assert((rvx + pax + pbx) * nx + (rvy + pay + pby) * ny == (rvx * nx + rvy * ny) + along_ax + along_bx + along_ay
        + along_by) by (nonlinear_arith)
        requires
            along_ax == pax * nx,
            along_bx == pbx * nx,
            along_ay == pay * ny,
            along_by == pby * ny,
    ;
    assert(nx * a1 == along_ax * 1_000_000 - q1 * fa && nx * a2 == along_bx * 1_000_000 - q1 * fb)
        by (nonlinear_arith)
        requires
            a1 == pax * 1_000_000 - nx * fa,
            a2 == pbx * 1_000_000 - nx * fb,
            along_ax == pax * nx,
            along_bx == pbx * nx,
            q1 == nx * nx,
    ;
    assert(ny * a3 == along_ay * 1_000_000 - q2 * fa && ny * a4 == along_by * 1_000_000 - q2 * fb)
        by (nonlinear_arith)
        requires
            a3 == pay * 1_000_000 - ny * fa,
            a4 == pby * 1_000_000 - ny * fb,
            along_ay == pay * ny,
            along_by == pby * ny,
            q2 == ny * ny,
    ;
    assert(g == q1 * fa + q1 * fb + q2 * fa + q2 * fb - 1_000_000_000_000 * f)
        by (nonlinear_arith)
        requires
            g == eta * f,
            eta == q1 + q2 - 1_000_000_000_000,
            f == fa + fb,
    ;
}

/// The impulse of a contact turns the approach of two bodies into their
/// rebound: afterwards they part at the restitution times the speed of
/// their approach, within ten millionths and 8.000004 millionths of that
/// speed.
pub proof fn impulse_turns_approach_into_rebound(
    a: Body,
    b: Body,
    contact: Contact,
    config: PhysicsConfig,
)
    requires
        followed(a, b, contact),
    ensures
        ({
            let after = resolve_pair_spec(a, b, contact, config);
            let approach = normal_velocity(a, b, contact.normal).neg();
            let parting = normal_velocity(after.0, after.1, contact.normal);
            let off = parting@ - rebound(config, approach)@;
            &&& -(8_000_004 * approach@ + 10 * (SCALE * SCALE)) < off * (SCALE * SCALE)
            &&& off * (SCALE * SCALE) < 8_000_004 * approach@ + 8 * (SCALE * SCALE)
        }),
{
    let c = correct_positions(a, b, contact, config);
    lemma_impulse(c.0, c.1, contact, config);
    let n = contact.normal;
    let after = apply_impulse(c.0, c.1, contact, config);
    let rv = b.velocity.sub(a.velocity);
    let rv2 = after.1.velocity.sub(after.0.velocity);
    lemma_dot_error(rv, n, 4_000_000_000_000);
    lemma_dot_error(rv2, n, 40_000_000_000_000);
    let fa = shares(c.0, c.1, contact, config).0;
    let fb = shares(c.0, c.1, contact, config).1;
    let pa = n.scale(fa);
    let pb = n.scale(fb);
    assert(SCALE == 1_000_000);
    assert(length_squared(n) == n.x@ * n.x@ + n.y@ * n.y@);
    lemma_rebound_core(
        n.x@,
        n.y@,
        rv.x@,
        rv.y@,
        rv.dot(n)@,
        fa@,
        fb@,
        pa.x@,
        pa.y@,
        pb.x@,
        pb.y@,
        rv2.dot(n)@,
    );
}

/// A contact without restitution leaves two approaching bodies at rest
/// relative to each other along the normal, within ten millionths and
/// 8.000004 millionths of the speed of their approach.
pub proof fn inelastic_contact_ends_approach(
    a: Body,
    b: Body,
    contact: Contact,
    config: PhysicsConfig,
)
    requires
        config.restitution@ <= 0,
        followed(a, b, contact),
    ensures
        ({
            let after = resolve_pair_spec(a, b, contact, config);
            let approach = normal_velocity(a, b, contact.normal).neg();
            let left = normal_velocity(after.0, after.1, contact.normal);
            &&& -(8_000_004 * approach@ + 10 * (SCALE * SCALE)) < left@ * (SCALE * SCALE)
            &&& left@ * (SCALE * SCALE) < 8_000_004 * approach@ + 8 * (SCALE * SCALE)
        }),
{
    impulse_turns_approach_into_rebound(a, b, contact, config);
    lemma_mul_zero(normal_velocity(a, b, contact.normal).neg());
}

/// Two bodies that are separating already keep their velocities.
pub proof fn separating_bodies_keep_velocities(
    a: Body,
    b: Body,
    contact: Contact,
    config: PhysicsConfig,
)
    requires
        normal_velocity(a, b, contact.normal)@ > 0,
    ensures
        resolve_pair_spec(a, b, contact, config).0.velocity == a.velocity,
        resolve_pair_spec(a, b, contact, config).1.velocity == b.velocity,
{
}

/// The impulse changes the velocity of each body along the normal only:
/// across the normal, neither change is beyond two millionths.
pub proof fn impulse_acts_along_the_normal(
    a: Body,
    b: Body,
    contact: Contact,
    config: PhysicsConfig,
)
    requires
        followed(a, b, contact),
    ensures
        ({
            let n = contact.normal;
            let after = resolve_pair_spec(a, b, contact, config);
            let da = after.0.velocity.sub(a.velocity);
            let db = after.1.velocity.sub(b.velocity);
            &&& -2 * SCALE <= n.x@ * da.y@ - n.y@ * da.x@ <= 2 * SCALE
            &&& -2 * SCALE <= n.x@ * db.y@ - n.y@ * db.x@ <= 2 * SCALE
        }),
{
    let c = correct_positions(a, b, contact, config);
    lemma_impulse(c.0, c.1, contact, config);
    let n = contact.normal;
    let fa = shares(c.0, c.1, contact, config).0;
    let fb = shares(c.0, c.1, contact, config).1;
    let pa = n.scale(fa);
    let pb = n.scale(fb);
    assert(SCALE == 1_000_000);
    lemma_across(n.x@, n.y@, fa@, pa.x@, pa.y@);
    lemma_across(n.x@, n.y@, fb@, pb.x@, pb.y@);
    let after = apply_impulse(c.0, c.1, contact, config);
    let da = after.0.velocity.sub(a.velocity);
    let db = after.1.velocity.sub(b.velocity);
    assert(n.x@ * da.y@ - n.y@ * da.x@ == -(n.x@ * pa.y@ - n.y@ * pa.x@)) by (nonlinear_arith)
        requires
            da.x@ == -pa.x@,
            da.y@ == -pa.y@,
    ;
    assert(n.x@ * db.y@ - n.y@ * db.x@ == n.x@ * pb.y@ - n.y@ * pb.x@) by (nonlinear_arith)
        requires
            db.x@ == pb.x@,
            db.y@ == pb.y@,
    ;
}

/// A multiple of the normal, rounded to millionths, has next to nothing
/// across the normal.
proof fn lemma_across(nx: int, ny: int, f: int, px: int, py: int)
    requires
        -1_000_000 <= nx <= 1_000_000,
        -1_000_000 <= ny <= 1_000_000,
        -1_000_000 < px * 1_000_000 - nx * f < 1_000_000,
        -1_000_000 < py * 1_000_000 - ny * f < 1_000_000,
    ensures
        -2_000_000 <= nx * py - ny * px <= 2_000_000,
{
    let a1 = px * 1_000_000 - nx * f;
    let a3 = py * 1_000_000 - ny * f;
    lemma_product_bound(ny, a1, 1_000_000, 1_000_000);
    lemma_product_bound(nx, a3, 1_000_000, 1_000_000);
    assert((nx * py - ny * px) * 1_000_000 == nx * a3 - ny * a1) by (nonlinear_arith)
        requires
            a1 == px * 1_000_000 - nx * f,
            a3 == py * 1_000_000 - ny * f,
    ;
}

/// The impulse is shared by inverse mass: the two bodies change their
/// velocities in opposite directions along the normal, by sizes that are to
/// each other as their inverse masses, within what one rounding loses. So
/// what one body loses in momentum, the other gains.
pub proof fn impulse_is_shared_by_inverse_mass(
    a: Body,
    b: Body,
    contact: Contact,
    config: PhysicsConfig,
)
    requires
        followed(a, b, contact),
    ensures
        ({
            let n = contact.normal;
            let c = correct_positions(a, b, contact, config);
            let after = resolve_pair_spec(a, b, contact, config);
            let fa = shares(c.0, c.1, contact, config).0;
            let fb = shares(c.0, c.1, contact, config).1;
            let ia = a.effective_inverse_mass()@;
            let ib = b.effective_inverse_mass()@;
            &&& after.0.velocity == a.velocity.sub(n.scale(fa))
            &&& after.1.velocity == b.velocity.add(n.scale(fb))
            &&& 0 <= fa@
            &&& 0 <= fb@
            &&& -ib <= fa@ * ib - fb@ * ia <= ia
        }),
{
    let c = correct_positions(a, b, contact, config);
    lemma_impulse(c.0, c.1, contact, config);
    let n = contact.normal;
    let fa = shares(c.0, c.1, contact, config).0;
    let fb = shares(c.0, c.1, contact, config).1;
    let after = apply_impulse(c.0, c.1, contact, config);
    assert(after.0.velocity.x == a.velocity.sub(n.scale(fa)).x);
    assert(after.0.velocity.y == a.velocity.sub(n.scale(fa)).y);
    assert(after.1.velocity.x == b.velocity.add(n.scale(fb)).x);
    assert(after.1.velocity.y == b.velocity.add(n.scale(fb)).y);
}

/// Between two bodies of the same mass the impulse keeps the sum of the
/// velocities, and so the momentum, exactly.
pub proof fn equal_masses_keep_momentum(a: Body, b: Body, contact: Contact, config: PhysicsConfig)
    requires
        followed(a, b, contact),
        a.effective_inverse_mass() == b.effective_inverse_mass(),
    ensures
        ({
            let after = resolve_pair_spec(a, b, contact, config);
            after.0.velocity.add(after.1.velocity) == a.velocity.add(b.velocity)
        }),
{
    let c = correct_positions(a, b, contact, config);
    lemma_impulse(c.0, c.1, contact, config);
    let after = apply_impulse(c.0, c.1, contact, config);
    assert(after.0.velocity.add(after.1.velocity).x == a.velocity.add(b.velocity).x);
    assert(after.0.velocity.add(after.1.velocity).y == a.velocity.add(b.velocity).y);
}

/// How far the velocity of one body along the normal after the impulse
/// can be from the one before less its share.
proof fn lemma_body_core(
    nx: int,
    ny: int,
    vx: int,
    vy: int,
    u: int,
    f: int,
    px: int,
    py: int,
    u2: int,
    most: int,
)
    requires
        -1_000_000 <= nx <= 1_000_000,
        -1_000_000 <= ny <= 1_000_000,
        -4_000_002 < nx * nx + ny * ny - 1_000_000_000_000 < 2_000_001,
        -2_000_000 < u * 1_000_000 - (vx * nx + vy * ny) < 2_000_000,
        -1_000_000 < px * 1_000_000 - nx * f < 1_000_000,
        -1_000_000 < py * 1_000_000 - ny * f < 1_000_000,
        -2_000_000 < u2 * 1_000_000 - ((vx - px) * nx + (vy - py) * ny) < 2_000_000,
        -most <= f <= most,
    ensures
        -(4_000_002 * most + 6_000_000_000_000) < (u2 - u + f) * 1_000_000_000_000 < 4_000_002
            * most + 6_000_000_000_000,
{
    let a1 = px * 1_000_000 - nx * f;
    let a3 = py * 1_000_000 - ny * f;
    lemma_product_bound(nx, a1, 1_000_000, 1_000_000);
    lemma_product_bound(ny, a3, 1_000_000, 1_000_000);
    let q1 = nx * nx;
    let q2 = ny * ny;
    let eta = q1 + q2 - 1_000_000_000_000;
    lemma_product_bound(eta, f, 4_000_002, most);
    let g = eta * f;
    let along_ax = px * nx;
    let along_ay = py * ny;
    assert((vx - px) * nx + (vy - py) * ny == (vx * nx + vy * ny) - along_ax - along_ay) by (nonlinear_arith)
        requires
            along_ax == px * nx,
            along_ay == py * ny,
    ;
    assert(nx * a1 == along_ax * 1_000_000 - q1 * f && ny * a3 == along_ay * 1_000_000 - q2 * f)
        by (nonlinear_arith)
        requires
            a1 == px * 1_000_000 - nx * f,
            a3 == py * 1_000_000 - ny * f,
            along_ax == px * nx,
            along_ay == py * ny,
            q1 == nx * nx,
            q2 == ny * ny,
    ;
    assert(g == q1 * f + q2 * f - 1_000_000_000_000 * f) by (nonlinear_arith)
        requires
            g == eta * f,
            eta == q1 + q2 - 1_000_000_000_000,
    ;
}

/// A head-on contact with full restitution between two bodies of the same
/// mass that are as fast as each other along the normal, in opposite
/// directions, reverses the velocity of each along the normal: within
/// twelve millionths and 4.000002 millionths of the speed of their
/// approach. Across the normal it leaves their velocities as
/// `impulse_acts_along_the_normal` says.
pub proof fn elastic_contact_swaps_velocities(
    a: Body,
    b: Body,
    contact: Contact,
    config: PhysicsConfig,
)
    requires
        config.restitution@ >= SCALE,
        followed(a, b, contact),
        a.effective_inverse_mass() == b.effective_inverse_mass(),
        b.velocity.dot(contact.normal)@ == -a.velocity.dot(contact.normal)@,
    ensures
        ({
            let n = contact.normal;
            let after = resolve_pair_spec(a, b, contact, config);
            let approach = normal_velocity(a, b, n).neg()@;
            let off_a = after.0.velocity.dot(n)@ + a.velocity.dot(n)@;
            let off_b = after.1.velocity.dot(n)@ + b.velocity.dot(n)@;
            let most = 4_000_002 * approach + 12 * (SCALE * SCALE);
            &&& -most < off_a * (SCALE * SCALE) < most
            &&& -most < off_b * (SCALE * SCALE) < most
        }),
{
    let c = correct_positions(a, b, contact, config);
    lemma_impulse(c.0, c.1, contact, config);
    let n = contact.normal;
    let after = apply_impulse(c.0, c.1, contact, config);
    let fa = shares(c.0, c.1, contact, config).0;
    let fb = shares(c.0, c.1, contact, config).1;
    let pa = n.scale(fa);
    let pb = n.scale(fb);
    let rv = b.velocity.sub(a.velocity);
    let vn = normal_velocity(a, b, n);
    let w = -vn@;
    let u = a.velocity.dot(n)@;
    assert(SCALE == 1_000_000);
    assert(length_squared(n) == n.x@ * n.x@ + n.y@ * n.y@);
    lemma_dot_error(rv, n, 4_000_000_000_000);
    lemma_dot_error(a.velocity, n, 2_000_000_000_000);
    lemma_dot_error(b.velocity, n, 2_000_000_000_000);
    lemma_dot_error(after.0.velocity, n, 20_000_000_000_000);
    lemma_dot_error(after.1.velocity, n, 20_000_000_000_000);
    assert(rv.x@ * n.x@ + rv.y@ * n.y@ == (b.velocity.x@ * n.x@ + b.velocity.y@ * n.y@) - (
    a.velocity.x@ * n.x@ + a.velocity.y@ * n.y@)) by (nonlinear_arith)
        requires
            rv.x@ == b.velocity.x@ - a.velocity.x@,
            rv.y@ == b.velocity.y@ - a.velocity.y@,
    ;
    assert(2 * u - 6 < w < 2 * u + 6);
    lemma_mul_one(vn.neg());
    assert(restitution_in_use(config) == Scalar::one());
    assert(fa@ == w);
    assert(fb@ == w);
    lemma_body_core(
        n.x@,
        n.y@,
        a.velocity.x@,
        a.velocity.y@,
        u,
        w,
        pa.x@,
        pa.y@,
        after.0.velocity.dot(n)@,
        w,
    );
    assert(n.x@ * (-w) == -(n.x@ * w) && n.y@ * (-w) == -(n.y@ * w)) by (nonlinear_arith);
    assert((b.velocity.x@ - (-pb.x@)) * n.x@ + (b.velocity.y@ - (-pb.y@)) * n.y@
        == after.1.velocity.x@ * n.x@ + after.1.velocity.y@ * n.y@) by (nonlinear_arith)
        requires
            after.1.velocity.x@ == b.velocity.x@ + pb.x@,
            after.1.velocity.y@ == b.velocity.y@ + pb.y@,
    ;
    lemma_body_core(
        n.x@,
        n.y@,
        b.velocity.x@,
        b.velocity.y@,
        -u,
        -w,
        -pb.x@,
        -pb.y@,
        after.1.velocity.dot(n)@,
        w,
    );
}

} // verus!
