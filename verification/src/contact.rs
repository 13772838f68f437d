//! Contacts between two bodies: when two disks overlap, and what a contact
//! does to the two bodies it names.

use crate::body::Body;
use crate::config::PhysicsConfig;
use crate::scalar::Scalar;
use crate::vector::Vector;
use vstd::prelude::*;

verus! {

/// The name of a body: its place in the store.
#[derive(Clone, Copy, Debug, PartialEq, Eq, Hash, Structural)]
pub struct BodyId {
    pub index: usize,
}

/// Two overlapping bodies, as found in one step.
#[derive(Clone, Copy, Debug, PartialEq, Eq)]
pub struct Contact {
    pub a: BodyId,
    pub b: BodyId,
    /// The direction from the center of `a` to the center of `b`.
    pub normal: Vector,
    /// By how much the two radii overlap.
    pub penetration: Scalar,
}

/// Whether the disks of `a` and `b` overlap: their centers are closer than
/// the sum of their radii, compared exactly.
pub open spec fn overlapping(a: Body, b: Body) -> bool {
    let reach = a.radius.add(b.radius);
    b.position.sub(a.position).norm_squared() < reach@ * reach@
}

/// The contact of `a` with `b`: the normal is the direction of the offset
/// from `a` to `b`, which is zero where the centers coincide, and the
/// penetration is what the sum of the radii has over the length of the
/// offset.
pub open spec fn contact_between(id_a: BodyId, a: Body, id_b: BodyId, b: Body) -> Contact {
    let delta = b.position.sub(a.position);
    Contact {
        a: id_a,
        b: id_b,
        normal: delta.direction(),
        penetration: a.radius.add(b.radius).sub(delta.length()),
    }
}

/// The depth of a contact that positional correction takes out in one
/// step: the share `percent` of what the penetration has over the slop.
pub open spec fn correction_depth(contact: Contact, config: PhysicsConfig) -> Scalar {
    contact.penetration.sub(config.slop).max(Scalar::zero()).mul(config.percent)
}

/// The two bodies after the share `percent` of their overlap beyond `slop`
/// has been taken out along the normal, each moved by the share of it that
/// its inverse mass has in the sum of the two. A kinematic body stays where
/// it is.
pub open spec fn correct_positions(a: Body, b: Body, contact: Contact, config: PhysicsConfig) -> (
    Body,
    Body,
) {
    let inv_a = a.effective_inverse_mass();
    let inv_b = b.effective_inverse_mass();
    let inv_sum = inv_a.add(inv_b);
    if contact.penetration.sub(config.slop).max(Scalar::zero())@ > 0 {
        let depth = correction_depth(contact, config);
        (
            if a.is_kinematic() {
                a
            } else {
                Body {
                    position: a.position.sub(contact.normal.scale(depth.mul_div(inv_a, inv_sum))),
                    ..a
                }
            },
            if b.is_kinematic() {
                b
            } else {
                Body {
                    position: b.position.add(contact.normal.scale(depth.mul_div(inv_b, inv_sum))),
                    ..b
                }
            },
        )
    } else {
        (a, b)
    }
}

/// The velocity of `b` relative to `a` along the normal: negative while the
/// two approach.
pub open spec fn normal_velocity(a: Body, b: Body, normal: Vector) -> Scalar {
    b.velocity.sub(a.velocity).dot(normal)
}

/// The change of relative velocity along the normal that answers the
/// approach `along_normal` with the given restitution:
/// `-(1 + restitution) * along_normal`, the restitution kept within zero
/// and one.
pub open spec fn velocity_change(restitution: Scalar, along_normal: Scalar) -> Scalar {
    Scalar::one().add(restitution.clamp(Scalar::zero(), Scalar::one())).neg().mul(along_normal)
}

/// The two bodies after the impulse of their collision: none if they are
/// separating already, else one along the normal, taken from `a` and given
/// to `b`. The impulse is the velocity change over the sum of the inverse
/// masses, and each body answers it with its own inverse mass: so each
/// takes the share of the velocity change that its inverse mass has in the
/// sum. A kinematic body keeps its velocity.
pub open spec fn apply_impulse(a: Body, b: Body, contact: Contact, config: PhysicsConfig) -> (
    Body,
    Body,
) {
    let inv_a = a.effective_inverse_mass();
    let inv_b = b.effective_inverse_mass();
    let inv_sum = inv_a.add(inv_b);
    let along_normal = normal_velocity(a, b, contact.normal);
    if along_normal@ > 0 {
        (a, b)
    } else {
        let change = velocity_change(config.restitution, along_normal);
        (
            if a.is_kinematic() {
                a
            } else {
                Body {
                    velocity: a.velocity.sub(contact.normal.scale(change.mul_div(inv_a, inv_sum))),
                    ..a
                }
            },
            if b.is_kinematic() {
                b
            } else {
                Body {
                    velocity: b.velocity.add(contact.normal.scale(change.mul_div(inv_b, inv_sum))),
                    ..b
                }
            },
        )
    }
}

/// The two bodies of a contact after it has been resolved: untouched where
/// neither can be moved, else corrected in position and then in velocity.
pub open spec fn resolve_pair_spec(a: Body, b: Body, contact: Contact, config: PhysicsConfig) -> (
    Body,
    Body,
) {
    if a.effective_inverse_mass().add(b.effective_inverse_mass())@ <= 0 {
        (a, b)
    } else {
        let corrected = correct_positions(a, b, contact, config);
        apply_impulse(corrected.0, corrected.1, contact, config)
    }
}

/// The contact of `a` with `b`, if their disks overlap.
pub fn detect_pair(id_a: BodyId, a: Body, id_b: BodyId, b: Body) -> (contact: Option<Contact>)
    ensures
        contact == if overlapping(a, b) {
            Some(contact_between(id_a, a, id_b, b))
        } else {
            None
        },
{
    let delta = b.position.sub(a.position);
    let reach = a.radius.add(b.radius);
    if delta.wide_norm_squared() < reach.wide_square() {
        Some(
            Contact {
                a: id_a,
                b: id_b,
                normal: delta.direction(),
                penetration: reach.sub(delta.length()),
            },
        )
    } else {
        None
    }
}

/// Resolves one contact between `a` and `b`: positional correction first,
/// then the impulse.
pub fn resolve_pair(a: Body, b: Body, contact: Contact, config: PhysicsConfig) -> (after: (
    Body,
    Body,
))
    ensures
        after == resolve_pair_spec(a, b, contact, config),
{
    let inv_a = a.effective_inverse_mass();
    let inv_b = b.effective_inverse_mass();
    let inv_sum = inv_a.add(inv_b);
    if inv_sum.le(Scalar::zero()) {
        return (a, b);
    }
    let mut a = a;
    let mut b = b;
    if contact.penetration.sub(config.slop).max(Scalar::zero()).gt(Scalar::zero()) {
        let depth = contact.penetration.sub(config.slop).max(Scalar::zero()).mul(config.percent);
        if !a.is_kinematic() {
            a.position = a.position.sub(contact.normal.scale(depth.mul_div(inv_a, inv_sum)));
        }
        if !b.is_kinematic() {
            b.position = b.position.add(contact.normal.scale(depth.mul_div(inv_b, inv_sum)));
        }
    }
    let along_normal = b.velocity.sub(a.velocity).dot(contact.normal);
    if along_normal.gt(Scalar::zero()) {
        return (a, b);
    }
    let e = config.restitution.clamp(Scalar::zero(), Scalar::one());
    let change = Scalar::one().add(e).neg().mul(along_normal);
    if !a.is_kinematic() {
        a.velocity = a.velocity.sub(contact.normal.scale(change.mul_div(inv_a, inv_sum)));
    }
    if !b.is_kinematic() {
        b.velocity = b.velocity.add(contact.normal.scale(change.mul_div(inv_b, inv_sum)));
    }
    (a, b)
}

} // verus!
