//! Bodies: disks with a position, a velocity and a mass, and what one stage
//! of a step does to a single body.

use crate::config::PhysicsConfig;
use crate::scalar::Scalar;
use crate::vector::Vector;
use vstd::prelude::*;

verus! {

/// The radius of a body spawned with the usual properties (millionths).
pub const DEFAULT_RADIUS: i64 = 25_000_000;

/// How far beyond the viewport a body may be and still count as in bounds
/// (millionths).
pub const BOUNDS_MARGIN: i64 = 200_000_000;

/// The seconds out of bounds after which a body is removed (millionths).
pub const OUT_OF_BOUNDS_LIMIT: i64 = 5_000_000;

/// The shortest time delta by which a pointer movement is divided
/// (millionths of a second).
pub const MIN_DRAG_DELTA: i64 = 1;

/// The speed above which a body's velocity is worth drawing (millionths).
pub const ARROW_MIN_SPEED: i64 = 100_000;

/// The share of the velocity that a drawn arrow spans (millionths).
pub const ARROW_SHARE: i64 = 100_000;

/// A mass together with its inverse.
#[derive(Clone, Copy, Debug, PartialEq, Eq)]
pub struct Mass {
    pub mass: Scalar,
    /// `1 / mass` for a positive mass, and zero otherwise: a body without
    /// mass cannot be pushed.
    pub inv: Scalar,
}

/// The state of a pointer drag: while a body carries one it is kinematic.
#[derive(Clone, Copy, Debug, PartialEq, Eq)]
pub struct DragOverride {
    /// From the grab point to the body's center.
    pub offset: Vector,
    /// Where the pointer was last seen.
    pub last_pointer: Vector,
}

/// A simulated disk.
#[derive(Clone, Copy, Debug, PartialEq, Eq)]
pub struct Body {
    pub position: Vector,
    pub velocity: Vector,
    /// The net force of the current step.
    pub force: Vector,
    pub mass: Mass,
    pub radius: Scalar,
    /// Present while a pointer drags the body.
    pub drag: Option<DragOverride>,
    /// The seconds the body has spent out of bounds without a break, if it
    /// is out of bounds.
    pub out_of_bounds: Option<Scalar>,
}

impl Mass {
    pub open spec fn spec_new(mass: Scalar) -> Mass {
        Mass {
            mass,
            inv: if mass@ > 0 {
                Scalar::one().div(mass)
            } else {
                Scalar::zero()
            },
        }
    }

    /// Whether the inverse is the one that belongs to the mass.
    pub open spec fn consistent(self) -> bool {
        self == Mass::spec_new(self.mass)
    }

    /// The mass with its inverse.
    #[verifier::when_used_as_spec(spec_new)]
    pub fn new(mass: Scalar) -> (m: Mass)
        ensures
            m == Mass::spec_new(mass),
            m.consistent(),
    {
        Mass {
            mass,
            inv: if mass.gt(Scalar::zero()) {
                Scalar::one().div(mass)
            } else {
                Scalar::zero()
            },
        }
    }
}

/// Whether `position` lies beyond the viewport of the given half extents by
/// more than the margin, along either axis.
pub open spec fn beyond_bounds(position: Vector, half_extents: Vector) -> bool {
    ||| position.x.abs()@ > half_extents.x.add(Scalar::from_millionths(BOUNDS_MARGIN))@
    ||| position.y.abs()@ > half_extents.y.add(Scalar::from_millionths(BOUNDS_MARGIN))@
}

/// The factor by which damping scales a velocity over `dt`:
/// `1 - damping * dt`, kept within `[0, 1]`.
pub open spec fn damping_factor(config: PhysicsConfig, dt: Scalar) -> Scalar {
    Scalar::one().sub(config.linear_damping.mul(dt)).clamp(Scalar::zero(), Scalar::one())
}

impl Body {
    /// A body of mass one and the default radius, at rest at `position`.
    pub open spec fn spec_new(position: Vector) -> Body {
        Body {
            position,
            velocity: Vector::zero(),
            force: Vector::zero(),
            mass: Mass::new(Scalar::one()),
            radius: Scalar::from_millionths(DEFAULT_RADIUS),
            drag: None,
            out_of_bounds: None,
        }
    }

    /// A body at rest at `position` with the given mass and radius, where
    /// the mass is not negative and the radius is positive.
    pub open spec fn spec_with_properties(position: Vector, mass: Scalar, radius: Scalar) -> Option<
        Body,
    > {
        if mass@ >= 0 && radius@ > 0 {
            Some(
                Body {
                    position,
                    velocity: Vector::zero(),
                    force: Vector::zero(),
                    mass: Mass::new(mass),
                    radius,
                    drag: None,
                    out_of_bounds: None,
                },
            )
        } else {
            None
        }
    }

    /// Whether the body's data is what a body can have: a mass that is not
    /// negative, with its own inverse, and a positive radius.
    pub open spec fn wf(self) -> bool {
        &&& self.mass.mass@ >= 0
        &&& self.mass.consistent()
        &&& self.radius@ > 0
    }

    /// Whether the body is under outside control, and so takes no part in
    /// forces and impulses.
    pub open spec fn spec_is_kinematic(self) -> bool {
        self.drag.is_some()
    }

    /// The inverse mass that collisions see: zero for a kinematic body.
    pub open spec fn spec_effective_inverse_mass(self) -> Scalar {
        if self.is_kinematic() {
            Scalar::zero()
        } else {
            self.mass.inv
        }
    }

    /// The body with its force reset and gravity applied; a kinematic body
    /// is left alone.
    pub open spec fn spec_accumulate_force(self, config: PhysicsConfig) -> Body {
        if self.is_kinematic() {
            self
        } else {
            Body { force: Vector::zero().add(config.gravity.scale(self.mass.mass)), ..self }
        }
    }

    /// The body with its velocity advanced by its force over `dt` and then
    /// damped; a kinematic body is left alone.
    pub open spec fn spec_integrate_velocity(self, config: PhysicsConfig, dt: Scalar) -> Body {
        if self.is_kinematic() {
            self
        } else {
            let pushed = self.velocity.add(self.force.scale(self.mass.inv).scale(dt));
            if config.friction_enabled && config.linear_damping@ > 0 {
                Body { velocity: pushed.scale(damping_factor(config, dt)), ..self }
            } else {
                Body { velocity: pushed, ..self }
            }
        }
    }

    /// The body moved by its velocity over `dt`; a kinematic body is left
    /// alone.
    pub open spec fn spec_integrate_position(self, dt: Scalar) -> Body {
        if self.is_kinematic() {
            self
        } else {
            Body { position: self.position.add(self.velocity.scale(dt)), ..self }
        }
    }

    /// What the bounds check makes of the body: in bounds it loses its
    /// timer; out of bounds it gets one at zero, or has `dt` added to the one
    /// it has, and is gone (`None`) once that reaches the limit.
    pub open spec fn spec_check_bounds(self, half_extents: Vector, dt: Scalar) -> Option<Body> {
        if beyond_bounds(self.position, half_extents) {
            match self.out_of_bounds {
                Some(elapsed) => {
                    if elapsed.add(dt)@ >= OUT_OF_BOUNDS_LIMIT {
                        None
                    } else {
                        Some(Body { out_of_bounds: Some(elapsed.add(dt)), ..self })
                    }
                },
                None => Some(Body { out_of_bounds: Some(Scalar::zero()), ..self }),
            }
        } else {
            Some(Body { out_of_bounds: None, ..self })
        }
    }

    /// Whether `point` lies on the disk, its rim included.
    pub open spec fn spec_contains(self, point: Vector) -> bool {
        &&& self.radius@ >= 0
        &&& point.sub(self.position).norm_squared() <= self.radius@ * self.radius@
    }

    /// The body as a pointer at `pointer` grabs it: at rest, with the offset
    /// from the pointer to its center remembered. A body already dragged is
    /// left alone.
    pub open spec fn spec_grab(self, pointer: Vector) -> Body {
        if self.is_kinematic() {
            self
        } else {
            Body {
                velocity: Vector::zero(),
                drag: Some(
                    DragOverride { offset: self.position.sub(pointer), last_pointer: pointer },
                ),
                ..self
            }
        }
    }

    /// The body as the pointer that drags it moves to `pointer` within `dt`:
    /// it follows at its offset, and its velocity is that of the pointer,
    /// the delta taken as at least a millionth of a second. A body that is
    /// not dragged is left alone.
    pub open spec fn spec_drag_to(self, pointer: Vector, dt: Scalar) -> Body {
        match self.drag {
            Some(drag) => Body {
                position: pointer.add(drag.offset),
                velocity: pointer.sub(drag.last_pointer).div(
                    dt.max(Scalar::from_millionths(MIN_DRAG_DELTA)),
                ),
                drag: Some(DragOverride { offset: drag.offset, last_pointer: pointer }),
                ..self
            },
            None => self,
        }
    }

    /// The body let go: no longer dragged, its velocity kept.
    pub open spec fn spec_release(self) -> Body {
        Body { drag: None, ..self }
    }

    /// Mass times velocity.
    pub open spec fn spec_momentum(self) -> Vector {
        self.velocity.scale(self.mass.mass)
    }

    /// Half the mass times the squared speed.
    pub open spec fn spec_kinetic_energy(self) -> Scalar {
        Scalar::from_millionths(500_000).mul(self.mass.mass).mul(self.velocity.length_squared())
    }

    /// The arrow that shows the velocity: from the center, a tenth of the
    /// velocity long, for a body faster than a tenth of a unit per second.
    pub open spec fn spec_velocity_arrow(self) -> Option<(Vector, Vector)> {
        if self.velocity.length()@ > ARROW_MIN_SPEED {
            Some(
                (
                    self.position,
                    self.position.add(self.velocity.scale(Scalar::from_millionths(ARROW_SHARE))),
                ),
            )
        } else {
            None
        }
    }

    /// A body of mass one and the default radius, at rest at `position`.
    #[verifier::when_used_as_spec(spec_new)]
    pub fn new(position: Vector) -> (b: Body)
        ensures
            b == Body::spec_new(position),
            b.wf(),
    {
        Body {
            position,
            velocity: Vector::zero(),
            force: Vector::zero(),
            mass: Mass::new(Scalar::one()),
            radius: Scalar::from_millionths(DEFAULT_RADIUS),
            drag: None,
            out_of_bounds: None,
        }
    }

    /// A body at rest at `position` with the given mass and radius, or
    /// `None` for a negative mass or a radius that is not positive.
    #[verifier::when_used_as_spec(spec_with_properties)]
    pub fn with_properties(position: Vector, mass: Scalar, radius: Scalar) -> (b: Option<Body>)
        ensures
            b == Body::spec_with_properties(position, mass, radius),
            b.is_some() <==> mass@ >= 0 && radius@ > 0,
            b matches Some(body) ==> body.wf(),
    {
        if mass.ge(Scalar::zero()) && radius.gt(Scalar::zero()) {
            Some(
                Body {
                    position,
                    velocity: Vector::zero(),
                    force: Vector::zero(),
                    mass: Mass::new(mass),
                    radius,
                    drag: None,
                    out_of_bounds: None,
                },
            )
        } else {
            None
        }
    }

    /// Whether the body's data is what a body can have.
    #[verifier::when_used_as_spec(wf)]
    pub fn is_valid(self) -> (valid: bool)
        ensures
            valid == self.wf(),
    {
        self.mass.mass.ge(Scalar::zero()) && self.radius.gt(Scalar::zero()) && self.mass.inv
            == Mass::new(self.mass.mass).inv
    }

    #[verifier::when_used_as_spec(spec_is_kinematic)]
    pub fn is_kinematic(self) -> (k: bool)
        ensures
            k == self.spec_is_kinematic(),
    {
        self.drag.is_some()
    }

    #[verifier::when_used_as_spec(spec_effective_inverse_mass)]
    pub fn effective_inverse_mass(self) -> (inv: Scalar)
        ensures
            inv == self.spec_effective_inverse_mass(),
    {
        if self.is_kinematic() {
            Scalar::zero()
        } else {
            self.mass.inv
        }
    }

    /// Resets the force and applies gravity, unless the body is kinematic.
    #[verifier::when_used_as_spec(spec_accumulate_force)]
    pub fn accumulate_force(self, config: PhysicsConfig) -> (b: Body)
        ensures
            b == self.spec_accumulate_force(config),
    {
        if self.is_kinematic() {
            self
        } else {
            Body { force: Vector::zero().add(config.gravity.scale(self.mass.mass)), ..self }
        }
    }

    /// Advances the velocity by the force over `dt` and damps it, unless the
    /// body is kinematic.
    #[verifier::when_used_as_spec(spec_integrate_velocity)]
    pub fn integrate_velocity(self, config: PhysicsConfig, dt: Scalar) -> (b: Body)
        ensures
            b == self.spec_integrate_velocity(config, dt),
    {
        if self.is_kinematic() {
            self
        } else {
            let pushed = self.velocity.add(self.force.scale(self.mass.inv).scale(dt));
            if config.friction_enabled && config.linear_damping.gt(Scalar::zero()) {
                let damp = Scalar::one().sub(config.linear_damping.mul(dt)).clamp(
                    Scalar::zero(),
                    Scalar::one(),
                );
                Body { velocity: pushed.scale(damp), ..self }
            } else {
                Body { velocity: pushed, ..self }
            }
        }
    }

    /// Moves the body by its velocity over `dt`, unless it is kinematic.
    #[verifier::when_used_as_spec(spec_integrate_position)]
    pub fn integrate_position(self, dt: Scalar) -> (b: Body)
        ensures
            b == self.spec_integrate_position(dt),
    {
        if self.is_kinematic() {
            self
        } else {
            Body { position: self.position.add(self.velocity.scale(dt)), ..self }
        }
    }

    /// Whether the body's center lies beyond the viewport by more than the
    /// margin.
    pub fn is_beyond_bounds(self, half_extents: Vector) -> (out: bool)
        ensures
            out == beyond_bounds(self.position, half_extents),
    {
        let margin = Scalar::from_millionths(BOUNDS_MARGIN);
        self.position.x.abs().gt(half_extents.x.add(margin)) || self.position.y.abs().gt(
            half_extents.y.add(margin),
        )
    }

    /// Runs the out-of-bounds timer of the body by one step; `None` says
    /// that the body has been out of bounds for long enough to be removed.
    #[verifier::when_used_as_spec(spec_check_bounds)]
    pub fn check_bounds(self, half_extents: Vector, dt: Scalar) -> (b: Option<Body>)
        ensures
            b == self.spec_check_bounds(half_extents, dt),
    {
        if self.is_beyond_bounds(half_extents) {
            match self.out_of_bounds {
                Some(elapsed) => {
                    let total = elapsed.add(dt);
                    if total.ge(Scalar::from_millionths(OUT_OF_BOUNDS_LIMIT)) {
                        None
                    } else {
                        Some(Body { out_of_bounds: Some(total), ..self })
                    }
                },
                None => Some(Body { out_of_bounds: Some(Scalar::zero()), ..self }),
            }
        } else {
            Some(Body { out_of_bounds: None, ..self })
        }
    }

    /// Whether `point` lies on the disk, its rim included.
    #[verifier::when_used_as_spec(spec_contains)]
    pub fn contains(self, point: Vector) -> (inside: bool)
        ensures
            inside == self.spec_contains(point),
    {
        if self.radius.lt(Scalar::zero()) {
            false
        } else {
            point.sub(self.position).wide_norm_squared() <= self.radius.wide_square()
        }
    }

    /// Starts a drag at `pointer`, unless the body is dragged already.
    #[verifier::when_used_as_spec(spec_grab)]
    pub fn grab(self, pointer: Vector) -> (b: Body)
        ensures
            b == self.spec_grab(pointer),
    {
        if self.is_kinematic() {
            self
        } else {
            Body {
                velocity: Vector::zero(),
                drag: Some(
                    DragOverride { offset: self.position.sub(pointer), last_pointer: pointer },
                ),
                ..self
            }
        }
    }

    /// Follows the dragging pointer to `pointer`, if the body is dragged.
    #[verifier::when_used_as_spec(spec_drag_to)]
    pub fn drag_to(self, pointer: Vector, dt: Scalar) -> (b: Body)
        ensures
            b == self.spec_drag_to(pointer, dt),
    {
        match self.drag {
            Some(drag) => Body {
                position: pointer.add(drag.offset),
                velocity: pointer.sub(drag.last_pointer).div(
                    dt.max(Scalar::from_millionths(MIN_DRAG_DELTA)),
                ),
                drag: Some(DragOverride { offset: drag.offset, last_pointer: pointer }),
                ..self
            },
            None => self,
        }
    }

    /// Ends a drag; the velocity stays, so the body is thrown.
    #[verifier::when_used_as_spec(spec_release)]
    pub fn release(self) -> (b: Body)
        ensures
            b == self.spec_release(),
    {
        Body { drag: None, ..self }
    }

    #[verifier::when_used_as_spec(spec_momentum)]
    pub fn momentum(self) -> (p: Vector)
        ensures
            p == self.spec_momentum(),
    {
        self.velocity.scale(self.mass.mass)
    }

    #[verifier::when_used_as_spec(spec_kinetic_energy)]
    pub fn kinetic_energy(self) -> (e: Scalar)
        ensures
            e == self.spec_kinetic_energy(),
    {
        Scalar::from_millionths(500_000).mul(self.mass.mass).mul(self.velocity.length_squared())
    }

    /// The arrow that shows the velocity, for a body fast enough to have one.
    #[verifier::when_used_as_spec(spec_velocity_arrow)]
    pub fn velocity_arrow(self) -> (arrow: Option<(Vector, Vector)>)
        ensures
            arrow == self.spec_velocity_arrow(),
    {
        if self.velocity.length().gt(Scalar::from_millionths(ARROW_MIN_SPEED)) {
            Some(
                (
                    self.position,
                    self.position.add(self.velocity.scale(Scalar::from_millionths(ARROW_SHARE))),
                ),
            )
        } else {
            None
        }
    }
}

} // verus!
