//! Simulation parameters read by every stage of a step.

use crate::scalar::Scalar;
use crate::vector::Vector;
use vstd::prelude::*;

verus! {

/// How far one adjustment moves the restitution, in millionths.
pub const RESTITUTION_STEP: i64 = 100_000;

/// From this restitution up, collisions count as elastic (millionths).
pub const ELASTIC_FROM: i64 = 950_000;

/// Up to this restitution, collisions count as inelastic (millionths).
pub const INELASTIC_UPTO: i64 = 50_000;

/// The parameters of the simulation.
#[derive(Clone, Copy, Debug, PartialEq, Eq)]
pub struct PhysicsConfig {
    /// Whether linear damping is applied.
    pub friction_enabled: bool,
    /// How much of the approach speed a collision gives back, in `[0, 1]`.
    pub restitution: Scalar,
    /// The acceleration that every free body feels.
    pub gravity: Vector,
    /// The share of velocity lost per second while friction is enabled.
    pub linear_damping: Scalar,
    /// The overlap that positional correction leaves alone.
    pub slop: Scalar,
    /// The share of the remaining overlap that one step removes, in `[0, 1]`.
    pub percent: Scalar,
}

/// What kind of collisions a restitution gives.
#[derive(Clone, Copy, Debug, PartialEq, Eq)]
pub enum RestitutionKind {
    Elastic,
    Inelastic,
    Partial,
}

impl PhysicsConfig {
    /// Friction on, restitution 0.8, no gravity, damping 2 per second, slop
    /// 0.01 and correction share 0.8.
    pub open spec fn spec_default() -> PhysicsConfig {
        PhysicsConfig {
            friction_enabled: true,
            restitution: Scalar::from_millionths(800_000),
            gravity: Vector::zero(),
            linear_damping: Scalar::from_millionths(2_000_000),
            slop: Scalar::from_millionths(10_000),
            percent: Scalar::from_millionths(800_000),
        }
    }

    /// Whether every parameter lies in its range.
    pub open spec fn in_range(self) -> bool {
        &&& 0 <= self.restitution@ <= Scalar::one()@
        &&& 0 <= self.percent@ <= Scalar::one()@
        &&& 0 <= self.linear_damping@
        &&& 0 <= self.slop@
    }

    /// The same parameters, each moved into its range: restitution and
    /// correction share into `[0, 1]`, damping and slop up to zero.
    pub open spec fn spec_clamped(self) -> PhysicsConfig {
        PhysicsConfig {
            friction_enabled: self.friction_enabled,
            restitution: self.restitution.clamp(Scalar::zero(), Scalar::one()),
            gravity: self.gravity,
            linear_damping: self.linear_damping.max(Scalar::zero()),
            slop: self.slop.max(Scalar::zero()),
            percent: self.percent.clamp(Scalar::zero(), Scalar::one()),
        }
    }

    /// The same parameters with friction switched over.
    pub open spec fn toggled(self) -> PhysicsConfig {
        PhysicsConfig { friction_enabled: !self.friction_enabled, ..self }
    }

    /// The same parameters with the restitution a tenth higher, at most one.
    pub open spec fn raised(self) -> PhysicsConfig {
        PhysicsConfig {
            restitution: self.restitution.add(Scalar::from_millionths(RESTITUTION_STEP)).min(
                Scalar::one(),
            ),
            ..self
        }
    }

    /// The same parameters with the restitution a tenth lower, at least
    /// zero.
    pub open spec fn lowered(self) -> PhysicsConfig {
        PhysicsConfig {
            restitution: self.restitution.sub(Scalar::from_millionths(RESTITUTION_STEP)).max(
                Scalar::zero(),
            ),
            ..self
        }
    }

    pub open spec fn spec_restitution_kind(self) -> RestitutionKind {
        if self.restitution@ >= ELASTIC_FROM {
            RestitutionKind::Elastic
        } else if self.restitution@ <= INELASTIC_UPTO {
            RestitutionKind::Inelastic
        } else {
            RestitutionKind::Partial
        }
    }

    /// The same parameters, each moved into its range.
    #[verifier::when_used_as_spec(spec_clamped)]
    pub fn clamped(self) -> (c: PhysicsConfig)
        ensures
            c == self.spec_clamped(),
            c.in_range(),
            self.in_range() ==> c == self,
    {
        PhysicsConfig {
            friction_enabled: self.friction_enabled,
            restitution: self.restitution.clamp(Scalar::zero(), Scalar::one()),
            gravity: self.gravity,
            linear_damping: self.linear_damping.max(Scalar::zero()),
            slop: self.slop.max(Scalar::zero()),
            percent: self.percent.clamp(Scalar::zero(), Scalar::one()),
        }
    }

    /// Switches friction on if it was off, and off if it was on.
    pub fn toggle_friction(&mut self)
        ensures
            *final(self) == old(self).toggled(),
    {
        self.friction_enabled = !self.friction_enabled;
    }

    /// Raises the restitution by a tenth, to at most one.
    pub fn raise_restitution(&mut self)
        ensures
            *final(self) == old(self).raised(),
            old(self).in_range() ==> final(self).in_range(),
    {
        self.restitution =
        self.restitution.add(Scalar::from_millionths(RESTITUTION_STEP)).min(Scalar::one());
    }

    /// Lowers the restitution by a tenth, to at least zero.
    pub fn lower_restitution(&mut self)
        ensures
            *final(self) == old(self).lowered(),
            old(self).in_range() ==> final(self).in_range(),
    {
        self.restitution =
        self.restitution.sub(Scalar::from_millionths(RESTITUTION_STEP)).max(Scalar::zero());
    }

    /// Elastic from 0.95 up, inelastic up to 0.05, partial between.
    #[verifier::when_used_as_spec(spec_restitution_kind)]
    pub fn restitution_kind(self) -> (k: RestitutionKind)
        ensures
            k == self.spec_restitution_kind(),
    {
        if self.restitution.raw >= ELASTIC_FROM {
            RestitutionKind::Elastic
        } else if self.restitution.raw <= INELASTIC_UPTO {
            RestitutionKind::Inelastic
        } else {
            RestitutionKind::Partial
        }
    }
}

impl Default for PhysicsConfig {
    fn default() -> (c: PhysicsConfig)
        ensures
            c == PhysicsConfig::spec_default(),
    {
        PhysicsConfig {
            friction_enabled: true,
            restitution: Scalar::from_millionths(800_000),
            gravity: Vector::zero(),
            linear_damping: Scalar::from_millionths(2_000_000),
            slop: Scalar::from_millionths(10_000),
            percent: Scalar::from_millionths(800_000),
        }
    }
}

} // verus!
