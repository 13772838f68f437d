//! The world: the store of bodies with the configuration they are simulated
//! under, and the operations that the outside has on them.

use crate::body::Body;
use crate::config::PhysicsConfig;
use crate::contact::BodyId;
use crate::pipeline::{
    advance, before_bounds_check, bodies_wf, check_bounds_spec, check_out_of_bounds,
    expired_upto, lemma_advance_keeps_bodies_wf, lemma_bounds_check_keeps_bodies_wf,
    lemma_step_keeps_bodies_wf, live, step, step_removed, step_spec,
};
use crate::scalar::Scalar;
use crate::vector::Vector;
use vstd::prelude::*;

verus! {

/// What a world holds, as plain values.
pub struct WorldState {
    /// The slots of the store; a body's name is the index of its slot, and
    /// the slot of a body that is gone stays empty.
    pub bodies: Seq<Option<Body>>,
    pub config: PhysicsConfig,
    /// Half the width and half the height of the viewport.
    pub half_extents: Vector,
}

/// The store of bodies, the configuration and the viewport.
pub struct World {
    slots: Vec<Option<Body>>,
    config: PhysicsConfig,
    half_extents: Vector,
}

impl View for World {
    type V = WorldState;

    closed spec fn view(&self) -> WorldState {
        WorldState { bodies: self.slots@, config: self.config, half_extents: self.half_extents }
    }
}

/// The body that `id` names, if there is one.
pub open spec fn lookup(bodies: Seq<Option<Body>>, id: BodyId) -> Option<Body> {
    if id.index < bodies.len() {
        bodies[id.index as int]
    } else {
        None
    }
}

/// Whether the body in slot `i` can be grabbed by a pointer at `pointer`: it
/// is there, nothing drags it yet, and the pointer is on it.
pub open spec fn grabbable(bodies: Seq<Option<Body>>, i: int, pointer: Vector) -> bool {
    &&& live(bodies, i)
    &&& !bodies[i].unwrap().is_kinematic()
    &&& bodies[i].unwrap().contains(pointer)
}

/// Whether slot `i` holds a body that `point` lies on.
pub open spec fn covers(bodies: Seq<Option<Body>>, i: int, point: Vector) -> bool {
    live(bodies, i) && bodies[i].unwrap().contains(point)
}

/// Every dragged body moved with the pointer to `pointer` within `dt`.
pub open spec fn drag_all_spec(bodies: Seq<Option<Body>>, pointer: Vector, dt: Scalar) -> Seq<
    Option<Body>,
> {
    Seq::new(
        bodies.len(),
        |i: int|
            match bodies[i] {
                Some(body) => Some(body.drag_to(pointer, dt)),
                None => None,
            },
    )
}

/// Every body let go.
pub open spec fn release_all_spec(bodies: Seq<Option<Body>>) -> Seq<Option<Body>> {
    Seq::new(
        bodies.len(),
        |i: int|
            match bodies[i] {
                Some(body) => Some(body.release()),
                None => None,
            },
    )
}

/// The sum of the momenta of the bodies in the first `upto` slots, added up
/// in index order.
pub open spec fn momentum_upto(bodies: Seq<Option<Body>>, upto: int) -> Vector
    decreases upto,
{
    if upto <= 0 {
        Vector::zero()
    } else {
        let before = momentum_upto(bodies, upto - 1);
        match bodies[upto - 1] {
            Some(body) => before.add(body.momentum()),
            None => before,
        }
    }
}

/// The sum of the kinetic energies of the bodies in the first `upto` slots,
/// added up in index order.
pub open spec fn kinetic_energy_upto(bodies: Seq<Option<Body>>, upto: int) -> Scalar
    decreases upto,
{
    if upto <= 0 {
        Scalar::zero()
    } else {
        let before = kinetic_energy_upto(bodies, upto - 1);
        match bodies[upto - 1] {
            Some(body) => before.add(body.kinetic_energy()),
            None => before,
        }
    }
}

/// The bodies in the first `upto` slots with their names, in index order.
pub open spec fn live_bodies_upto(bodies: Seq<Option<Body>>, upto: int) -> Seq<(BodyId, Body)>
    decreases upto,
{
    if upto <= 0 {
        Seq::empty()
    } else {
        let before = live_bodies_upto(bodies, upto - 1);
        match bodies[upto - 1] {
            Some(body) => before.push((BodyId { index: (upto - 1) as usize }, body)),
            None => before,
        }
    }
}

impl World {
    /// Whether the world is in order: every body has valid data and every
    /// parameter lies in its range.
    pub open spec fn wf(&self) -> bool {
        &&& bodies_wf(self@.bodies)
        &&& self@.config.in_range()
        &&& self@.bodies.len() <= usize::MAX
    }

    /// An empty world with the default configuration, seen through a
    /// viewport of the given half extents.
    pub fn new(half_extents: Vector) -> (world: World)
        ensures
            world@ == (WorldState {
                bodies: Seq::empty(),
                config: PhysicsConfig::spec_default(),
                half_extents,
            }),
            world.wf(),
    {
        World { slots: Vec::new(), config: PhysicsConfig::default(), half_extents }
    }

    /// Puts a body of mass one and the default radius at `position`, at
    /// rest, and returns its name: the next free index.
    pub fn spawn(&mut self, position: Vector) -> (id: BodyId)
        ensures
            id.index == old(self)@.bodies.len(),
            final(self)@ == (WorldState {
                bodies: old(self)@.bodies.push(Some(Body::new(position))),
                ..old(self)@
            }),
            old(self).wf() ==> final(self).wf(),
    {
        let id = BodyId { index: self.slots.len() };
        self.slots.push(Some(Body::new(position)));
        assert(self.slots@.len() == self.slots.len());
        id
    }

    /// Puts `body` into the world as it is and returns its name: the next
    /// free index. A body whose data is not valid is refused, and the world
    /// stays as it is.
    pub fn insert(&mut self, body: Body) -> (id: Option<BodyId>)
        ensures
            id.is_some() <==> body.wf(),
            id matches Some(name) ==> name.index == old(self)@.bodies.len(),
            final(self)@ == (WorldState {
                bodies: if body.wf() {
                    old(self)@.bodies.push(Some(body))
                } else {
                    old(self)@.bodies
                },
                ..old(self)@
            }),
            old(self).wf() ==> final(self).wf(),
    {
        if body.is_valid() {
            let id = BodyId { index: self.slots.len() };
            self.slots.push(Some(body));
            assert(self.slots@.len() == self.slots.len());
            Some(id)
        } else {
            None
        }
    }

    /// Removes the body that `id` names and says whether there was one.
    pub fn despawn(&mut self, id: BodyId) -> (removed: bool)
        ensures
            removed == lookup(old(self)@.bodies, id).is_some(),
            final(self)@ == (WorldState {
                bodies: if removed {
                    old(self)@.bodies.update(id.index as int, None)
                } else {
                    old(self)@.bodies
                },
                ..old(self)@
            }),
            old(self).wf() ==> final(self).wf(),
    {
        if id.index < self.slots.len() && self.slots[id.index].is_some() {
            self.slots[id.index] = None;
            true
        } else {
            false
        }
    }

    /// The body that `id` names, if there is one.
    pub fn get(&self, id: BodyId) -> (body: Option<Body>)
        ensures
            body == lookup(self@.bodies, id),
    {
        if id.index < self.slots.len() {
            self.slots[id.index]
        } else {
            None
        }
    }

    /// How many names have been given out: one more than the highest index.
    pub fn slot_count(&self) -> (n: usize)
        ensures
            n == self@.bodies.len(),
    {
        self.slots.len()
    }

    /// The bodies with their names, in index order.
    pub fn live_bodies(&self) -> (list: Vec<(BodyId, Body)>)
        ensures
            list@ == live_bodies_upto(self@.bodies, self@.bodies.len() as int),
    {
        let mut list: Vec<(BodyId, Body)> = Vec::new();
        let mut i: usize = 0;
        while i < self.slots.len()
            invariant
                i <= self.slots.len(),
                list@ == live_bodies_upto(self.slots@, i as int),
            decreases self.slots.len() - i,
        {
            if let Some(body) = self.slots[i] {
                list.push((BodyId { index: i }, body));
            }
            i += 1;
        }
        list
    }

    /// Starts a drag of the body that `id` names with the pointer at
    /// `pointer`, and says whether it did: not for a body that is gone or
    /// dragged already.
    pub fn begin_drag(&mut self, id: BodyId, pointer: Vector) -> (started: bool)
        ensures
            started == (lookup(old(self)@.bodies, id) matches Some(body) && !body.is_kinematic()),
            final(self)@ == (WorldState {
                bodies: match lookup(old(self)@.bodies, id) {
                    Some(body) => old(self)@.bodies.update(
                        id.index as int,
                        Some(body.grab(pointer)),
                    ),
                    None => old(self)@.bodies,
                },
                ..old(self)@
            }),
            old(self).wf() ==> final(self).wf(),
    {
        if id.index < self.slots.len() {
            if let Some(body) = self.slots[id.index] {
                self.slots[id.index] = Some(body.grab(pointer));
                return !body.is_kinematic();
            }
        }
        false
    }

    /// Moves the dragged body that `id` names with the pointer, which has
    /// come to `pointer` within `dt`. A body that is gone or not dragged is
    /// left alone.
    pub fn update_drag(&mut self, id: BodyId, pointer: Vector, dt: Scalar)
        ensures
            final(self)@ == (WorldState {
                bodies: match lookup(old(self)@.bodies, id) {
                    Some(body) => old(self)@.bodies.update(
                        id.index as int,
                        Some(body.drag_to(pointer, dt)),
                    ),
                    None => old(self)@.bodies,
                },
                ..old(self)@
            }),
            old(self).wf() ==> final(self).wf(),
    {
        if id.index < self.slots.len() {
            if let Some(body) = self.slots[id.index] {
                self.slots[id.index] = Some(body.drag_to(pointer, dt));
            }
        }
    }

    /// Ends the drag of the body that `id` names; it keeps the velocity
    /// that the pointer gave it.
    pub fn end_drag(&mut self, id: BodyId)
        ensures
            final(self)@ == (WorldState {
                bodies: match lookup(old(self)@.bodies, id) {
                    Some(body) => old(self)@.bodies.update(id.index as int, Some(body.release())),
                    None => old(self)@.bodies,
                },
                ..old(self)@
            }),
            old(self).wf() ==> final(self).wf(),
    {
        if id.index < self.slots.len() {
            if let Some(body) = self.slots[id.index] {
                self.slots[id.index] = Some(body.release());
            }
        }
    }

    /// Starts a drag of the first body, in index order, that the pointer is
    /// on and that is not dragged yet, and returns its name.
    pub fn grab_at(&mut self, pointer: Vector) -> (grabbed: Option<BodyId>)
        ensures
            match grabbed {
                Some(id) => {
                    &&& grabbable(old(self)@.bodies, id.index as int, pointer)
                    &&& forall|k: int| 0 <= k < id.index ==> !grabbable(old(self)@.bodies, k, pointer)
                    &&& final(self)@ == (WorldState {
                        bodies: old(self)@.bodies.update(
                            id.index as int,
                            Some(old(self)@.bodies[id.index as int].unwrap().grab(pointer)),
                        ),
                        ..old(self)@
                    })
                },
                None => {
                    &&& forall|k: int| !grabbable(old(self)@.bodies, k, pointer)
                    &&& final(self)@ == old(self)@
                },
            },
            old(self).wf() ==> final(self).wf(),
    {
        let mut i: usize = 0;
        while i < self.slots.len()
            invariant
                i <= self.slots.len(),
                *self == *old(self),
                forall|k: int| 0 <= k < i ==> !grabbable(self.slots@, k, pointer),
            decreases self.slots.len() - i,
        {
            if let Some(body) = self.slots[i] {
                if !body.is_kinematic() && body.contains(pointer) {
                    self.slots[i] = Some(body.grab(pointer));
                    return Some(BodyId { index: i });
                }
            }
            i += 1;
        }
        None
    }

    /// Moves every dragged body with the pointer, which has come to
    /// `pointer` within `dt`.
    pub fn drag_all_to(&mut self, pointer: Vector, dt: Scalar)
        ensures
            final(self)@ == (WorldState {
                bodies: drag_all_spec(old(self)@.bodies, pointer, dt),
                ..old(self)@
            }),
            old(self).wf() ==> final(self).wf(),
    {
        let ghost before = self.slots@;
        let n = self.slots.len();
        let mut i: usize = 0;
        while i < n
            invariant
                i <= n,
                self.slots@.len() == n,
                before.len() == n,
                self.config == old(self).config,
                self.half_extents == old(self).half_extents,
                forall|k: int| 0 <= k < i ==> self.slots@[k] == drag_all_spec(before, pointer, dt)[k],
                forall|k: int| i <= k < n ==> self.slots@[k] == before[k],
            decreases n - i,
        {
            if let Some(body) = self.slots[i] {
                self.slots[i] = Some(body.drag_to(pointer, dt));
            }
            i += 1;
        }
        assert(self.slots@ =~= drag_all_spec(before, pointer, dt));
    }

    /// Ends every drag.
    pub fn release_all(&mut self)
        ensures
            final(self)@ == (WorldState {
                bodies: release_all_spec(old(self)@.bodies),
                ..old(self)@
            }),
            old(self).wf() ==> final(self).wf(),
    {
        let ghost before = self.slots@;
        let n = self.slots.len();
        let mut i: usize = 0;
        while i < n
            invariant
                i <= n,
                self.slots@.len() == n,
                before.len() == n,
                self.config == old(self).config,
                self.half_extents == old(self).half_extents,
                forall|k: int| 0 <= k < i ==> self.slots@[k] == release_all_spec(before)[k],
                forall|k: int| i <= k < n ==> self.slots@[k] == before[k],
            decreases n - i,
        {
            if let Some(body) = self.slots[i] {
                self.slots[i] = Some(body.release());
            }
            i += 1;
        }
        assert(self.slots@ =~= release_all_spec(before));
    }

    /// Removes the first body, in index order, that `point` lies on, and
    /// returns its name.
    pub fn remove_at(&mut self, point: Vector) -> (removed: Option<BodyId>)
        ensures
            match removed {
                Some(id) => {
                    &&& covers(old(self)@.bodies, id.index as int, point)
                    &&& forall|k: int| 0 <= k < id.index ==> !covers(old(self)@.bodies, k, point)
                    &&& final(self)@ == (WorldState {
                        bodies: old(self)@.bodies.update(id.index as int, None),
                        ..old(self)@
                    })
                },
                None => {
                    &&& forall|k: int| !covers(old(self)@.bodies, k, point)
                    &&& final(self)@ == old(self)@
                },
            },
            old(self).wf() ==> final(self).wf(),
    {
        let mut i: usize = 0;
        while i < self.slots.len()
            invariant
                i <= self.slots.len(),
                *self == *old(self),
                forall|k: int| 0 <= k < i ==> !covers(self.slots@, k, point),
            decreases self.slots.len() - i,
        {
            if let Some(body) = self.slots[i] {
                if body.contains(point) {
                    self.slots[i] = None;
                    return Some(BodyId { index: i });
                }
            }
            i += 1;
        }
        None
    }

    /// Advances the world by one step of `dt` seconds and returns the names
    /// of the bodies that the step removed for having been out of bounds
    /// too long.
    pub fn tick(&mut self, dt: Scalar) -> (removed: Vec<BodyId>)
        ensures
            final(self)@ == (WorldState {
                bodies: step_spec(
                    old(self)@.bodies,
                    old(self)@.config,
                    old(self)@.half_extents,
                    dt,
                ),
                ..old(self)@
            }),
            removed@ == step_removed(
                old(self)@.bodies,
                old(self)@.config,
                old(self)@.half_extents,
                dt,
            ),
            old(self).wf() ==> final(self).wf(),
    {
        proof {
            if self.wf() {
                lemma_step_keeps_bodies_wf(self.slots@, self.config, self.half_extents, dt);
            }
        }
        step(&mut self.slots, self.config, self.half_extents, dt)
    }

    /// Runs the stages of a step that move the bodies, over `dt` seconds,
    /// and leaves the bounds unchecked: for a step at which the viewport is
    /// not known.
    pub fn advance(&mut self, dt: Scalar)
        ensures
            final(self)@ == (WorldState {
                bodies: before_bounds_check(old(self)@.bodies, old(self)@.config, dt),
                ..old(self)@
            }),
            old(self).wf() ==> final(self).wf(),
    {
        proof {
            if self.wf() {
                lemma_advance_keeps_bodies_wf(self.slots@, self.config, dt);
            }
        }
        advance(&mut self.slots, self.config, dt);
    }

    /// Runs the out-of-bounds timer of every body by `dt` seconds against
    /// the viewport, removes the bodies whose time has run out and returns
    /// their names in index order. After `advance`, this completes a step.
    pub fn check_bounds(&mut self, dt: Scalar) -> (removed: Vec<BodyId>)
        ensures
            final(self)@ == (WorldState {
                bodies: check_bounds_spec(old(self)@.bodies, old(self)@.half_extents, dt),
                ..old(self)@
            }),
            removed@ == expired_upto(
                old(self)@.bodies,
                old(self)@.bodies.len() as int,
                old(self)@.half_extents,
                dt,
            ),
            old(self).wf() ==> final(self).wf(),
    {
        proof {
            if self.wf() {
                lemma_bounds_check_keeps_bodies_wf(self.slots@, self.half_extents, dt);
            }
        }
        check_out_of_bounds(&mut self.slots, self.half_extents, dt)
    }

    /// Takes over the given parameters, each moved into its range.
    pub fn set_config(&mut self, options: PhysicsConfig)
        ensures
            final(self)@ == (WorldState { config: options.clamped(), ..old(self)@ }),
            old(self).wf() ==> final(self).wf(),
    {
        self.config = options.clamped();
    }

    /// The parameters in force.
    pub fn config(&self) -> (config: PhysicsConfig)
        ensures
            config == self@.config,
    {
        self.config
    }

    /// Switches friction on or off.
    pub fn toggle_friction(&mut self)
        ensures
            final(self)@ == (WorldState { config: old(self)@.config.toggled(), ..old(self)@ }),
            old(self).wf() ==> final(self).wf(),
    {
        self.config.toggle_friction();
    }

    /// Raises the restitution by a tenth, to at most one.
    pub fn raise_restitution(&mut self)
        ensures
            final(self)@ == (WorldState { config: old(self)@.config.raised(), ..old(self)@ }),
            old(self).wf() ==> final(self).wf(),
    {
        self.config.raise_restitution();
    }

    /// Lowers the restitution by a tenth, to at least zero.
    pub fn lower_restitution(&mut self)
        ensures
            final(self)@ == (WorldState { config: old(self)@.config.lowered(), ..old(self)@ }),
            old(self).wf() ==> final(self).wf(),
    {
        self.config.lower_restitution();
    }

    /// Takes over the half extents of the viewport.
    pub fn set_viewport(&mut self, half_extents: Vector)
        ensures
            final(self)@ == (WorldState { half_extents, ..old(self)@ }),
            old(self).wf() ==> final(self).wf(),
    {
        self.half_extents = half_extents;
    }

    /// The total momentum: mass times velocity, summed over the bodies in
    /// index order.
    pub fn total_momentum(&self) -> (total: Vector)
        ensures
            total == momentum_upto(self@.bodies, self@.bodies.len() as int),
    {
        let mut total = Vector::zero();
        let mut i: usize = 0;
        while i < self.slots.len()
            invariant
                i <= self.slots.len(),
                total == momentum_upto(self.slots@, i as int),
            decreases self.slots.len() - i,
        {
            if let Some(body) = self.slots[i] {
                total = total.add(body.momentum());
            }
            i += 1;
        }
        total
    }

    /// The total kinetic energy: half the mass times the squared speed,
    /// summed over the bodies in index order.
    pub fn total_kinetic_energy(&self) -> (total: Scalar)
        ensures
            total == kinetic_energy_upto(self@.bodies, self@.bodies.len() as int),
    {
        let mut total = Scalar::zero();
        let mut i: usize = 0;
        while i < self.slots.len()
            invariant
                i <= self.slots.len(),
                total == kinetic_energy_upto(self.slots@, i as int),
            decreases self.slots.len() - i,
        {
            if let Some(body) = self.slots[i] {
                total = total.add(body.kinetic_energy());
            }
            i += 1;
        }
        total
    }

    /// How many bodies there are.
    pub fn live_count(&self) -> (count: usize)
        ensures
            count == live_bodies_upto(self@.bodies, self@.bodies.len() as int).len(),
    {
        let mut count: usize = 0;
        let mut i: usize = 0;
        while i < self.slots.len()
            invariant
                i <= self.slots.len(),
                count <= i,
                count == live_bodies_upto(self.slots@, i as int).len(),
            decreases self.slots.len() - i,
        {
            if self.slots[i].is_some() {
                count += 1;
            }
            i += 1;
        }
        count
    }
}

} // verus!
