//! The stages of one step, each over the whole store of bodies: a sequence
//! of slots, of which the empty ones stand for bodies that are gone.

use crate::body::Body;
use crate::config::PhysicsConfig;
use crate::contact::{
    contact_between, detect_pair, overlapping, resolve_pair, resolve_pair_spec, BodyId, Contact,
};
use crate::scalar::Scalar;
use crate::vector::Vector;
use vstd::prelude::*;

verus! {

/// Whether slot `i` holds a body.
pub open spec fn live(bodies: Seq<Option<Body>>, i: int) -> bool {
    0 <= i < bodies.len() && bodies[i].is_some()
}

/// Every body with its force reset and gravity applied.
pub open spec fn accumulate_forces_spec(bodies: Seq<Option<Body>>, config: PhysicsConfig) -> Seq<
    Option<Body>,
> {
    Seq::new(
        bodies.len(),
        |i: int|
            match bodies[i] {
                Some(body) => Some(body.accumulate_force(config)),
                None => None,
            },
    )
}

/// Every body with its velocity advanced over `dt`.
pub open spec fn integrate_velocities_spec(
    bodies: Seq<Option<Body>>,
    config: PhysicsConfig,
    dt: Scalar,
) -> Seq<Option<Body>> {
    Seq::new(
        bodies.len(),
        |i: int|
            match bodies[i] {
                Some(body) => Some(body.integrate_velocity(config, dt)),
                None => None,
            },
    )
}

/// Every body moved by its velocity over `dt`.
pub open spec fn integrate_positions_spec(bodies: Seq<Option<Body>>, dt: Scalar) -> Seq<
    Option<Body>,
> {
    Seq::new(
        bodies.len(),
        |i: int|
            match bodies[i] {
                Some(body) => Some(body.integrate_position(dt)),
                None => None,
            },
    )
}

/// Every body after its bounds check; the slot of a body whose time out of
/// bounds has run out is empty.
pub open spec fn check_bounds_spec(bodies: Seq<Option<Body>>, half_extents: Vector, dt: Scalar)
    -> Seq<Option<Body>> {
    Seq::new(
        bodies.len(),
        |i: int|
            match bodies[i] {
                Some(body) => body.check_bounds(half_extents, dt),
                None => None,
            },
    )
}

/// Whether the bounds check removes the body in slot `i`.
pub open spec fn expires(bodies: Seq<Option<Body>>, i: int, half_extents: Vector, dt: Scalar)
    -> bool {
    live(bodies, i) && bodies[i].unwrap().check_bounds(half_extents, dt).is_none()
}

/// The bodies among the first `upto` slots that the bounds check removes, in
/// index order.
pub open spec fn expired_upto(
    bodies: Seq<Option<Body>>,
    upto: int,
    half_extents: Vector,
    dt: Scalar,
) -> Seq<BodyId>
    decreases upto,
{
    if upto <= 0 {
        Seq::empty()
    } else {
        let before = expired_upto(bodies, upto - 1, half_extents, dt);
        if expires(bodies, upto - 1, half_extents, dt) {
            before.push(BodyId { index: (upto - 1) as usize })
        } else {
            before
        }
    }
}

/// Whether slots `i < j` hold two bodies that overlap.
pub open spec fn pair_overlaps(bodies: Seq<Option<Body>>, i: int, j: int) -> bool {
    &&& i < j
    &&& live(bodies, i)
    &&& live(bodies, j)
    &&& overlapping(bodies[i].unwrap(), bodies[j].unwrap())
}

/// The contact of the bodies in slots `i` and `j`, normal from `i` to `j`.
pub open spec fn pair_contact(bodies: Seq<Option<Body>>, i: int, j: int) -> Contact {
    contact_between(
        BodyId { index: i as usize },
        bodies[i].unwrap(),
        BodyId { index: j as usize },
        bodies[j].unwrap(),
    )
}

/// The contacts of the body in slot `i` with the bodies in the slots after
/// it and before `upto`, in index order.
pub open spec fn row_contacts(bodies: Seq<Option<Body>>, i: int, upto: int) -> Seq<Contact>
    decreases upto - i,
{
    if upto <= i + 1 {
        Seq::empty()
    } else {
        let before = row_contacts(bodies, i, upto - 1);
        if pair_overlaps(bodies, i, upto - 1) {
            before.push(pair_contact(bodies, i, upto - 1))
        } else {
            before
        }
    }
}

/// The contacts whose first body lies in one of the first `rows` slots: row
/// after row, each in index order.
pub open spec fn contacts_of_rows(bodies: Seq<Option<Body>>, rows: int) -> Seq<Contact>
    decreases rows,
{
    if rows <= 0 {
        Seq::empty()
    } else {
        contacts_of_rows(bodies, rows - 1) + row_contacts(bodies, rows - 1, bodies.len() as int)
    }
}

/// One contact for each overlapping pair of bodies, the pairs `(i, j)` with
/// `i < j` taken in lexicographic order.
pub open spec fn detect_contacts_spec(bodies: Seq<Option<Body>>) -> Seq<Contact> {
    contacts_of_rows(bodies, bodies.len() as int)
}

/// The store after one contact has been resolved. A contact that names a
/// slot twice, a slot that does not exist or an empty slot changes nothing.
pub open spec fn resolve_contact_spec(
    bodies: Seq<Option<Body>>,
    contact: Contact,
    config: PhysicsConfig,
) -> Seq<Option<Body>> {
    let ia = contact.a.index as int;
    let ib = contact.b.index as int;
    if ia != ib && live(bodies, ia) && live(bodies, ib) {
        let after = resolve_pair_spec(bodies[ia].unwrap(), bodies[ib].unwrap(), contact, config);
        bodies.update(ia, Some(after.0)).update(ib, Some(after.1))
    } else {
        bodies
    }
}

/// The store after the contacts have been resolved one after the other, in
/// the order of the list, each on what the ones before it left.
pub open spec fn resolve_contacts_spec(
    bodies: Seq<Option<Body>>,
    contacts: Seq<Contact>,
    config: PhysicsConfig,
) -> Seq<Option<Body>>
    decreases contacts.len(),
{
    if contacts.len() == 0 {
        bodies
    } else {
        resolve_contact_spec(
            resolve_contacts_spec(bodies, contacts.drop_last(), config),
            contacts.last(),
            config,
        )
    }
}

/// The store after one whole step: forces, velocities, contacts found and
/// resolved, positions, bounds.
pub open spec fn step_spec(
    bodies: Seq<Option<Body>>,
    config: PhysicsConfig,
    half_extents: Vector,
    dt: Scalar,
) -> Seq<Option<Body>> {
    check_bounds_spec(before_bounds_check(bodies, config, dt), half_extents, dt)
}

/// The store within a step, after the positions have been advanced and
/// before the bounds are checked.
pub open spec fn before_bounds_check(bodies: Seq<Option<Body>>, config: PhysicsConfig, dt: Scalar)
    -> Seq<Option<Body>> {
    let pushed = integrate_velocities_spec(accumulate_forces_spec(bodies, config), config, dt);
    integrate_positions_spec(
        resolve_contacts_spec(pushed, detect_contacts_spec(pushed), config),
        dt,
    )
}

/// The bodies that one whole step removes, in index order.
pub open spec fn step_removed(
    bodies: Seq<Option<Body>>,
    config: PhysicsConfig,
    half_extents: Vector,
    dt: Scalar,
) -> Seq<BodyId> {
    let placed = before_bounds_check(bodies, config, dt);
    expired_upto(placed, placed.len() as int, half_extents, dt)
}

/// A body that is gone has no contacts.
pub proof fn lemma_row_of_empty_slot(bodies: Seq<Option<Body>>, i: int, upto: int)
    requires
        !live(bodies, i),
    ensures
        row_contacts(bodies, i, upto) == Seq::<Contact>::empty(),
    decreases upto - i,
{
    if upto > i + 1 {
        lemma_row_of_empty_slot(bodies, i, upto - 1);
    }
}

/// Resets the force of every body and applies gravity; kinematic bodies are
/// skipped.
pub fn accumulate_forces(bodies: &mut Vec<Option<Body>>, config: PhysicsConfig)
    ensures
        final(bodies)@ == accumulate_forces_spec(old(bodies)@, config),
{
    let ghost before = bodies@;
    let n = bodies.len();
    let mut i: usize = 0;
    while i < n
        invariant
            i <= n,
            bodies@.len() == n,
            before.len() == n,
            forall|k: int| 0 <= k < i ==> bodies@[k] == accumulate_forces_spec(before, config)[k],
            forall|k: int| i <= k < n ==> bodies@[k] == before[k],
        decreases n - i,
    {
        if let Some(body) = bodies[i] {
            bodies[i] = Some(body.accumulate_force(config));
        }
        i += 1;
    }
    assert(bodies@ =~= accumulate_forces_spec(before, config));
}

/// Advances the velocity of every body over `dt`; kinematic bodies are
/// skipped.
pub fn integrate_velocities(bodies: &mut Vec<Option<Body>>, config: PhysicsConfig, dt: Scalar)
    ensures
        final(bodies)@ == integrate_velocities_spec(old(bodies)@, config, dt),
{
    let ghost before = bodies@;
    let n = bodies.len();
    let mut i: usize = 0;
    while i < n
        invariant
            i <= n,
            bodies@.len() == n,
            before.len() == n,
            forall|k: int|
                0 <= k < i ==> bodies@[k] == integrate_velocities_spec(before, config, dt)[k],
            forall|k: int| i <= k < n ==> bodies@[k] == before[k],
        decreases n - i,
    {
        if let Some(body) = bodies[i] {
            bodies[i] = Some(body.integrate_velocity(config, dt));
        }
        i += 1;
    }
    assert(bodies@ =~= integrate_velocities_spec(before, config, dt));
}

/// Finds the overlapping pairs of bodies: every pair is looked at once, in
/// index order, and the normal of a contact points from the body with the
/// lower index to the other.
pub fn detect_contacts(bodies: &Vec<Option<Body>>) -> (contacts: Vec<Contact>)
    ensures
        contacts@ == detect_contacts_spec(bodies@),
{
    let mut contacts: Vec<Contact> = Vec::new();
    let n = bodies.len();
    let mut i: usize = 0;
    while i < n
        invariant
            i <= n,
            n == bodies@.len(),
            contacts@ == contacts_of_rows(bodies@, i as int),
        decreases n - i,
    {
        let ghost done = contacts@;
        match bodies[i] {
            Some(a) => {
                let mut j: usize = i + 1;
                while j < n
                    invariant
                        i < j <= n,
                        n == bodies@.len(),
                        bodies@[i as int] == Some(a),
                        contacts@ == done + row_contacts(bodies@, i as int, j as int),
                    decreases n - j,
                {
                    if let Some(b) = bodies[j] {
                        if let Some(contact) = detect_pair(
                            BodyId { index: i },
                            a,
                            BodyId { index: j },
                            b,
                        ) {
                            contacts.push(contact);
                        }
                    }
                    assert(contacts@ =~= done + row_contacts(bodies@, i as int, j + 1));
                    j += 1;
                }
            },
            None => {
                proof {
                    lemma_row_of_empty_slot(bodies@, i as int, n as int);
                }
                assert(contacts@ =~= done + row_contacts(bodies@, i as int, n as int));
            },
        }
        i += 1;
    }
    contacts
}

/// Resolves one contact in the store, if it names two different bodies that
/// are both still there.
pub fn resolve_contact(bodies: &mut Vec<Option<Body>>, contact: Contact, config: PhysicsConfig)
    ensures
        final(bodies)@ == resolve_contact_spec(old(bodies)@, contact, config),
{
    let ia = contact.a.index;
    let ib = contact.b.index;
    if ia != ib && ia < bodies.len() && ib < bodies.len() {
        if let Some(a) = bodies[ia] {
            if let Some(b) = bodies[ib] {
                let after = resolve_pair(a, b, contact, config);
                bodies[ia] = Some(after.0);
                bodies[ib] = Some(after.1);
            }
        }
    }
}

/// Resolves the contacts one after the other, in the order of the list and
/// in a single pass.
pub fn resolve_contacts(
    bodies: &mut Vec<Option<Body>>,
    contacts: &Vec<Contact>,
    config: PhysicsConfig,
)
    ensures
        final(bodies)@ == resolve_contacts_spec(old(bodies)@, contacts@, config),
{
    let ghost before = bodies@;
    let mut k: usize = 0;
    while k < contacts.len()
        invariant
            k <= contacts.len(),
            bodies@ == resolve_contacts_spec(before, contacts@.take(k as int), config),
        decreases contacts.len() - k,
    {
        assert(contacts@.take(k + 1).drop_last() =~= contacts@.take(k as int));
        resolve_contact(bodies, contacts[k], config);
        k += 1;
    }
    assert(contacts@.take(k as int) =~= contacts@);
}

/// Moves every body by its velocity over `dt`; kinematic bodies are skipped.
pub fn integrate_positions(bodies: &mut Vec<Option<Body>>, dt: Scalar)
    ensures
        final(bodies)@ == integrate_positions_spec(old(bodies)@, dt),
{
    let ghost before = bodies@;
    let n = bodies.len();
    let mut i: usize = 0;
    while i < n
        invariant
            i <= n,
            bodies@.len() == n,
            before.len() == n,
            forall|k: int| 0 <= k < i ==> bodies@[k] == integrate_positions_spec(before, dt)[k],
            forall|k: int| i <= k < n ==> bodies@[k] == before[k],
        decreases n - i,
    {
        if let Some(body) = bodies[i] {
            bodies[i] = Some(body.integrate_position(dt));
        }
        i += 1;
    }
    assert(bodies@ =~= integrate_positions_spec(before, dt));
}

/// Runs the out-of-bounds timer of every body by one step, removes the
/// bodies whose time has run out and returns their names in index order.
pub fn check_out_of_bounds(bodies: &mut Vec<Option<Body>>, half_extents: Vector, dt: Scalar) -> (removed:
    Vec<BodyId>)
    ensures
        final(bodies)@ == check_bounds_spec(old(bodies)@, half_extents, dt),
        removed@ == expired_upto(old(bodies)@, old(bodies)@.len() as int, half_extents, dt),
{
    let ghost before = bodies@;
    let mut removed: Vec<BodyId> = Vec::new();
    let n = bodies.len();
    let mut i: usize = 0;
    while i < n
        invariant
            i <= n,
            bodies@.len() == n,
            before.len() == n,
            forall|k: int|
                0 <= k < i ==> bodies@[k] == check_bounds_spec(before, half_extents, dt)[k],
            forall|k: int| i <= k < n ==> bodies@[k] == before[k],
            removed@ == expired_upto(before, i as int, half_extents, dt),
        decreases n - i,
    {
        if let Some(body) = bodies[i] {
            let checked = body.check_bounds(half_extents, dt);
            if checked.is_none() {
                removed.push(BodyId { index: i });
            }
            bodies[i] = checked;
        }
        i += 1;
    }
    assert(bodies@ =~= check_bounds_spec(before, half_extents, dt));
    removed
}

/// Runs the stages of a step that move the bodies: forces, velocities,
/// contacts found and resolved, positions. The bounds are not checked.
pub fn advance(bodies: &mut Vec<Option<Body>>, config: PhysicsConfig, dt: Scalar)
    ensures
        final(bodies)@ == before_bounds_check(old(bodies)@, config, dt),
{
    accumulate_forces(bodies, config);
    integrate_velocities(bodies, config, dt);
    let contacts = detect_contacts(bodies);
    resolve_contacts(bodies, &contacts, config);
    integrate_positions(bodies, dt);
}

/// Runs one whole step on the store and returns the names of the bodies
/// that it removed.
pub fn step(
    bodies: &mut Vec<Option<Body>>,
    config: PhysicsConfig,
    half_extents: Vector,
    dt: Scalar,
) -> (removed: Vec<BodyId>)
    ensures
        final(bodies)@ == step_spec(old(bodies)@, config, half_extents, dt),
        removed@ == step_removed(old(bodies)@, config, half_extents, dt),
{
    advance(bodies, config, dt);
    check_out_of_bounds(bodies, half_extents, dt)
}

/// Whether `after` has the mass, the radius and the drag state of `before`:
/// what no stage of a step changes.
pub open spec fn same_build(before: Body, after: Body) -> bool {
    &&& after.mass == before.mass
    &&& after.radius == before.radius
    &&& after.drag == before.drag
}

/// Whether the two stores hold bodies in the same slots, each with the
/// build it had.
pub open spec fn slots_keep_build(before: Seq<Option<Body>>, after: Seq<Option<Body>>) -> bool {
    &&& before.len() == after.len()
    &&& forall|i: int|
        0 <= i < before.len() ==> match (#[trigger] before[i], after[i]) {
            (Some(a), Some(b)) => same_build(a, b),
            (None, None) => true,
            _ => false,
        }
}

/// Whether every body in the store has data that a body can have.
pub open spec fn bodies_wf(bodies: Seq<Option<Body>>) -> bool {
    forall|i: int| live(bodies, i) ==> (#[trigger] bodies[i]).unwrap().wf()
}

/// Resolving a contact leaves every body in its slot, with its build.
pub proof fn lemma_resolve_contact_keeps_build(
    bodies: Seq<Option<Body>>,
    contact: Contact,
    config: PhysicsConfig,
)
    ensures
        slots_keep_build(bodies, resolve_contact_spec(bodies, contact, config)),
{
}

/// Resolving any list of contacts leaves every body in its slot, with its
/// build.
pub proof fn lemma_resolve_contacts_keep_build(
    bodies: Seq<Option<Body>>,
    contacts: Seq<Contact>,
    config: PhysicsConfig,
)
    ensures
        slots_keep_build(bodies, resolve_contacts_spec(bodies, contacts, config)),
    decreases contacts.len(),
{
    if contacts.len() > 0 {
        let earlier = resolve_contacts_spec(bodies, contacts.drop_last(), config);
        lemma_resolve_contacts_keep_build(bodies, contacts.drop_last(), config);
        lemma_resolve_contact_keeps_build(earlier, contacts.last(), config);
        let later = resolve_contact_spec(earlier, contacts.last(), config);
        assert forall|i: int| 0 <= i < bodies.len() implies match (#[trigger] bodies[i], later[i]) {
            (Some(a), Some(b)) => same_build(a, b),
            (None, None) => true,
            _ => false,
        } by {
            let _ = earlier[i];
        }
    }
}

/// Up to the bounds check, a step leaves every body in its slot, with its
/// build.
pub proof fn lemma_step_keeps_build(bodies: Seq<Option<Body>>, config: PhysicsConfig, dt: Scalar)
    ensures
        slots_keep_build(bodies, before_bounds_check(bodies, config, dt)),
{
    let forced = accumulate_forces_spec(bodies, config);
    let pushed = integrate_velocities_spec(forced, config, dt);
    let resolved = resolve_contacts_spec(pushed, detect_contacts_spec(pushed), config);
    let placed = integrate_positions_spec(resolved, dt);
    lemma_resolve_contacts_keep_build(pushed, detect_contacts_spec(pushed), config);
    assert forall|i: int| 0 <= i < bodies.len() implies match (#[trigger] bodies[i], placed[i]) {
        (Some(a), Some(b)) => same_build(a, b),
        (None, None) => true,
        _ => false,
    } by {
        let _ = forced[i];
        let _ = pushed[i];
        let _ = resolved[i];
    }
}

/// The bounds check keeps the data of every body it leaves in the store
/// valid.
pub proof fn lemma_bounds_check_keeps_bodies_wf(
    bodies: Seq<Option<Body>>,
    half_extents: Vector,
    dt: Scalar,
)
    requires
        bodies_wf(bodies),
    ensures
        bodies_wf(check_bounds_spec(bodies, half_extents, dt)),
        check_bounds_spec(bodies, half_extents, dt).len() == bodies.len(),
{
    let after = check_bounds_spec(bodies, half_extents, dt);
    assert forall|i: int| live(after, i) implies (#[trigger] after[i]).unwrap().wf() by {
        let _ = bodies[i];
    }
}

/// The moving stages of a step keep the data of every body valid.
pub proof fn lemma_advance_keeps_bodies_wf(
    bodies: Seq<Option<Body>>,
    config: PhysicsConfig,
    dt: Scalar,
)
    requires
        bodies_wf(bodies),
    ensures
        bodies_wf(before_bounds_check(bodies, config, dt)),
        before_bounds_check(bodies, config, dt).len() == bodies.len(),
{
    let after = before_bounds_check(bodies, config, dt);
    lemma_step_keeps_build(bodies, config, dt);
    assert forall|i: int| live(after, i) implies (#[trigger] after[i]).unwrap().wf() by {
        let _ = bodies[i];
    }
}

/// A step keeps the data of every body it leaves in the store valid.
pub proof fn lemma_step_keeps_bodies_wf(
    bodies: Seq<Option<Body>>,
    config: PhysicsConfig,
    half_extents: Vector,
    dt: Scalar,
)
    requires
        bodies_wf(bodies),
    ensures
        bodies_wf(step_spec(bodies, config, half_extents, dt)),
        step_spec(bodies, config, half_extents, dt).len() == bodies.len(),
{
    let placed = before_bounds_check(bodies, config, dt);
    let after = step_spec(bodies, config, half_extents, dt);
    lemma_step_keeps_build(bodies, config, dt);
    assert forall|i: int| live(after, i) implies (#[trigger] after[i]).unwrap().wf() by {
        let _ = bodies[i];
        let _ = placed[i];
    }
}

} // verus!
