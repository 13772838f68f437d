//! What holds of the stages of a step and of their composition, for every
//! store of bodies.

use crate::body::Body;
use crate::config::PhysicsConfig;
use crate::contact::{
    correct_positions, correction_depth, normal_velocity, resolve_pair_spec, velocity_change,
    BodyId, Contact,
};
use crate::pipeline::{
    accumulate_forces_spec, before_bounds_check, contacts_of_rows, detect_contacts_spec,
    expired_upto, expires, integrate_positions_spec, integrate_velocities_spec,
    lemma_resolve_contacts_keep_build, live, pair_contact, pair_overlaps, resolve_contact_spec,
    resolve_contacts_spec, row_contacts, step_spec,
};
use crate::scalar::{lemma_add_zero, lemma_mul_div_zero, lemma_mul_zero, Scalar};
use crate::vector::{lemma_add_zero_vector, lemma_scale_one, lemma_scale_zero, Vector};
use vstd::prelude::*;

verus! {

/// Whether no two bodies of the store overlap.
pub open spec fn no_overlap(bodies: Seq<Option<Body>>) -> bool {
    forall|i: int, j: int| !pair_overlaps(bodies, i, j)
}

/// Whether the two stores hold bodies in the same slots, each where it was
/// and as large as it was.
pub open spec fn same_geometry(before: Seq<Option<Body>>, after: Seq<Option<Body>>) -> bool {
    &&& before.len() == after.len()
    &&& forall|i: int|
        0 <= i < before.len() ==> match (#[trigger] before[i], after[i]) {
            (Some(a), Some(b)) => a.position == b.position && a.radius == b.radius,
            (None, None) => true,
            _ => false,
        }
}

/// How many contacts of the list are between the body in slot `i`, as the
/// first, and the body in slot `j`, as the second.
pub open spec fn occurrences(contacts: Seq<Contact>, i: int, j: int) -> nat
    decreases contacts.len(),
{
    if contacts.len() == 0 {
        0
    } else {
        let rest = occurrences(contacts.drop_last(), i, j);
        if contacts.last().a.index == i && contacts.last().b.index == j {
            rest + 1
        } else {
            rest
        }
    }
}

proof fn lemma_no_overlap_row(bodies: Seq<Option<Body>>, i: int, upto: int)
    requires
        no_overlap(bodies),
    ensures
        row_contacts(bodies, i, upto) == Seq::<Contact>::empty(),
    decreases upto - i,
{
    if upto > i + 1 {
        lemma_no_overlap_row(bodies, i, upto - 1);
    }
}

proof fn lemma_no_overlap_rows(bodies: Seq<Option<Body>>, rows: int)
    requires
        no_overlap(bodies),
    ensures
        contacts_of_rows(bodies, rows) == Seq::<Contact>::empty(),
    decreases rows,
{
    if rows > 0 {
        lemma_no_overlap_rows(bodies, rows - 1);
        lemma_no_overlap_row(bodies, rows - 1, bodies.len() as int);
    }
}

/// Where no two bodies overlap, no contact is found.
pub proof fn no_overlap_no_contacts(bodies: Seq<Option<Body>>)
    requires
        no_overlap(bodies),
    ensures
        detect_contacts_spec(bodies) == Seq::<Contact>::empty(),
{
    lemma_no_overlap_rows(bodies, bodies.len() as int);
}

/// Whether two bodies overlap depends on where they are and how large they
/// are, and on nothing else.
pub proof fn overlap_depends_on_geometry(before: Seq<Option<Body>>, after: Seq<Option<Body>>)
    requires
        same_geometry(before, after),
        no_overlap(before),
    ensures
        no_overlap(after),
{
    assert forall|i: int, j: int| !pair_overlaps(after, i, j) by {
        if pair_overlaps(after, i, j) {
            assert(pair_overlaps(before, i, j));
        }
    }
}

proof fn lemma_row_members(bodies: Seq<Option<Body>>, i: int, upto: int, k: int)
    requires
        bodies.len() <= usize::MAX,
        0 <= i,
        upto <= bodies.len(),
        0 <= k < row_contacts(bodies, i, upto).len(),
    ensures
        ({
            let c = row_contacts(bodies, i, upto)[k];
            &&& c.a.index == i
            &&& c.b.index < upto
            &&& pair_overlaps(bodies, i, c.b.index as int)
            &&& c == pair_contact(bodies, i, c.b.index as int)
        }),
    decreases upto - i,
{
    if upto > i + 1 {
        let before = row_contacts(bodies, i, upto - 1);
        if k < before.len() {
            lemma_row_members(bodies, i, upto - 1, k);
        }
    }
}

proof fn lemma_rows_members(bodies: Seq<Option<Body>>, rows: int, k: int)
    requires
        bodies.len() <= usize::MAX,
        rows <= bodies.len(),
        0 <= k < contacts_of_rows(bodies, rows).len(),
    ensures
        ({
            let c = contacts_of_rows(bodies, rows)[k];
            &&& c.a.index < rows
            &&& pair_overlaps(bodies, c.a.index as int, c.b.index as int)
            &&& c == pair_contact(bodies, c.a.index as int, c.b.index as int)
        }),
    decreases rows,
{
    if rows > 0 {
        let before = contacts_of_rows(bodies, rows - 1);
        if k < before.len() {
            lemma_rows_members(bodies, rows - 1, k);
        } else {
            lemma_row_members(bodies, rows - 1, bodies.len() as int, k - before.len());
        }
    }
}

/// Every contact that is found is between two bodies that overlap, the
/// first in a lower slot than the second, and is the contact of that pair.
pub proof fn every_contact_is_an_overlap(bodies: Seq<Option<Body>>, k: int)
    requires
        bodies.len() <= usize::MAX,
        0 <= k < detect_contacts_spec(bodies).len(),
    ensures
        ({
            let c = detect_contacts_spec(bodies)[k];
            &&& pair_overlaps(bodies, c.a.index as int, c.b.index as int)
            &&& c == pair_contact(bodies, c.a.index as int, c.b.index as int)
        }),
{
    lemma_rows_members(bodies, bodies.len() as int, k);
}

proof fn lemma_occurrences_concat(s: Seq<Contact>, t: Seq<Contact>, i: int, j: int)
    ensures
        occurrences(s + t, i, j) == occurrences(s, i, j) + occurrences(t, i, j),
    decreases t.len(),
{
    if t.len() == 0 {
    } else {
        lemma_occurrences_concat(s, t.drop_last(), i, j);
        assert((s + t).drop_last() =~= s + t.drop_last());
    }
}

proof fn lemma_row_occurrences(bodies: Seq<Option<Body>>, r: int, upto: int, i: int, j: int)
    requires
        bodies.len() <= usize::MAX,
        0 <= r,
        upto <= bodies.len(),
    ensures
        occurrences(row_contacts(bodies, r, upto), i, j) == if r == i && j < upto && pair_overlaps(
            bodies,
            i,
            j,
        ) {
            1nat
        } else {
            0nat
        },
    decreases upto - r,
{
    if upto > r + 1 {
        lemma_row_occurrences(bodies, r, upto - 1, i, j);
        let before = row_contacts(bodies, r, upto - 1);
        if pair_overlaps(bodies, r, upto - 1) {
            assert(before.push(pair_contact(bodies, r, upto - 1)).drop_last() =~= before);
        }
    }
}

proof fn lemma_rows_occurrences(bodies: Seq<Option<Body>>, rows: int, i: int, j: int)
    requires
        bodies.len() <= usize::MAX,
        rows <= bodies.len(),
    ensures
        occurrences(contacts_of_rows(bodies, rows), i, j) == if i < rows && pair_overlaps(
            bodies,
            i,
            j,
        ) {
            1nat
        } else {
            0nat
        },
    decreases rows,
{
    if rows > 0 {
        lemma_rows_occurrences(bodies, rows - 1, i, j);
        lemma_row_occurrences(bodies, rows - 1, bodies.len() as int, i, j);
        lemma_occurrences_concat(
            contacts_of_rows(bodies, rows - 1),
            row_contacts(bodies, rows - 1, bodies.len() as int),
            i,
            j,
        );
    }
}

/// For two bodies that overlap, exactly one contact is found; for any other
/// pair of slots, none.
pub proof fn one_contact_per_overlapping_pair(bodies: Seq<Option<Body>>, i: int, j: int)
    requires
        bodies.len() <= usize::MAX,
    ensures
        occurrences(detect_contacts_spec(bodies), i, j) == if pair_overlaps(bodies, i, j) {
            1nat
        } else {
            0nat
        },
{
    lemma_rows_occurrences(bodies, bodies.len() as int, i, j);
}

/// A contact that is no deeper than the slop moves neither body.
pub proof fn no_correction_within_slop(a: Body, b: Body, contact: Contact, config: PhysicsConfig)
    requires
        contact.penetration@ <= config.slop@,
    ensures
        resolve_pair_spec(a, b, contact, config).0.position == a.position,
        resolve_pair_spec(a, b, contact, config).1.position == b.position,
{
}

/// A body whose effective inverse mass is zero, because it is dragged or
/// has no mass, comes out of a contact where it was and as fast as it was.
pub proof fn immovable_body_ignores_contact(
    a: Body,
    b: Body,
    contact: Contact,
    config: PhysicsConfig,
)
    ensures
        a.effective_inverse_mass()@ == 0 ==> {
            &&& resolve_pair_spec(a, b, contact, config).0.position == a.position
            &&& resolve_pair_spec(a, b, contact, config).0.velocity == a.velocity
        },
        b.effective_inverse_mass()@ == 0 ==> {
            &&& resolve_pair_spec(a, b, contact, config).1.position == b.position
            &&& resolve_pair_spec(a, b, contact, config).1.velocity == b.velocity
        },
{
    let inv_sum = a.effective_inverse_mass().add(b.effective_inverse_mass());
    let depth = correction_depth(contact, config);
    let corrected = correct_positions(a, b, contact, config);
    let change = velocity_change(
        config.restitution,
        normal_velocity(corrected.0, corrected.1, contact.normal),
    );
    lemma_mul_div_zero(depth, inv_sum);
    lemma_mul_div_zero(change, inv_sum);
    lemma_scale_zero(contact.normal, Scalar::zero());
    lemma_add_zero_vector(a.position);
    lemma_add_zero_vector(a.velocity);
    lemma_add_zero_vector(b.position);
    lemma_add_zero_vector(b.velocity);
}

/// A body whose effective inverse mass is zero comes out of the resolution
/// of any list of contacts where it was and as fast as it was.
pub proof fn immovable_body_ignores_contacts(
    bodies: Seq<Option<Body>>,
    contacts: Seq<Contact>,
    config: PhysicsConfig,
    i: int,
)
    requires
        live(bodies, i),
        bodies[i].unwrap().effective_inverse_mass()@ == 0,
    ensures
        resolve_contacts_spec(bodies, contacts, config)[i] matches Some(after) && {
            &&& after.position == bodies[i].unwrap().position
            &&& after.velocity == bodies[i].unwrap().velocity
        },
    decreases contacts.len(),
{
    if contacts.len() > 0 {
        let earlier = resolve_contacts_spec(bodies, contacts.drop_last(), config);
        let c = contacts.last();
        immovable_body_ignores_contacts(bodies, contacts.drop_last(), config, i);
        lemma_resolve_contacts_keep_build(bodies, contacts.drop_last(), config);
        let ia = c.a.index as int;
        let ib = c.b.index as int;
        if ia != ib && live(earlier, ia) && live(earlier, ib) {
            immovable_body_ignores_contact(
                earlier[ia].unwrap(),
                earlier[ib].unwrap(),
                c,
                config,
            );
        }
    }
}

/// The position stage leaves a dragged body where it is.
pub proof fn kinematic_body_keeps_position(bodies: Seq<Option<Body>>, dt: Scalar, i: int)
    requires
        live(bodies, i),
        bodies[i].unwrap().is_kinematic(),
    ensures
        integrate_positions_spec(bodies, dt)[i] == bodies[i],
{
}

/// Up to the bounds check, a step in which no two bodies overlap, under no
/// gravity and with no damping in effect, leaves every body as fast as it
/// was; and so does the whole step, for every body that it leaves.
pub proof fn velocity_kept_without_forces(
    bodies: Seq<Option<Body>>,
    config: PhysicsConfig,
    half_extents: Vector,
    dt: Scalar,
    i: int,
)
    requires
        config.gravity == Vector::zero(),
        !config.friction_enabled || config.linear_damping@ <= 0,
        no_overlap(bodies),
        live(bodies, i),
    ensures
        before_bounds_check(bodies, config, dt)[i] matches Some(after) && after.velocity
            == bodies[i].unwrap().velocity,
        step_spec(bodies, config, half_extents, dt)[i] matches Some(after) ==> after.velocity
            == bodies[i].unwrap().velocity,
{
    let body = bodies[i].unwrap();
    let forced = accumulate_forces_spec(bodies, config);
    let pushed = integrate_velocities_spec(forced, config, dt);
    assert(same_geometry(bodies, pushed)) by {
        assert forall|k: int| 0 <= k < bodies.len() implies match (#[trigger] bodies[k], pushed[k]) {
            (Some(a), Some(b)) => a.position == b.position && a.radius == b.radius,
            (None, None) => true,
            _ => false,
        } by {}
    }
    overlap_depends_on_geometry(bodies, pushed);
    no_overlap_no_contacts(pushed);
    lemma_scale_zero(Vector::zero(), body.mass.mass);
    lemma_add_zero_vector(Vector::zero());
    lemma_scale_zero(Vector::zero(), body.mass.inv);
    lemma_scale_zero(Vector::zero(), dt);
    lemma_add_zero_vector(body.velocity);
}

/// Whether the two stores hold bodies in the same slots, each where it was
/// and as fast as it was.
pub open spec fn same_motion(before: Seq<Option<Body>>, after: Seq<Option<Body>>) -> bool {
    &&& before.len() == after.len()
    &&& forall|i: int|
        0 <= i < before.len() ==> match (#[trigger] before[i], after[i]) {
            (Some(a), Some(b)) => a.position == b.position && a.velocity == b.velocity,
            (None, None) => true,
            _ => false,
        }
}

/// Whether the two stores differ in nothing but the forces on their bodies.
pub open spec fn same_but_force(one: Seq<Option<Body>>, other: Seq<Option<Body>>) -> bool {
    &&& one.len() == other.len()
    &&& forall|i: int|
        0 <= i < one.len() ==> match (#[trigger] one[i], other[i]) {
            (Some(a), Some(b)) => b == (Body { force: b.force, ..a }),
            (None, None) => true,
            _ => false,
        }
}

/// Whether resolving the contacts of the store as it stands would leave
/// every body where it is and as fast as it is.
pub open spec fn contacts_idle(bodies: Seq<Option<Body>>, config: PhysicsConfig) -> bool {
    same_motion(bodies, resolve_contacts_spec(bodies, detect_contacts_spec(bodies), config))
}

proof fn lemma_row_ignores_force(
    one: Seq<Option<Body>>,
    other: Seq<Option<Body>>,
    i: int,
    upto: int,
)
    requires
        same_but_force(one, other),
        0 <= i,
        upto <= one.len(),
    ensures
        row_contacts(one, i, upto) == row_contacts(other, i, upto),
    decreases upto - i,
{
    if upto > i + 1 {
        lemma_row_ignores_force(one, other, i, upto - 1);
    }
}

proof fn lemma_rows_ignore_force(one: Seq<Option<Body>>, other: Seq<Option<Body>>, rows: int)
    requires
        same_but_force(one, other),
        rows <= one.len(),
    ensures
        contacts_of_rows(one, rows) == contacts_of_rows(other, rows),
    decreases rows,
{
    if rows > 0 {
        lemma_rows_ignore_force(one, other, rows - 1);
        lemma_row_ignores_force(one, other, rows - 1, one.len() as int);
    }
}

proof fn lemma_pair_ignores_force(
    a: Body,
    b: Body,
    a2: Body,
    b2: Body,
    contact: Contact,
    config: PhysicsConfig,
)
    requires
        a2 == (Body { force: a2.force, ..a }),
        b2 == (Body { force: b2.force, ..b }),
    ensures
        resolve_pair_spec(a2, b2, contact, config).0 == (Body {
            force: a2.force,
            ..resolve_pair_spec(a, b, contact, config).0
        }),
        resolve_pair_spec(a2, b2, contact, config).1 == (Body {
            force: b2.force,
            ..resolve_pair_spec(a, b, contact, config).1
        }),
{
    let c1 = correct_positions(a, b, contact, config);
    let c2 = correct_positions(a2, b2, contact, config);
    assert(c2.0 == (Body { force: a2.force, ..c1.0 }));
    assert(c2.1 == (Body { force: b2.force, ..c1.1 }));
}

proof fn lemma_contact_ignores_force(
    one: Seq<Option<Body>>,
    other: Seq<Option<Body>>,
    contact: Contact,
    config: PhysicsConfig,
)
    requires
        same_but_force(one, other),
    ensures
        same_but_force(
            resolve_contact_spec(one, contact, config),
            resolve_contact_spec(other, contact, config),
        ),
{
    let ia = contact.a.index as int;
    let ib = contact.b.index as int;
    if ia != ib && live(one, ia) && live(one, ib) {
        let a = one[ia].unwrap();
        let b = one[ib].unwrap();
        let a2 = other[ia].unwrap();
        let b2 = other[ib].unwrap();
        lemma_pair_ignores_force(a, b, a2, b2, contact, config);
        let r1 = resolve_pair_spec(a, b, contact, config);
        let r2 = resolve_pair_spec(a2, b2, contact, config);
        let x2 = one.update(ia, Some(r1.0)).update(ib, Some(r1.1));
        let y2 = other.update(ia, Some(r2.0)).update(ib, Some(r2.1));
        assert forall|i: int| 0 <= i < x2.len() implies match (#[trigger] x2[i], y2[i]) {
            (Some(p), Some(q)) => q == (Body { force: q.force, ..p }),
            (None, None) => true,
            _ => false,
        } by {}
    }
}

proof fn lemma_resolve_ignores_force(
    one: Seq<Option<Body>>,
    other: Seq<Option<Body>>,
    contacts: Seq<Contact>,
    config: PhysicsConfig,
)
    requires
        same_but_force(one, other),
    ensures
        same_but_force(
            resolve_contacts_spec(one, contacts, config),
            resolve_contacts_spec(other, contacts, config),
        ),
    decreases contacts.len(),
{
    if contacts.len() > 0 {
        lemma_resolve_ignores_force(one, other, contacts.drop_last(), config);
        lemma_contact_ignores_force(
            resolve_contacts_spec(one, contacts.drop_last(), config),
            resolve_contacts_spec(other, contacts.drop_last(), config),
            contacts.last(),
            config,
        );
    }
}

/// Within a step of no time, up to the bounds check, the bodies are moved
/// or change speed if and only if resolving their contacts does that: no
/// other stage changes a position or a velocity.
pub proof fn step_of_no_time_moves_only_by_contacts(
    bodies: Seq<Option<Body>>,
    config: PhysicsConfig,
    dt: Scalar,
)
    requires
        dt@ == 0,
    ensures
        same_motion(bodies, before_bounds_check(bodies, config, dt)) <==> contacts_idle(
            bodies,
            config,
        ),
{
    let forced = accumulate_forces_spec(bodies, config);
    let pushed = integrate_velocities_spec(forced, config, dt);
    assert forall|k: int| 0 <= k < bodies.len() implies match (#[trigger] bodies[k], pushed[k]) {
        (Some(a), Some(b)) => b == (Body { force: b.force, ..a }),
        (None, None) => true,
        _ => false,
    } by {
        if bodies[k].is_some() {
            let body = bodies[k].unwrap();
            let f = forced[k].unwrap();
            lemma_scale_zero(f.force.scale(f.mass.inv), dt);
            lemma_add_zero_vector(body.velocity);
            lemma_mul_zero(config.linear_damping);
            lemma_add_zero(Scalar::one());
            lemma_scale_one(body.velocity);
        }
    }
    lemma_rows_ignore_force(bodies, pushed, bodies.len() as int);
    let contacts = detect_contacts_spec(bodies);
    lemma_resolve_ignores_force(bodies, pushed, contacts, config);
    let idle = resolve_contacts_spec(bodies, contacts, config);
    let resolved = resolve_contacts_spec(pushed, contacts, config);
    let placed = integrate_positions_spec(resolved, dt);
    assert forall|k: int| 0 <= k < resolved.len() implies match (#[trigger] resolved[k], placed[k]) {
        (Some(a), Some(b)) => a.position == b.position && a.velocity == b.velocity,
        (None, None) => true,
        _ => false,
    } by {
        if resolved[k].is_some() {
            let body = resolved[k].unwrap();
            lemma_scale_zero(body.velocity, dt);
            lemma_add_zero_vector(body.position);
        }
    }
    if same_motion(bodies, placed) {
        assert forall|k: int| 0 <= k < bodies.len() implies match (#[trigger] bodies[k], idle[k]) {
            (Some(a), Some(b)) => a.position == b.position && a.velocity == b.velocity,
            (None, None) => true,
            _ => false,
        } by {}
    }
    if contacts_idle(bodies, config) {
        assert forall|k: int| 0 <= k < bodies.len() implies match (#[trigger] bodies[k], placed[k]) {
            (Some(a), Some(b)) => a.position == b.position && a.velocity == b.velocity,
            (None, None) => true,
            _ => false,
        } by {}
    }
}

/// A step of no time on a store whose contacts are idle leaves every body
/// that it leaves in the store where it was and as fast as it was.
pub proof fn step_of_no_time_keeps_motion(
    bodies: Seq<Option<Body>>,
    config: PhysicsConfig,
    half_extents: Vector,
    dt: Scalar,
    i: int,
)
    requires
        dt@ == 0,
        contacts_idle(bodies, config),
        live(bodies, i),
    ensures
        step_spec(bodies, config, half_extents, dt)[i] matches Some(after) ==> {
            &&& after.position == bodies[i].unwrap().position
            &&& after.velocity == bodies[i].unwrap().velocity
        },
{
    step_of_no_time_moves_only_by_contacts(bodies, config, dt);
}

/// Where no two bodies overlap, the contacts are idle.
pub proof fn idle_without_overlap(bodies: Seq<Option<Body>>, config: PhysicsConfig)
    requires
        no_overlap(bodies),
    ensures
        contacts_idle(bodies, config),
{
    no_overlap_no_contacts(bodies);
}

/// The names that the bounds check reports are those of the bodies that it
/// removes, each once.
pub proof fn removed_are_the_expired(
    bodies: Seq<Option<Body>>,
    half_extents: Vector,
    dt: Scalar,
    upto: int,
    id: BodyId,
)
    requires
        0 <= upto <= bodies.len() <= usize::MAX,
    ensures
        expired_upto(bodies, upto, half_extents, dt).contains(id) <==> id.index < upto && expires(
            bodies,
            id.index as int,
            half_extents,
            dt,
        ),
        expired_upto(bodies, upto, half_extents, dt).no_duplicates(),
    decreases upto,
{
    if upto > 0 {
        removed_are_the_expired(bodies, half_extents, dt, upto - 1, id);
        let before = expired_upto(bodies, upto - 1, half_extents, dt);
        let last = BodyId { index: (upto - 1) as usize };
        removed_are_the_expired(bodies, half_extents, dt, upto - 1, last);
        if expires(bodies, upto - 1, half_extents, dt) {
            let now = before.push(last);
            assert(now[before.len() as int] == last);
            if before.contains(id) {
                let k = choose|k: int| 0 <= k < before.len() && before[k] == id;
                assert(now[k] == id);
            }
            assert(now.no_duplicates()) by {
                assert forall|a: int, b: int|
                    0 <= a < now.len() && 0 <= b < now.len() && a != b implies now[a] != now[b] by {
                    if a < before.len() && b < before.len() {
                    } else if a < before.len() {
                    } else {
                    }
                }
            }
        }
    }
}

} // verus!
