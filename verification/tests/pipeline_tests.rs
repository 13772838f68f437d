use disk_physics::body::{Body, DragOverride};
use disk_physics::config::PhysicsConfig;
use disk_physics::contact::{BodyId, Contact};
use disk_physics::pipeline::{
    accumulate_forces, check_out_of_bounds, detect_contacts, integrate_positions,
    integrate_velocities, resolve_contact, resolve_contacts, step,
};
use disk_physics::scalar::Scalar;
use disk_physics::vector::Vector;

fn s(units: f64) -> Scalar {
    Scalar::from_millionths((units * 1e6).round() as i64)
}

fn v(x: f64, y: f64) -> Vector {
    Vector::new(s(x), s(y))
}

fn id(index: usize) -> BodyId {
    BodyId { index }
}

fn moving(position: Vector, velocity: Vector) -> Body {
    Body { velocity, ..Body::new(position) }
}

fn dragged(body: Body) -> Body {
    Body { drag: Some(DragOverride { offset: v(0.0, 0.0), last_pointer: body.position }), ..body }
}

fn quiet() -> PhysicsConfig {
    PhysicsConfig {
        friction_enabled: false,
        restitution: s(1.0),
        gravity: v(0.0, 0.0),
        linear_damping: s(0.0),
        slop: s(0.0),
        percent: s(0.8),
    }
}

#[test]
fn forces_are_accumulated_for_every_free_body() {
    let config = PhysicsConfig { gravity: v(0.0, -10.0), ..PhysicsConfig::default() };
    let heavy = Body::with_properties(v(0.0, 0.0), s(3.0), s(1.0)).unwrap();
    let held = dragged(Body { force: v(1.0, 1.0), ..Body::new(v(100.0, 0.0)) });
    let mut bodies = vec![Some(Body::new(v(0.0, 0.0))), None, Some(heavy), Some(held)];
    accumulate_forces(&mut bodies, config);
    assert_eq!(bodies.len(), 4);
    assert_eq!(bodies[0].unwrap().force, v(0.0, -10.0));
    assert_eq!(bodies[1], None);
    assert_eq!(bodies[2].unwrap().force, v(0.0, -30.0));
    assert_eq!(bodies[3], Some(held));
}

#[test]
fn velocities_and_positions_are_integrated_for_every_free_body() {
    let config = PhysicsConfig { friction_enabled: false, ..PhysicsConfig::default() };
    let pushed = Body { force: v(10.0, 0.0), ..Body::new(v(0.0, 0.0)) };
    let held = dragged(Body { velocity: v(9.0, 9.0), force: v(1.0, 1.0), ..Body::new(v(100.0, 0.0)) });
    let mut bodies = vec![None, Some(pushed), Some(held)];
    integrate_velocities(&mut bodies, config, s(0.5));
    assert_eq!(bodies[0], None);
    assert_eq!(bodies[1].unwrap().velocity, v(5.0, 0.0));
    assert_eq!(bodies[2], Some(held));
    integrate_positions(&mut bodies, s(0.5));
    assert_eq!(bodies[0], None);
    assert_eq!(bodies[1].unwrap().position, v(2.5, 0.0));
    assert_eq!(bodies[2], Some(held));
}

#[test]
fn every_pair_is_looked_at_once_in_index_order() {
    let bodies = vec![
        Some(Body::new(v(0.0, 0.0))),
        Some(Body::new(v(40.0, 0.0))),
        Some(Body::new(v(80.0, 0.0))),
        Some(Body::new(v(20.0, 10.0))),
    ];
    let contacts = detect_contacts(&bodies);
    let pairs: Vec<(usize, usize)> = contacts.iter().map(|c| (c.a.index, c.b.index)).collect();
    assert_eq!(pairs, vec![(0, 1), (0, 3), (1, 2), (1, 3)]);
    assert_eq!(contacts[0].normal, v(1.0, 0.0));
    assert_eq!(contacts[0].penetration, s(10.0));
    assert_eq!(contacts[2].normal, v(1.0, 0.0));
}

#[test]
fn storage_order_decides_the_direction_of_the_normal() {
    let left = Body::new(v(0.0, 0.0));
    let right = Body::new(v(40.0, 0.0));
    let one = detect_contacts(&vec![Some(left), Some(right)]);
    let other = detect_contacts(&vec![Some(right), Some(left)]);
    assert_eq!(one.len(), 1);
    assert_eq!(other.len(), 1);
    assert_eq!(one[0].normal, v(1.0, 0.0));
    assert_eq!(other[0].normal, v(-1.0, 0.0));
    assert_eq!((one[0].a, one[0].b), (id(0), id(1)));
    assert_eq!((other[0].a, other[0].b), (id(0), id(1)));
}

#[test]
fn empty_slots_and_distant_bodies_give_no_contacts() {
    assert_eq!(detect_contacts(&vec![]), vec![]);
    assert_eq!(detect_contacts(&vec![Some(Body::new(v(0.0, 0.0)))]), vec![]);
    let apart = vec![Some(Body::new(v(0.0, 0.0))), Some(Body::new(v(50.0, 0.0))), Some(Body::new(v(0.0, 50.0)))];
    assert_eq!(detect_contacts(&apart), vec![]);
    let gone = vec![Some(Body::new(v(0.0, 0.0))), None, Some(Body::new(v(10.0, 0.0))), None];
    let contacts = detect_contacts(&gone);
    assert_eq!(contacts.len(), 1);
    assert_eq!((contacts[0].a, contacts[0].b), (id(0), id(2)));
}

#[test]
fn dragged_bodies_are_detected_too() {
    let bodies = vec![Some(dragged(Body::new(v(0.0, 0.0)))), Some(dragged(Body::new(v(10.0, 0.0))))];
    assert_eq!(detect_contacts(&bodies).len(), 1);
}

#[test]
fn contact_with_a_missing_body_is_dropped() {
    let a = moving(v(0.0, 0.0), v(50.0, 0.0));
    let b = moving(v(40.0, 0.0), v(-50.0, 0.0));
    let before = vec![Some(a), None, Some(b)];
    let normal = v(1.0, 0.0);
    for (first, second) in [(0, 1), (1, 2), (0, 3), (7, 0), (0, 0), (2, 2), (usize::MAX, 0)] {
        let mut bodies = before.clone();
        let stale = Contact { a: id(first), b: id(second), normal, penetration: s(10.0) };
        resolve_contact(&mut bodies, stale, PhysicsConfig::default());
        assert_eq!(bodies, before);
    }
    let mut bodies = before.clone();
    resolve_contact(
        &mut bodies,
        Contact { a: id(0), b: id(2), normal, penetration: s(10.0) },
        PhysicsConfig::default(),
    );
    assert_eq!(bodies[0].unwrap().velocity, v(-40.0, 0.0));
    assert_eq!(bodies[1], None);
    assert_eq!(bodies[2].unwrap().velocity, v(40.0, 0.0));
}

#[test]
fn contacts_are_resolved_in_order_in_a_single_pass() {
    let a = moving(v(0.0, 0.0), v(10.0, 0.0));
    let b = moving(v(40.0, 0.0), v(0.0, 0.0));
    let c = moving(v(80.0, 0.0), v(0.0, 0.0));
    let mut bodies = vec![Some(a), Some(b), Some(c)];
    let contacts = detect_contacts(&bodies);
    assert_eq!(contacts.len(), 2);
    let config = PhysicsConfig { percent: s(0.0), ..quiet() };
    resolve_contacts(&mut bodies, &contacts, config);
    assert_eq!(bodies[0].unwrap().velocity, v(0.0, 0.0));
    assert_eq!(bodies[1].unwrap().velocity, v(0.0, 0.0));
    assert_eq!(bodies[2].unwrap().velocity, v(10.0, 0.0));

    let mut reversed = vec![Some(a), Some(b), Some(c)];
    let backwards = vec![contacts[1], contacts[0]];
    resolve_contacts(&mut reversed, &backwards, config);
    assert_eq!(reversed[0].unwrap().velocity, v(0.0, 0.0));
    assert_eq!(reversed[1].unwrap().velocity, v(10.0, 0.0));
    assert_eq!(reversed[2].unwrap().velocity, v(0.0, 0.0));
}

#[test]
fn no_contacts_change_nothing() {
    let before = vec![Some(moving(v(0.0, 0.0), v(10.0, 0.0))), None];
    let mut bodies = before.clone();
    resolve_contacts(&mut bodies, &vec![], PhysicsConfig::default());
    assert_eq!(bodies, before);
}

#[test]
fn bounds_check_removes_and_reports_in_index_order() {
    let half = v(400.0, 300.0);
    let late = |x: f64| Body { out_of_bounds: Some(s(4.99)), ..Body::new(v(x, 0.0)) };
    let mut bodies = vec![
        Some(late(1000.0)),
        Some(Body::new(v(0.0, 0.0))),
        None,
        Some(Body::new(v(0.0, 2000.0))),
        Some(late(-1000.0)),
        Some(late(10.0)),
    ];
    let removed = check_out_of_bounds(&mut bodies, half, s(0.016));
    assert_eq!(removed, vec![id(0), id(4)]);
    assert_eq!(bodies[0], None);
    assert_eq!(bodies[1], Some(Body::new(v(0.0, 0.0))));
    assert_eq!(bodies[2], None);
    assert_eq!(bodies[3].unwrap().out_of_bounds, Some(s(0.0)));
    assert_eq!(bodies[4], None);
    assert_eq!(bodies[5], Some(Body::new(v(10.0, 0.0))));
    assert_eq!(check_out_of_bounds(&mut bodies, half, s(0.016)), vec![]);
}

#[test]
fn head_on_collision_of_two_unit_bodies() {
    let a = moving(v(0.0, 0.0), v(50.0, 0.0));
    let b = moving(v(40.0, 0.0), v(-50.0, 0.0));
    let mut bodies = vec![Some(a), Some(b)];
    let contacts = detect_contacts(&bodies);
    assert_eq!(
        contacts,
        vec![Contact { a: id(0), b: id(1), normal: v(1.0, 0.0), penetration: s(10.0) }]
    );
    let removed = step(&mut bodies, quiet(), v(400.0, 300.0), s(0.016));
    assert_eq!(removed, vec![]);
    let (a2, b2) = (bodies[0].unwrap(), bodies[1].unwrap());
    assert_eq!(a2.velocity, v(-50.0, 0.0));
    assert_eq!(b2.velocity, v(50.0, 0.0));
    assert_eq!(a2.position, v(-4.8, 0.0));
    assert_eq!(b2.position, v(44.8, 0.0));
    assert_eq!(a2.force, v(0.0, 0.0));
}

#[test]
fn step_runs_the_stages_in_order() {
    let config = PhysicsConfig { gravity: v(0.0, -10.0), ..PhysicsConfig::default() };
    let mut bodies = vec![Some(Body::new(v(0.0, 0.0)))];
    step(&mut bodies, config, v(400.0, 300.0), s(0.5));
    let b = bodies[0].unwrap();
    assert_eq!(b.force, v(0.0, -10.0));
    assert_eq!(b.velocity, v(0.0, 0.0));
    let light = PhysicsConfig { linear_damping: s(1.0), ..config };
    let mut bodies = vec![Some(Body::new(v(0.0, 0.0)))];
    step(&mut bodies, light, v(400.0, 300.0), s(0.5));
    let b = bodies[0].unwrap();
    assert_eq!(b.velocity, v(0.0, -2.5));
    assert_eq!(b.position, v(0.0, -1.25));
}

#[test]
fn velocity_is_kept_without_forces_and_contacts() {
    let config = PhysicsConfig { gravity: v(0.0, 0.0), linear_damping: s(0.0), ..PhysicsConfig::default() };
    let a = moving(v(0.0, 0.0), v(12.5, -3.25));
    let b = moving(v(100.0, 0.0), v(-1.0, 7.0));
    let mut bodies = vec![Some(a), Some(b)];
    for _ in 0..10 {
        step(&mut bodies, config, v(400.0, 300.0), s(0.016));
    }
    assert_eq!(bodies[0].unwrap().velocity, v(12.5, -3.25));
    assert_eq!(bodies[1].unwrap().velocity, v(-1.0, 7.0));
    assert_eq!(bodies[0].unwrap().position, v(2.0, -0.52));
}

#[test]
fn step_of_no_time_keeps_positions_and_velocities() {
    let config = PhysicsConfig { gravity: v(0.0, -980.0), ..PhysicsConfig::default() };
    let a = moving(v(0.0, 0.0), v(12.5, -3.25));
    let b = dragged(moving(v(100.0, 0.0), v(-1.0, 7.0)));
    let c = Body { out_of_bounds: Some(s(1.0)), ..moving(v(0.0, 900.0), v(1.0, 1.0)) };
    let mut bodies = vec![Some(a), Some(b), None, Some(c)];
    let removed = step(&mut bodies, config, v(400.0, 300.0), s(0.0));
    assert_eq!(removed, vec![]);
    assert_eq!(bodies[0], Some(Body { force: v(0.0, -980.0), ..a }));
    assert_eq!(bodies[1], Some(b));
    assert_eq!(bodies[2], None);
    assert_eq!(bodies[3], Some(Body { force: v(0.0, -980.0), ..c }));
}

#[test]
fn step_of_no_time_still_resolves_contacts() {
    let a = moving(v(0.0, 0.0), v(50.0, 0.0));
    let b = moving(v(40.0, 0.0), v(-50.0, 0.0));
    let mut bodies = vec![Some(a), Some(b)];
    step(&mut bodies, quiet(), v(400.0, 300.0), s(0.0));
    assert_eq!(bodies[0].unwrap().velocity, v(-50.0, 0.0));
    assert_eq!(bodies[0].unwrap().position, v(-4.0, 0.0));
}

#[test]
fn immovable_bodies_are_not_moved_by_contacts() {
    let wall = Body::with_properties(v(0.0, 0.0), s(0.0), s(25.0)).unwrap();
    let held = dragged(moving(v(40.0, 0.0), v(3.0, 3.0)));
    let ball = moving(v(20.0, 20.0), v(-50.0, -50.0));
    let mut bodies = vec![Some(wall), Some(held), Some(ball)];
    let contacts = detect_contacts(&bodies);
    assert_eq!(contacts.len(), 3);
    resolve_contacts(&mut bodies, &contacts, PhysicsConfig::default());
    assert_eq!(bodies[0], Some(wall));
    assert_eq!(bodies[1], Some(held));
    assert!(bodies[2].unwrap().velocity != ball.velocity);
    integrate_positions(&mut bodies, s(0.016));
    assert_eq!(bodies[0], Some(wall));
    assert_eq!(bodies[1], Some(held));
}

#[test]
fn body_without_mass_still_drifts() {
    let drifting = Body { velocity: v(1.0, 0.0), ..Body::with_properties(v(0.0, 0.0), s(0.0), s(25.0)).unwrap() };
    let mut bodies = vec![Some(drifting)];
    integrate_positions(&mut bodies, s(1.0));
    assert_eq!(bodies[0].unwrap().position, v(1.0, 0.0));
}
