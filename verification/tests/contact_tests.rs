use disk_physics::body::{Body, DragOverride};
use disk_physics::config::PhysicsConfig;
use disk_physics::contact::{detect_pair, resolve_pair, BodyId, Contact};
use disk_physics::scalar::Scalar;
use disk_physics::vector::Vector;

fn s(units: f64) -> Scalar {
    Scalar::from_millionths((units * 1e6).round() as i64)
}

fn v(x: f64, y: f64) -> Vector {
    Vector::new(s(x), s(y))
}

fn id(index: usize) -> BodyId {
    BodyId { index }
}

fn moving(position: Vector, velocity: Vector) -> Body {
    Body { velocity, ..Body::new(position) }
}

fn dragged(body: Body) -> Body {
    Body { drag: Some(DragOverride { offset: v(0.0, 0.0), last_pointer: body.position }), ..body }
}

fn head_on() -> (Body, Body, Contact) {
    let a = moving(v(0.0, 0.0), v(50.0, 0.0));
    let b = moving(v(40.0, 0.0), v(-50.0, 0.0));
    let c = Contact { a: id(0), b: id(1), normal: v(1.0, 0.0), penetration: s(10.0) };
    (a, b, c)
}

#[test]
fn overlapping_disks_give_one_contact() {
    let a = Body::new(v(0.0, 0.0));
    let b = Body::new(v(40.0, 0.0));
    assert_eq!(
        detect_pair(id(3), a, id(7), b),
        Some(Contact { a: id(3), b: id(7), normal: v(1.0, 0.0), penetration: s(10.0) })
    );
}

#[test]
fn normal_points_from_the_first_body_to_the_second() {
    let a = Body::new(v(0.0, 0.0));
    let b = Body::new(v(3.0, 4.0));
    let ab = detect_pair(id(0), a, id(1), b).unwrap();
    assert_eq!(ab.normal, v(0.6, 0.8));
    assert_eq!(ab.penetration, s(45.0));
    let ba = detect_pair(id(1), b, id(0), a).unwrap();
    assert_eq!(ba.normal, v(-0.6, -0.8));
    assert_eq!(ba.penetration, s(45.0));
    let below = detect_pair(id(0), a, id(1), Body::new(v(0.0, -30.0))).unwrap();
    assert_eq!(below.normal, v(0.0, -1.0));
    assert_eq!(below.penetration, s(20.0));
}

#[test]
fn disks_that_only_touch_give_no_contact() {
    let a = Body::new(v(0.0, 0.0));
    assert_eq!(detect_pair(id(0), a, id(1), Body::new(v(50.0, 0.0))), None);
    assert_eq!(detect_pair(id(0), a, id(1), Body::new(v(30.0, 40.0))), None);
    assert_eq!(detect_pair(id(0), a, id(1), Body::new(v(80.0, 0.0))), None);
    let close = detect_pair(id(0), a, id(1), Body::new(v(49.999999, 0.0))).unwrap();
    assert_eq!(close.penetration.millionths(), 1);
    assert_eq!(close.normal, v(1.0, 0.0));
}

#[test]
fn radii_add_up() {
    let a = Body::with_properties(v(0.0, 0.0), s(1.0), s(5.0)).unwrap();
    let b = Body::with_properties(v(0.0, 12.0), s(1.0), s(10.0)).unwrap();
    let c = detect_pair(id(0), a, id(1), b).unwrap();
    assert_eq!(c.penetration, s(3.0));
    assert_eq!(c.normal, v(0.0, 1.0));
    let far = Body::with_properties(v(0.0, 15.0), s(1.0), s(10.0)).unwrap();
    assert_eq!(detect_pair(id(0), a, id(1), far), None);
}

#[test]
fn coincident_disks_have_no_direction() {
    let a = Body::new(v(7.0, 7.0));
    let c = detect_pair(id(0), a, id(1), a).unwrap();
    assert_eq!(c.normal, v(0.0, 0.0));
    assert_eq!(c.penetration, s(50.0));
}

#[test]
fn normal_has_length_one_within_rounding() {
    let a = Body::new(v(0.0, 0.0));
    let b = Body::new(v(30.0, 39.0));
    let c = detect_pair(id(0), a, id(1), b).unwrap();
    let nx = c.normal.x.millionths() as f64 / 1e6;
    let ny = c.normal.y.millionths() as f64 / 1e6;
    assert!((nx * nx + ny * ny - 1.0).abs() < 1e-5);
    assert_eq!(c.normal.x.millionths(), 609_710);
    assert_eq!(c.normal.y.millionths(), 792_623);
    assert_eq!(c.penetration.millionths(), 50_000_000 - 49_203_658);
}

#[test]
fn contact_corrects_positions_and_bounces() {
    let (a, b, c) = head_on();
    let (a2, b2) = resolve_pair(a, b, c, PhysicsConfig::default());
    assert_eq!(a2.position, v(-3.996, 0.0));
    assert_eq!(b2.position, v(43.996, 0.0));
    assert_eq!(a2.velocity, v(-40.0, 0.0));
    assert_eq!(b2.velocity, v(40.0, 0.0));
    assert_eq!(Body { position: a.position, velocity: a.velocity, ..a2 }, a);
    assert_eq!(Body { position: b.position, velocity: b.velocity, ..b2 }, b);
}

#[test]
fn elastic_head_on_collision_swaps_velocities() {
    let (a, b, c) = head_on();
    let config = PhysicsConfig { restitution: s(1.0), ..PhysicsConfig::default() };
    let (a2, b2) = resolve_pair(a, b, c, config);
    assert_eq!(a2.velocity, v(-50.0, 0.0));
    assert_eq!(b2.velocity, v(50.0, 0.0));
}

#[test]
fn elastic_collision_keeps_the_tangential_velocity() {
    let a = moving(v(0.0, 0.0), v(3.0, 20.0));
    let b = moving(v(0.0, 40.0), v(-7.0, -20.0));
    let c = Contact { a: id(0), b: id(1), normal: v(0.0, 1.0), penetration: s(10.0) };
    let config = PhysicsConfig { restitution: s(1.0), ..PhysicsConfig::default() };
    let (a2, b2) = resolve_pair(a, b, c, config);
    assert_eq!(a2.velocity, v(3.0, -20.0));
    assert_eq!(b2.velocity, v(-7.0, 20.0));
}

#[test]
fn inelastic_collision_ends_the_approach() {
    let (a, b, c) = head_on();
    let config = PhysicsConfig { restitution: s(0.0), ..PhysicsConfig::default() };
    let (a2, b2) = resolve_pair(a, b, c, config);
    assert_eq!(a2.velocity, v(0.0, 0.0));
    assert_eq!(b2.velocity, v(0.0, 0.0));

    let slow = moving(v(0.0, 0.0), Vector::new(Scalar::from_millionths(3), s(0.0)));
    let rest = moving(v(40.0, 0.0), v(0.0, 0.0));
    let (s2, r2) = resolve_pair(slow, rest, c, config);
    let left = r2.velocity.sub(s2.velocity).dot(c.normal).millionths();
    assert_eq!(left, -1);
}

#[test]
fn restitution_is_clamped_at_use() {
    let (a, b, c) = head_on();
    let over = PhysicsConfig { restitution: s(1.5), ..PhysicsConfig::default() };
    let (a2, b2) = resolve_pair(a, b, c, over);
    assert_eq!(a2.velocity, v(-50.0, 0.0));
    assert_eq!(b2.velocity, v(50.0, 0.0));
    let under = PhysicsConfig { restitution: s(-1.0), ..PhysicsConfig::default() };
    let (a3, b3) = resolve_pair(a, b, c, under);
    assert_eq!(a3.velocity, v(0.0, 0.0));
    assert_eq!(b3.velocity, v(0.0, 0.0));
}

#[test]
fn separating_bodies_get_no_impulse() {
    let a = moving(v(0.0, 0.0), v(-50.0, 0.0));
    let b = moving(v(40.0, 0.0), v(50.0, 0.0));
    let c = Contact { a: id(0), b: id(1), normal: v(1.0, 0.0), penetration: s(10.0) };
    let (a2, b2) = resolve_pair(a, b, c, PhysicsConfig::default());
    assert_eq!(a2.velocity, v(-50.0, 0.0));
    assert_eq!(b2.velocity, v(50.0, 0.0));
    assert_eq!(a2.position, v(-3.996, 0.0));
    assert_eq!(b2.position, v(43.996, 0.0));
}

#[test]
fn bodies_at_relative_rest_get_a_zero_impulse() {
    let a = moving(v(0.0, 0.0), v(5.0, 1.0));
    let b = moving(v(40.0, 0.0), v(5.0, -1.0));
    let c = Contact { a: id(0), b: id(1), normal: v(1.0, 0.0), penetration: s(10.0) };
    let (a2, b2) = resolve_pair(a, b, c, PhysicsConfig::default());
    assert_eq!(a2.velocity, a.velocity);
    assert_eq!(b2.velocity, b.velocity);
}

#[test]
fn overlap_within_the_slop_moves_nobody() {
    let (a, b, c) = head_on();
    let shallow = Contact { penetration: s(0.01), ..c };
    let (a2, b2) = resolve_pair(a, b, shallow, PhysicsConfig::default());
    assert_eq!(a2.position, a.position);
    assert_eq!(b2.position, b.position);
    assert_eq!(a2.velocity, v(-40.0, 0.0));
    assert_eq!(b2.velocity, v(40.0, 0.0));
    let just = Contact { penetration: s(0.010001), ..c };
    let (a3, b3) = resolve_pair(a, b, just, PhysicsConfig { percent: s(1.0), ..PhysicsConfig::default() });
    assert_eq!(a3.position, a.position);
    assert_eq!(b3.position.x.millionths(), 40_000_000);
    let deeper = Contact { penetration: s(0.010004), ..c };
    let (a4, b4) = resolve_pair(a, b, deeper, PhysicsConfig { percent: s(1.0), ..PhysicsConfig::default() });
    assert_eq!(a4.position.x.millionths(), -2);
    assert_eq!(b4.position.x.millionths(), 40_000_002);
}

#[test]
fn dragged_body_counts_as_immovable() {
    let (a, b, c) = head_on();
    let a = dragged(a);
    let (a2, b2) = resolve_pair(a, b, c, PhysicsConfig::default());
    assert_eq!(a2, a);
    assert_eq!(b2.position, v(47.992, 0.0));
    assert_eq!(b2.velocity, v(130.0, 0.0));

    let (a0, b0, _) = head_on();
    let b0 = dragged(b0);
    let (a3, b3) = resolve_pair(a0, b0, c, PhysicsConfig::default());
    assert_eq!(b3, b0);
    assert_eq!(a3.position, v(-7.992, 0.0));
    assert_eq!(a3.velocity, v(-130.0, 0.0));
}

#[test]
fn body_without_mass_counts_as_immovable() {
    let wall = Body { velocity: v(0.0, 0.0), ..Body::with_properties(v(0.0, 0.0), s(0.0), s(25.0)).unwrap() };
    let ball = moving(v(40.0, 0.0), v(-50.0, 0.0));
    let c = Contact { a: id(0), b: id(1), normal: v(1.0, 0.0), penetration: s(10.0) };
    let (w2, b2) = resolve_pair(wall, ball, c, PhysicsConfig::default());
    assert_eq!(w2, wall);
    assert_eq!(b2.position, v(47.992, 0.0));
    assert_eq!(b2.velocity, v(40.0, 0.0));
}

#[test]
fn two_immovable_bodies_are_left_alone() {
    let (a, b, c) = head_on();
    let (a, b) = (dragged(a), dragged(b));
    assert_eq!(resolve_pair(a, b, c, PhysicsConfig::default()), (a, b));
    let wall = Body::with_properties(v(0.0, 0.0), s(0.0), s(25.0)).unwrap();
    assert_eq!(resolve_pair(wall, b, c, PhysicsConfig::default()), (wall, b));
}

#[test]
fn masses_share_the_impulse() {
    let heavy = Body { velocity: v(10.0, 0.0), ..Body::with_properties(v(0.0, 0.0), s(4.0), s(25.0)).unwrap() };
    let light = moving(v(40.0, 0.0), v(-10.0, 0.0));
    let c = Contact { a: id(0), b: id(1), normal: v(1.0, 0.0), penetration: s(10.0) };
    let config = PhysicsConfig { restitution: s(1.0), slop: s(0.0), percent: s(1.0), ..PhysicsConfig::default() };
    let (h2, l2) = resolve_pair(heavy, light, c, config);
    assert_eq!(h2.position, v(-2.0, 0.0));
    assert_eq!(l2.position, v(48.0, 0.0));
    assert_eq!(h2.velocity, v(2.0, 0.0));
    assert_eq!(l2.velocity, v(22.0, 0.0));
}

#[test]
fn elastic_swap_is_exact_for_any_equal_masses() {
    let c = Contact { a: id(0), b: id(1), normal: v(1.0, 0.0), penetration: s(10.0) };
    let config = PhysicsConfig { restitution: s(1.0), ..PhysicsConfig::default() };
    for mass in [0.000001, 0.3, 1.0, 2.0, 3.0, 7.0, 1000.0] {
        let body = |position: Vector, velocity: Vector| Body {
            velocity,
            ..Body::with_properties(position, s(mass), s(25.0)).unwrap()
        };
        let (a2, b2) = resolve_pair(body(v(0.0, 0.0), v(1.0, 0.5)), body(v(40.0, 0.0), v(-1.0, 0.25)), c, config);
        assert_eq!(a2.velocity, v(-1.0, 0.5));
        assert_eq!(b2.velocity, v(1.0, 0.25));
    }
}

#[test]
fn close_centers_still_give_a_unit_normal() {
    let a = Body::new(v(0.0, 0.0));
    let diagonal = detect_pair(id(0), a, id(1), Body::new(v(0.000001, 0.000001))).unwrap();
    assert_eq!(diagonal.normal.x.millionths(), 707_107);
    assert_eq!(diagonal.normal.y.millionths(), 707_107);
    assert_eq!(diagonal.penetration, s(49.999999));
    let skew = detect_pair(id(0), a, id(1), Body::new(v(-0.000003, 0.000004))).unwrap();
    assert_eq!(skew.normal, v(-0.6, 0.8));
    assert_eq!(skew.penetration, s(49.999995));
    let along = detect_pair(id(0), a, id(1), Body::new(v(0.0, -0.000001))).unwrap();
    assert_eq!(along.normal, v(0.0, -1.0));
    let steep = detect_pair(id(0), a, id(1), Body::new(v(0.000001, 0.000007))).unwrap();
    assert_eq!(steep.normal.x.millionths(), 141_421);
    assert_eq!(steep.normal.y.millionths(), 989_949);
}

#[test]
fn normal_is_of_unit_length_at_every_distance() {
    let a = Body::with_properties(v(0.0, 0.0), s(1.0), s(40_000_000.0)).unwrap();
    let mut offsets = vec![];
    for scale in [0.000001, 0.00001, 0.001, 0.5, 1.0, 37.0, 999_999.0, 1_000_000.0, 2_500_000.0] {
        for (x, y) in [(1.0, 0.0), (1.0, 1.0), (-1.0, 2.0), (3.0, -4.0), (-5.0, -1.0), (0.0, 1.0), (2.0, 7.0)] {
            offsets.push((x * scale, y * scale));
        }
    }
    for (x, y) in offsets {
        let c = detect_pair(id(0), a, id(1), Body::new(v(x, y))).unwrap();
        let nx = c.normal.x.millionths() as i128;
        let ny = c.normal.y.millionths() as i128;
        let length_squared = nx * nx + ny * ny;
        assert!(length_squared > 1_000_000_000_000 - 4_000_002, "{x} {y}");
        assert!(length_squared < 1_000_002_000_001, "{x} {y}");
        let (ex, ey) = (x / (x * x + y * y).sqrt(), y / (x * x + y * y).sqrt());
        assert!((nx as f64 / 1e6 - ex).abs() < 2e-6, "{x} {y}");
        assert!((ny as f64 / 1e6 - ey).abs() < 2e-6, "{x} {y}");
    }
}

#[test]
fn light_bodies_are_moved_by_the_full_correction() {
    let light = |position: Vector| Body::with_properties(position, s(0.000001), s(25.0)).unwrap();
    let a = light(v(0.0, 0.0));
    let b = light(v(40.0, 0.0));
    assert_eq!(a.mass.inv, s(1_000_000.0));
    let c = Contact { a: id(0), b: id(1), normal: v(1.0, 0.0), penetration: s(11.25) };
    let config = PhysicsConfig { slop: s(0.0), percent: s(0.8), ..PhysicsConfig::default() };
    let (a2, b2) = resolve_pair(a, b, c, config);
    assert_eq!(a2.position, v(-4.5, 0.0));
    assert_eq!(b2.position, v(44.5, 0.0));

    let heavy = Body::with_properties(v(0.0, 0.0), s(3.0), s(25.0)).unwrap();
    let (h2, l2) = resolve_pair(heavy, b, c, config);
    assert_eq!(h2.position.x.millionths(), -2);
    assert_eq!(l2.position.x.millionths(), 48_999_997);
}

#[test]
fn oblique_elastic_collision_reverses_the_normal_velocities() {
    let a0 = Body::new(v(0.0, 0.0));
    let b0 = Body::new(v(30.0, 39.0));
    let c = detect_pair(id(0), a0, id(1), b0).unwrap();
    let n = c.normal;
    let speed = s(120.0);
    let a = Body { velocity: n.scale(speed).add(v(7.0, -3.0)), ..a0 };
    let u = a.velocity.dot(n);
    let b = Body { velocity: n.scale(u.neg()).add(v(-1.0, 4.0)), ..b0 };
    let ub = b.velocity.dot(n);
    let config = PhysicsConfig { restitution: s(1.0), ..PhysicsConfig::default() };
    let (a2, b2) = resolve_pair(a, b, c, config);
    let approach = b.velocity.sub(a.velocity).dot(n).neg().millionths();
    assert!(approach > 0);
    let slack = 12 + 5 * approach / 1_000_000;
    assert!((a2.velocity.dot(n).millionths() + u.millionths()).abs() <= slack + (u.millionths() + ub.millionths()).abs() * 2);
    let parting = b2.velocity.sub(a2.velocity).dot(n).millionths();
    assert!((parting - approach).abs() <= 10 + 9 * approach / 1_000_000);
    let across = |before: Vector, after: Vector| {
        let d = after.sub(before);
        (n.x.millionths() as i128 * d.y.millionths() as i128
            - n.y.millionths() as i128 * d.x.millionths() as i128)
            .abs()
    };
    assert!(across(a.velocity, a2.velocity) <= 2_000_000);
    assert!(across(b.velocity, b2.velocity) <= 2_000_000);
    assert_eq!(a2.velocity.add(b2.velocity), a.velocity.add(b.velocity));
}

#[test]
fn oblique_inelastic_collision_ends_the_approach() {
    let a0 = Body::new(v(0.0, 0.0));
    let b0 = Body::with_properties(v(-11.0, 17.0), s(0.37), s(25.0)).unwrap();
    let c = detect_pair(id(0), a0, id(1), b0).unwrap();
    let a = Body { velocity: v(-30.0, 55.0), ..a0 };
    let b = Body { velocity: v(12.5, -80.0), ..b0 };
    let approach = b.velocity.sub(a.velocity).dot(c.normal).neg().millionths();
    assert!(approach > 100_000_000);
    let config = PhysicsConfig { restitution: s(0.0), ..PhysicsConfig::default() };
    let (a2, b2) = resolve_pair(a, b, c, config);
    let left = b2.velocity.sub(a2.velocity).dot(c.normal).millionths();
    assert!(left.abs() <= 10 + 9 * approach / 1_000_000);
}

#[test]
fn rebound_is_the_restitution_times_the_approach() {
    let (a, b, c) = head_on();
    for (restitution, parting) in [(0.0, 0.0), (0.25, 25.0), (0.8, 80.0), (1.0, 100.0)] {
        let config = PhysicsConfig { restitution: s(restitution), ..PhysicsConfig::default() };
        let (a2, b2) = resolve_pair(a, b, c, config);
        assert_eq!(b2.velocity.sub(a2.velocity).dot(c.normal), s(parting));
    }
}
