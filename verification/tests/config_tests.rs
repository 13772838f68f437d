use disk_physics::config::{PhysicsConfig, RestitutionKind};
use disk_physics::scalar::Scalar;
use disk_physics::vector::Vector;

fn s(units: f64) -> Scalar {
    Scalar::from_millionths((units * 1e6).round() as i64)
}

#[test]
fn default_parameters() {
    let c = PhysicsConfig::default();
    assert!(c.friction_enabled);
    assert_eq!(c.restitution, s(0.8));
    assert_eq!(c.gravity, Vector::zero());
    assert_eq!(c.linear_damping, s(2.0));
    assert_eq!(c.slop, s(0.01));
    assert_eq!(c.percent, s(0.8));
}

#[test]
fn clamping_moves_each_parameter_into_its_range() {
    let wild = PhysicsConfig {
        friction_enabled: false,
        restitution: s(1.5),
        gravity: Vector::new(s(0.0), s(-980.0)),
        linear_damping: s(-2.0),
        slop: s(-0.5),
        percent: s(-0.1),
    };
    let c = wild.clamped();
    assert!(!c.friction_enabled);
    assert_eq!(c.restitution, s(1.0));
    assert_eq!(c.gravity, Vector::new(s(0.0), s(-980.0)));
    assert_eq!(c.linear_damping, s(0.0));
    assert_eq!(c.slop, s(0.0));
    assert_eq!(c.percent, s(0.0));

    let high = PhysicsConfig { restitution: s(-0.2), percent: s(7.0), ..wild }.clamped();
    assert_eq!(high.restitution, s(0.0));
    assert_eq!(high.percent, s(1.0));
}

#[test]
fn clamping_keeps_parameters_in_range() {
    let c = PhysicsConfig::default();
    assert_eq!(c.clamped(), c);
    let edge = PhysicsConfig { restitution: s(1.0), percent: s(0.0), linear_damping: s(50.0), ..c };
    assert_eq!(edge.clamped(), edge);
}

#[test]
fn friction_toggles() {
    let mut c = PhysicsConfig::default();
    c.toggle_friction();
    assert!(!c.friction_enabled);
    assert_eq!(c.restitution, s(0.8));
    c.toggle_friction();
    assert_eq!(c, PhysicsConfig::default());
}

#[test]
fn restitution_moves_by_tenths_and_stops_at_the_ends() {
    let mut c = PhysicsConfig::default();
    c.raise_restitution();
    assert_eq!(c.restitution, s(0.9));
    c.raise_restitution();
    assert_eq!(c.restitution, s(1.0));
    c.raise_restitution();
    assert_eq!(c.restitution, s(1.0));
    for _ in 0..9 {
        c.lower_restitution();
    }
    assert_eq!(c.restitution, s(0.1));
    c.lower_restitution();
    assert_eq!(c.restitution, s(0.0));
    c.lower_restitution();
    assert_eq!(c.restitution, s(0.0));
    assert_eq!(c.linear_damping, s(2.0));

    let mut near = PhysicsConfig { restitution: s(0.95), ..PhysicsConfig::default() };
    near.raise_restitution();
    assert_eq!(near.restitution, s(1.0));
    let mut low = PhysicsConfig { restitution: s(0.05), ..PhysicsConfig::default() };
    low.lower_restitution();
    assert_eq!(low.restitution, s(0.0));
}

#[test]
fn kinds_of_restitution() {
    let at = |r: f64| PhysicsConfig { restitution: s(r), ..PhysicsConfig::default() }.restitution_kind();
    assert_eq!(at(1.0), RestitutionKind::Elastic);
    assert_eq!(at(0.95), RestitutionKind::Elastic);
    assert_eq!(at(0.949999), RestitutionKind::Partial);
    assert_eq!(at(0.8), RestitutionKind::Partial);
    assert_eq!(at(0.050001), RestitutionKind::Partial);
    assert_eq!(at(0.05), RestitutionKind::Inelastic);
    assert_eq!(at(0.0), RestitutionKind::Inelastic);
}
