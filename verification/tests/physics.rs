// Physics-side behavior: vector algebra, bodies, springs, and the trail.
// All coordinates are fixed point with 1000 sub-units per world unit.

use springsim::vector::Vector;
use springsim::body::{Body, BoxBody};
use springsim::renderable::Renderable;
use springsim::spring::Spring;
use springsim::trail::Trail;

#[test]
fn vector_new_and_fields() {
    let v = Vector::new(1500, -2500);
    assert_eq!(v.x, 1500);
    assert_eq!(v.y, -2500);
}

#[test]
fn vector_add_sub_neg() {
    let a = Vector::new(1500, -2500);
    let b = Vector::new(500, 500);
    assert_eq!(a.add(b), Vector::new(2000, -2000));
    assert_eq!(Vector::new(1000, 2000).sub(Vector::new(300, 500)), Vector::new(700, 1500));
    assert_eq!(Vector::new(3, -4).neg(), Vector::new(-3, 4));
}

#[test]
fn vector_scalar_mul_truncates_toward_zero() {
    // 2.0 * 1.5 = 3.0 and -3.0 * 1.5 = -4.5
    assert_eq!(Vector::new(2000, -3000).mul(1500), Vector::new(3000, -4500));
    // 0.001 * -0.5 = -0.0005, which truncates to zero, not toward -inf
    assert_eq!(Vector::new(1, 0).mul(-500), Vector::new(0, 0));
}

#[test]
fn vector_scalar_div() {
    // (3.0, 4.0) / 2.0 = (1.5, 2.0)
    assert_eq!(Vector::new(3000, 4000).div(2000), Vector::new(1500, 2000));
}

#[test]
fn vector_dot_cross() {
    // (2, 3) . (4, 5) = 23 ; (2, 3) x (4, 5) = -2
    let a = Vector::new(2000, 3000);
    let b = Vector::new(4000, 5000);
    assert_eq!(a.dot(b), 23000);
    assert_eq!(a.cross(&b), -2000);
}

#[test]
fn magnitude_exact_values() {
    assert_eq!(Vector::new(3000, 4000).magnitude(), 5000);
    assert_eq!(Vector::new(0, 0).magnitude(), 0);
    assert_eq!(Vector::new(1, 1).magnitude(), 1);
    assert_eq!(Vector::new(-5000, 0).magnitude(), 5000);
}

#[test]
fn magnitude_of_negation_matches_and_is_nonnegative() {
    let samples = [
        Vector::new(7, -3),
        Vector::new(-12345, 999),
        Vector::new(0, 0),
        Vector::new(320000, -240000),
    ];
    for v in samples.iter() {
        let m = v.magnitude();
        assert_eq!(m, v.neg().magnitude());
        assert!(m >= 0);
    }
}

#[test]
fn normalize_has_unit_magnitude() {
    assert_eq!(Vector::new(3000, 4000).normalize(), Vector::new(600, 800));
    assert_eq!(Vector::new(3000, 4000).normalize().magnitude(), 1000);
    assert_eq!(Vector::new(0, 5000).normalize(), Vector::new(0, 1000));
    // within integer tolerance on a diagonal
    let n = Vector::new(7071, 7071).normalize();
    let m = n.magnitude();
    assert!(990 <= m && m <= 1010);
}

#[test]
fn spring_force_zero_at_rest_length() {
    let spring = Spring::new(100_000, 1000, 0x0000FF);
    let mut a = BoxBody::new(Vector::new(0, 0), (20000, 20000), 0xFF0000, 1000);
    let mut b = BoxBody::new(Vector::new(100_000, 0), (20000, 20000), 0xFF0000, 1000);
    spring.apply_force(&mut a, &mut b);
    assert_eq!(a.get_acceleration(), Vector::new(0, 0));
    assert_eq!(b.get_acceleration(), Vector::new(0, 0));
}

#[test]
fn spring_force_equal_and_opposite() {
    let spring = Spring::new(100_000, 1000, 0x0000FF);
    let mut a = BoxBody::new(Vector::new(0, 0), (20000, 20000), 0xFF0000, 1000);
    let mut b = BoxBody::new(Vector::new(150_000, 0), (20000, 20000), 0xFF0000, 1000);
    spring.apply_force(&mut a, &mut b);
    // stretched by 50 units with k = 1: the pair is pulled together
    assert_eq!(a.get_acceleration(), Vector::new(50_000, 0));
    assert_eq!(b.get_acceleration(), Vector::new(-50_000, 0));
    assert_eq!(a.get_acceleration(), b.get_acceleration().neg());
}

#[test]
fn spring_force_skipped_at_zero_distance() {
    let spring = Spring::new(100_000, 1000, 0x0000FF);
    let mut a = BoxBody::new(Vector::new(5000, 5000), (20000, 20000), 0xFF0000, 1000);
    let mut b = BoxBody::new(Vector::new(5000, 5000), (20000, 20000), 0xFF0000, 1000);
    spring.apply_force(&mut a, &mut b);
    assert_eq!(a.get_acceleration(), Vector::new(0, 0));
    assert_eq!(b.get_acceleration(), Vector::new(0, 0));
}

#[test]
fn static_body_ignores_forces_but_moves_with_velocity() {
    let mut anchor = BoxBody::new_static(
        Vector::new(320_000, 0),
        (640_000, 20000),
        0x00FF00,
        Vector::new(80_000, 50_000),
    );
    let before = anchor.get_position();
    anchor.apply_force(Vector::new(1_000_000, 1_000_000));
    assert_eq!(anchor.get_position(), before);
    assert_eq!(anchor.get_acceleration(), Vector::new(0, 0));
    // 80 * 0.016 = 1.28 units and 50 * 0.016 = 0.8 units
    anchor.update(16);
    assert_eq!(anchor.get_position(), Vector::new(321_280, 800));
}

#[test]
fn euler_integration_is_velocity_then_position() {
    let mut b = BoxBody::new(Vector::new(0, 0), (20000, 20000), 0xFF0000, 1000);
    b.set_velocity(Vector::new(5000, -2000));
    b.set_acceleration(Vector::new(0, 100_000));
    b.update(16);
    // v' = v + a*dt = (5000, -2000 + 1600); p' = p + v'*dt
    assert_eq!(b.get_velocity(), Vector::new(5000, -400));
    assert_eq!(b.get_position(), Vector::new(80, -6));
}

#[test]
fn spring_color_tracks_extension() {
    let mut spring = Spring::new(100_000, 1000, 0x0000FF);
    let mut a = BoxBody::new(Vector::new(0, 0), (20000, 20000), 0xFF0000, 1000);
    let mut b = BoxBody::new(Vector::new(100_000, 0), (20000, 20000), 0xFF0000, 1000);
    spring.update(16, &mut a, &mut b);
    assert_eq!(spring.color, 0xFF0000);

    let mut spring = Spring::new(100_000, 1000, 0x0000FF);
    let mut a = BoxBody::new(Vector::new(0, 0), (20000, 20000), 0xFF0000, 1000);
    let mut b = BoxBody::new(Vector::new(150_000, 0), (20000, 20000), 0xFF0000, 1000);
    spring.update(16, &mut a, &mut b);
    // green channel: 255 * 50 / 100 = 127
    assert_eq!(spring.color, 0xFF7F00);

    let mut spring = Spring::new(100_000, 1000, 0x0000FF);
    let mut a = BoxBody::new(Vector::new(0, 0), (20000, 20000), 0xFF0000, 1000);
    let mut b = BoxBody::new(Vector::new(400_000, 0), (20000, 20000), 0xFF0000, 1000);
    spring.update(16, &mut a, &mut b);
    // the channel would overflow into red; it is clamped to 255
    assert_eq!(spring.color, 0xFFFF00);

    let mut spring = Spring::new(100_000, 1000, 0x0000FF);
    let mut a = BoxBody::new(Vector::new(0, 0), (20000, 20000), 0xFF0000, 1000);
    let mut b = BoxBody::new(Vector::new(50_000, 0), (20000, 20000), 0xFF0000, 1000);
    spring.update(16, &mut a, &mut b);
    // compression gives a negative channel, clamped to zero
    assert_eq!(spring.color, 0xFF0000);
}

#[test]
fn trail_eviction_is_fifo_with_cap() {
    let mut trail = Trail::new(300);
    for i in 0..400i64 {
        trail.push(Vector::new(i, i));
    }
    assert_eq!(trail.len(), 300);
    assert_eq!(trail.capacity(), 300);
    // the oldest 100 points were evicted; the rest remain in order
    assert_eq!(trail.get(0), Vector::new(100, 100));
    assert_eq!(trail.get(299), Vector::new(399, 399));
    for i in 0..300usize {
        assert_eq!(trail.get(i), Vector::new(i as i64 + 100, i as i64 + 100));
    }
}

#[test]
fn trail_below_cap_keeps_everything() {
    let mut trail = Trail::new(300);
    for i in 0..5i64 {
        trail.push(Vector::new(i, -i));
    }
    assert_eq!(trail.len(), 5);
    assert_eq!(trail.get(4), Vector::new(4, -4));
}
