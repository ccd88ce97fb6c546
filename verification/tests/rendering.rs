// Rasterization and the frame orchestrator, including the end-to-end
// two-body spring scenario.

use springsim::vector::Vector;
use springsim::body::BoxBody;
use springsim::renderable::Renderable;
use springsim::spring::Spring;
use springsim::buffer::PixelBuffer;
use springsim::world::World;

#[test]
fn rectangle_fills_exact_pixel_box() {
    let mut buffer = PixelBuffer::new(640, 480, 0);
    let body = BoxBody::new(Vector::new(320_000, 240_000), (20_000, 20_000), 0xFF0000, 1000);
    body.render(&mut buffer);
    for x in 0..640usize {
        for y in 0..480usize {
            let inside = 310 <= x && x < 330 && 230 <= y && y < 250;
            let expected = if inside { 0xFF0000 } else { 0 };
            assert_eq!(buffer.pixel(x, y), expected);
        }
    }
}

#[test]
fn rectangle_partially_off_screen_is_clipped() {
    let mut buffer = PixelBuffer::new(20, 20, 7);
    let body = BoxBody::new(Vector::new(0, 0), (20_000, 20_000), 0xABCDEF, 1000);
    body.render(&mut buffer);
    // box spans [-10, 10) x [-10, 10); only the visible quadrant is filled
    for x in 0..20usize {
        for y in 0..20usize {
            let inside = x < 10 && y < 10;
            let expected = if inside { 0xABCDEF } else { 7 };
            assert_eq!(buffer.pixel(x, y), expected);
        }
    }
}

#[test]
fn render_into_shrunken_buffer_writes_nothing() {
    let mut buffer = PixelBuffer::new(640, 480, 3);
    buffer.resize(100, 100, 3);
    let body = BoxBody::new(Vector::new(320_000, 240_000), (20_000, 20_000), 0xFF0000, 1000);
    body.render(&mut buffer);
    assert_eq!(buffer.width(), 100);
    assert_eq!(buffer.height(), 100);
    for x in 0..100usize {
        for y in 0..100usize {
            assert_eq!(buffer.pixel(x, y), 3);
        }
    }
}

#[test]
fn set_pixel_out_of_bounds_is_dropped() {
    let mut buffer = PixelBuffer::new(4, 4, 0);
    buffer.set_pixel(-1, 0, 9);
    buffer.set_pixel(0, -1, 9);
    buffer.set_pixel(4, 0, 9);
    buffer.set_pixel(0, 4, 9);
    buffer.set_pixel(1_000_000_000_000, 1, 9);
    for x in 0..4usize {
        for y in 0..4usize {
            assert_eq!(buffer.pixel(x, y), 0);
        }
    }
    buffer.set_pixel(2, 3, 9);
    assert_eq!(buffer.pixel(2, 3), 9);
}

#[test]
fn horizontal_spring_line_is_three_pixels_thick() {
    let mut buffer = PixelBuffer::new(200, 100, 0);
    let spring = Spring::new(100_000, 1000, 0x0000FF);
    let a = BoxBody::new(Vector::new(100_000, 50_000), (2000, 2000), 1, 1000);
    let b = BoxBody::new(Vector::new(110_000, 50_000), (2000, 2000), 1, 1000);
    spring.render(&mut buffer, &a, &b);
    for x in 0..200usize {
        for y in 0..100usize {
            let on = 100 <= x && x <= 110 && 49 <= y && y <= 51;
            let expected = if on { 0x0000FF } else { 0 };
            assert_eq!(buffer.pixel(x, y), expected);
        }
    }
}

#[test]
fn vertical_spring_line_is_three_pixels_thick() {
    let mut buffer = PixelBuffer::new(100, 200, 0);
    let spring = Spring::new(100_000, 1000, 0x00FF00);
    let a = BoxBody::new(Vector::new(50_000, 120_000), (2000, 2000), 1, 1000);
    let b = BoxBody::new(Vector::new(50_000, 105_000), (2000, 2000), 1, 1000);
    spring.render(&mut buffer, &a, &b);
    for x in 0..100usize {
        for y in 0..200usize {
            let on = 49 <= x && x <= 51 && 105 <= y && y <= 120;
            let expected = if on { 0x00FF00 } else { 0 };
            assert_eq!(buffer.pixel(x, y), expected);
        }
    }
}

#[test]
fn degenerate_spring_line_is_single_point() {
    let mut buffer = PixelBuffer::new(10, 10, 0);
    let spring = Spring::new(100_000, 1000, 0x123456);
    let a = BoxBody::new(Vector::new(5_200, 5_900), (2000, 2000), 1, 1000);
    let b = BoxBody::new(Vector::new(5_700, 5_100), (2000, 2000), 1, 1000);
    spring.render(&mut buffer, &a, &b);
    for x in 0..10usize {
        for y in 0..10usize {
            let expected = if x == 5 && y == 5 { 0x123456 } else { 0 };
            assert_eq!(buffer.pixel(x, y), expected);
        }
    }
}

#[test]
fn gravity_only_step_integrates_exactly() {
    let mut world = World::new(Vector::new(0, 100_000), 16, 0x000000, 640, 480, 300);
    let body = BoxBody::new(Vector::new(320_000, 240_000), (20_000, 20_000), 0xFF0000, 1000);
    world.add_body(body);
    world.step();
    // v = g*dt = 1.6 units/s down; p moves by v*dt = 0.025 units
    assert_eq!(world.bodies[0].velocity, Vector::new(0, 1600));
    assert_eq!(world.bodies[0].position, Vector::new(320_000, 240_025));
    assert_eq!(world.trail.len(), 1);
    assert_eq!(world.trail.get(0), Vector::new(320_000, 240_025));
    // the frame shows the body's rectangle with the trail point on top
    assert_eq!(world.buffer.pixel(311, 231), 0xFF0000);
    assert_eq!(world.buffer.pixel(320, 240), 0xFFFFFF);
    assert_eq!(world.buffer.pixel(0, 0), 0x000000);
}

#[test]
fn forces_are_reset_each_step_not_accumulated() {
    let mut world = World::new(Vector::new(0, 100_000), 16, 0x000000, 64, 48, 300);
    let body = BoxBody::new(Vector::new(32_000, 1_000), (2_000, 2_000), 0xFF0000, 1000);
    world.add_body(body);
    world.step();
    world.step();
    // acceleration stays g; velocity grows linearly: 2 * 1600
    assert_eq!(world.bodies[0].acceleration, Vector::new(0, 100_000));
    assert_eq!(world.bodies[0].velocity, Vector::new(0, 3200));
}

#[test]
fn two_bodies_oscillate_around_rest_length() {
    // two unit-mass bodies, one spring with rest length 100 and k = 1,
    // placed 150 units apart, no gravity
    let mut world = World::new(Vector::new(0, 0), 16, 0x000000, 640, 480, 300);
    let a = BoxBody::new(Vector::new(100_000, 100_000), (20_000, 20_000), 0xFF0000, 1000);
    let b = BoxBody::new(Vector::new(250_000, 100_000), (20_000, 20_000), 0xFF0000, 1000);
    let ia = world.add_body(a);
    let ib = world.add_body(b);
    world.add_spring(Spring::new(100_000, 1000, 0x0000FF), ia, ib);

    world.step();
    // after one step both bodies accelerate toward each other
    assert!(world.bodies[0].velocity.x > 0);
    assert!(world.bodies[1].velocity.x < 0);
    let dist_of = |w: &World| w.bodies[1].position.x - w.bodies[0].position.x;
    let after_one = dist_of(&world);
    assert!(after_one < 150_000);

    let mut min_dist = after_one;
    let mut max_late = 0i64;
    for s in 1..260 {
        world.step();
        let d = dist_of(&world);
        assert!(d > 0);
        if d < min_dist {
            min_dist = d;
        }
        if s >= 130 && d > max_late {
            max_late = d;
        }
    }
    // the pair overshoots below the rest length and swings back above it
    assert!(min_dist < 100_000);
    assert!(max_late > 100_000);
}
