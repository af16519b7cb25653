use boid::boid::{Boid, MAX_FORCE, MAX_VELOCITY};
use boid::buffer::{Buffer, Pixel};
use boid::simulation::{range_from_random, Simulation};
use boid::vector::{ceil_sqrt, div_trunc, Vec2, SCALE};

fn px(x: i64, y: i64) -> Vec2 {
    Vec2::new(x * SCALE, y * SCALE)
}

fn len_sq(v: Vec2) -> i128 {
    (v.x as i128) * (v.x as i128) + (v.y as i128) * (v.y as i128)
}

fn dot(a: Vec2, bx: i64, by: i64) -> i128 {
    (a.x as i128) * (bx as i128) + (a.y as i128) * (by as i128)
}

#[test]
fn ceil_sqrt_exact_values() {
    assert_eq!(ceil_sqrt(0), 0);
    assert_eq!(ceil_sqrt(1), 1);
    assert_eq!(ceil_sqrt(10), 4);
    assert_eq!(ceil_sqrt(16), 4);
    assert_eq!(ceil_sqrt(17), 5);
    assert_eq!(ceil_sqrt(32_000_000), 5657);
}

#[test]
fn division_rounds_toward_zero() {
    assert_eq!(div_trunc(7, 2), 3);
    assert_eq!(div_trunc(-7, 2), -3);
    assert_eq!(div_trunc(-1, 3), 0);
}

#[test]
fn vector_rescaling() {
    assert_eq!(Vec2::new(3000, 4000).with_magnitude(10000), Vec2::new(6000, 8000));
    assert_eq!(Vec2::new(0, 0).with_magnitude(10000), Vec2::new(0, 0));
    assert_eq!(Vec2::new(300, -400).limit(200), Vec2::new(120, -160));
    assert_eq!(Vec2::new(30, 40).limit(200), Vec2::new(30, 40));
    assert_eq!(Vec2::new(3, 4).add(Vec2::new(1, -1)), Vec2::new(4, 3));
    assert_eq!(Vec2::new(3, 4).sub(Vec2::new(1, -1)), Vec2::new(2, 5));
    assert_eq!(Vec2::new(3, 4).magnitude_sq(), 25);
}

#[test]
fn update_caps_speed() {
    let mut b = Boid::new(px(100, 100), px(4, 4));
    b.update(640, 480);
    assert_eq!(b.position, px(104, 104));
    assert_eq!(b.velocity, Vec2::new(3535, 3535));
    assert!(len_sq(b.velocity) <= (MAX_VELOCITY as i128) * (MAX_VELOCITY as i128));
    assert_eq!(b.acceleration, Vec2::new(0, 0));
}

#[test]
fn update_keeps_slow_velocity() {
    let mut b = Boid::new(px(10, 10), px(2, 3));
    b.update(640, 480);
    assert_eq!(b.position, px(12, 13));
    assert_eq!(b.velocity, px(2, 3));
}

#[test]
fn update_wraps_past_far_edge() {
    let mut b = Boid::new(Vec2::new(640 * SCALE + 1, 50 * SCALE), Vec2::new(0, 0));
    b.update(640, 480);
    assert_eq!(b.position.x, 0);
    assert_eq!(b.position.y, 50 * SCALE);
}

#[test]
fn update_wraps_past_near_edge() {
    let mut b = Boid::new(px(1, 1), px(-3, -2));
    b.update(640, 480);
    assert_eq!(b.position, px(640, 480));
}

#[test]
fn steering_is_bounded_with_neighbors() {
    let flock = vec![
        Boid::new(px(100, 100), px(-4, 3)),
        Boid::new(px(105, 102), px(4, -4)),
        Boid::new(px(90, 95), px(2, 2)),
    ];
    let me = flock[0];
    let limit = (MAX_FORCE as i128) * (MAX_FORCE as i128);
    assert!(len_sq(me.alignment(0, &flock)) <= limit);
    assert!(len_sq(me.separation(0, &flock)) <= limit);
    assert!(len_sq(me.cohesion(0, &flock)) <= limit);
    assert_ne!(me.alignment(0, &flock), Vec2::new(0, 0));
}

#[test]
fn steering_is_zero_without_neighbors() {
    let flock = vec![Boid::new(px(10, 10), px(2, 2)), Boid::new(px(300, 300), px(3, 3))];
    let me = flock[0];
    assert_eq!(me.alignment(0, &flock), Vec2::new(0, 0));
    assert_eq!(me.separation(0, &flock), Vec2::new(0, 0));
    assert_eq!(me.cohesion(0, &flock), Vec2::new(0, 0));
}

#[test]
fn separation_at_zero_distance_is_guarded() {
    let flock = vec![Boid::new(px(50, 50), px(1, 0)), Boid::new(px(50, 50), px(-1, 0))];
    assert_eq!(flock[0].separation(0, &flock), Vec2::new(-200, 0));
    assert_eq!(flock[1].separation(1, &flock), Vec2::new(200, 0));
}

#[test]
fn three_neighbors_steer_in_expected_directions() {
    let flock = vec![
        Boid::new(px(100, 100), px(0, 0)),
        Boid::new(px(110, 100), px(2, 0)),
        Boid::new(px(100, 110), px(2, 0)),
        Boid::new(px(110, 110), px(2, 0)),
    ];
    let me = flock[0];
    let align = me.alignment(0, &flock);
    assert_eq!(align, Vec2::new(200, 0));
    assert!(dot(align, 1, 0) > 0);
    let cohere = me.cohesion(0, &flock);
    assert!(dot(cohere, 1, 1) > 0);
    let separate = me.separation(0, &flock);
    assert!(dot(separate, 10, 0) < 0 || dot(separate, 0, 10) < 0);
    assert!(dot(separate, 1, 1) < 0);
}

#[test]
fn lone_agent_feels_nothing_and_still_moves() {
    let flock = vec![Boid::new(px(20, 30), px(3, 2))];
    let mut me = flock[0];
    assert_eq!(me.alignment(0, &flock), Vec2::new(0, 0));
    assert_eq!(me.separation(0, &flock), Vec2::new(0, 0));
    assert_eq!(me.cohesion(0, &flock), Vec2::new(0, 0));
    me.flock(0, &flock);
    assert_eq!(me.acceleration, Vec2::new(0, 0));
    me.update(640, 480);
    assert_eq!(me.position, px(23, 32));
    assert_eq!(me.velocity, px(3, 2));
}

#[test]
fn flock_weights_the_forces() {
    let flock = vec![
        Boid::new(px(100, 100), px(0, 0)),
        Boid::new(px(110, 100), px(2, 0)),
        Boid::new(px(100, 110), px(2, 0)),
        Boid::new(px(110, 110), px(2, 0)),
    ];
    let mut me = flock[0];
    let a = me.alignment(0, &flock);
    let c = me.cohesion(0, &flock);
    let s = me.separation(0, &flock);
    me.flock(0, &flock);
    assert_eq!(me.acceleration.x, a.x * 3 / 2 + c.x + 2 * s.x);
    assert_eq!(me.acceleration.y, a.y * 3 / 2 + c.y + 2 * s.y);
}

#[test]
fn clear_toggles_and_resets() {
    let red = Pixel::new(255, 0, 0);
    let mut buf = Buffer::new(4, 3);
    assert_eq!(buf.active_index(), 0);
    assert!(buf.set_pixel(1, 2, red));
    assert_eq!(buf.pixel(1, 2), Some(red));
    buf.clear();
    assert_eq!(buf.active_index(), 1);
    assert_eq!(buf.pixel(1, 2), Some(Pixel::black()));
    assert_eq!(buf.front_plane()[2 * 4 + 1], red);
    assert!(buf.set_pixel(0, 0, red));
    assert_eq!(buf.front_plane()[0], Pixel::black());
    assert_eq!(buf.front_plane()[2 * 4 + 1], red);
}

#[test]
fn clear_twice_returns_to_blank_first_plane() {
    let red = Pixel::new(255, 0, 0);
    let mut buf = Buffer::new(4, 3);
    buf.set_pixel(3, 2, red);
    buf.clear();
    buf.clear();
    assert_eq!(buf.active_index(), 0);
    assert!(buf.active_plane().iter().all(|p| *p == Pixel::black()));
    assert!(buf.front_plane().iter().all(|p| *p == Pixel::black()));
}

#[test]
fn pixel_outside_is_skipped() {
    let mut buf = Buffer::new(4, 3);
    assert_eq!(buf.pixel(4, 0), None);
    assert_eq!(buf.pixel(0, 3), None);
    assert!(!buf.set_pixel(4, 0, Pixel::new(1, 2, 3)));
    assert!(buf.active_plane().iter().all(|p| *p == Pixel::black()));
    assert_eq!(buf.width(), 4);
    assert_eq!(buf.height(), 3);
}

#[test]
fn draw_fills_body_square() {
    let red = Pixel::new(255, 0, 0);
    let mut buf = Buffer::new(10, 10);
    let b = Boid::new(px(2, 3), px(0, 0));
    b.draw(&mut buf);
    assert_eq!(buf.pixel(2, 3), Some(red));
    assert_eq!(buf.pixel(6, 7), Some(red));
    assert_eq!(buf.pixel(7, 3), Some(Pixel::black()));
    assert_eq!(buf.pixel(1, 3), Some(Pixel::black()));
    let corner = Boid::new(px(8, 8), px(0, 0));
    corner.draw(&mut buf);
    assert_eq!(buf.pixel(9, 9), Some(red));
}

#[test]
fn random_words_map_into_range() {
    assert_eq!(range_from_random(17, 2, 4), 4);
    assert_eq!(range_from_random(18, 2, 4), 2);
    assert_eq!(range_from_random(641, 0, 640), 0);
}

#[test]
fn simulation_starts_from_draws_and_steps() {
    let draws: Vec<usize> = (0..400).map(|i| i * 7919 + 13).collect();
    let mut sim = Simulation::new(&draws, 64, 48);
    assert_eq!(sim.boids().len(), 100);
    let first = sim.boids()[0];
    assert_eq!(first.position, px(13, 7932 % 49));
    assert_eq!(sim.width(), 64);
    assert_eq!(sim.height(), 48);
    let mut buf = Buffer::new(64, 48);
    for _ in 0..20 {
        buf.clear();
        sim.step(&mut buf);
        for b in sim.boids().iter() {
            assert!(len_sq(b.velocity) <= (MAX_VELOCITY as i128) * (MAX_VELOCITY as i128));
            assert!(0 <= b.position.x && b.position.x <= 64 * SCALE);
            assert!(0 <= b.position.y && b.position.y <= 48 * SCALE);
        }
    }
}

#[test]
fn step_uses_snapshot_of_population() {
    let draws: Vec<usize> = vec![10, 10, 0, 0, 12, 10, 2, 2];
    let mut sim = Simulation::new(&draws, 64, 48);
    let before = sim.boids().clone();
    let mut expected = before.clone();
    for (i, b) in expected.iter_mut().enumerate() {
        b.flock(i, &before);
        b.update(64, 48);
    }
    let mut buf = Buffer::new(64, 48);
    sim.step(&mut buf);
    assert_eq!(sim.boids(), &expected);
}
