use bouncing_balls::fixed::UNIT;
use bouncing_balls::physics::{
    calc_displacement_and_vel, handle_wall_collision, keep_balls_bound, move_ball, Ball, Color,
    Extents, Position, SimulationConfig, Velocity, BALL_RADIUS, BOUNCE_SCALE, GRAVITY, PIXEL_SCALE,
};

fn config(motion_enabled: bool) -> SimulationConfig {
    SimulationConfig {
        motion_enabled,
        gravity: GRAVITY,
        pixel_scale: PIXEL_SCALE,
        bounce_scale: BOUNCE_SCALE,
        last_viewport_origin: None,
    }
}

fn extents() -> Extents {
    Extents { half_width: 400 * UNIT, half_height: 300 * UNIT }
}

fn ball(x: i64, y: i64, vx: i64, vy: i64) -> Ball {
    Ball {
        id: 7,
        position: Position { x, y, z: 3 },
        velocity: Velocity { x: vx, y: vy },
        radius: BALL_RADIUS,
        color: Color { r: 0, g: UNIT, b: UNIT / 2 },
    }
}

// 1/60 of a second.
const FRAME: i64 = 16_667;

#[test]
fn displacement_from_rest_after_one_second() {
    assert_eq!(
        calc_displacement_and_vel(Velocity { x: 0, y: 0 }, UNIT, GRAVITY),
        (-4_900_000, -9_800_000)
    );
}

#[test]
fn displacement_rounds_toward_zero() {
    // 3 * 0.5 = 1.5 units; -9.8 * 0.25 / 2 = -1.225 units; velocity 3 - 4.9
    assert_eq!(
        calc_displacement_and_vel(Velocity { x: 0, y: 3 * UNIT }, UNIT / 2, GRAVITY),
        (275_000, -1_900_000)
    );
    // a negative product rounds toward zero: 1 step * 1 step of gravity
    assert_eq!(calc_displacement_and_vel(Velocity { x: 0, y: 0 }, 1, GRAVITY), (0, -9));
}

#[test]
fn falling_ball_one_second_tick() {
    let mut b = ball(0, 100 * UNIT, 0, 0);
    move_ball(&mut b, &config(true), extents(), UNIT);
    assert_eq!(b.velocity.y, -9_800_000);
    assert_eq!(b.position.y, 100 * UNIT - 4_900_000 * PIXEL_SCALE);
    assert_eq!(b.position.x, 0);
}

#[test]
fn falling_velocity_gains_gravity_times_dt() {
    let mut b = ball(10 * UNIT, 0, 2 * UNIT, 3 * UNIT);
    move_ball(&mut b, &config(true), extents(), FRAME);
    // 9.8 * 0.016667 = 0.1633366, rounded toward zero
    assert_eq!(b.velocity.y, 3 * UNIT - 163_336);
    assert_eq!(b.position.x, 12 * UNIT);
}

#[test]
fn ball_on_floor_is_not_integrated() {
    let floor = -300 * UNIT + BALL_RADIUS;
    let mut b = ball(0, floor, UNIT, -UNIT);
    move_ball(&mut b, &config(true), extents(), FRAME);
    assert_eq!(b.position.y, floor);
    assert_eq!(b.velocity.y, -UNIT);
    assert_eq!(b.position.x, UNIT);
}

#[test]
fn frozen_ball_inside_keeps_its_place() {
    let mut b = ball(5 * UNIT, -7 * UNIT, 9 * UNIT, -4 * UNIT);
    move_ball(&mut b, &config(false), extents(), FRAME);
    assert_eq!(b, ball(5 * UNIT, -7 * UNIT, 9 * UNIT, -4 * UNIT));
}

#[test]
fn frozen_clamp_uses_speed_on_each_axis() {
    let p = keep_balls_bound(
        Position { x: -450 * UNIT, y: 320 * UNIT, z: 2 },
        300 * UNIT,
        400 * UNIT,
        Velocity { x: -6 * UNIT, y: 2 * UNIT },
    );
    assert_eq!(p, Position { x: -394 * UNIT, y: 298 * UNIT, z: 2 });
    let p = keep_balls_bound(
        Position { x: 400 * UNIT, y: -300 * UNIT, z: 0 },
        300 * UNIT,
        400 * UNIT,
        Velocity { x: 6 * UNIT, y: -2 * UNIT },
    );
    assert_eq!(p, Position { x: 394 * UNIT, y: -298 * UNIT, z: 0 });
}

#[test]
fn frozen_ball_ends_inside_viewport() {
    let e = extents();
    for (x, y, vx, vy) in [
        (-900 * UNIT, 900 * UNIT, 3 * UNIT, -50 * UNIT),
        (400 * UNIT, -300 * UNIT, -1, 1),
        (0, 0, 100 * UNIT, 100 * UNIT),
    ] {
        let mut b = ball(x, y, vx, vy);
        move_ball(&mut b, &config(false), e, FRAME);
        assert!(-e.half_width <= b.position.x && b.position.x <= e.half_width);
        assert!(-e.half_height <= b.position.y && b.position.y <= e.half_height);
        assert_eq!(b.velocity, Velocity { x: vx, y: vy });
    }
}

#[test]
fn bounce_reflects_damps_and_lifts() {
    let mut b = ball(0, -286 * UNIT, 200_000, -6 * UNIT);
    let c = config(true);
    let removed = handle_wall_collision(&mut b, &c, extents(), FRAME);
    assert!(!removed);
    // reflected 4.8, then one tick of gravity; displacement 0.078640 * 200 px
    assert_eq!(b.velocity.y, 4_800_000 - 163_336);
    assert_eq!(b.position.y, -286 * UNIT + 78_640 * 200);
    assert_eq!(b.velocity.x, 200_000);
    // the next tick starts above the floor
    let floor = -300 * UNIT + BALL_RADIUS;
    assert!(b.position.y > floor);
    move_ball(&mut b, &c, extents(), FRAME);
    assert!(b.position.y > floor);
    let removed = handle_wall_collision(&mut b, &c, extents(), FRAME);
    assert!(!removed);
    assert!(b.position.y > floor);
}

#[test]
fn slow_ball_snaps_to_floor_and_rolls() {
    let floor = -300 * UNIT + BALL_RADIUS;
    let mut b = ball(0, floor - 3 * UNIT, UNIT, -400_000);
    let removed = handle_wall_collision(&mut b, &config(true), extents(), FRAME);
    assert!(!removed);
    assert_eq!(b.position.y, floor);
    assert_eq!(b.velocity, Velocity { x: 995_000, y: 0 });
}

#[test]
fn settled_ball_stays_settled() {
    let floor = -300 * UNIT + BALL_RADIUS;
    let mut b = ball(0, floor, 3 * UNIT, 500_000);
    let c = config(true);
    for _ in 0..5 {
        move_ball(&mut b, &c, extents(), FRAME);
        handle_wall_collision(&mut b, &c, extents(), FRAME);
        assert_eq!(b.position.y, floor);
        assert_eq!(b.velocity.y, 0);
    }
}

#[test]
fn rolling_ball_removed_when_friction_stops_it() {
    let floor = -300 * UNIT + BALL_RADIUS;
    let c = config(true);
    let mut b = ball(0, floor, 5_030, 0);
    assert!(!handle_wall_collision(&mut b, &c, extents(), FRAME));
    assert_eq!(b.velocity.x, 5_004);
    assert!(handle_wall_collision(&mut b, &c, extents(), FRAME));
    assert_eq!(b.velocity.x, 0);
    assert_eq!(b.position.y, floor);
}

#[test]
fn slow_rolling_ball_removed_at_once() {
    let floor = -300 * UNIT + BALL_RADIUS;
    let mut b = ball(0, floor, -4_000, 0);
    assert!(handle_wall_collision(&mut b, &config(true), extents(), FRAME));
}

#[test]
fn wall_reflects_and_damps() {
    let mut b = ball(390 * UNIT, 0, 10 * UNIT, 0);
    assert!(!handle_wall_collision(&mut b, &config(true), extents(), FRAME));
    assert_eq!(b.velocity.x, -8 * UNIT);
    assert_eq!(b.position.x, 382 * UNIT);
    let mut b = ball(-386 * UNIT, 0, -10 * UNIT + 1, 0);
    handle_wall_collision(&mut b, &config(true), extents(), FRAME);
    assert_eq!(b.velocity.x, 7_999_999);
    assert_eq!(b.position.x, -386 * UNIT + 7_999_999);
}

#[test]
fn zero_sized_viewport_clamps_to_origin() {
    let p = keep_balls_bound(Position { x: 5, y: -5, z: 0 }, 0, 0, Velocity { x: 0, y: 0 });
    assert_eq!(p, Position { x: 0, y: 0, z: 0 });
}

#[test]
fn fast_ball_exactly_at_floor_gets_no_floor_response() {
    let floor = -300 * UNIT + BALL_RADIUS;
    let mut b = ball(0, floor, UNIT, -UNIT);
    assert!(!handle_wall_collision(&mut b, &config(true), extents(), FRAME));
    assert_eq!(b.position.y, floor);
    assert_eq!(b.velocity, Velocity { x: UNIT, y: -UNIT });
}
