//! Per-ball physics: the integrator, the frozen-mode clamp and the boundary
//! resolver.

use crate::fixed::{abs, abs_i64, div_toward_zero, lemma_quot_bounded, quot, scaled, UNIT};
use vstd::prelude::*;

verus! {

/// Bound on every stored coordinate and velocity component of a ball, and on
/// a ball's radius and the viewport's half extents.
pub const LIMIT: i64 = 100_000_000_000_000;

/// Bound on a coordinate or velocity component handed to the integrator.
pub const SPEED_BOUND: i64 = 1_000_000_000_000_000;

/// Bound on a coordinate handed to the boundary resolver.
pub const REACH_BOUND: i64 = 2_000_000_000_000_000_000;

/// Largest tick length: one second.
pub const MAX_DT: i64 = 1_000_000;

/// Largest magnitude of the gravitational acceleration.
pub const MAX_GRAVITY: i64 = 1_000_000_000;

/// Largest pixel multiplier.
pub const MAX_SCALE: i64 = 1000;

/// Earth's gravity, pointing down: -9.8 units per second squared.
pub const GRAVITY: i64 = -9_800_000;

/// Pixels per unit of distance while falling.
pub const PIXEL_SCALE: i64 = 100;

/// Pixels per unit of distance on the tick of a bounce.
pub const BOUNCE_SCALE: i64 = 200;

/// Radius of a ball: fifteen pixels.
pub const BALL_RADIUS: i64 = 15 * UNIT;

/// Speed at or under which a ball on the floor stops bouncing: 0.5.
pub const REST_SPEED: i64 = 500_000;

/// Horizontal speed under which a resting ball has stopped: 0.005.
pub const STOP_SPEED: i64 = 5_000;

/// Velocity of a ball, in steps per tick horizontally and in steps per
/// second vertically.
#[derive(Clone, Copy, Debug, PartialEq, Eq)]
pub struct Velocity {
    pub x: i64,
    pub y: i64,
}

/// Position of a ball's centre; `z` only orders drawing.
#[derive(Clone, Copy, Debug, PartialEq, Eq)]
pub struct Position {
    pub x: i64,
    pub y: i64,
    pub z: i64,
}

/// Colour of a ball, each channel in `0..=UNIT`.
#[derive(Clone, Copy, Debug, PartialEq, Eq)]
pub struct Color {
    pub r: i64,
    pub g: i64,
    pub b: i64,
}

/// One simulated ball.
#[derive(Clone, Copy, Debug, PartialEq, Eq)]
pub struct Ball {
    pub id: u64,
    pub position: Position,
    pub velocity: Velocity,
    pub radius: i64,
    pub color: Color,
}

/// Half the width and half the height of the viewport, centred on the origin.
#[derive(Clone, Copy, Debug, PartialEq, Eq)]
pub struct Extents {
    pub half_width: i64,
    pub half_height: i64,
}

/// The simulation's shared settings.
#[derive(Clone, Copy, Debug, PartialEq, Eq)]
pub struct SimulationConfig {
    /// Whether balls fall and move (`false` holds them clamped in place).
    pub motion_enabled: bool,
    /// Vertical acceleration, in steps per second squared.
    pub gravity: i64,
    /// Pixel multiplier of the distance fallen in a tick.
    pub pixel_scale: i64,
    /// Pixel multiplier of the distance travelled on the tick of a bounce.
    pub bounce_scale: i64,
    /// The viewport's last observed origin, once one has been observed.
    pub last_viewport_origin: Option<(i32, i32)>,
}

impl Extents {
    pub open spec fn valid(self) -> bool {
        0 <= self.half_width <= LIMIT && 0 <= self.half_height <= LIMIT
    }
}

impl SimulationConfig {
    pub open spec fn valid(self) -> bool {
        -MAX_GRAVITY <= self.gravity <= MAX_GRAVITY && 0 <= self.pixel_scale <= MAX_SCALE && 0
            <= self.bounce_scale <= MAX_SCALE
    }
}

impl Ball {
    /// Coordinates within `p` and velocity components within `v` in magnitude,
    /// and a radius in `0..=LIMIT`.
    pub open spec fn within(self, p: int, v: int) -> bool {
        abs(self.position.x as int) <= p && abs(self.position.y as int) <= p && abs(
            self.velocity.x as int,
        ) <= v && abs(self.velocity.y as int) <= v && 0 <= self.radius <= LIMIT
    }
}

pub open spec fn valid_dt(dt: int) -> bool {
    0 <= dt <= MAX_DT
}

/// Distance travelled in `dt` from vertical velocity `v` under acceleration
/// `g`: `v*dt + g*dt*dt/2`, each term rounded toward zero.
pub open spec fn displacement(v: int, dt: int, g: int) -> int {
    scaled(v, dt) + quot(g * dt * dt, 2 * UNIT * UNIT)
}

/// Vertical velocity after `dt` under acceleration `g`: `v + g*dt`.
pub open spec fn velocity_after(v: int, dt: int, g: int) -> int {
    v + scaled(g, dt)
}

/// A velocity damped by a bounce: four fifths of it, rounded toward zero.
pub open spec fn damped(v: int) -> int {
    quot(v * 4, 5)
}

/// A horizontal velocity after one tick of rolling friction: 0.995 of it,
/// rounded toward zero.
pub open spec fn rubbed(v: int) -> int {
    quot(v * 199, 200)
}

/// Height of a ball's centre when it touches the floor.
pub open spec fn floor_level(ball: Ball, e: Extents) -> int {
    -e.half_height + ball.radius
}

/// A coordinate held inside `[-half, half]` while frozen: at or beyond an
/// edge it is put back inside by the magnitude of the velocity on that axis.
pub open spec fn clamp_axis(p: int, half: int, v: int) -> int {
    if p <= -half {
        -half + abs(v)
    } else if p >= half {
        half - abs(v)
    } else {
        p
    }
}

/// A position clamped to the viewport while motion is disabled.
pub open spec fn clamped(p: Position, e: Extents, v: Velocity) -> Position {
    Position {
        x: clamp_axis(p.x as int, e.half_width as int, v.x as int) as i64,
        y: clamp_axis(p.y as int, e.half_height as int, v.y as int) as i64,
        z: p.z,
    }
}

/// Whether the integrator lets a ball fall: it is above the floor.
pub open spec fn falls(ball: Ball, e: Extents) -> bool {
    ball.position.y > floor_level(ball, e)
}

/// A ball after one tick of the integrator with motion enabled.
pub open spec fn integrated(ball: Ball, c: SimulationConfig, e: Extents, dt: int) -> Ball {
    let (x, y, vx, vy) = (
        ball.position.x as int,
        ball.position.y as int,
        ball.velocity.x as int,
        ball.velocity.y as int,
    );
    let fall = falls(ball, e);
    let y2 = if fall {
        y + displacement(vy, dt, c.gravity as int) * c.pixel_scale
    } else {
        y
    };
    let vy2 = if fall {
        velocity_after(vy, dt, c.gravity as int)
    } else {
        vy
    };
    Ball {
        position: Position { x: (x + vx) as i64, y: y2 as i64, z: ball.position.z },
        velocity: Velocity { x: vx as i64, y: vy2 as i64 },
        ..ball
    }
}

/// A ball after one tick of motion: integrated when motion is enabled,
/// clamped otherwise.
pub open spec fn advanced(ball: Ball, c: SimulationConfig, e: Extents, dt: int) -> Ball {
    if c.motion_enabled {
        integrated(ball, c, e, dt)
    } else {
        Ball { position: clamped(ball.position, e, ball.velocity), ..ball }
    }
}

/// Magnitude bounds of one integration step from a velocity of magnitude at
/// most `m`.
pub proof fn lemma_step_bounded(v: int, dt: int, g: int, m: int)
    requires
        0 <= m,
        abs(v) <= m,
        valid_dt(dt),
        -MAX_GRAVITY <= g <= MAX_GRAVITY,
    ensures
        abs(scaled(v, dt)) <= m,
        abs(quot(g * dt * dt, 2 * UNIT * UNIT)) <= 500_000_000,
        abs(displacement(v, dt, g)) <= m + 500_000_000,
        abs(velocity_after(v, dt, g)) <= m + 1_000_000_000,
{
    assert(-(m * UNIT) <= v * dt <= m * UNIT) by (nonlinear_arith)
        requires
            abs(v) <= m,
            0 <= dt <= UNIT,
            abs(v) == if v < 0 {
                -v
            } else {
                v
            },
    ;
    lemma_quot_bounded(v * dt, UNIT as int, m);
    assert(-(500_000_000 * (2 * UNIT * UNIT)) <= g * dt * dt <= 500_000_000 * (2 * UNIT * UNIT))
        by (nonlinear_arith)
        requires
            -MAX_GRAVITY <= g <= MAX_GRAVITY,
            0 <= dt <= UNIT,
    ;
    lemma_quot_bounded(g * dt * dt, 2 * UNIT * UNIT, 500_000_000);
    assert(-(1_000_000_000 * UNIT) <= g * dt <= 1_000_000_000 * UNIT) by (nonlinear_arith)
        requires
            -MAX_GRAVITY <= g <= MAX_GRAVITY,
            0 <= dt <= UNIT,
    ;
    lemma_quot_bounded(g * dt, UNIT as int, 1_000_000_000);
}

/// Distance travelled and final vertical velocity after `delta` under
/// `acceleration`, starting from `velocity.y`.
pub fn calc_displacement_and_vel(velocity: Velocity, delta: i64, acceleration: i64) -> (r: (
    i64,
    i64,
))
    requires
        abs(velocity.y as int) <= 2 * SPEED_BOUND,
        valid_dt(delta as int),
        -MAX_GRAVITY <= acceleration <= MAX_GRAVITY,
    ensures
        r.0 == displacement(velocity.y as int, delta as int, acceleration as int),
        r.1 == velocity_after(velocity.y as int, delta as int, acceleration as int),
{
    proof {
        lemma_step_bounded(
            velocity.y as int,
            delta as int,
            acceleration as int,
            2 * SPEED_BOUND,
        );
        assert(-(2 * SPEED_BOUND * UNIT) <= velocity.y * delta <= 2 * SPEED_BOUND * UNIT)
            by (nonlinear_arith)
            requires
                -2 * SPEED_BOUND <= velocity.y <= 2 * SPEED_BOUND,
                0 <= delta <= UNIT,
        ;
        assert(-(MAX_GRAVITY * UNIT * UNIT) <= acceleration * delta * delta <= MAX_GRAVITY
            * UNIT * UNIT) by (nonlinear_arith)
            requires
                -MAX_GRAVITY <= acceleration <= MAX_GRAVITY,
                0 <= delta <= UNIT,
        ;
        assert(-(MAX_GRAVITY * UNIT) <= acceleration * delta <= MAX_GRAVITY * UNIT)
            by (nonlinear_arith)
            requires
                -MAX_GRAVITY <= acceleration <= MAX_GRAVITY,
                0 <= delta <= UNIT,
        ;
    }
    let unit = UNIT as i128;
    let v = velocity.y as i128;
    let t = delta as i128;
    let a = acceleration as i128;
    let distance = div_toward_zero(v * t, unit) + div_toward_zero(a * t * t, 2 * unit * unit);
    let final_velocity = v + div_toward_zero(a * t, unit);
    (distance as i64, final_velocity as i64)
}

/// Clamps a position to the viewport while motion is disabled; a
/// coordinate at or beyond an edge is put back inside by the magnitude of
/// the velocity on that axis.
pub fn keep_balls_bound(position: Position, half_height: i64, half_width: i64, velocity: Velocity) -> (r: Position)
    requires
        0 <= half_width <= LIMIT,
        0 <= half_height <= LIMIT,
        abs(velocity.x as int) <= SPEED_BOUND,
        abs(velocity.y as int) <= SPEED_BOUND,
    ensures
        r == clamped(position, Extents { half_width, half_height }, velocity),
{
    let mut r = position;
    if position.x <= -half_width {
        r.x = -half_width + abs_i64(velocity.x);
    } else if position.x >= half_width {
        r.x = half_width - abs_i64(velocity.x);
    }
    if position.y <= -half_height {
        r.y = -half_height + abs_i64(velocity.y);
    } else if position.y >= half_height {
        r.y = half_height - abs_i64(velocity.y);
    }
    r
}

/// Advances one ball by one tick: integrates it when motion is enabled,
/// clamps it to the viewport otherwise.
pub fn move_ball(ball: &mut Ball, config: &SimulationConfig, extents: Extents, dt: i64)
    requires
        old(ball).within(SPEED_BOUND as int, SPEED_BOUND as int),
        config.valid(),
        extents.valid(),
        valid_dt(dt as int),
    ensures
        *final(ball) == advanced(*old(ball), *config, extents, dt as int),
        final(ball).within(REACH_BOUND as int, 2 * SPEED_BOUND),
{
    if !config.motion_enabled {
        ball.position = keep_balls_bound(ball.position, extents.half_height, extents.half_width, ball.velocity);
        return;
    }
    if ball.position.y > -extents.half_height + ball.radius {
        let (distance, final_velocity) = calc_displacement_and_vel(ball.velocity, dt, config.gravity);
        proof {
            lemma_step_bounded(ball.velocity.y as int, dt as int, config.gravity as int, SPEED_BOUND as int);
            assert(abs(distance * config.pixel_scale) <= (SPEED_BOUND + 500_000_000) * MAX_SCALE)
                by (nonlinear_arith)
                requires
                    abs(distance as int) <= SPEED_BOUND + 500_000_000,
                    0 <= config.pixel_scale <= MAX_SCALE,
            ;
        }
        ball.velocity.y = final_velocity;
        ball.position.y = ball.position.y + distance * config.pixel_scale;
    }
    ball.position.x = ball.position.x + ball.velocity.x;
}

/// Whether a ball below the floor is still falling fast enough to bounce.
pub open spec fn bounces(ball: Ball, e: Extents) -> bool {
    ball.position.y < floor_level(ball, e) && abs(ball.velocity.y as int) > REST_SPEED
}

/// Whether a ball at or below the floor is slow enough to come to rest on it.
pub open spec fn rests(ball: Ball, e: Extents) -> bool {
    ball.position.y <= floor_level(ball, e) && abs(ball.velocity.y as int) <= REST_SPEED
}

/// Whether a resting ball has stopped rolling and is to be removed.
pub open spec fn settled(ball: Ball, e: Extents) -> bool {
    rests(ball, e) && abs(rubbed(ball.velocity.x as int)) < STOP_SPEED
}

/// A ball after the floor response of one tick.
pub open spec fn floor_resolved(ball: Ball, c: SimulationConfig, e: Extents, dt: int) -> Ball {
    if bounces(ball, e) {
        let v = -damped(ball.velocity.y as int);
        let y = ball.position.y + displacement(v, dt, c.gravity as int) * c.bounce_scale;
        Ball {
            position: Position { y: y as i64, ..ball.position },
            velocity: Velocity { y: velocity_after(v, dt, c.gravity as int) as i64, ..ball.velocity },
            ..ball
        }
    } else if rests(ball, e) {
        let vx = if settled(ball, e) {
            0
        } else {
            rubbed(ball.velocity.x as int)
        };
        Ball {
            position: Position { y: floor_level(ball, e) as i64, ..ball.position },
            velocity: Velocity { x: vx as i64, y: 0 },
            ..ball
        }
    } else {
        ball
    }
}

/// Whether a ball touches or crosses a side wall.
pub open spec fn hits_wall(ball: Ball, e: Extents) -> bool {
    ball.position.x < -e.half_width + ball.radius || ball.position.x > e.half_width - ball.radius
}

/// A ball after the wall response of one tick.
pub open spec fn wall_resolved(ball: Ball, e: Extents) -> Ball {
    if hits_wall(ball, e) {
        let v = -damped(ball.velocity.x as int);
        Ball {
            position: Position { x: (ball.position.x + v) as i64, ..ball.position },
            velocity: Velocity { x: v as i64, ..ball.velocity },
            ..ball
        }
    } else {
        ball
    }
}

/// A ball after the boundary response of one tick: the floor first, then the
/// walls.
pub open spec fn resolved(ball: Ball, c: SimulationConfig, e: Extents, dt: int) -> Ball {
    wall_resolved(floor_resolved(ball, c, e, dt), e)
}

/// Damping keeps a velocity within any bound that it already meets.
pub proof fn lemma_damped_bounded(v: int, m: int)
    requires
        0 <= m,
        abs(v) <= m,
    ensures
        abs(damped(v)) <= m,
{
    assert(-(m * 5) <= v * 4 <= m * 5) by (nonlinear_arith)
        requires
            0 <= m,
            -m <= v <= m,
    ;
    lemma_quot_bounded(v * 4, 5, m);
}

/// Applies the floor and wall response of one tick to a ball that has moved
/// with motion enabled; returns whether the ball has come to rest and is to
/// be removed.
pub fn handle_wall_collision(ball: &mut Ball, config: &SimulationConfig, extents: Extents, dt: i64) -> (removed: bool)
    requires
        old(ball).within(REACH_BOUND as int, 2 * SPEED_BOUND),
        config.valid(),
        extents.valid(),
        valid_dt(dt as int),
    ensures
        *final(ball) == resolved(*old(ball), *config, extents, dt as int),
        removed == settled(*old(ball), extents),
{
    let floor = -extents.half_height + ball.radius;
    let mut removed = false;
    if ball.position.y < floor && abs_i64(ball.velocity.y) > REST_SPEED {
        let v = div_toward_zero(-(ball.velocity.y as i128) * 4, 5) as i64;
        proof {
            lemma_damped_bounded(-ball.velocity.y, 2 * SPEED_BOUND);
            lemma_step_bounded(v as int, dt as int, config.gravity as int, 2 * SPEED_BOUND);
        }
        let (distance, final_velocity) = calc_displacement_and_vel(Velocity { x: ball.velocity.x, y: v }, dt, config.gravity);
        proof {
            assert(abs(distance * config.bounce_scale) <= (2 * SPEED_BOUND + 500_000_000) * MAX_SCALE)
                by (nonlinear_arith)
                requires
                    abs(distance as int) <= 2 * SPEED_BOUND + 500_000_000,
                    0 <= config.bounce_scale <= MAX_SCALE,
            ;
        }
        ball.velocity.y = final_velocity;
        ball.position.y = ball.position.y + distance * config.bounce_scale;
    } else if ball.position.y <= floor && abs_i64(ball.velocity.y) <= REST_SPEED {
        ball.velocity.y = 0;
        ball.position.y = floor;
        let vx = div_toward_zero(ball.velocity.x as i128 * 199, 200) as i64;
        proof {
            assert(-(2 * SPEED_BOUND * 200) <= ball.velocity.x * 199 <= 2 * SPEED_BOUND * 200)
                by (nonlinear_arith)
                requires
                    -2 * SPEED_BOUND <= ball.velocity.x <= 2 * SPEED_BOUND,
            ;
            lemma_quot_bounded(ball.velocity.x * 199, 200, 2 * SPEED_BOUND);
        }
        if abs_i64(vx) < STOP_SPEED {
            ball.velocity.x = 0;
            removed = true;
        } else {
            ball.velocity.x = vx;
        }
    }
    if ball.position.x < -extents.half_width + ball.radius || ball.position.x > extents.half_width - ball.radius {
        proof {
            lemma_damped_bounded(ball.velocity.x as int, 2 * SPEED_BOUND);
        }
        let v = -(div_toward_zero(ball.velocity.x as i128 * 4, 5) as i64);
        ball.velocity.x = v;
        ball.position.x = ball.position.x + v;
    }
    removed
}

} // verus!
