//! Properties of a tick that hold for every ball.

use crate::fixed::{abs, scaled};
use crate::physics::{
    advanced, damped, falls, floor_level, lemma_damped_bounded, rubbed, valid_dt, Ball, Extents,
    SimulationConfig, LIMIT, REST_SPEED, SPEED_BOUND, STOP_SPEED,
};
use crate::world::{leaves, stepped};
use vstd::prelude::*;

verus! {

/// While motion is disabled a ball ends the tick inside the viewport,
/// provided that on each axis where it met or crossed an edge its speed is
/// at most the viewport's extent on that axis.
pub proof fn lemma_frozen_ball_stays_in_view(b: Ball, c: SimulationConfig, e: Extents, dt: int)
    requires
        !c.motion_enabled,
        e.valid(),
        b.within(SPEED_BOUND as int, SPEED_BOUND as int),
        b.position.x <= -e.half_width || b.position.x >= e.half_width ==> abs(b.velocity.x as int)
            <= 2 * e.half_width,
        b.position.y <= -e.half_height || b.position.y >= e.half_height ==> abs(b.velocity.y as int)
            <= 2 * e.half_height,
    ensures
        -e.half_width <= stepped(b, c, e, dt).position.x <= e.half_width,
        -e.half_height <= stepped(b, c, e, dt).position.y <= e.half_height,
{
}

/// With motion enabled, a ball above the floor leaves the integrator with
/// its vertical velocity changed by exactly `gravity * dt`.
pub proof fn lemma_falling_velocity(b: Ball, c: SimulationConfig, e: Extents, dt: int)
    requires
        c.motion_enabled,
        c.valid(),
        e.valid(),
        valid_dt(dt),
        b.within(SPEED_BOUND as int, SPEED_BOUND as int),
        falls(b, e),
    ensures
        advanced(b, c, e, dt).velocity.y == b.velocity.y + scaled(c.gravity as int, dt),
{
    crate::physics::lemma_step_bounded(b.velocity.y as int, dt, c.gravity as int, SPEED_BOUND as int);
}

/// With motion enabled, a ball on the floor whose vertical speed is at most
/// the rest speed ends the tick on the floor with no vertical velocity, so
/// it stays so on every later tick.
pub proof fn lemma_settled_ball_stays_on_floor(b: Ball, c: SimulationConfig, e: Extents, dt: int)
    requires
        c.motion_enabled,
        c.valid(),
        e.valid(),
        valid_dt(dt),
        b.within(LIMIT as int, LIMIT as int),
        b.position.y == floor_level(b, e),
        abs(b.velocity.y as int) <= REST_SPEED,
    ensures
        stepped(b, c, e, dt).velocity.y == 0,
        stepped(b, c, e, dt).position.y == floor_level(b, e),
        floor_level(stepped(b, c, e, dt), e) == floor_level(b, e),
{
}

/// With motion enabled, a ball resting on the floor leaves on the tick on
/// which rolling friction brings its horizontal speed under the stop speed,
/// and not on an earlier one.
pub proof fn lemma_resting_ball_leaves_when_stopped(b: Ball, c: SimulationConfig, e: Extents, dt: int)
    requires
        c.motion_enabled,
        c.valid(),
        e.valid(),
        valid_dt(dt),
        b.within(LIMIT as int, LIMIT as int),
        b.position.y == floor_level(b, e),
        b.velocity.y == 0,
    ensures
        leaves(b, c, e, dt) <==> abs(rubbed(b.velocity.x as int)) < STOP_SPEED,
{
}

/// A bounce on the floor or a wall never speeds a ball up: the reflected
/// velocity is at most as fast as the incoming one.
pub proof fn lemma_bounce_never_speeds_up(v: int)
    ensures
        abs(damped(v)) <= abs(v),
{
    lemma_damped_bounded(v, abs(v));
}

} // verus!
