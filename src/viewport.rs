//! Reactions to the viewport: resizing suspends motion, moving it pushes
//! every ball.

use crate::fixed::abs;
use crate::physics::{Ball, SimulationConfig, Velocity, LIMIT, SPEED_BOUND};
use vstd::prelude::*;

verus! {

/// Velocity given to every ball per pixel that the viewport moves: 0.05.
pub const IMPULSE_PER_PIXEL: i64 = 50_000;

/// Velocity change that a move of the viewport gives every ball: `dx` times
/// the impulse coefficient horizontally, `-dy` times it vertically; none on
/// the first move ever observed or when nothing moved.
pub open spec fn move_impulse(last: Option<(i32, i32)>, moved_to: Option<(i32, i32)>) -> (int, int) {
    match (last, moved_to) {
        (Some(from), Some(to)) => (
            (to.0 - from.0) * IMPULSE_PER_PIXEL,
            -((to.1 - from.1) * IMPULSE_PER_PIXEL),
        ),
        _ => (0, 0),
    }
}

/// The viewport origin remembered after a tick's move events.
pub open spec fn origin_after(last: Option<(i32, i32)>, moved_to: Option<(i32, i32)>) -> Option<(i32, i32)> {
    match moved_to {
        Some(to) => Some(to),
        None => last,
    }
}

/// A ball whose velocity received an impulse.
pub open spec fn pushed(ball: Ball, impulse: (int, int)) -> Ball {
    Ball {
        velocity: Velocity {
            x: (ball.velocity.x + impulse.0) as i64,
            y: (ball.velocity.y + impulse.1) as i64,
        },
        ..ball
    }
}

/// Motion is enabled exactly on a tick without resize events.
pub fn on_window_resize(config: &mut SimulationConfig, resize_events: usize)
    ensures
        *final(config) == (SimulationConfig { motion_enabled: resize_events == 0, ..*old(config) }),
{
    config.motion_enabled = resize_events == 0;
}

/// Handles the last move event of a tick, if any: pushes every ball by the
/// viewport's displacement since the last observed origin (nothing on the
/// first move ever observed) and remembers the new origin.
pub fn on_window_move(config: &mut SimulationConfig, balls: &mut Vec<Ball>, moved_to: Option<(i32, i32)>)
    requires
        forall|i: int| 0 <= i < old(balls)@.len() ==> #[trigger] old(balls)@[i].within(LIMIT as int, LIMIT as int),
    ensures
        *final(config) == (SimulationConfig {
            last_viewport_origin: origin_after(old(config).last_viewport_origin, moved_to),
            ..*old(config)
        }),
        final(balls)@ == old(balls)@.map_values(
            |b: Ball| pushed(b, move_impulse(old(config).last_viewport_origin, moved_to)),
        ),
        forall|i: int| 0 <= i < final(balls)@.len() ==> #[trigger] final(balls)@[i].within(LIMIT as int, SPEED_BOUND as int),
{
    let ghost impulse = move_impulse(config.last_viewport_origin, moved_to);
    let (dx, dy): (i64, i64) = match (config.last_viewport_origin, moved_to) {
        (Some(from), Some(to)) => (
            (to.0 as i64 - from.0 as i64) * IMPULSE_PER_PIXEL,
            -((to.1 as i64 - from.1 as i64) * IMPULSE_PER_PIXEL),
        ),
        _ => (0, 0),
    };
    assert(dx == impulse.0 && dy == impulse.1);
    if let Some(to) = moved_to {
        config.last_viewport_origin = Some(to);
    }
    let n = balls.len();
    let mut i: usize = 0;
    while i < n
        invariant
            n == balls@.len(),
            n == old(balls)@.len(),
            0 <= i <= n,
            dx == impulse.0 && dy == impulse.1,
            -250_000_000_000_000 <= impulse.0 <= 250_000_000_000_000,
            -250_000_000_000_000 <= impulse.1 <= 250_000_000_000_000,
            forall|j: int| 0 <= j < i ==> balls@[j] == pushed(#[trigger] old(balls)@[j], impulse),
            forall|j: int| i <= j < n ==> balls@[j] == #[trigger] old(balls)@[j],
            forall|j: int| 0 <= j < n ==> #[trigger] old(balls)@[j].within(LIMIT as int, LIMIT as int),
        decreases n - i,
    {
        let mut b = balls[i];
        assert(old(balls)@[i as int].within(LIMIT as int, LIMIT as int));
        b.velocity.x = b.velocity.x + dx;
        b.velocity.y = b.velocity.y + dy;
        balls.set(i, b);
        i = i + 1;
    }
    assert(balls@ =~= old(balls)@.map_values(|b: Ball| pushed(b, impulse)));
    assert forall|j: int| 0 <= j < n implies #[trigger] balls@[j].within(LIMIT as int, SPEED_BOUND as int) by {
        assert(old(balls)@[j].within(LIMIT as int, LIMIT as int));
    }
}

} // verus!
