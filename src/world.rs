//! The simulation: every ball, the shared settings, and the tick that
//! advances them in order (viewport events, integration, boundary response,
//! removal of settled balls).

use crate::fixed::UNIT;
use crate::physics::{
    advanced, Color, Position, Velocity, BALL_RADIUS, BOUNCE_SCALE, GRAVITY, PIXEL_SCALE, handle_wall_collision, move_ball, resolved, settled, valid_dt, Ball, Extents,
    SimulationConfig, LIMIT, SPEED_BOUND,
};
use crate::viewport::{move_impulse, on_window_move, on_window_resize, origin_after, pushed};
use vstd::prelude::*;

verus! {

/// What the environment reports for one tick.
#[derive(Clone, Copy, Debug, PartialEq, Eq)]
pub struct TickInput {
    /// Time since the last tick, in steps of a second.
    pub dt: i64,
    /// Viewport width, in steps of a pixel.
    pub width: i64,
    /// Viewport height, in steps of a pixel.
    pub height: i64,
    /// Number of resize events during the tick.
    pub resize_events: usize,
    /// Origin reported by the tick's last move event, if any.
    pub moved_to: Option<(i32, i32)>,
}

impl TickInput {
    pub open spec fn valid(self) -> bool {
        valid_dt(self.dt as int) && 0 <= self.width <= 2 * LIMIT && 0 <= self.height <= 2 * LIMIT
    }
}

/// Half extents of a viewport of the given size.
pub open spec fn extents_of(width: int, height: int) -> Extents {
    Extents { half_width: (width / 2) as i64, half_height: (height / 2) as i64 }
}

/// A ball after the motion and, with motion enabled, the boundary response
/// of one tick.
pub open spec fn stepped(ball: Ball, c: SimulationConfig, e: Extents, dt: int) -> Ball {
    let moved = advanced(ball, c, e, dt);
    if c.motion_enabled {
        resolved(moved, c, e, dt)
    } else {
        moved
    }
}

/// Whether a ball settles during a tick and leaves the simulation.
pub open spec fn leaves(ball: Ball, c: SimulationConfig, e: Extents, dt: int) -> bool {
    c.motion_enabled && settled(advanced(ball, c, e, dt), e)
}

/// The balls that remain after a tick, stepped, in their order.
pub open spec fn survivors(s: Seq<Ball>, c: SimulationConfig, e: Extents, dt: int) -> Seq<Ball>
    decreases s.len(),
{
    if s.len() == 0 {
        Seq::empty()
    } else {
        let rest = survivors(s.drop_last(), c, e, dt);
        if leaves(s.last(), c, e, dt) {
            rest
        } else {
            rest.push(stepped(s.last(), c, e, dt))
        }
    }
}

/// Identities of the balls that leave during a tick, in their order.
pub open spec fn departed(s: Seq<Ball>, c: SimulationConfig, e: Extents, dt: int) -> Seq<u64>
    decreases s.len(),
{
    if s.len() == 0 {
        Seq::empty()
    } else {
        let rest = departed(s.drop_last(), c, e, dt);
        if leaves(s.last(), c, e, dt) {
            rest.push(s.last().id)
        } else {
            rest
        }
    }
}

/// Every identity in `s` is below `bound`, and no two are equal.
pub open spec fn distinct_ids(s: Seq<Ball>, bound: int) -> bool {
    &&& forall|i: int| 0 <= i < s.len() ==> #[trigger] s[i].id < bound
    &&& forall|i: int, j: int| 0 <= i < j < s.len() ==> #[trigger] s[i].id != #[trigger] s[j].id
}

/// The balls that survive a tick keep distinct identities, each one of a
/// ball that was there before.
pub proof fn lemma_survivors_keep_ids(s: Seq<Ball>, c: SimulationConfig, e: Extents, dt: int, bound: int)
    requires
        distinct_ids(s, bound),
    ensures
        distinct_ids(survivors(s, c, e, dt), bound),
        forall|i: int|
            0 <= i < survivors(s, c, e, dt).len() ==> exists|k: int|
                0 <= k < s.len() && #[trigger] survivors(s, c, e, dt)[i].id == s[k].id,
    decreases s.len(),
{
    if s.len() > 0 {
        let p = s.drop_last();
        let t = survivors(s, c, e, dt);
        let u = survivors(p, c, e, dt);
        assert(distinct_ids(p, bound)) by {
            assert forall|i: int, j: int| 0 <= i < j < p.len() implies #[trigger] p[i].id != #[trigger] p[j].id by {
                assert(s[i].id != s[j].id);
            }
        }
        lemma_survivors_keep_ids(p, c, e, dt, bound);
        assert forall|i: int| 0 <= i < u.len() implies exists|k: int| 0 <= k < s.len() && #[trigger] u[i].id == s[k].id by {
            let k = choose|k: int| 0 <= k < p.len() && #[trigger] u[i].id == p[k].id;
            assert(u[i].id == s[k].id);
        }
        if !leaves(s.last(), c, e, dt) {
            assert(stepped(s.last(), c, e, dt).id == s.last().id);
            assert forall|i: int, j: int| 0 <= i < j < t.len() implies #[trigger] t[i].id != #[trigger] t[j].id by {
                if j == u.len() {
                    let k = choose|k: int| 0 <= k < p.len() && #[trigger] u[i].id == p[k].id;
                    assert(s[k].id != s[s.len() - 1].id);
                } else {
                    assert(u[i].id != u[j].id);
                }
            }
            assert forall|i: int| 0 <= i < t.len() implies exists|k: int| 0 <= k < s.len() && #[trigger] t[i].id == s[k].id by {
                if i == u.len() {
                    assert(t[i].id == s[s.len() - 1].id);
                } else {
                    assert(t[i] == u[i]);
                }
            }
            assert forall|i: int| 0 <= i < t.len() implies #[trigger] t[i].id < bound by {
                if i == u.len() {
                    assert(t[i].id == s[s.len() - 1].id);
                } else {
                    assert(t[i] == u[i]);
                }
            }
        }
    }
}

/// The settings after a tick's viewport events.
pub open spec fn config_after(c: SimulationConfig, input: TickInput) -> SimulationConfig {
    SimulationConfig {
        motion_enabled: input.resize_events == 0,
        last_viewport_origin: origin_after(c.last_viewport_origin, input.moved_to),
        ..c
    }
}

/// Relies on rand::random_range: a value drawn uniformly from the inclusive
/// range, which panics when the range is empty.
#[verifier::external_body]
fn random_between(low: i64, high: i64) -> (r: i64)
    requires
        low <= high,
    ensures
        low <= r <= high,
{
    rand::random_range(low..=high)
}

/// Whether a ball has the shape of a freshly drawn one: velocity in
/// `[-10, 10] x [0, 15]`, centre in `[-200, 200]` on both axes, each colour
/// channel in `[0, 1]`, and the standard radius.
pub open spec fn freshly_drawn(b: Ball) -> bool {
    &&& -10 * UNIT <= b.velocity.x <= 10 * UNIT
    &&& 0 <= b.velocity.y <= 15 * UNIT
    &&& -200 * UNIT <= b.position.x <= 200 * UNIT
    &&& -200 * UNIT <= b.position.y <= 200 * UNIT
    &&& 0 <= b.color.r <= UNIT
    &&& 0 <= b.color.g <= UNIT
    &&& 0 <= b.color.b <= UNIT
    &&& b.radius == BALL_RADIUS
}

/// Draws a ball with a random velocity, centre and colour, at depth `z`.
pub fn random_ball(z: i64) -> (b: Ball)
    ensures
        freshly_drawn(b),
        b.position.z == z,
        b.id == 0,
{
    let velocity = Velocity { x: random_between(-10 * UNIT, 10 * UNIT), y: random_between(0, 15 * UNIT) };
    let position = Position {
        x: random_between(-200 * UNIT, 200 * UNIT),
        y: random_between(-200 * UNIT, 200 * UNIT),
        z,
    };
    let color = Color { r: random_between(0, UNIT), g: random_between(0, UNIT), b: random_between(0, UNIT) };
    Ball { id: 0, position, velocity, radius: BALL_RADIUS, color }
}

/// All balls, and the settings they share.
pub struct Simulation {
    pub config: SimulationConfig,
    pub balls: Vec<Ball>,
    /// Identity of the next ball to be spawned.
    pub next_id: u64,
}

impl Simulation {
    /// The settings are in range, and identities are distinct and below
    /// `next_id`, so that no removed ball's identity comes back.
    pub open spec fn wf(&self) -> bool {
        self.config.valid() && distinct_ids(self.balls@, self.next_id as int)
    }

    /// An empty simulation with motion enabled, standard gravity and
    /// scales, and no viewport origin observed yet.
    pub fn new() -> (r: Simulation)
        ensures
            r.balls@.len() == 0,
            r.next_id == 0,
            r.config == (SimulationConfig {
                motion_enabled: true,
                gravity: GRAVITY,
                pixel_scale: PIXEL_SCALE,
                bounce_scale: BOUNCE_SCALE,
                last_viewport_origin: None,
            }),
            r.wf(),
    {
        Simulation {
            config: SimulationConfig {
                motion_enabled: true,
                gravity: GRAVITY,
                pixel_scale: PIXEL_SCALE,
                bounce_scale: BOUNCE_SCALE,
                last_viewport_origin: None,
            },
            balls: Vec::new(),
            next_id: 0,
        }
    }

    /// Adds a ball under the next identity, drawn above the balls already
    /// present (its depth is their count). Returns its identity.
    pub fn spawn_new_ball(&mut self, new_ball: Ball) -> (id: u64)
        requires
            old(self).wf(),
            old(self).next_id < u64::MAX,
            old(self).balls@.len() < i64::MAX,
        ensures
            final(self).wf(),
            id == old(self).next_id,
            final(self).next_id == old(self).next_id + 1,
            final(self).config == old(self).config,
            final(self).balls@ == old(self).balls@.push(
                Ball {
                    id: old(self).next_id,
                    position: Position { z: old(self).balls@.len() as i64, ..new_ball.position },
                    ..new_ball
                },
            ),
    {
        let id = self.next_id;
        let z = self.balls.len() as i64;
        self.balls.push(Ball { id, position: Position { z, ..new_ball.position }, ..new_ball });
        self.next_id = self.next_id + 1;
        assert forall|i: int, j: int| 0 <= i < j < self.balls@.len() implies #[trigger] self.balls@[i].id
            != #[trigger] self.balls@[j].id by {
            if j < old(self).balls@.len() {
                assert(old(self).balls@[i].id != old(self).balls@[j].id);
            } else {
                assert(old(self).balls@[i].id < id);
            }
        }
        assert forall|i: int| 0 <= i < self.balls@.len() implies #[trigger] self.balls@[i].id < self.next_id by {
            if i < old(self).balls@.len() {
                assert(old(self).balls@[i].id < id);
            }
        }
        id
    }

    /// Adds a randomly drawn ball under the next identity, drawn above the
    /// balls already present. Returns its identity.
    pub fn spawn_random(&mut self) -> (id: u64)
        requires
            old(self).wf(),
            old(self).next_id < u64::MAX,
            old(self).balls@.len() < i64::MAX,
        ensures
            final(self).wf(),
            id == old(self).next_id,
            final(self).next_id == old(self).next_id + 1,
            final(self).config == old(self).config,
            final(self).balls@.len() == old(self).balls@.len() + 1,
            final(self).balls@.drop_last() == old(self).balls@,
            freshly_drawn(final(self).balls@.last()),
            final(self).balls@.last().id == id,
            final(self).balls@.last().position.z == old(self).balls@.len(),
    {
        let z = self.balls.len() as i64;
        let b = random_ball(z);
        let id = self.spawn_new_ball(b);
        assert(self.balls@.drop_last() =~= old(self).balls@);
        id
    }

    /// Every ball's coordinates and velocity are within `LIMIT`, the
    /// numeric range in which a tick is computed exactly.
    pub open spec fn in_limits(&self) -> bool {
        forall|i: int| 0 <= i < self.balls@.len() ==> #[trigger] self.balls@[i].within(LIMIT as int, LIMIT as int)
    }

    /// Whether the next tick can be computed exactly.
    pub fn within_limits(&self) -> (r: bool)
        ensures
            r == self.in_limits(),
    {
        let mut i: usize = 0;
        while i < self.balls.len()
            invariant
                0 <= i <= self.balls@.len(),
                forall|j: int| 0 <= j < i ==> #[trigger] self.balls@[j].within(LIMIT as int, LIMIT as int),
            decreases self.balls@.len() - i,
        {
            let b = &self.balls[i];
            if b.position.x < -LIMIT || b.position.x > LIMIT || b.position.y < -LIMIT || b.position.y > LIMIT
                || b.velocity.x < -LIMIT || b.velocity.x > LIMIT || b.velocity.y < -LIMIT
                || b.velocity.y > LIMIT || b.radius < 0 || b.radius > LIMIT {
                assert(!self.balls@[i as int].within(LIMIT as int, LIMIT as int));
                return false;
            }
            i = i + 1;
        }
        true
    }

    /// Advances the simulation by one tick: the viewport events update the
    /// settings and push the balls, then every ball moves and, with motion
    /// enabled, meets the floor and walls; balls that settle are removed
    /// after the pass. Returns the identities of the removed balls.
    pub fn tick(&mut self, input: TickInput) -> (removed: Vec<u64>)
        requires
            old(self).wf(),
            old(self).in_limits(),
            input.valid(),
        ensures
            final(self).wf(),
            final(self).config == config_after(old(self).config, input),
            final(self).next_id == old(self).next_id,
            ({
                let c = final(self).config;
                let e = extents_of(input.width as int, input.height as int);
                let s = old(self).balls@.map_values(
                    |b: Ball| pushed(b, move_impulse(old(self).config.last_viewport_origin, input.moved_to)),
                );
                &&& final(self).balls@ == survivors(s, c, e, input.dt as int)
                &&& removed@ == departed(s, c, e, input.dt as int)
            }),
    {
        on_window_resize(&mut self.config, input.resize_events);
        on_window_move(&mut self.config, &mut self.balls, input.moved_to);
        let extents = Extents { half_width: input.width / 2, half_height: input.height / 2 };
        let ghost s = self.balls@;
        let ghost c = self.config;
        let mut kept: Vec<Ball> = Vec::new();
        let mut removed: Vec<u64> = Vec::new();
        let mut i: usize = 0;
        while i < self.balls.len()
            invariant
                s == self.balls@,
                c == self.config,
                c.valid(),
                extents.valid(),
                extents == extents_of(input.width as int, input.height as int),
                valid_dt(input.dt as int),
                0 <= i <= s.len(),
                forall|j: int| 0 <= j < s.len() ==> #[trigger] s[j].within(LIMIT as int, SPEED_BOUND as int),
                kept@ == survivors(s.take(i as int), c, extents, input.dt as int),
                removed@ == departed(s.take(i as int), c, extents, input.dt as int),
            decreases s.len() - i,
        {
            let mut b = self.balls[i];
            assert(s[i as int].within(LIMIT as int, SPEED_BOUND as int));
            move_ball(&mut b, &self.config, extents, input.dt);
            let mut leaving = false;
            if self.config.motion_enabled {
                leaving = handle_wall_collision(&mut b, &self.config, extents, input.dt);
            }
            assert(s.take(i + 1).drop_last() == s.take(i as int));
            if leaving {
                removed.push(b.id);
            } else {
                kept.push(b);
            }
            i = i + 1;
        }
        assert(s.take(s.len() as int) == s);
        assert(distinct_ids(s, self.next_id as int)) by {
            assert forall|i: int, j: int| 0 <= i < j < s.len() implies #[trigger] s[i].id != #[trigger] s[j].id by {
                assert(old(self).balls@[i].id != old(self).balls@[j].id);
            }
            assert forall|i: int| 0 <= i < s.len() implies #[trigger] s[i].id < self.next_id by {
                assert(old(self).balls@[i].id < self.next_id);
            }
        }
        proof {
            lemma_survivors_keep_ids(s, c, extents, input.dt as int, self.next_id as int);
        }
        self.balls = kept;
        removed
    }
}

} // verus!
