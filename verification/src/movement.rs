//! The movement resolver: turns a declarative movement intent (fixed
//! direction or seek-point) or axis input plus a speed into a velocity and
//! a position update each tick.

use vstd::prelude::*;
use crate::fixp::{div_milli, div_trunc};
use crate::vec2::{
    dist_sq_spec, len_sq_spec, norm_scale, norm_scale_spec, Vec2m, COORD_LIMIT, SPEED_LIMIT,
};

verus! {

/// Keyboard-driven horizontal motion.
#[derive(Clone, Copy, PartialEq, Eq, Structural, Debug)]
pub enum XAxisMove {
    Left,
    Right,
}

/// Keyboard-driven vertical motion.
#[derive(Clone, Copy, PartialEq, Eq, Structural, Debug)]
pub enum YAxisMove {
    Up,
    Down,
}

/// A declarative movement intent.
#[derive(Clone, Copy, PartialEq, Eq, Structural, Debug)]
pub enum Movement {
    /// Keep moving along a fixed milli-unit direction.
    DirectionMove(Vec2m),
    /// Seek a fixed point; cleared upon arrival.
    PointMove(Vec2m),
}

/// Longest frame the resolver admits, in milliseconds.
pub const FRAME_LIMIT_MS: u64 = 10000;

/// Largest facing-direction component the resolver admits.
pub const FACING_LIMIT: i64 = 10000;

/// Largest velocity component the resolver can produce.
pub const VEL_LIMIT: i64 = 1000000000;

/// A coordinate clamped into the world bounds.
pub open spec fn clamp_coord_spec(v: int) -> int {
    if v < -1000000000 {
        -1000000000
    } else if v > 1000000000 {
        1000000000
    } else {
        v
    }
}

pub fn clamp_coord(v: i64) -> (r: i64)
    ensures
        r == clamp_coord_spec(v as int),
{
    if v < -1000000000 {
        -1000000000
    } else if v > 1000000000 {
        1000000000
    } else {
        v
    }
}

/// What one tick of the resolver produces.
#[derive(Clone, Copy, PartialEq, Eq, Structural, Debug)]
pub struct MoveResolution {
    pub pos: Vec2m,
    pub vel: Vec2m,
    /// The intent left after this tick (seek intents clear on arrival).
    pub movement: Option<Movement>,
}

/// The position reached from `pos` with velocity `vel` after `dt`
/// milliseconds, clamped into the world bounds.
pub open spec fn integrate_spec(pos: Vec2m, vel: Vec2m, dt: int) -> Vec2m {
    Vec2m {
        x: clamp_coord_spec(pos.x + div_milli(vel.x * dt)) as i64,
        y: clamp_coord_spec(pos.y + div_milli(vel.y * dt)) as i64,
    }
}

/// The raw axis direction as a milli-unit vector (diagonals are normalized
/// by the resolver, not here).
pub open spec fn axis_dir_spec(x: Option<XAxisMove>, y: Option<YAxisMove>) -> Vec2m {
    let dx: int = match x {
        Some(XAxisMove::Left) => -1000,
        Some(XAxisMove::Right) => 1000,
        None => 0,
    };
    let dy: int = match y {
        Some(YAxisMove::Up) => 1000,
        Some(YAxisMove::Down) => -1000,
        None => 0,
    };
    Vec2m { x: dx as i64, y: dy as i64 }
}

/// One tick of the movement resolver, exactly.
pub open spec fn resolve_movement_spec(
    pos: Vec2m,
    speed: int,
    movement: Option<Movement>,
    x: Option<XAxisMove>,
    y: Option<YAxisMove>,
    dt: int,
) -> MoveResolution {
    match movement {
        Some(Movement::DirectionMove(dir)) => {
            let vel = Vec2m {
                x: div_milli(dir.x * speed) as i64,
                y: div_milli(dir.y * speed) as i64,
            };
            MoveResolution {
                pos: integrate_spec(pos, vel, dt),
                vel,
                movement: Some(Movement::DirectionMove(dir)),
            }
        },
        Some(Movement::PointMove(p)) => {
            let d = Vec2m { x: (p.x - pos.x) as i64, y: (p.y - pos.y) as i64 };
            let step = div_milli(speed * dt);
            if len_sq_spec(d) > step * step {
                let vel = norm_scale_spec(d, speed);
                MoveResolution {
                    pos: integrate_spec(pos, vel, dt),
                    vel,
                    movement: Some(Movement::PointMove(p)),
                }
            } else {
                MoveResolution { pos: p, vel: Vec2m { x: 0, y: 0 }, movement: None }
            }
        },
        None => {
            let raw = axis_dir_spec(x, y);
            if raw.is_zero() {
                MoveResolution { pos, vel: Vec2m { x: 0, y: 0 }, movement: None }
            } else {
                let vel = norm_scale_spec(raw, speed);
                MoveResolution { pos: integrate_spec(pos, vel, dt), vel, movement: None }
            }
        },
    }
}

/// Advance one entity by one tick: direction intents hold their course,
/// seek intents head for the point and clear on arrival, axis input moves
/// the entity directly.  Positions stay inside the world bounds.
pub fn resolve_movement(
    pos: Vec2m,
    speed: i64,
    movement: Option<Movement>,
    x: Option<XAxisMove>,
    y: Option<YAxisMove>,
    dt_ms: u64,
) -> (r: MoveResolution)
    requires
        pos.bounded(COORD_LIMIT as int),
        0 <= speed <= SPEED_LIMIT,
        dt_ms <= FRAME_LIMIT_MS,
        match movement {
            Some(Movement::DirectionMove(dir)) => dir.bounded(FACING_LIMIT as int),
            Some(Movement::PointMove(p)) => p.bounded(COORD_LIMIT as int),
            None => true,
        },
    ensures
        r == resolve_movement_spec(pos, speed as int, movement, x, y, dt_ms as int),
        r.pos.bounded(COORD_LIMIT as int),
        r.vel.bounded(VEL_LIMIT as int),
{
    match movement {
        Some(Movement::DirectionMove(dir)) => {
            assert(-1000000000000 <= dir.x * speed <= 1000000000000 && -1000000000000 <= dir.y
                * speed <= 1000000000000) by (nonlinear_arith)
                requires
                    -10000 <= dir.x <= 10000,
                    -10000 <= dir.y <= 10000,
                    0 <= speed <= 100000000,
            ;
            proof {
                crate::fixp::lemma_div_trunc_bound(dir.x * speed, 1000, 1000000000);
                crate::fixp::lemma_div_trunc_bound(dir.y * speed, 1000, 1000000000);
            }
            let vel = Vec2m { x: crate::fixp::milli_div(dir.x * speed), y: crate::fixp::milli_div(
                dir.y * speed,
            ) };
            let pos2 = integrate(pos, vel, dt_ms);
            MoveResolution { pos: pos2, vel, movement: Some(Movement::DirectionMove(dir)) }
        },
        Some(Movement::PointMove(p)) => {
            let d = Vec2m { x: p.x - pos.x, y: p.y - pos.y };
            assert(0 <= speed * dt_ms <= 1000000000000) by (nonlinear_arith)
                requires
                    0 <= speed <= 100000000,
                    0 <= dt_ms <= 10000,
            ;
            let step: i64 = crate::fixp::milli_div(speed * (dt_ms as i64));
            let dsq: u64 = crate::vec2::len_sq(d);
            assert(0 <= step * step <= 1000000000 * 1000000000) by (nonlinear_arith)
                requires
                    0 <= step <= 1000000000,
            ;
            if dsq > ((step * step) as u64) {
                let vel = norm_scale(d, speed);
                let pos2 = integrate(pos, vel, dt_ms);
                MoveResolution { pos: pos2, vel, movement: Some(Movement::PointMove(p)) }
            } else {
                MoveResolution { pos: p, vel: Vec2m { x: 0, y: 0 }, movement: None }
            }
        },
        None => {
            let dx: i64 = match x {
                Some(XAxisMove::Left) => -1000,
                Some(XAxisMove::Right) => 1000,
                None => 0,
            };
            let dy: i64 = match y {
                Some(YAxisMove::Up) => 1000,
                Some(YAxisMove::Down) => -1000,
                None => 0,
            };
            let raw = Vec2m { x: dx, y: dy };
            if dx == 0 && dy == 0 {
                MoveResolution { pos, vel: Vec2m { x: 0, y: 0 }, movement: None }
            } else {
                let vel = norm_scale(raw, speed);
                let pos2 = integrate(pos, vel, dt_ms);
                MoveResolution { pos: pos2, vel, movement: None }
            }
        },
    }
}

/// Integrate a bounded velocity over one frame and clamp into the world.
fn integrate(pos: Vec2m, vel: Vec2m, dt_ms: u64) -> (r: Vec2m)
    requires
        pos.bounded(COORD_LIMIT as int),
        vel.bounded(VEL_LIMIT as int),
        dt_ms <= FRAME_LIMIT_MS,
    ensures
        r == integrate_spec(pos, vel, dt_ms as int),
        r.bounded(COORD_LIMIT as int),
{
    assert(-10000000000000 <= vel.x * dt_ms <= 10000000000000 && -10000000000000 <= vel.y * dt_ms
        <= 10000000000000) by (nonlinear_arith)
        requires
            -1000000000 <= vel.x <= 1000000000,
            -1000000000 <= vel.y <= 1000000000,
            0 <= dt_ms <= 10000,
    ;
    let sx: i64 = crate::fixp::milli_div(vel.x * (dt_ms as i64));
    let sy: i64 = crate::fixp::milli_div(vel.y * (dt_ms as i64));
    Vec2m { x: clamp_coord(pos.x + sx), y: clamp_coord(pos.y + sy) }
}

} // verus!
