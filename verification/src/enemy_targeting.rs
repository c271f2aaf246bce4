//! Targeting AI: hostile-target acquisition and the movement / aim
//! strategies of autonomous actors.

use vstd::prelude::*;
use crate::fixp::div_trunc;
use crate::movement::Movement;
use crate::movement::VEL_LIMIT;
use crate::vec2::{dist_sq_spec, Vec2m, COORD_LIMIT};

verus! {

/// A weak back-reference from an actor to its living target; cleared when
/// the target no longer exists.
#[derive(Clone, Copy, PartialEq, Eq, Structural, Debug)]
pub struct HostileTarget(pub u64);

/// A weak back-reference from an actor to the entity it aims at.
#[derive(Clone, Copy, PartialEq, Eq, Structural, Debug)]
pub struct AimTarget(pub u64);

/// How an actor moves relative to its hostile target.
#[derive(Clone, Copy, PartialEq, Eq, Structural, Debug)]
pub enum MoveTargetingType {
    /// Continuously seek the target's current position.
    Chase,
    /// Seek while farther than the follow distance; otherwise stop.
    Follow,
    /// Seek a point slightly ahead of the target along its heading.
    Outflank,
}

/// How an actor aims at its hostile target.
#[derive(Clone, Copy, PartialEq, Eq, Structural, Debug)]
pub enum AimTargetingType {
    /// Aim at the target's current position.
    AimCurrent,
    /// Aim at the target's position extrapolated half a second ahead.
    AimPredict,
}

/// The follow strategy's stand-off distance: one hundred units,
/// milli-scaled.
pub const FOLLOW_DISTANCE: i64 = 100000;

/// The outflank strategy's lead distance: one and a half units,
/// milli-scaled.
pub const OUTFLANK_LEAD: i64 = 1500;

/// The movement intent a strategy yields, given the actor's position and
/// the target's position and velocity.  `None` means "stand still".
#[verifier::opaque]
pub open spec fn move_intent_spec(
    t: MoveTargetingType,
    self_pos: Vec2m,
    target_pos: Vec2m,
    target_vel: Vec2m,
) -> Option<Movement> {
    match t {
        MoveTargetingType::Chase => Some(Movement::PointMove(target_pos)),
        MoveTargetingType::Follow => {
            if dist_sq_spec(self_pos, target_pos) > FOLLOW_DISTANCE * FOLLOW_DISTANCE {
                Some(Movement::PointMove(target_pos))
            } else {
                None
            }
        },
        MoveTargetingType::Outflank => {
            let lead = crate::vec2::norm_scale_spec(target_vel, OUTFLANK_LEAD as int);
            Some(
                Movement::PointMove(
                    Vec2m {
                        x: crate::movement::clamp_coord_spec(target_pos.x + lead.x) as i64,
                        y: crate::movement::clamp_coord_spec(target_pos.y + lead.y) as i64,
                    },
                ),
            )
        },
    }
}

/// Resolve one actor's movement strategy against a live target.
///
/// Chase always seeks the target.  Follow seeks only beyond the follow
/// distance and stands still within it.  Outflank seeks a point offset
/// from the target along the target's velocity direction by the lead
/// distance.
pub fn move_intent(
    t: MoveTargetingType,
    self_pos: Vec2m,
    target_pos: Vec2m,
    target_vel: Vec2m,
) -> (r: Option<Movement>)
    requires
        self_pos.bounded(COORD_LIMIT as int),
        target_pos.bounded(COORD_LIMIT as int),
        target_vel.bounded(VEL_LIMIT as int),
    ensures
        r == move_intent_spec(t, self_pos, target_pos, target_vel),
        match r {
            Some(Movement::PointMove(p)) => p.bounded(COORD_LIMIT as int),
            Some(Movement::DirectionMove(_)) => false,
            None => true,
        },
{
    proof {
        reveal(crate::enemy_targeting::move_intent_spec);
    }
    match t {
        MoveTargetingType::Chase => Some(Movement::PointMove(target_pos)),
        MoveTargetingType::Follow => {
            let dsq: u64 = crate::vec2::dist_sq(self_pos, target_pos);
            if dsq > 10000000000 {
                Some(Movement::PointMove(target_pos))
            } else {
                None
            }
        },
        MoveTargetingType::Outflank => {
            let lead = crate::vec2::norm_scale(target_vel, OUTFLANK_LEAD);
            let p = Vec2m {
                x: crate::movement::clamp_coord(target_pos.x + lead.x),
                y: crate::movement::clamp_coord(target_pos.y + lead.y),
            };
            Some(Movement::PointMove(p))
        },
    }
}

/// The aim point a strategy yields: the target's position, or that
/// position extrapolated along the target's velocity by half a second.
pub open spec fn aim_point_spec(t: AimTargetingType, target_pos: Vec2m, target_vel: Vec2m) -> Vec2m {
    match t {
        AimTargetingType::AimCurrent => target_pos,
        AimTargetingType::AimPredict => Vec2m {
            x: crate::movement::clamp_coord_spec(target_pos.x + div_trunc(target_vel.x as int, 2))
                as i64,
            y: crate::movement::clamp_coord_spec(target_pos.y + div_trunc(target_vel.y as int, 2))
                as i64,
        },
    }
}

/// Resolve one actor's aim strategy against a live target.
pub fn aim_point(t: AimTargetingType, target_pos: Vec2m, target_vel: Vec2m) -> (r: Vec2m)
    requires
        target_pos.bounded(COORD_LIMIT as int),
        target_vel.bounded(VEL_LIMIT as int),
    ensures
        r == aim_point_spec(t, target_pos, target_vel),
        r.bounded(COORD_LIMIT as int),
{
    match t {
        AimTargetingType::AimCurrent => target_pos,
        AimTargetingType::AimPredict => Vec2m {
            x: crate::movement::clamp_coord(target_pos.x + crate::fixp::trunc_div(target_vel.x, 2)),
            y: crate::movement::clamp_coord(target_pos.y + crate::fixp::trunc_div(target_vel.y, 2)),
        },
    }
}

/// Follow rule, stated on its own: within the follow distance the actor
/// has no movement intent; strictly beyond it, the intent is to seek the
/// target's current position.
pub proof fn lemma_follow_rule(self_pos: Vec2m, target_pos: Vec2m, target_vel: Vec2m)
    ensures
        dist_sq_spec(self_pos, target_pos) <= FOLLOW_DISTANCE * FOLLOW_DISTANCE ==> move_intent_spec(
            MoveTargetingType::Follow,
            self_pos,
            target_pos,
            target_vel,
        ) is None,
        dist_sq_spec(self_pos, target_pos) > FOLLOW_DISTANCE * FOLLOW_DISTANCE ==> move_intent_spec(
            MoveTargetingType::Follow,
            self_pos,
            target_pos,
            target_vel,
        ) == Some(Movement::PointMove(target_pos)),
{
    reveal(crate::enemy_targeting::move_intent_spec);
}

} // verus!
