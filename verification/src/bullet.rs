//! Bullet values, behaviour variants and the per-bullet lifecycle rules:
//! lifetime expiry, endurance bookkeeping and succession.

use vstd::prelude::*;
use crate::hits::{HitCount, HitLimit};
use crate::vec2::Vec2m;

verus! {

/// Survivability budget of a bullet.  A finite value is milli-scaled: below
/// one unit (1000 milli) it is a per-first-hit survival probability, at or
/// above one unit an integer hit budget; negative means exhausted.
#[derive(Clone, Copy, PartialEq, Eq, Structural, Debug)]
pub enum Endurance {
    /// Never succeeds, never exhausts: a pass-through bullet such as a
    /// sustained beam.
    Infinite,
    /// Milli-scaled finite endurance.
    Finite(i64),
}

/// Largest finite endurance the configuration admits, milli-scaled.
pub const ENDURANCE_LIMIT: i64 = 1000000000;

impl Endurance {
    pub open spec fn wf(self) -> bool {
        match self {
            Endurance::Infinite => true,
            Endurance::Finite(e) => -1000 <= e <= ENDURANCE_LIMIT,
        }
    }

    pub open spec fn is_finite(self) -> bool {
        self is Finite
    }

    /// Exhausted: the bullet is to be destroyed on the next sweep.
    pub open spec fn exhausted(self) -> bool {
        match self {
            Endurance::Infinite => false,
            Endurance::Finite(e) => e < 0,
        }
    }
}

/// The endurance after the first hit against some target, given the outcome
/// `survived` of the Bernoulli trial (the trial is only consulted when the
/// endurance is a probability, i.e. finite, nonnegative and below one unit).
pub open spec fn endurance_step_spec(e: Endurance, survived: bool) -> Endurance {
    match e {
        Endurance::Infinite => Endurance::Infinite,
        Endurance::Finite(v) => {
            if v < 0 {
                Endurance::Finite(v)
            } else if v < 1000 {
                if survived {
                    Endurance::Finite(v)
                } else {
                    Endurance::Finite((-1000) as i64)
                }
            } else {
                Endurance::Finite((v - 1000) as i64)
            }
        },
    }
}

/// Apply the endurance-update rule for a first hit, given the Bernoulli
/// outcome.  Deterministic in its arguments: with the same endurance and the
/// same drawn outcome the result is always the same.
pub fn endurance_step(e: Endurance, survived: bool) -> (r: Endurance)
    requires
        e.wf(),
    ensures
        r == endurance_step_spec(e, survived),
        r.wf(),
        e.is_finite() == r.is_finite(),
{
    match e {
        Endurance::Infinite => Endurance::Infinite,
        Endurance::Finite(v) => {
            if v < 0 {
                Endurance::Finite(v)
            } else if v < 1000 {
                if survived {
                    Endurance::Finite(v)
                } else {
                    Endurance::Finite(-1000)
                }
            } else {
                Endurance::Finite(v - 1000)
            }
        },
    }
}

/// Whether the Bernoulli trial must be drawn at all for a first hit: only a
/// probability-regime endurance consults the weapon's random stream.
pub open spec fn needs_trial(e: Endurance) -> bool {
    match e {
        Endurance::Infinite => false,
        Endurance::Finite(v) => 0 <= v < 1000,
    }
}

/// The blueprint value describing one bullet, copied into each spawned
/// instance.  Times are in milliseconds, speed in milli-units per second,
/// damage milli-scaled (one hit deducts the damage rounded up to whole
/// points).
#[derive(Clone, Copy, PartialEq, Eq, Structural, Debug)]
pub struct Bullet {
    pub life_time_ms: u64,
    pub endurance: Endurance,
    pub hit_limit: HitLimit,
    pub speed: i64,
    pub cooldown_ms: u64,
    pub damage_milli: u64,
}

/// Largest damage value the configuration admits, milli-scaled.
pub const DAMAGE_LIMIT: u64 = 1000000000000;

/// Longest lifetime and cooldown the configuration admits, in milliseconds.
pub const TIME_LIMIT: u64 = 1000000000;

impl Bullet {
    pub open spec fn wf(self) -> bool {
        &&& self.life_time_ms <= TIME_LIMIT
        &&& self.endurance.wf()
        &&& 0 <= self.speed <= crate::vec2::SPEED_LIMIT
        &&& self.cooldown_ms <= TIME_LIMIT
        &&& self.damage_milli <= DAMAGE_LIMIT
    }
}

/// The four bullet behaviours, a closed sum over the variant tags.
#[derive(Clone, Copy, PartialEq, Eq, Structural, Debug)]
pub enum BulletVariant {
    /// Straight line along the spawn facing, captured once.
    Lane,
    /// Stationary large hit volume.
    Explode,
    /// Fan-out: `count` instances, each jittered by a uniform random angle
    /// in `[-angle, angle]` milli-radians.
    Splash { count: usize, angle: i64 },
    /// Sustained line that re-reads the shooter's aim every tick; at most
    /// one per shooter.  Milli-scaled width and length describe its
    /// footprint.
    Beam { width: i64, length: i64 },
}

impl BulletVariant {
    pub open spec fn wf(self) -> bool {
        match self {
            BulletVariant::Splash { count, angle } => 1 <= count <= 10000 && 0 <= angle <= 3142,
            BulletVariant::Beam { width, length } => 0 <= width && 0 <= length,
            _ => true,
        }
    }

    /// How many instances one spawn request of this variant creates.
    pub open spec fn fan_out(self) -> int {
        match self {
            BulletVariant::Splash { count, .. } => count as int,
            _ => 1,
        }
    }
}

/// Lifecycle states of a spawned bullet.  A bullet is inert until its
/// variant initializer runs; only an `Active` bullet has a collision
/// footprint and may register hits.
#[derive(Clone, Copy, PartialEq, Eq, Structural, Debug)]
pub enum BulletState {
    Spawning,
    Active,
    PendingDespawn,
}

/// A live bullet entity.
#[derive(Clone, Debug)]
pub struct BulletInstance {
    pub bullet: Bullet,
    pub variant: BulletVariant,
    /// Identifier of the owning weapon.
    pub weapon: u64,
    /// Identifier of the original shooter.
    pub shooter: u64,
    /// The generation that will be fired upon this bullet's success: the
    /// generation it was fired at, plus one.
    pub generation: usize,
    pub hits: HitCount,
    /// Elapsed lifetime, milliseconds; the timer only runs once active.
    pub age_ms: u64,
    /// Mutable endurance tracking; `None` until initialized, and removed
    /// again once exhaustion has marked the bullet for despawn.
    pub endurance: Option<Endurance>,
    /// Faction: fired by the player's side or not; a bullet only hits
    /// characters of the other side.
    pub player_side: bool,
    pub state: BulletState,
    pub pos: Vec2m,
    /// Milli-unit facing direction at spawn (beams re-aim every tick).
    pub facing: Vec2m,
    /// Declarative movement intent, resolved once by the variant.
    pub movement: Option<crate::movement::Movement>,
}

/// The mathematical image of a bullet instance: the same record with the
/// hit ledger abstracted to its entry sequence.
pub struct BulletModel {
    pub bullet: Bullet,
    pub variant: BulletVariant,
    pub weapon: u64,
    pub shooter: u64,
    pub generation: usize,
    pub hits: Seq<(u64, u32)>,
    pub age_ms: u64,
    pub endurance: Option<Endurance>,
    pub player_side: bool,
    pub state: BulletState,
    pub pos: Vec2m,
    pub facing: Vec2m,
    pub movement: Option<crate::movement::Movement>,
}

impl View for BulletInstance {
    type V = BulletModel;

    open spec fn view(&self) -> BulletModel {
        BulletModel {
            bullet: self.bullet,
            variant: self.variant,
            weapon: self.weapon,
            shooter: self.shooter,
            generation: self.generation,
            hits: self.hits.entries@,
            age_ms: self.age_ms,
            endurance: self.endurance,
            player_side: self.player_side,
            state: self.state,
            pos: self.pos,
            facing: self.facing,
            movement: self.movement,
        }
    }
}

impl BulletInstance {
    pub open spec fn wf(self) -> bool {
        &&& self.bullet.wf()
        &&& self.variant.wf()
        &&& match self.endurance {
            Some(e) => e.wf(),
            None => true,
        }
        &&& self.pos.bounded(crate::vec2::COORD_LIMIT as int)
        &&& self.facing.bounded(crate::vec2::UNIT_DIR_LIMIT as int)
        &&& match self.movement {
            Some(crate::movement::Movement::DirectionMove(d)) => d.bounded(
                crate::movement::FACING_LIMIT as int,
            ),
            Some(crate::movement::Movement::PointMove(p)) => p.bounded(
                crate::vec2::COORD_LIMIT as int,
            ),
            None => true,
        }
        &&& self.age_ms <= TIME_LIMIT
        &&& self.generation <= crate::weapon::BLUEPRINT_LIMIT
    }

    /// Whether this bullet, once despawned, emits a succeed event: it must
    /// still carry endurance tracking and that endurance must be finite.
    pub open spec fn succeeds_on_despawn(self) -> bool {
        match self.endurance {
            Some(e) => e.is_finite(),
            None => false,
        }
    }
}

} // verus!
