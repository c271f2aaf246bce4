//! Weapons: an ordered blueprint of bullet generations, a cooldown gate,
//! and the succession lookup that turns a succeed event into the next
//! generation's spawn request.

use vstd::prelude::*;
use crate::bullet::{Bullet, BulletVariant};
use crate::vec2::Vec2m;

verus! {

/// Configuration faults, fatal at construction and never mid-simulation.
#[derive(Clone, Copy, PartialEq, Eq, Structural, Debug)]
pub enum ConfigError {
    /// A fire-rate multiplier of zero would divide by zero when arming
    /// the cooldown, and one beyond the supported bound would overflow
    /// it; both are rejected at construction.
    InvalidAccelerate,
    /// An enemy descriptor naming no known enemy kind.
    UnknownEnemyKind,
}

/// Most generations a blueprint may hold.
pub const BLUEPRINT_LIMIT: usize = 1000;

/// A request to spawn one bullet (or, for a splash variant, one fan of
/// bullets), carrying the blueprint entry, the firing transform and the
/// identities involved.
#[derive(Clone, Copy, PartialEq, Eq, Structural, Debug)]
pub struct SpawnRequest {
    pub shooter_pos: Vec2m,
    pub facing: Vec2m,
    /// The shooter character's identifier.
    pub by: u64,
    /// The owning weapon's identifier.
    pub with: u64,
    pub bullet: Bullet,
    pub variant: BulletVariant,
    /// The generation this request fires.
    pub generation: usize,
}

impl SpawnRequest {
    pub open spec fn wf(self) -> bool {
        &&& self.bullet.wf()
        &&& self.variant.wf()
        &&& self.shooter_pos.bounded(crate::vec2::COORD_LIMIT as int)
        &&& self.facing.bounded(crate::vec2::UNIT_DIR_LIMIT as int)
        &&& self.generation < BLUEPRINT_LIMIT
    }
}

/// A weapon: its ordered generations, its fire-rate multiplier, whether
/// its trigger is held, and the remaining cooldown (zero when ready).
#[derive(Clone, Debug)]
pub struct Weapon {
    /// Fire-rate multiplier on a base of 100: the armed cooldown is
    /// `cooldown_ms * 100 / accelerate`.  Never zero.
    pub accelerate: u64,
    /// The generations: entry `k` is fired when a generation-`k` succeed
    /// event arrives (entry 0 by pulling the trigger).
    pub loads: Vec<(Bullet, BulletVariant)>,
    /// Whether the trigger is held.
    pub shooting: bool,
    /// Remaining cooldown in milliseconds; the weapon fires only at zero.
    pub cooldown_ms: u64,
}

impl Weapon {
    pub open spec fn wf(self) -> bool {
        &&& 1 <= self.accelerate <= 1000000
        &&& self.loads@.len() <= BLUEPRINT_LIMIT
        &&& forall|i: int|
            0 <= i < self.loads@.len() ==> (#[trigger] self.loads@[i]).0.wf()
                && self.loads@[i].1.wf()
        &&& self.cooldown_ms <= u64::MAX - 1000000000
    }

    /// Build a weapon, rejecting a fire-rate multiplier of zero (it
    /// would divide by zero on every shot) or beyond the supported
    /// bound — configuration errors, fatal at construction.
    pub fn new(accelerate: u64, loads: Vec<(Bullet, BulletVariant)>) -> (r: Result<
        Weapon,
        ConfigError,
    >)
        requires
            loads@.len() <= BLUEPRINT_LIMIT,
            forall|i: int|
                0 <= i < loads@.len() ==> (#[trigger] loads@[i]).0.wf() && loads@[i].1.wf(),
        ensures
            match r {
                Ok(w) => accelerate >= 1 && accelerate <= 1000000 && w == (Weapon {
                    accelerate,
                    loads,
                    shooting: false,
                    cooldown_ms: 0,
                }) && w.wf(),
                Err(e) => (accelerate == 0 || accelerate > 1000000) && e
                    == ConfigError::InvalidAccelerate,
            },
    {
        if accelerate == 0 || accelerate > 1000000 {
            Err(ConfigError::InvalidAccelerate)
        } else {
            Ok(Weapon { accelerate, loads, shooting: false, cooldown_ms: 0 })
        }
    }

    /// Whether the weapon would emit a shot right now.
    pub open spec fn ready(self) -> bool {
        self.shooting && self.cooldown_ms == 0 && self.loads@.len() > 0
    }

    /// The cooldown armed by firing: the first generation's cooldown,
    /// scaled by the fire-rate multiplier.
    pub open spec fn armed_cooldown(self) -> int {
        (self.loads@[0].0.cooldown_ms * 100) as int / self.accelerate as int
    }

    /// Pull the trigger: if the weapon is flagged shooting, not cooling
    /// down, and its blueprint is not empty, emit the spawn request for
    /// generation zero and arm the cooldown; otherwise do nothing.
    pub fn fire(&mut self, shooter_pos: Vec2m, facing: Vec2m, by: u64, with: u64) -> (r: Option<
        SpawnRequest,
    >)
        requires
            old(self).wf(),
            shooter_pos.bounded(crate::vec2::COORD_LIMIT as int),
            facing.bounded(crate::vec2::UNIT_DIR_LIMIT as int),
        ensures
            final(self).wf(),
            r is Some <==> old(self).ready(),
            match r {
                Some(req) => {
                    &&& req == (SpawnRequest {
                        shooter_pos,
                        facing,
                        by,
                        with,
                        bullet: old(self).loads@[0].0,
                        variant: old(self).loads@[0].1,
                        generation: 0,
                    })
                    &&& req.wf()
                    &&& *final(self) == (Weapon {
                        cooldown_ms: old(self).armed_cooldown() as u64,
                        ..*old(self)
                    })
                },
                None => *final(self) == *old(self),
            },
    {
        if self.shooting && self.cooldown_ms == 0 && self.loads.len() > 0 {
            let (bullet, variant) = self.loads[0];
            self.cooldown_ms = bullet.cooldown_ms * 100 / self.accelerate;
            Some(
                SpawnRequest {
                    shooter_pos,
                    facing,
                    by,
                    with,
                    bullet,
                    variant,
                    generation: 0,
                },
            )
        } else {
            None
        }
    }

    /// Count the cooldown timer down; at zero the weapon may fire again.
    pub fn tick_cooldown(&mut self, dt_ms: u64)
        ensures
            *final(self) == (Weapon {
                cooldown_ms: if old(self).cooldown_ms >= dt_ms {
                    (old(self).cooldown_ms - dt_ms) as u64
                } else {
                    0
                },
                ..*old(self)
            }),
    {
        if self.cooldown_ms >= dt_ms {
            self.cooldown_ms = self.cooldown_ms - dt_ms;
        } else {
            self.cooldown_ms = 0;
        }
    }

    /// The blueprint entry a generation-`gen` succeed event fires, if the
    /// blueprint still holds one.
    pub fn next_load(&self, gen: usize) -> (r: Option<(Bullet, BulletVariant)>)
        ensures
            r is Some <==> gen < self.loads@.len(),
            match r {
                Some(load) => load == self.loads@[gen as int],
                None => true,
            },
    {
        if gen < self.loads.len() {
            Some(self.loads[gen])
        } else {
            None
        }
    }
}

impl Default for Weapon {
    /// An empty weapon: base fire rate, no generations.
    fn default() -> (r: Weapon)
        ensures
            r.accelerate == 100,
            r.loads@ =~= Seq::<(Bullet, BulletVariant)>::empty(),
            !r.shooting,
            r.cooldown_ms == 0,
            r.wf(),
    {
        Weapon { accelerate: 100, loads: Vec::new(), shooting: false, cooldown_ms: 0 }
    }
}

} // verus!
