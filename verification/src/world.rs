//! The simulation world: arenas of characters, weapons and bullets,
//! addressed by stable indices that double as the weak entity identifiers
//! every back-reference uses, plus the event queues that chain the tick
//! phases together.

use vstd::prelude::*;
use crate::bullet::{Bullet, BulletInstance, BulletState, BulletVariant, Endurance};
use crate::enemy_targeting::{AimTargetingType, HostileTarget, MoveTargetingType};
use crate::forced_moving::{ForcedMove, Shocked, IMPACT_LIMIT, SHOCK_DURATION_MS};
use crate::hits::HitCount;
use crate::movement::{Movement, XAxisMove, YAxisMove, FACING_LIMIT, VEL_LIMIT};
use crate::vec2::{dist_sq_spec, Vec2m, COORD_LIMIT, SPEED_LIMIT};
use crate::weapon::{SpawnRequest, Weapon, BLUEPRINT_LIMIT};

verus! {

/// Largest health magnitude the world tracks.
pub const LIFE_LIMIT: i64 = 1000000000000000;

/// A character: player or enemy, the only valid damage targets.
#[derive(Clone, Copy, PartialEq, Eq, Structural, Debug)]
pub struct Character {
    pub pos: Vec2m,
    pub vel: Vec2m,
    /// The point this character aims at.
    pub aim: Vec2m,
    /// Milli-unit facing direction, kept pointed at the aim point.
    pub facing: Vec2m,
    pub life: i64,
    pub speed: i64,
    pub is_player: bool,
    pub move_targeting: Option<MoveTargetingType>,
    pub aim_targeting: Option<AimTargetingType>,
    pub hostile: Option<HostileTarget>,
    pub movement: Option<Movement>,
    pub x_move: Option<XAxisMove>,
    pub y_move: Option<YAxisMove>,
    pub shocked: Option<Shocked>,
    /// Milliseconds since the shock began, once the timer is armed.
    pub shock_timer: Option<u64>,
    pub forced: Option<ForcedMove>,
    pub keyboard: bool,
}

impl Character {
    pub open spec fn wf(self) -> bool {
        &&& self.pos.bounded(COORD_LIMIT as int)
        &&& self.vel.bounded(VEL_LIMIT as int)
        &&& self.aim.bounded(COORD_LIMIT as int)
        &&& self.facing.bounded(crate::vec2::UNIT_DIR_LIMIT as int)
        &&& -LIFE_LIMIT <= self.life <= LIFE_LIMIT
        &&& 0 <= self.speed <= SPEED_LIMIT
        &&& match self.movement {
            Some(Movement::DirectionMove(d)) => d.bounded(FACING_LIMIT as int),
            Some(Movement::PointMove(p)) => p.bounded(COORD_LIMIT as int),
            None => true,
        }
        &&& match self.shocked {
            Some(s) => 0 <= s.impact <= IMPACT_LIMIT && s.direction.bounded(FACING_LIMIT as int),
            None => true,
        }
        &&& match self.shock_timer {
            Some(t) => t <= SHOCK_DURATION_MS,
            None => true,
        }
        &&& match self.forced {
            Some(f) => f.direction.bounded(FACING_LIMIT as int) && -6000000000000 <= f.speed
                <= 6000000000000,
            None => true,
        }
    }

    /// A fresh character at `pos`, not yet targeting anything.
    pub fn new(pos: Vec2m, life: i64, speed: i64, is_player: bool) -> (r: Character)
        requires
            pos.bounded(COORD_LIMIT as int),
            -LIFE_LIMIT <= life <= LIFE_LIMIT,
            0 <= speed <= SPEED_LIMIT,
        ensures
            r.pos == pos && r.life == life && r.speed == speed && r.is_player == is_player,
            r.vel.is_zero() && r.aim.is_zero(),
            r.facing == (Vec2m { x: 0, y: 1000 }),
            r.move_targeting is None && r.aim_targeting is None && r.hostile is None
                && r.movement is None && r.x_move is None && r.y_move is None && r.shocked is None
                && r.shock_timer is None && r.forced is None && !r.keyboard,
            r.wf(),
    {
        Character {
            pos,
            vel: Vec2m { x: 0, y: 0 },
            aim: Vec2m { x: 0, y: 0 },
            facing: Vec2m { x: 0, y: 1000 },
            life,
            speed,
            is_player,
            move_targeting: None,
            aim_targeting: None,
            hostile: None,
            movement: None,
            x_move: None,
            y_move: None,
            shocked: None,
            shock_timer: None,
            forced: None,
            keyboard: false,
        }
    }
}

/// A weapon mounted on a character.
#[derive(Clone, Debug)]
pub struct WeaponSlot {
    pub weapon: Weapon,
    /// The wielding character's identifier.
    pub owner: u64,
}

/// Signal that a bullet's lifecycle ended in a way that should fire the
/// next generation of its weapon's blueprint.
#[derive(Clone, Copy, PartialEq, Eq, Structural, Debug)]
pub struct SucceedEvent {
    /// The owning weapon's identifier.
    pub weapon: u64,
    /// The generation to fire now.
    pub generation: usize,
    /// The succeeding bullet's identifier.
    pub bullet: usize,
    /// The succeeding bullet's last transform, inherited by the next
    /// generation as its firing origin.
    pub pos: Vec2m,
    pub facing: Vec2m,
}

/// A bullet struck a valid target this tick within its hit limit.
#[derive(Clone, Copy, PartialEq, Eq, Structural, Debug)]
pub struct BulletHitEvent {
    pub bullet: usize,
    pub target: usize,
    pub pos: Vec2m,
    /// Whether this was the first strike of this bullet on this target.
    pub first_hit: bool,
}

impl SucceedEvent {
    pub open spec fn wf(self) -> bool {
        &&& self.generation <= BLUEPRINT_LIMIT
        &&& self.pos.bounded(COORD_LIMIT as int)
        &&& self.facing.bounded(crate::vec2::UNIT_DIR_LIMIT as int)
    }
}

/// The whole simulation state.
pub struct World {
    /// Characters by identifier; a despawned slot stays `None` so
    /// identifiers are never reused.
    pub characters: Vec<Option<Character>>,
    /// Bullets by identifier, likewise.
    pub bullets: Vec<Option<BulletInstance>>,
    /// Weapons by identifier; weapons are never removed.
    pub weapons: Vec<WeaponSlot>,
    /// One private random stream per weapon, forked from the world seed.
    pub weapon_rngs: Vec<rand::rngs::StdRng>,
    /// Spawn requests awaiting the spawner.
    pub spawn_requests: Vec<SpawnRequest>,
    /// Succeed events generated this tick, consumed the following tick.
    pub succeed_events: Vec<SucceedEvent>,
    /// Stream counter for forking weapon generators off the seed.
    pub seed: u64,
    pub next_fork: u64,
}

/// An active beam bullet of the given shooter.
pub open spec fn active_beam_of(b: Option<BulletInstance>, shooter: u64) -> bool {
    match b {
        Some(inst) => inst.state == BulletState::Active && inst.variant is Beam && inst.shooter
            == shooter,
        None => false,
    }
}

/// At most one active beam exists per shooter.
pub open spec fn beams_unique(bullets: Seq<Option<BulletInstance>>) -> bool {
    forall|i: int, j: int, s: u64|
        0 <= i < j < bullets.len() && #[trigger] active_beam_of(bullets[i], s)
            && #[trigger] active_beam_of(bullets[j], s) ==> false
}

/// A still-uninitialized beam bullet of the given shooter.
pub open spec fn spawning_beam_of(b: Option<BulletInstance>, shooter: u64) -> bool {
    match b {
        Some(inst) => inst.state == BulletState::Spawning && inst.variant is Beam && inst.shooter
            == shooter,
        None => false,
    }
}

/// Some already-active beam of shooter `s` exists.
pub open spec fn old_active_conflict(bullets: Seq<Option<BulletInstance>>, s: u64) -> bool {
    exists|j: int| 0 <= j < bullets.len() && #[trigger] active_beam_of(bullets[j], s)
}

/// Some beam of shooter `s` earlier in the spawn order is itself waiting
/// to initialize.
pub open spec fn earlier_spawning_beam(bullets: Seq<Option<BulletInstance>>, i: int, s: u64) -> bool {
    exists|j: int| 0 <= j < i && #[trigger] spawning_beam_of(bullets[j], s)
}

/// Whether the spawning beam at index `i` is discarded at initialization:
/// its shooter already has an active beam, or an earlier spawning beam of
/// the same shooter will have been initialized first.
pub open spec fn beam_conflict(bullets: Seq<Option<BulletInstance>>, i: int, s: u64) -> bool {
    old_active_conflict(bullets, s) || earlier_spawning_beam(bullets, i, s)
}

/// The bullet after its variant initializer ran: it gains its collision
/// footprint (the `Active` state) and its endurance tracking in one step,
/// so an uninitialized bullet can never register hits.
pub open spec fn activated(b: BulletInstance) -> BulletInstance {
    BulletInstance { state: BulletState::Active, endurance: Some(b.bullet.endurance), ..b }
}

/// A lane bullet's once-computed movement intent: straight along its
/// spawn facing.
pub open spec fn lane_intent(b: BulletInstance) -> BulletInstance {
    BulletInstance { movement: Some(Movement::DirectionMove(b.facing)), ..b }
}

/// A splash bullet's once-computed movement intent: its spawn facing
/// rotated by the jitter angle `th`.
pub open spec fn splash_intent(b: BulletInstance, th: int) -> BulletInstance {
    BulletInstance {
        movement: Some(Movement::DirectionMove(crate::vec2::rotate_spec(b.facing, th))),
        ..b
    }
}

/// One frame of the lifetime timer: an active bullet ages, and reaching
/// its lifetime marks it for despawn.  Marking an already-pending bullet
/// again is a no-op, and an uninitialized bullet's timer is not running.
pub open spec fn lifetime_step(b: BulletInstance, dt: int) -> BulletInstance {
    if b.state == BulletState::Active {
        let a2 = if b.age_ms + dt >= b.bullet.life_time_ms {
            b.bullet.life_time_ms as int
        } else {
            b.age_ms + dt
        };
        BulletInstance {
            age_ms: a2 as u64,
            state: if a2 >= b.bullet.life_time_ms {
                BulletState::PendingDespawn
            } else {
                BulletState::Active
            },
            ..b
        }
    } else {
        b
    }
}

/// The endurance-exhaustion sweep on one bullet: a tracked endurance
/// below zero marks the bullet for despawn and retires the tracking (its
/// job done), so the exhaustion path never also succeeds at despawn.
pub open spec fn endurance_sweep_step(b: BulletInstance) -> BulletInstance {
    match b.endurance {
        Some(Endurance::Finite(e)) => if e < 0 {
            BulletInstance { state: BulletState::PendingDespawn, endurance: None, ..b }
        } else {
            b
        },
        _ => b,
    }
}

/// Whether a pending bullet emits a succeed event as it is removed: it
/// must still carry endurance tracking, and that endurance must be
/// finite (an infinite endurance is pass-through and ends silently).
pub open spec fn pending_succeeds(b: Option<BulletInstance>) -> bool {
    match b {
        Some(inst) => inst.state == BulletState::PendingDespawn && inst.succeeds_on_despawn(),
        None => false,
    }
}

/// The succeed event bullet `i` emits as it despawns.
pub open spec fn despawn_event_of(b: BulletInstance, i: int) -> SucceedEvent {
    SucceedEvent {
        weapon: b.weapon,
        generation: b.generation,
        bullet: i as usize,
        pos: b.pos,
        facing: b.facing,
    }
}

/// The succeed events one despawn sweep emits over the first `upto`
/// bullet slots, in slot order: exactly one per pending bullet that
/// still tracks a finite endurance.
pub open spec fn despawn_events(bullets: Seq<Option<BulletInstance>>, upto: int) -> Seq<SucceedEvent>
    decreases upto,
{
    if upto <= 0 {
        Seq::empty()
    } else {
        let pre = despawn_events(bullets, upto - 1);
        if pending_succeeds(bullets[upto - 1]) {
            pre.push(despawn_event_of(bullets[upto - 1].unwrap(), upto - 1))
        } else {
            pre
        }
    }
}

/// Whether `owner` names a living character.
pub open spec fn owner_alive(chars: Seq<Option<Character>>, owner: u64) -> bool {
    owner < chars.len() && chars[owner as int] is Some
}

/// Whether a weapon emits a shot this tick: its trigger gate is open and
/// its wielder is still alive to shoot from.
pub open spec fn weapon_fires(slot: WeaponSlot, chars: Seq<Option<Character>>) -> bool {
    slot.weapon.ready() && owner_alive(chars, slot.owner)
}

/// The generation-zero spawn request weapon `idx` emits.
pub open spec fn fired_request(slot: WeaponSlot, chars: Seq<Option<Character>>, idx: int) -> SpawnRequest {
    let c = chars[slot.owner as int].unwrap();
    SpawnRequest {
        shooter_pos: c.pos,
        facing: c.facing,
        by: slot.owner,
        with: idx as u64,
        bullet: slot.weapon.loads@[0].0,
        variant: slot.weapon.loads@[0].1,
        generation: 0,
    }
}

/// The spawn requests one trigger pass emits, in weapon order.
pub open spec fn fired_requests(ws: Seq<WeaponSlot>, chars: Seq<Option<Character>>) -> Seq<SpawnRequest>
    decreases ws.len(),
{
    if ws.len() == 0 {
        Seq::empty()
    } else {
        let pre = fired_requests(ws.drop_last(), chars);
        if weapon_fires(ws.last(), chars) {
            pre.push(fired_request(ws.last(), chars, ws.len() - 1))
        } else {
            pre
        }
    }
}

/// Whether a succeed event still resolves: its weapon exists and the
/// blueprint holds the generation to fire.
pub open spec fn succession_fires(ev: SucceedEvent, ws: Seq<WeaponSlot>) -> bool {
    ev.weapon < ws.len() && ev.generation < ws[ev.weapon as int].weapon.loads@.len()
}

/// The spawn request a resolving succeed event emits: the next
/// generation, fired from the dying bullet's transform, by the original
/// shooter.
pub open spec fn succession_request(ev: SucceedEvent, ws: Seq<WeaponSlot>) -> SpawnRequest {
    let slot = ws[ev.weapon as int];
    SpawnRequest {
        shooter_pos: ev.pos,
        facing: ev.facing,
        by: slot.owner,
        with: ev.weapon,
        bullet: slot.weapon.loads@[ev.generation as int].0,
        variant: slot.weapon.loads@[ev.generation as int].1,
        generation: ev.generation,
    }
}

/// The spawn requests one drain of the succeed queue emits, in order.
pub open spec fn succession_requests(evs: Seq<SucceedEvent>, ws: Seq<WeaponSlot>) -> Seq<SpawnRequest>
    decreases evs.len(),
{
    if evs.len() == 0 {
        Seq::empty()
    } else {
        let pre = succession_requests(evs.drop_last(), ws);
        if succession_fires(evs.last(), ws) {
            pre.push(succession_request(evs.last(), ws))
        } else {
            pre
        }
    }
}

/// The per-instance expansion of the spawn queue: each request repeated
/// once per instance its variant fans out to.
pub open spec fn flat_requests(reqs: Seq<SpawnRequest>) -> Seq<SpawnRequest>
    decreases reqs.len(),
{
    if reqs.len() == 0 {
        Seq::empty()
    } else {
        flat_requests(reqs.drop_last()) + Seq::new(
            reqs.last().variant.fan_out() as nat,
            |k: int| reqs.last(),
        )
    }
}

/// A freshly spawned, still-inert bullet instance for request `req`:
/// no hits recorded, no endurance tracking yet, no collision footprint.
pub open spec fn is_fresh_instance(
    b: BulletInstance,
    req: SpawnRequest,
    chars: Seq<Option<Character>>,
) -> bool {
    &&& b.bullet == req.bullet
    &&& b.variant == req.variant
    &&& b.weapon == req.with
    &&& b.shooter == req.by
    &&& b.generation == req.generation + 1
    &&& b.hits.entries@ =~= Seq::<(u64, u32)>::empty()
    &&& b.age_ms == 0
    &&& b.endurance is None
    &&& b.player_side == (owner_alive(chars, req.by) && chars[req.by as int].unwrap().is_player)
    &&& b.state == BulletState::Spawning
    &&& b.pos == req.shooter_pos
    &&& b.facing == req.facing
    &&& b.movement is None
}

/// What the movement-targeting pass decided for one actor.
#[derive(Clone, Copy, PartialEq, Eq, Structural, Debug)]
pub enum TargetAction {
    Keep,
    SetMovement(Option<Movement>),
    ClearHostile,
}

/// The decision the movement-targeting pass takes for actor `k`.
pub open spec fn move_target_action(chars: Seq<Option<Character>>, k: int) -> TargetAction {
    match chars[k] {
        Some(c) => {
            if c.move_targeting is Some && c.hostile is Some {
                if owner_alive(chars, c.hostile.unwrap().0) {
                    TargetAction::SetMovement(
                        crate::enemy_targeting::move_intent_spec(
                            c.move_targeting.unwrap(),
                            c.pos,
                            chars[c.hostile.unwrap().0 as int].unwrap().pos,
                            chars[c.hostile.unwrap().0 as int].unwrap().vel,
                        ),
                    )
                } else {
                    TargetAction::ClearHostile
                }
            } else {
                TargetAction::Keep
            }
        },
        None => TargetAction::Keep,
    }
}

impl World {
    pub open spec fn wf(self) -> bool {
        &&& self.weapons@.len() == self.weapon_rngs@.len()
        &&& forall|i: int|
            0 <= i < self.characters@.len() ==> match #[trigger] self.characters@[i] {
                Some(c) => c.wf(),
                None => true,
            }
        &&& forall|i: int|
            0 <= i < self.bullets@.len() ==> match #[trigger] self.bullets@[i] {
                Some(b) => b.wf(),
                None => true,
            }
        &&& forall|i: int| 0 <= i < self.weapons@.len() ==> (#[trigger] self.weapons@[i]).weapon.wf()
        &&& forall|i: int|
            0 <= i < self.spawn_requests@.len() ==> (#[trigger] self.spawn_requests@[i]).wf()
        &&& forall|i: int|
            0 <= i < self.succeed_events@.len() ==> (#[trigger] self.succeed_events@[i]).wf()
        &&& beams_unique(self.bullets@)
    }

    /// An empty world whose random streams all descend from `seed`.
    pub fn new(seed: u64) -> (r: World)
        ensures
            r.characters@.len() == 0 && r.bullets@.len() == 0 && r.weapons@.len() == 0
                && r.weapon_rngs@.len() == 0 && r.spawn_requests@.len() == 0
                && r.succeed_events@.len() == 0,
            r.seed == seed,
            r.wf(),
    {
        World {
            characters: Vec::new(),
            bullets: Vec::new(),
            weapons: Vec::new(),
            weapon_rngs: Vec::new(),
            spawn_requests: Vec::new(),
            succeed_events: Vec::new(),
            seed,
            next_fork: 0,
        }
    }

    /// Add a character; its identifier is its slot index.
    pub fn spawn_character(&mut self, c: Character) -> (id: usize)
        requires
            old(self).wf(),
            c.wf(),
        ensures
            final(self).wf(),
            final(self).characters@ == old(self).characters@.push(Some(c)),
            id == old(self).characters@.len(),
            final(self).bullets@ == old(self).bullets@ && final(self).weapons@ == old(self).weapons@ && final(self).spawn_requests@ == old(self).spawn_requests@ && final(self).succeed_events@ == old(self).succeed_events@,
    {
        let id = self.characters.len();
        self.characters.push(Some(c));
        id
    }

    /// Mount a weapon on a character; the weapon's private random stream
    /// is forked off the world seed, so the whole run is a function of
    /// that seed.  The weapon's identifier is its slot index.
    pub fn add_weapon(&mut self, weapon: Weapon, owner: u64) -> (id: usize)
        requires
            old(self).wf(),
            weapon.wf(),
            old(self).next_fork < u64::MAX,
        ensures
            final(self).wf(),
            final(self).weapons@.len() == old(self).weapons@.len() + 1,
            final(self).weapons@ == old(self).weapons@.push(
                WeaponSlot { weapon, owner },
            ),
            id == old(self).weapons@.len(),
            final(self).characters@ == old(self).characters@ && final(self).bullets@ == old(self).bullets@ && final(self).spawn_requests@ == old(self).spawn_requests@ && final(self).succeed_events@ == old(self).succeed_events@,
    {
        let id = self.weapons.len();
        let fork = self.seed.wrapping_add(self.next_fork);
        self.next_fork = self.next_fork + 1;
        self.weapons.push(WeaponSlot { weapon, owner });
        self.weapon_rngs.push(crate::rng::rng_from_seed(fork));
        id
    }

    /// Remove every character whose health has reached zero.
    pub fn life_dies_system(&mut self)
        requires
            old(self).wf(),
        ensures
            final(self).wf(),
            final(self).characters@.len() == old(self).characters@.len(),
            forall|i: int|
                0 <= i < old(self).characters@.len() ==> final(self).characters@[i] == match #[trigger] old(self).characters@[i] {
                    Some(c) => if c.life <= 0 {
                        None::<Character>
                    } else {
                        Some(c)
                    },
                    None => None::<Character>,
                },
            final(self).bullets@ == old(self).bullets@ && final(self).weapons@ == old(self).weapons@ && final(self).spawn_requests@ == old(self).spawn_requests@ && final(self).succeed_events@ == old(self).succeed_events@,
    {
        let n = self.characters.len();
        let mut i: usize = 0;
        while i < n
            invariant
                self.wf(),
                n == self.characters@.len(),
                0 <= i <= n,
                self.characters@.len() == old(self).characters@.len(),
                forall|j: int|
                    0 <= j < i ==> self.characters@[j] == match #[trigger] old(self).characters@[j] {
                        Some(c) => if c.life <= 0 {
                            None::<Character>
                        } else {
                            Some(c)
                        },
                        None => None::<Character>,
                    },
                forall|j: int|
                    i <= j < n ==> self.characters@[j] == old(self).characters@[j],
                self.bullets@ == old(self).bullets@ && self.weapons@ == old(self).weapons@
                    && self.spawn_requests@ == old(self).spawn_requests@ && self.succeed_events@
                    == old(self).succeed_events@,
            decreases n - i,
        {
            let dead = match &self.characters[i] {
                Some(c) => c.life <= 0,
                None => false,
            };
            if dead {
                self.characters.set(i, None);
            }
            i = i + 1;
        }
    }

    /// Count every weapon's cooldown down by one frame.
    pub fn cooldown_system(&mut self, dt_ms: u64)
        requires
            old(self).wf(),
        ensures
            final(self).wf(),
            final(self).weapons@.len() == old(self).weapons@.len(),
            forall|i: int|
                0 <= i < old(self).weapons@.len() ==> (#[trigger] final(self).weapons@[i]).weapon
                    == (Weapon {
                    cooldown_ms: if old(self).weapons@[i].weapon.cooldown_ms >= dt_ms {
                        (old(self).weapons@[i].weapon.cooldown_ms - dt_ms) as u64
                    } else {
                        0
                    },
                    ..old(self).weapons@[i].weapon
                }) && final(self).weapons@[i].owner == old(self).weapons@[i].owner,
            final(self).characters@ == old(self).characters@ && final(self).bullets@ == old(self).bullets@ && final(self).spawn_requests@ == old(self).spawn_requests@ && final(self).succeed_events@ == old(self).succeed_events@,
    {
        let n = self.weapons.len();
        let mut i: usize = 0;
        while i < n
            invariant
                self.wf(),
                n == self.weapons@.len(),
                0 <= i <= n,
                self.weapons@.len() == old(self).weapons@.len(),
                forall|j: int|
                    0 <= j < i ==> (#[trigger] self.weapons@[j]).weapon == (Weapon {
                        cooldown_ms: if old(self).weapons@[j].weapon.cooldown_ms >= dt_ms {
                            (old(self).weapons@[j].weapon.cooldown_ms - dt_ms) as u64
                        } else {
                            0
                        },
                        ..old(self).weapons@[j].weapon
                    }) && self.weapons@[j].owner == old(self).weapons@[j].owner,
                forall|j: int| i <= j < n ==> self.weapons@[j] == old(self).weapons@[j],
                self.characters@ == old(self).characters@ && self.bullets@ == old(self).bullets@
                    && self.spawn_requests@ == old(self).spawn_requests@ && self.succeed_events@
                    == old(self).succeed_events@,
            decreases n - i,
        {
            self.weapons[i].weapon.tick_cooldown(dt_ms);
            i = i + 1;
        }
    }

    /// Fire every ready weapon from its wielder's current transform,
    /// appending generation-zero spawn requests in weapon order and arming
    /// cooldowns.  A weapon whose wielder has despawned does not fire: the
    /// missing reference is recovered locally as a no-op.
    #[verifier::loop_isolation(false)]
    pub fn shoot_system(&mut self)
        requires
            old(self).wf(),
        ensures
            final(self).wf(),
            final(self).weapons@.len() == old(self).weapons@.len(),
            forall|i: int|
                0 <= i < old(self).weapons@.len() ==> (#[trigger] final(self).weapons@[i]).owner
                    == old(self).weapons@[i].owner && final(self).weapons@[i].weapon == (
                if weapon_fires(old(self).weapons@[i], old(self).characters@) {
                    Weapon {
                        cooldown_ms: old(self).weapons@[i].weapon.armed_cooldown() as u64,
                        ..old(self).weapons@[i].weapon
                    }
                } else {
                    old(self).weapons@[i].weapon
                }),
            final(self).spawn_requests@ == old(self).spawn_requests@ + fired_requests(
                old(self).weapons@,
                old(self).characters@,
            ),
            final(self).characters@ == old(self).characters@,
            final(self).bullets@ == old(self).bullets@,
            final(self).succeed_events@ == old(self).succeed_events@,
    {
        let ghost ws0 = old(self).weapons@;
        let ghost chars0 = old(self).characters@;
        let n = self.weapons.len();
        proof {
            assert(fired_requests(ws0.take(0), chars0) =~= Seq::<SpawnRequest>::empty());
            assert(self.spawn_requests@ =~= old(self).spawn_requests@ + fired_requests(
                ws0.take(0),
                chars0,
            ));
        }
        let mut i: usize = 0;
        while i < n
            invariant
                0 <= i <= n,
                self.weapons@.len() == n,
                self.weapon_rngs@ == old(self).weapon_rngs@,
                forall|j: int|
                    0 <= j < i ==> (#[trigger] self.weapons@[j]).owner == ws0[j].owner
                        && self.weapons@[j].weapon == (if weapon_fires(ws0[j], chars0) {
                        Weapon {
                            cooldown_ms: ws0[j].weapon.armed_cooldown() as u64,
                            ..ws0[j].weapon
                        }
                    } else {
                        ws0[j].weapon
                    }),
                forall|j: int| i <= j < n ==> self.weapons@[j] == ws0[j],
                forall|j: int| 0 <= j < i ==> (#[trigger] self.weapons@[j]).weapon.wf(),
                forall|j: int|
                    0 <= j < self.spawn_requests@.len() ==> (
                    #[trigger] self.spawn_requests@[j]).wf(),
                self.spawn_requests@ == old(self).spawn_requests@ + fired_requests(
                    ws0.take(i as int),
                    chars0,
                ),
                self.characters@ == chars0,
                self.bullets@ == old(self).bullets@,
                self.succeed_events@ == old(self).succeed_events@,
            decreases n - i,
        {
            proof {
                assert(self.weapons@[i as int] == old(self).weapons@[i as int]);
            }
            let owner: u64 = self.weapons[i].owner;
            let mut fired: Option<SpawnRequest> = None;
            if owner < self.characters.len() as u64 {
                proof {
                    assert(self.characters@[owner as int] == old(self).characters@[owner as int]);
                }
                match self.characters[owner as usize] {
                    Some(c) => {
                        fired = self.weapons[i].weapon.fire(c.pos, c.facing, owner, i as u64);
                    },
                    None => {},
                }
            }
            match fired {
                Some(req) => {
                    self.spawn_requests.push(req);
                },
                None => {},
            }
            proof {
                assert(ws0.take(i + 1).drop_last() =~= ws0.take(i as int));
                assert(ws0.take(i + 1).last() == ws0[i as int]);
                assert(self.spawn_requests@ =~= old(self).spawn_requests@ + fired_requests(
                    ws0.take(i + 1),
                    chars0,
                ));
            }
            i = i + 1;
        }
        proof {
            assert(ws0.take(n as int) =~= ws0);
        }
    }

    /// Drain the succeed events of the previous tick: for each, look up
    /// the owning weapon (a vanished weapon is a local no-op) and, if its
    /// blueprint still holds the event's generation, emit the next
    /// generation's spawn request from the dying bullet's transform.
    #[verifier::loop_isolation(false)]
    pub fn bullet_succeed(&mut self)
        requires
            old(self).wf(),
        ensures
            final(self).wf(),
            final(self).succeed_events@.len() == 0,
            final(self).spawn_requests@ == old(self).spawn_requests@ + succession_requests(
                old(self).succeed_events@,
                old(self).weapons@,
            ),
            final(self).characters@ == old(self).characters@,
            final(self).bullets@ == old(self).bullets@,
            final(self).weapons@ == old(self).weapons@,
    {
        let ghost evs0 = old(self).succeed_events@;
        let n = self.succeed_events.len();
        proof {
            assert(succession_requests(evs0.take(0), old(self).weapons@) =~= Seq::<
                SpawnRequest,
            >::empty());
            assert(self.spawn_requests@ =~= old(self).spawn_requests@ + succession_requests(
                evs0.take(0),
                old(self).weapons@,
            ));
        }
        let mut k: usize = 0;
        while k < n
            invariant
                0 <= k <= n,
                self.succeed_events@ == evs0,
                self.weapons@ == old(self).weapons@,
                self.weapon_rngs@ == old(self).weapon_rngs@,
                self.characters@ == old(self).characters@,
                self.bullets@ == old(self).bullets@,
                forall|j: int|
                    0 <= j < self.spawn_requests@.len() ==> (
                    #[trigger] self.spawn_requests@[j]).wf(),
                self.spawn_requests@ == old(self).spawn_requests@ + succession_requests(
                    evs0.take(k as int),
                    old(self).weapons@,
                ),
            decreases n - k,
        {
            proof {
                assert(self.succeed_events@[k as int] == old(self).succeed_events@[k as int]);
            }
            let ev = self.succeed_events[k];
            if ev.weapon < self.weapons.len() as u64 {
                proof {
                    assert(self.weapons@[ev.weapon as int] == old(self).weapons@[ev.weapon as int]);
                }
                let owner = self.weapons[ev.weapon as usize].owner;
                match self.weapons[ev.weapon as usize].weapon.next_load(ev.generation) {
                    Some(load) => {
                        self.spawn_requests.push(
                            SpawnRequest {
                                shooter_pos: ev.pos,
                                facing: ev.facing,
                                by: owner,
                                with: ev.weapon,
                                bullet: load.0,
                                variant: load.1,
                                generation: ev.generation,
                            },
                        );
                    },
                    None => {},
                }
            }
            proof {
                assert(evs0.take(k + 1).drop_last() =~= evs0.take(k as int));
                assert(evs0.take(k + 1).last() == evs0[k as int]);
                assert(self.spawn_requests@ =~= old(self).spawn_requests@ + succession_requests(
                    evs0.take(k + 1),
                    old(self).weapons@,
                ));
            }
            k = k + 1;
        }
        proof {
            assert(evs0.take(n as int) =~= evs0);
        }
        self.succeed_events = Vec::new();
    }

    /// Drain the spawn queue: each request becomes one inert bullet
    /// instance — or, for a splash variant, its whole fan — carrying the
    /// blueprint value, the next generation index, an empty hit ledger and
    /// the shooter's faction.  Until a variant initializer runs, the
    /// instance has no collision footprint and no endurance tracking.
    #[verifier::loop_isolation(false)]
    pub fn bullet_spawner(&mut self)
        requires
            old(self).wf(),
        ensures
            final(self).wf(),
            final(self).spawn_requests@.len() == 0,
            final(self).bullets@.len() == old(self).bullets@.len() + flat_requests(
                old(self).spawn_requests@,
            ).len(),
            forall|k: int|
                0 <= k < old(self).bullets@.len() ==> final(self).bullets@[k] == old(self).bullets@[k],
            forall|k: int|
                0 <= k < flat_requests(old(self).spawn_requests@).len() ==> (#[trigger] final(self).bullets@[old(self).bullets@.len() + k]) is Some && is_fresh_instance(
                    final(self).bullets@[old(self).bullets@.len() + k].unwrap(),
                    flat_requests(old(self).spawn_requests@)[k],
                    old(self).characters@,
                ),
            final(self).characters@ == old(self).characters@,
            final(self).weapons@ == old(self).weapons@,
            final(self).succeed_events@ == old(self).succeed_events@,
    {
        let ghost reqs0 = old(self).spawn_requests@;
        let ghost chars0 = old(self).characters@;
        let ghost base = old(self).bullets@.len() as int;
        let n = self.spawn_requests.len();
        proof {
            assert(flat_requests(reqs0.take(0)) =~= Seq::<SpawnRequest>::empty());
        }
        let mut i: usize = 0;
        while i < n
            invariant
                0 <= i <= n,
                self.spawn_requests@ == reqs0,
                self.characters@ == chars0,
                self.weapons@ == old(self).weapons@,
                self.weapon_rngs@ == old(self).weapon_rngs@,
                self.succeed_events@ == old(self).succeed_events@,
                self.bullets@.len() == base + flat_requests(reqs0.take(i as int)).len(),
                forall|k: int| 0 <= k < base ==> self.bullets@[k] == old(self).bullets@[k],
                forall|k: int|
                    0 <= k < flat_requests(reqs0.take(i as int)).len() ==> (#[trigger] self.bullets@[base + k]) is Some
                        && is_fresh_instance(
                        self.bullets@[base + k].unwrap(),
                        flat_requests(reqs0.take(i as int))[k],
                        chars0,
                    ),
                beams_unique(self.bullets@),
                forall|k: int|
                    base <= k < self.bullets@.len() ==> (#[trigger] self.bullets@[k]) is Some
                        && self.bullets@[k].unwrap().wf() && self.bullets@[k].unwrap().state
                        == BulletState::Spawning,
            decreases n - i,
        {
            let req = self.spawn_requests[i];
            let side: bool = if req.by < self.characters.len() as u64 {
                match self.characters[req.by as usize] {
                    Some(c) => c.is_player,
                    None => false,
                }
            } else {
                false
            };
            let repeats: usize = match req.variant {
                BulletVariant::Splash { count, .. } => count,
                _ => 1,
            };
            let ghost pre_len = self.bullets@.len() as int;
            let ghost flat_i = flat_requests(reqs0.take(i as int));
            let mut r: usize = 0;
            while r < repeats
                invariant
                    0 <= r <= repeats,
                    repeats == req.variant.fan_out(),
                    req == reqs0[i as int],
                    0 <= i < n,
                    self.spawn_requests@ == reqs0,
                    self.characters@ == chars0,
                    self.weapons@ == old(self).weapons@,
                    self.weapon_rngs@ == old(self).weapon_rngs@,
                    self.succeed_events@ == old(self).succeed_events@,
                    side == (owner_alive(chars0, req.by) && chars0[req.by as int].unwrap().is_player),
                    pre_len == base + flat_i.len(),
                    self.bullets@.len() == pre_len + r,
                    forall|k: int| 0 <= k < base ==> self.bullets@[k] == old(self).bullets@[k],
                    forall|k: int|
                        0 <= k < flat_i.len() ==> (#[trigger] self.bullets@[base + k]) is Some
                            && is_fresh_instance(
                            self.bullets@[base + k].unwrap(),
                            flat_i[k],
                            chars0,
                        ),
                    forall|k: int|
                        pre_len <= k < self.bullets@.len() ==> (#[trigger] self.bullets@[k]) is Some
                            && is_fresh_instance(self.bullets@[k].unwrap(), req, chars0),
                    beams_unique(self.bullets@),
                    forall|k: int|
                        base <= k < self.bullets@.len() ==> (#[trigger] self.bullets@[k]) is Some
                            && self.bullets@[k].unwrap().wf() && self.bullets@[k].unwrap().state
                            == BulletState::Spawning,
                decreases repeats - r,
            {
                let inst = BulletInstance {
                    bullet: req.bullet,
                    variant: req.variant,
                    weapon: req.with,
                    shooter: req.by,
                    generation: req.generation + 1,
                    hits: HitCount::new(),
                    age_ms: 0,
                    endurance: None,
                    player_side: side,
                    state: BulletState::Spawning,
                    pos: req.shooter_pos,
                    facing: req.facing,
                    movement: None,
                };
                let ghost before = self.bullets@;
                self.bullets.push(Some(inst));
                proof {
                    assert forall|a: int, b: int, s: u64|
                        0 <= a < b < self.bullets@.len() && active_beam_of(self.bullets@[a], s)
                            && active_beam_of(self.bullets@[b], s) implies false by {
                        if b < before.len() {
                            assert(active_beam_of(before[a], s) && active_beam_of(before[b], s));
                        } else {
                            assert(self.bullets@[b] == Some(inst));
                        }
                    }
                }
                r = r + 1;
            }
            proof {
                assert(reqs0.take(i + 1).drop_last() =~= reqs0.take(i as int));
                assert(reqs0.take(i + 1).last() == reqs0[i as int]);
                assert(flat_requests(reqs0.take(i + 1)) =~= flat_i + Seq::new(
                    req.variant.fan_out() as nat,
                    |k: int| req,
                ));
            }
            i = i + 1;
        }
        proof {
            assert(reqs0.take(n as int) =~= reqs0);
        }
        self.spawn_requests = Vec::new();
    }

    /// Run every variant's initializer over the freshly spawned bullets,
    /// in spawn order.  Each spawning bullet atomically gains its
    /// collision footprint and endurance tracking — except a beam whose
    /// shooter already has a beam (active, or earlier in the spawn
    /// order): that one is discarded instead, so at most one beam ever
    /// exists per shooter.
    #[verifier::loop_isolation(false)]
    pub fn bullet_initializers(&mut self)
        requires
            old(self).wf(),
        ensures
            final(self).wf(),
            final(self).bullets@.len() == old(self).bullets@.len(),
            forall|i: int|
                0 <= i < old(self).bullets@.len() ==> final(self).bullets@[i] == match #[trigger] old(self).bullets@[i] {
                    Some(b) => {
                        if b.state != BulletState::Spawning {
                            old(self).bullets@[i]
                        } else if !(b.variant is Beam) {
                            Some(activated(b))
                        } else if beam_conflict(old(self).bullets@, i, b.shooter) {
                            None::<BulletInstance>
                        } else {
                            Some(activated(b))
                        }
                    },
                    None => None::<BulletInstance>,
                },
            final(self).characters@ == old(self).characters@,
            final(self).weapons@ == old(self).weapons@,
            final(self).spawn_requests@ == old(self).spawn_requests@,
            final(self).succeed_events@ == old(self).succeed_events@,
    {
        let ghost bs0 = old(self).bullets@;
        let n = self.bullets.len();
        let mut active_shooters: Vec<u64> = Vec::new();
        let mut j: usize = 0;
        while j < n
            invariant
                0 <= j <= n,
                self.bullets@ == bs0,
                self.characters@ == old(self).characters@,
                self.weapons@ == old(self).weapons@,
                self.weapon_rngs@ == old(self).weapon_rngs@,
                self.spawn_requests@ == old(self).spawn_requests@,
                self.succeed_events@ == old(self).succeed_events@,
                forall|s: u64|
                    #[trigger] active_shooters@.contains(s) <==> exists|k: int|
                        0 <= k < j && #[trigger] active_beam_of(bs0[k], s),
            decreases n - j,
        {
            let ghost acts_before = active_shooters@;
            let is_active_beam = match &self.bullets[j] {
                Some(inst) => match inst.variant {
                    BulletVariant::Beam { .. } => inst.state == BulletState::Active,
                    _ => false,
                },
                None => false,
            };
            if is_active_beam {
                let s = match &self.bullets[j] {
                    Some(inst) => inst.shooter,
                    None => 0,
                };
                active_shooters.push(s);
                proof {
                    assert(active_beam_of(bs0[j as int], s));
                    assert forall|t: u64| #[trigger] active_shooters@.contains(t) implies exists|k: int|
                        0 <= k < j + 1 && #[trigger] active_beam_of(bs0[k], t) by {
                        if t == s {
                            assert(active_beam_of(bs0[j as int], t));
                        } else {
                            let idx = choose|idx: int|
                                0 <= idx < active_shooters@.len() && active_shooters@[idx] == t;
                            assert(acts_before[idx] == t);
                            assert(acts_before.contains(t));
                        }
                    }
                    assert forall|t: u64|
                        exists|k: int| 0 <= k < j + 1 && #[trigger] active_beam_of(bs0[k], t) implies
                        #[trigger] active_shooters@.contains(t) by {
                        let k = choose|k: int| 0 <= k < j + 1 && active_beam_of(bs0[k], t);
                        if k < j {
                            assert(acts_before.contains(t));
                            let idx = choose|idx: int|
                                0 <= idx < acts_before.len() && acts_before[idx] == t;
                            assert(active_shooters@[idx] == t);
                        } else {
                            assert(t == s);
                            assert(active_shooters@[active_shooters@.len() - 1] == s);
                        }
                    }
                }
            } else {
                proof {
                    assert forall|t: u64|
                        exists|k: int| 0 <= k < j + 1 && #[trigger] active_beam_of(bs0[k], t) implies
                        #[trigger] active_shooters@.contains(t) by {
                        let k = choose|k: int| 0 <= k < j + 1 && active_beam_of(bs0[k], t);
                        assert(k < j || !active_beam_of(bs0[j as int], t));
                    }
                }
            }
            j = j + 1;
        }
        let mut new_beam_shooters: Vec<u64> = Vec::new();
        let mut i: usize = 0;
        while i < n
            invariant
                0 <= i <= n,
                self.bullets@.len() == n,
                self.characters@ == old(self).characters@,
                self.weapons@ == old(self).weapons@,
                self.weapon_rngs@ == old(self).weapon_rngs@,
                self.spawn_requests@ == old(self).spawn_requests@,
                self.succeed_events@ == old(self).succeed_events@,
                forall|k: int| i <= k < n ==> self.bullets@[k] == bs0[k],
                forall|k: int|
                    0 <= k < i ==> self.bullets@[k] == match #[trigger] bs0[k] {
                        Some(b) => {
                            if b.state != BulletState::Spawning {
                                bs0[k]
                            } else if !(b.variant is Beam) {
                                Some(activated(b))
                            } else if beam_conflict(bs0, k, b.shooter) {
                                None::<BulletInstance>
                            } else {
                                Some(activated(b))
                            }
                        },
                        None => None::<BulletInstance>,
                    },
                forall|s: u64|
                    #[trigger] active_shooters@.contains(s) <==> old_active_conflict(bs0, s),
                forall|s: u64|
                    #[trigger] new_beam_shooters@.contains(s) <==> (!old_active_conflict(bs0, s)
                        && earlier_spawning_beam(bs0, i as int, s)),
                forall|k: int|
                    0 <= k < n ==> match #[trigger] self.bullets@[k] {
                        Some(b) => b.wf(),
                        None => true,
                    },
                beams_unique(self.bullets@),
            decreases n - i,
        {
            let ghost news_before = new_beam_shooters@;
            let ghost pre = self.bullets@;
            let (is_spawning, is_beam, shooter) = match &self.bullets[i] {
                Some(inst) => (
                    inst.state == BulletState::Spawning,
                    matches!(inst.variant, BulletVariant::Beam { .. }),
                    inst.shooter,
                ),
                None => (false, false, 0u64),
            };
            if is_spawning {
                let ghost b = bs0[i as int].unwrap();
                if is_beam {
                    let conflict = shooter_in(&active_shooters, shooter) || shooter_in(
                        &new_beam_shooters,
                        shooter,
                    );
                    proof {
                        assert(spawning_beam_of(bs0[i as int], shooter));
                        assert(conflict == beam_conflict(bs0, i as int, shooter));
                    }
                    if conflict {
                        self.bullets.set(i, None);
                    } else {
                        match &mut self.bullets[i] {
                            Some(inst) => {
                                inst.state = BulletState::Active;
                                inst.endurance = Some(inst.bullet.endurance);
                            },
                            None => {},
                        }
                        new_beam_shooters.push(shooter);
                        proof {
                            assert(self.bullets@[i as int] == Some(activated(b)));
                            assert forall|a: int, c: int, s: u64|
                                0 <= a < c < self.bullets@.len() && active_beam_of(
                                    self.bullets@[a],
                                    s,
                                ) && active_beam_of(self.bullets@[c], s) implies false by {
                                if a != i && c != i {
                                    assert(active_beam_of(pre[a], s) && active_beam_of(pre[c], s));
                                } else {
                                    let o = if a == i {
                                        c
                                    } else {
                                        a
                                    };
                                    assert(s == shooter);
                                    assert(active_beam_of(self.bullets@[o], s));
                                    if o > i {
                                        assert(self.bullets@[o] == bs0[o]);
                                        assert(old_active_conflict(bs0, shooter));
                                    } else {
                                        assert(self.bullets@[o] == pre[o]);
                                        match bs0[o] {
                                            Some(bo) => {
                                                if bo.state != BulletState::Spawning {
                                                    assert(pre[o] == bs0[o]);
                                                    assert(old_active_conflict(bs0, shooter));
                                                } else {
                                                    assert(pre[o] == Some(activated(bo))
                                                        || pre[o] is None);
                                                    assert(spawning_beam_of(bs0[o], shooter));
                                                    assert(earlier_spawning_beam(
                                                        bs0,
                                                        i as int,
                                                        shooter,
                                                    ));
                                                }
                                            },
                                            None => {
                                                assert(pre[o] is None);
                                            },
                                        }
                                    }
                                }
                            }
                        }
                    }
                } else {
                    match &mut self.bullets[i] {
                        Some(inst) => {
                            inst.state = BulletState::Active;
                            inst.endurance = Some(inst.bullet.endurance);
                        },
                        None => {},
                    }
                    proof {
                        assert(self.bullets@[i as int] == Some(activated(b)));
                        assert(!(activated(b).variant is Beam));
                        assert forall|a: int, c: int, s: u64|
                            0 <= a < c < self.bullets@.len() && active_beam_of(self.bullets@[a], s)
                                && active_beam_of(self.bullets@[c], s) implies false by {
                            if a != i && c != i {
                                assert(active_beam_of(pre[a], s) && active_beam_of(pre[c], s));
                            }
                        }
                    }
                }
            }
            proof {
                broadcast use vstd::seq_lib::lemma_seq_contains_after_push;

                assert forall|s: u64| #[trigger] new_beam_shooters@.contains(s) implies (
                !old_active_conflict(bs0, s) && earlier_spawning_beam(bs0, i + 1, s)) by {
                    if news_before.contains(s) {
                        let w = choose|w: int| 0 <= w < i && #[trigger] spawning_beam_of(bs0[w], s);
                        assert(spawning_beam_of(bs0[w], s));
                    } else {
                        assert(spawning_beam_of(bs0[i as int], s));
                    }
                }
                assert forall|s: u64|
                    !old_active_conflict(bs0, s) && earlier_spawning_beam(bs0, i + 1, s) implies
                    #[trigger] new_beam_shooters@.contains(s) by {
                    let w = choose|w: int| 0 <= w < i + 1 && #[trigger] spawning_beam_of(bs0[w], s);
                    if w < i {
                        assert(earlier_spawning_beam(bs0, i as int, s));
                        assert(news_before.contains(s));
                    }
                }
            }
            i = i + 1;
        }
    }
    /// Resolve each freshly activated bullet's movement intent, once.
    /// Lanes head straight along their spawn facing; splashes jitter that
    /// facing by a uniform random angle within their spread, drawn from
    /// the owning weapon's private stream (a vanished weapon leaves the
    /// bullet unresolved this tick); explosions and beams have no
    /// movement intent.
    #[verifier::loop_isolation(false)]
    pub fn bullet_move_intents(&mut self)
        requires
            old(self).wf(),
        ensures
            final(self).wf(),
            final(self).bullets@.len() == old(self).bullets@.len(),
            forall|i: int|
                0 <= i < old(self).bullets@.len() ==> match #[trigger] old(self).bullets@[i] {
                    Some(b) => {
                        if b.state == BulletState::Active && b.movement is None {
                            match b.variant {
                                BulletVariant::Lane => final(self).bullets@[i] == Some(
                                    lane_intent(b),
                                ),
                                BulletVariant::Splash { count, angle } => {
                                    if b.weapon < old(self).weapons@.len() {
                                        exists|th: int|
                                            -angle <= th <= angle && final(self).bullets@[i]
                                                == Some(#[trigger] splash_intent(b, th))
                                    } else {
                                        final(self).bullets@[i] == old(self).bullets@[i]
                                    }
                                },
                                _ => final(self).bullets@[i] == old(self).bullets@[i],
                            }
                        } else {
                            final(self).bullets@[i] == old(self).bullets@[i]
                        }
                    },
                    None => final(self).bullets@[i] is None,
                },
            final(self).characters@ == old(self).characters@,
            final(self).weapons@ == old(self).weapons@,
            final(self).spawn_requests@ == old(self).spawn_requests@,
            final(self).succeed_events@ == old(self).succeed_events@,
    {
        let ghost bs0 = old(self).bullets@;
        let n = self.bullets.len();
        let mut i: usize = 0;
        while i < n
            invariant
                0 <= i <= n,
                self.bullets@.len() == n,
                self.characters@ == old(self).characters@,
                self.weapons@ == old(self).weapons@,
                self.weapon_rngs@.len() == old(self).weapon_rngs@.len(),
                self.spawn_requests@ == old(self).spawn_requests@,
                self.succeed_events@ == old(self).succeed_events@,
                forall|k: int| i <= k < n ==> self.bullets@[k] == bs0[k],
                forall|k: int|
                    0 <= k < i ==> match #[trigger] bs0[k] {
                        Some(b) => {
                            if b.state == BulletState::Active && b.movement is None {
                                match b.variant {
                                    BulletVariant::Lane => self.bullets@[k] == Some(
                                        lane_intent(b),
                                    ),
                                    BulletVariant::Splash { count, angle } => {
                                        if b.weapon < old(self).weapons@.len() {
                                            exists|th: int|
                                                -angle <= th <= angle && self.bullets@[k] == Some(
                                                    #[trigger] splash_intent(b, th),
                                                )
                                        } else {
                                            self.bullets@[k] == bs0[k]
                                        }
                                    },
                                    _ => self.bullets@[k] == bs0[k],
                                }
                            } else {
                                self.bullets@[k] == bs0[k]
                            }
                        },
                        None => self.bullets@[k] is None,
                    },
                forall|k: int|
                    0 <= k < n ==> match #[trigger] self.bullets@[k] {
                        Some(b) => b.wf(),
                        None => true,
                    },
                beams_unique(self.bullets@),
            decreases n - i,
        {
            let ghost pre = self.bullets@;
            let (ready, variant, facing, weapon_id) = match &self.bullets[i] {
                Some(inst) => (
                    inst.state == BulletState::Active && inst.movement.is_none(),
                    inst.variant,
                    inst.facing,
                    inst.weapon,
                ),
                None => (false, BulletVariant::Lane, Vec2m { x: 0, y: 0 }, 0u64),
            };
            if ready {
                let ghost b = bs0[i as int].unwrap();
                match variant {
                    BulletVariant::Lane => {
                        match &mut self.bullets[i] {
                            Some(inst) => {
                                inst.movement = Some(Movement::DirectionMove(inst.facing));
                            },
                            None => {},
                        }
                        proof {
                            assert(self.bullets@[i as int] == Some(lane_intent(b)));
                        }
                    },
                    BulletVariant::Splash { count: _, angle } => {
                        if weapon_id < self.weapons.len() as u64 {
                            let th: i64 = if angle == 0 {
                                0
                            } else {
                                crate::rng::rng_range(
                                    &mut self.weapon_rngs[weapon_id as usize],
                                    -angle,
                                    angle,
                                )
                            };
                            let dir = crate::vec2::rotate(facing, th);
                            match &mut self.bullets[i] {
                                Some(inst) => {
                                    inst.movement = Some(Movement::DirectionMove(dir));
                                },
                                None => {},
                            }
                            proof {
                                assert(self.bullets@[i as int] == Some(
                                    splash_intent(b, th as int),
                                ));
                            }
                        }
                    },
                    _ => {},
                }
            }
            proof {
                assert forall|a: int, c: int, s: u64|
                    0 <= a < c < self.bullets@.len() && active_beam_of(self.bullets@[a], s)
                        && active_beam_of(self.bullets@[c], s) implies false by {
                    assert(active_beam_of(pre[a], s) && active_beam_of(pre[c], s));
                }
            }
            i = i + 1;
        }
    }

    /// Re-orient every active beam to its shooter's live aim: a beam
    /// tracks the shooter's aim point from the beam's own base every
    /// tick, rather than capturing a direction once.  A vanished shooter
    /// is a local no-op.
    #[verifier::loop_isolation(false)]
    pub fn lazer_shot_move_system(&mut self)
        requires
            old(self).wf(),
        ensures
            final(self).wf(),
            final(self).bullets@.len() == old(self).bullets@.len(),
            forall|i: int|
                0 <= i < old(self).bullets@.len() ==> match #[trigger] old(self).bullets@[i] {
                    Some(b) => {
                        if b.state == BulletState::Active && b.variant is Beam && owner_alive(
                            old(self).characters@,
                            b.shooter,
                        ) {
                            final(self).bullets@[i] == Some(
                                BulletInstance {
                                    facing: beam_facing(
                                        b,
                                        old(self).characters@[b.shooter as int].unwrap(),
                                    ),
                                    ..b
                                },
                            )
                        } else {
                            final(self).bullets@[i] == old(self).bullets@[i]
                        }
                    },
                    None => final(self).bullets@[i] is None,
                },
            final(self).characters@ == old(self).characters@,
            final(self).weapons@ == old(self).weapons@,
            final(self).spawn_requests@ == old(self).spawn_requests@,
            final(self).succeed_events@ == old(self).succeed_events@,
    {
        let ghost bs0 = old(self).bullets@;
        let n = self.bullets.len();
        let mut i: usize = 0;
        while i < n
            invariant
                0 <= i <= n,
                self.bullets@.len() == n,
                self.characters@ == old(self).characters@,
                self.weapons@ == old(self).weapons@,
                self.weapon_rngs@ == old(self).weapon_rngs@,
                self.spawn_requests@ == old(self).spawn_requests@,
                self.succeed_events@ == old(self).succeed_events@,
                forall|k: int| i <= k < n ==> self.bullets@[k] == bs0[k],
                forall|k: int|
                    0 <= k < i ==> match #[trigger] bs0[k] {
                        Some(b) => {
                            if b.state == BulletState::Active && b.variant is Beam && owner_alive(
                                old(self).characters@,
                                b.shooter,
                            ) {
                                self.bullets@[k] == Some(
                                    BulletInstance {
                                        facing: beam_facing(
                                            b,
                                            old(self).characters@[b.shooter as int].unwrap(),
                                        ),
                                        ..b
                                    },
                                )
                            } else {
                                self.bullets@[k] == bs0[k]
                            }
                        },
                        None => self.bullets@[k] is None,
                    },
                forall|k: int|
                    0 <= k < n ==> match #[trigger] self.bullets@[k] {
                        Some(b) => b.wf(),
                        None => true,
                    },
                beams_unique(self.bullets@),
            decreases n - i,
        {
            let ghost pre = self.bullets@;
            let (is_beam, shooter, pos) = match &self.bullets[i] {
                Some(inst) => (
                    inst.state == BulletState::Active && matches!(
                        inst.variant,
                        BulletVariant::Beam { .. },
                    ),
                    inst.shooter,
                    inst.pos,
                ),
                None => (false, 0u64, Vec2m { x: 0, y: 0 }),
            };
            if is_beam && shooter < self.characters.len() as u64 {
                let ghost b = bs0[i as int].unwrap();
                match self.characters[shooter as usize] {
                    Some(c) => {
                        let d = c.aim.sub(pos);
                        let f = if d.x == 0 && d.y == 0 {
                            match &self.bullets[i] {
                                Some(inst) => inst.facing,
                                None => Vec2m { x: 0, y: 0 },
                            }
                        } else {
                            crate::vec2::norm_scale(d, 1000)
                        };
                        match &mut self.bullets[i] {
                            Some(inst) => {
                                inst.facing = f;
                            },
                            None => {},
                        }
                        proof {
                            assert(self.bullets@[i as int] == Some(
                                BulletInstance {
                                    facing: beam_facing(
                                        b,
                                        old(self).characters@[b.shooter as int].unwrap(),
                                    ),
                                    ..b
                                },
                            ));
                        }
                    },
                    None => {},
                }
            }
            proof {
                assert forall|a: int, c: int, s: u64|
                    0 <= a < c < self.bullets@.len() && active_beam_of(self.bullets@[a], s)
                        && active_beam_of(self.bullets@[c], s) implies false by {
                    assert(active_beam_of(pre[a], s) && active_beam_of(pre[c], s));
                }
            }
            i = i + 1;
        }
    }

    /// Run every active bullet's lifetime timer forward one frame; a
    /// bullet whose lifetime has elapsed is marked for despawn.
    #[verifier::loop_isolation(false)]
    pub fn bullet_lifetime(&mut self, dt_ms: u64)
        requires
            old(self).wf(),
            dt_ms <= crate::movement::FRAME_LIMIT_MS,
        ensures
            final(self).wf(),
            final(self).bullets@.len() == old(self).bullets@.len(),
            forall|i: int|
                0 <= i < old(self).bullets@.len() ==> final(self).bullets@[i] == match #[trigger] old(self).bullets@[i] {
                    Some(b) => Some(lifetime_step(b, dt_ms as int)),
                    None => None::<BulletInstance>,
                },
            final(self).characters@ == old(self).characters@,
            final(self).weapons@ == old(self).weapons@,
            final(self).spawn_requests@ == old(self).spawn_requests@,
            final(self).succeed_events@ == old(self).succeed_events@,
    {
        let ghost bs0 = old(self).bullets@;
        let n = self.bullets.len();
        let mut i: usize = 0;
        while i < n
            invariant
                0 <= i <= n,
                self.bullets@.len() == n,
                self.characters@ == old(self).characters@,
                self.weapons@ == old(self).weapons@,
                self.weapon_rngs@ == old(self).weapon_rngs@,
                self.spawn_requests@ == old(self).spawn_requests@,
                self.succeed_events@ == old(self).succeed_events@,
                forall|k: int| i <= k < n ==> self.bullets@[k] == bs0[k],
                forall|k: int|
                    0 <= k < i ==> self.bullets@[k] == match #[trigger] bs0[k] {
                        Some(b) => Some(lifetime_step(b, dt_ms as int)),
                        None => None::<BulletInstance>,
                    },
                forall|k: int|
                    0 <= k < n ==> match #[trigger] self.bullets@[k] {
                        Some(b) => b.wf(),
                        None => true,
                    },
                beams_unique(self.bullets@),
            decreases n - i,
        {
            let ghost pre = self.bullets@;
            let (is_active, age, lt) = match &self.bullets[i] {
                Some(inst) => (inst.state == BulletState::Active, inst.age_ms, inst.bullet.life_time_ms),
                None => (false, 0u64, 0u64),
            };
            if is_active {
                let expired = age >= lt || dt_ms >= lt - age;
                match &mut self.bullets[i] {
                    Some(inst) => {
                        if expired {
                            inst.age_ms = lt;
                            inst.state = BulletState::PendingDespawn;
                        } else {
                            inst.age_ms = age + dt_ms;
                        }
                    },
                    None => {},
                }
            }
            proof {
                assert(self.bullets@[i as int] == (match bs0[i as int] {
                    Some(b) => Some(lifetime_step(b, dt_ms as int)),
                    None => None::<BulletInstance>,
                }));
                assert forall|a: int, c: int, s: u64|
                    0 <= a < c < self.bullets@.len() && active_beam_of(self.bullets@[a], s)
                        && active_beam_of(self.bullets@[c], s) implies false by {
                    assert(active_beam_of(pre[a], s) && active_beam_of(pre[c], s));
                }
            }
            i = i + 1;
        }
    }

    /// Sweep endurance tracking: any bullet whose tracked endurance has
    /// dropped below zero is marked for despawn and loses the tracking.
    #[verifier::loop_isolation(false)]
    pub fn bullet_endurance(&mut self)
        requires
            old(self).wf(),
        ensures
            final(self).wf(),
            final(self).bullets@.len() == old(self).bullets@.len(),
            forall|i: int|
                0 <= i < old(self).bullets@.len() ==> final(self).bullets@[i] == match #[trigger] old(self).bullets@[i] {
                    Some(b) => Some(endurance_sweep_step(b)),
                    None => None::<BulletInstance>,
                },
            final(self).characters@ == old(self).characters@,
            final(self).weapons@ == old(self).weapons@,
            final(self).spawn_requests@ == old(self).spawn_requests@,
            final(self).succeed_events@ == old(self).succeed_events@,
    {
        let ghost bs0 = old(self).bullets@;
        let n = self.bullets.len();
        let mut i: usize = 0;
        while i < n
            invariant
                0 <= i <= n,
                self.bullets@.len() == n,
                self.characters@ == old(self).characters@,
                self.weapons@ == old(self).weapons@,
                self.weapon_rngs@ == old(self).weapon_rngs@,
                self.spawn_requests@ == old(self).spawn_requests@,
                self.succeed_events@ == old(self).succeed_events@,
                forall|k: int| i <= k < n ==> self.bullets@[k] == bs0[k],
                forall|k: int|
                    0 <= k < i ==> self.bullets@[k] == match #[trigger] bs0[k] {
                        Some(b) => Some(endurance_sweep_step(b)),
                        None => None::<BulletInstance>,
                    },
                forall|k: int|
                    0 <= k < n ==> match #[trigger] self.bullets@[k] {
                        Some(b) => b.wf(),
                        None => true,
                    },
                beams_unique(self.bullets@),
            decreases n - i,
        {
            let ghost pre = self.bullets@;
            let exhausted = match &self.bullets[i] {
                Some(inst) => match inst.endurance {
                    Some(Endurance::Finite(e)) => e < 0,
                    _ => false,
                },
                None => false,
            };
            if exhausted {
                match &mut self.bullets[i] {
                    Some(inst) => {
                        inst.state = BulletState::PendingDespawn;
                        inst.endurance = None;
                    },
                    None => {},
                }
            }
            proof {
                assert(self.bullets@[i as int] == (match bs0[i as int] {
                    Some(b) => Some(endurance_sweep_step(b)),
                    None => None::<BulletInstance>,
                }));
                assert forall|a: int, c: int, s: u64|
                    0 <= a < c < self.bullets@.len() && active_beam_of(self.bullets@[a], s)
                        && active_beam_of(self.bullets@[c], s) implies false by {
                    assert(active_beam_of(pre[a], s) && active_beam_of(pre[c], s));
                }
            }
            i = i + 1;
        }
    }

    /// Remove every bullet marked for despawn.  A removed bullet that
    /// still carries a finite endurance emits exactly one succeed event
    /// — its link to the next generation — before it goes; bullets with
    /// infinite endurance, or whose endurance tracking was already
    /// retired by exhaustion, are removed silently.
    #[verifier::loop_isolation(false)]
    pub fn bullet_before_despawn(&mut self)
        requires
            old(self).wf(),
        ensures
            final(self).wf(),
            final(self).bullets@.len() == old(self).bullets@.len(),
            forall|i: int|
                0 <= i < old(self).bullets@.len() ==> final(self).bullets@[i] == match #[trigger] old(self).bullets@[i] {
                    Some(b) => if b.state == BulletState::PendingDespawn {
                        None::<BulletInstance>
                    } else {
                        Some(b)
                    },
                    None => None::<BulletInstance>,
                },
            final(self).succeed_events@ == old(self).succeed_events@ + despawn_events(
                old(self).bullets@,
                old(self).bullets@.len() as int,
            ),
            final(self).characters@ == old(self).characters@,
            final(self).weapons@ == old(self).weapons@,
            final(self).spawn_requests@ == old(self).spawn_requests@,
    {
        let ghost bs0 = old(self).bullets@;
        let n = self.bullets.len();
        proof {
            assert(despawn_events(bs0, 0) =~= Seq::<SucceedEvent>::empty());
            assert(self.succeed_events@ =~= old(self).succeed_events@ + despawn_events(bs0, 0));
        }
        let mut i: usize = 0;
        while i < n
            invariant
                0 <= i <= n,
                self.bullets@.len() == n,
                self.characters@ == old(self).characters@,
                self.weapons@ == old(self).weapons@,
                self.weapon_rngs@ == old(self).weapon_rngs@,
                self.spawn_requests@ == old(self).spawn_requests@,
                forall|k: int| i <= k < n ==> self.bullets@[k] == bs0[k],
                forall|k: int|
                    0 <= k < i ==> self.bullets@[k] == match #[trigger] bs0[k] {
                        Some(b) => if b.state == BulletState::PendingDespawn {
                            None::<BulletInstance>
                        } else {
                            Some(b)
                        },
                        None => None::<BulletInstance>,
                    },
                self.succeed_events@ == old(self).succeed_events@ + despawn_events(bs0, i as int),
                forall|j: int|
                    0 <= j < self.succeed_events@.len() ==> (
                    #[trigger] self.succeed_events@[j]).wf(),
                forall|k: int|
                    0 <= k < n ==> match #[trigger] self.bullets@[k] {
                        Some(b) => b.wf(),
                        None => true,
                    },
                beams_unique(self.bullets@),
            decreases n - i,
        {
            let ghost pre = self.bullets@;
            let (is_pending, succeeds) = match &self.bullets[i] {
                Some(inst) => (
                    inst.state == BulletState::PendingDespawn,
                    match inst.endurance {
                        Some(Endurance::Finite(_)) => true,
                        _ => false,
                    },
                ),
                None => (false, false),
            };
            if is_pending {
                if succeeds {
                    let ev = match &self.bullets[i] {
                        Some(inst) => SucceedEvent {
                            weapon: inst.weapon,
                            generation: inst.generation,
                            bullet: i,
                            pos: inst.pos,
                            facing: inst.facing,
                        },
                        None => SucceedEvent {
                            weapon: 0,
                            generation: 0,
                            bullet: 0,
                            pos: Vec2m { x: 0, y: 0 },
                            facing: Vec2m { x: 0, y: 0 },
                        },
                    };
                    self.succeed_events.push(ev);
                }
                self.bullets.set(i, None);
            }
            proof {
                assert(self.succeed_events@ =~= old(self).succeed_events@ + despawn_events(
                    bs0,
                    i + 1,
                ));
                assert forall|a: int, c: int, s: u64|
                    0 <= a < c < self.bullets@.len() && active_beam_of(self.bullets@[a], s)
                        && active_beam_of(self.bullets@[c], s) implies false by {
                    assert(active_beam_of(pre[a], s) && active_beam_of(pre[c], s));
                }
            }
            i = i + 1;
        }
    }
    /// Resolve this fixed tick's physics contacts, in order: each pair
    /// names a bullet and the entity it currently touches.  Hit counts
    /// rise atomically per (bullet, target) pair before the hit limit is
    /// checked, and the returned hit events carry the first-hit flag the
    /// endurance and damage passes consume.
    #[verifier::loop_isolation(false)]
    pub fn bullet_hit_system(&mut self, contacts: &Vec<(usize, usize)>) -> (events: Vec<
        BulletHitEvent,
    >)
        requires
            old(self).wf(),
        ensures
            final(self).wf(),
            (views_of(final(self).bullets@), events@) == hits_fold(
                views_of(old(self).bullets@),
                Seq::<BulletHitEvent>::empty(),
                old(self).characters@,
                contacts@,
            ),
            final(self).bullets@.len() == old(self).bullets@.len(),
            final(self).characters@ == old(self).characters@,
            final(self).weapons@ == old(self).weapons@,
            final(self).spawn_requests@ == old(self).spawn_requests@,
            final(self).succeed_events@ == old(self).succeed_events@,
    {
        let ghost v0 = views_of(old(self).bullets@);
        let ghost chars0 = old(self).characters@;
        let mut events: Vec<BulletHitEvent> = Vec::new();
        let n = contacts.len();
        proof {
            assert((views_of(self.bullets@), events@) =~= hits_fold(
                v0,
                Seq::<BulletHitEvent>::empty(),
                chars0,
                contacts@.take(0),
            ));
        }
        let mut k: usize = 0;
        while k < n
            invariant
                0 <= k <= n,
                n == contacts@.len(),
                self.bullets@.len() == old(self).bullets@.len(),
                self.characters@ == chars0,
                self.weapons@ == old(self).weapons@,
                self.weapon_rngs@ == old(self).weapon_rngs@,
                self.spawn_requests@ == old(self).spawn_requests@,
                self.succeed_events@ == old(self).succeed_events@,
                views_of(self.bullets@) == hits_fold(
                    v0,
                    Seq::<BulletHitEvent>::empty(),
                    chars0,
                    contacts@.take(k as int),
                ).0,
                events@ == hits_fold(
                    v0,
                    Seq::<BulletHitEvent>::empty(),
                    chars0,
                    contacts@.take(k as int),
                ).1,
                forall|j: int|
                    0 <= j < self.bullets@.len() ==> match #[trigger] self.bullets@[j] {
                        Some(b) => b.wf(),
                        None => true,
                    },
                beams_unique(self.bullets@),
            decreases n - k,
        {
            let ghost pre = self.bullets@;
            let (bi, ti) = contacts[k];
            let mut registers = false;
            if bi < self.bullets.len() && ti < self.characters.len() {
                let target_side = match &self.characters[ti] {
                    Some(c) => Some(c.is_player),
                    None => None,
                };
                match (&self.bullets[bi], target_side) {
                    (Some(inst), Some(side)) => {
                        registers = inst.state == BulletState::Active && side != inst.player_side;
                    },
                    _ => {},
                }
            }
            if registers {
                let t: u64 = ti as u64;
                let mut cnt: u32 = 0;
                let mut pos = Vec2m { x: 0, y: 0 };
                let mut limit = crate::hits::HitLimit::Unlimited;
                match &mut self.bullets[bi] {
                    Some(inst) => {
                        cnt = inst.hits.bump(t);
                        pos = inst.pos;
                        limit = inst.bullet.hit_limit;
                    },
                    None => {},
                }
                let emits = match limit {
                    crate::hits::HitLimit::Unlimited => true,
                    crate::hits::HitLimit::Limit(l) => cnt <= l,
                };
                if emits {
                    events.push(
                        BulletHitEvent { bullet: bi, target: ti, pos, first_hit: cnt == 1 },
                    );
                }
                proof {
                    assert(views_of(self.bullets@) =~= views_of(pre).update(
                        bi as int,
                        Some(
                            crate::bullet::BulletModel {
                                hits: crate::hits::bump_spec(
                                    views_of(pre)[bi as int].unwrap().hits,
                                    t,
                                ),
                                ..views_of(pre)[bi as int].unwrap()
                            },
                        ),
                    ));
                    assert forall|a: int, c: int, s: u64|
                        0 <= a < c < self.bullets@.len() && active_beam_of(self.bullets@[a], s)
                            && active_beam_of(self.bullets@[c], s) implies false by {
                        assert(active_beam_of(pre[a], s) == active_beam_of(self.bullets@[a], s));
                        assert(active_beam_of(pre[c], s) == active_beam_of(self.bullets@[c], s));
                    }
                }
            }
            proof {
                assert(contacts@.take(k + 1).drop_last() =~= contacts@.take(k as int));
                assert(contacts@.take(k + 1).last() == contacts@[k as int]);
                assert(views_of(self.bullets@) =~= hits_fold(
                    v0,
                    Seq::<BulletHitEvent>::empty(),
                    chars0,
                    contacts@.take(k + 1),
                ).0);
                assert(events@ =~= hits_fold(
                    v0,
                    Seq::<BulletHitEvent>::empty(),
                    chars0,
                    contacts@.take(k + 1),
                ).1);
            }
            k = k + 1;
        }
        proof {
            assert(contacts@.take(n as int) =~= contacts@);
        }
        events
    }

    /// Consume this tick's hit events: every first hit advances the
    /// bullet's generation chain with a succeed event — independently of
    /// survival — and then applies the endurance rule once, drawing the
    /// Bernoulli trial from the owning weapon's private stream when the
    /// endurance is a probability.  A bullet already marked or a
    /// vanished weapon is recovered locally as a no-op.
    #[verifier::loop_isolation(false)]
    pub fn bullet_hit_endurance_system(&mut self, events: &Vec<BulletHitEvent>)
        requires
            old(self).wf(),
        ensures
            final(self).wf(),
            final(self).bullets@.len() == old(self).bullets@.len(),
            forall|i: int|
                0 <= i < old(self).bullets@.len() ==> ((#[trigger] old(self).bullets@[i]) is Some
                    <==> final(self).bullets@[i] is Some),
            forall|i: int|
                0 <= i < old(self).bullets@.len() && (#[trigger] old(self).bullets@[i]) is Some
                    ==> ({
                    let b = old(self).bullets@[i].unwrap();
                    let b2 = final(self).bullets@[i].unwrap();
                    &&& same_but_endurance(b@, b2@)
                    &&& (b.endurance is Some <==> b2.endurance is Some)
                    &&& (b.endurance == Some(Endurance::Infinite) ==> b2.endurance == Some(
                        Endurance::Infinite,
                    ))
                    &&& (match (b.endurance, b2.endurance) {
                        (Some(e), Some(e2)) => e.is_finite() == e2.is_finite(),
                        _ => true,
                    })
                }),
            forall|i: int|
                0 <= i < old(self).bullets@.len() && !first_hit_for(events@, i) ==> final(self).bullets@[i] == old(self).bullets@[i],
            final(self).succeed_events@ == old(self).succeed_events@ + hit_succession_events(
                events@,
                views_of(old(self).bullets@),
            ),
            final(self).characters@ == old(self).characters@,
            final(self).weapons@ == old(self).weapons@,
            final(self).spawn_requests@ == old(self).spawn_requests@,
    {
        let ghost bs0 = old(self).bullets@;
        let ghost v0 = views_of(old(self).bullets@);
        let n = events.len();
        proof {
            assert(hit_succession_events(events@.take(0), v0) =~= Seq::<SucceedEvent>::empty());
            assert(self.succeed_events@ =~= old(self).succeed_events@ + hit_succession_events(
                events@.take(0),
                v0,
            ));
        }
        let mut k: usize = 0;
        while k < n
            invariant
                0 <= k <= n,
                n == events@.len(),
                self.bullets@.len() == bs0.len(),
                self.characters@ == old(self).characters@,
                self.weapons@ == old(self).weapons@,
                self.weapon_rngs@.len() == old(self).weapon_rngs@.len(),
                self.spawn_requests@ == old(self).spawn_requests@,
                forall|i: int|
                    0 <= i < bs0.len() ==> ((#[trigger] bs0[i]) is Some <==> self.bullets@[i]
                        is Some),
                forall|i: int|
                    0 <= i < bs0.len() && (#[trigger] bs0[i]) is Some ==> ({
                        let b = bs0[i].unwrap();
                        let b2 = self.bullets@[i].unwrap();
                        &&& same_but_endurance(b@, b2@)
                        &&& (b.endurance is Some <==> b2.endurance is Some)
                        &&& (b.endurance == Some(Endurance::Infinite) ==> b2.endurance == Some(
                            Endurance::Infinite,
                        ))
                        &&& (match (b.endurance, b2.endurance) {
                            (Some(e), Some(e2)) => e.is_finite() == e2.is_finite(),
                            _ => true,
                        })
                    }),
                forall|i: int|
                    0 <= i < bs0.len() && !first_hit_for(events@.take(k as int), i) ==> self.bullets@[i] == bs0[i],
                self.succeed_events@ == old(self).succeed_events@ + hit_succession_events(
                    events@.take(k as int),
                    v0,
                ),
                forall|j: int|
                    0 <= j < self.succeed_events@.len() ==> (
                    #[trigger] self.succeed_events@[j]).wf(),
                forall|i: int|
                    0 <= i < self.bullets@.len() ==> match #[trigger] self.bullets@[i] {
                        Some(b) => b.wf(),
                        None => true,
                    },
                beams_unique(self.bullets@),
            decreases n - k,
        {
            let ghost pre = self.bullets@;
            let ev = events[k];
            if ev.first_hit && ev.bullet < self.bullets.len() {
                let info = match &self.bullets[ev.bullet] {
                    Some(inst) => Some(
                        (inst.weapon, inst.generation, inst.pos, inst.facing, inst.endurance),
                    ),
                    None => None,
                };
                match info {
                    Some((weapon_id, generation, pos, facing, endurance)) => {
                        self.succeed_events.push(
                            SucceedEvent { weapon: weapon_id, generation, bullet: ev.bullet, pos, facing },
                        );
                        match endurance {
                            Some(e) => {
                                let needs = match e {
                                    Endurance::Finite(v) => 0 <= v && v < 1000,
                                    Endurance::Infinite => false,
                                };
                                if needs {
                                    if weapon_id < self.weapons.len() as u64 {
                                        let v: i64 = match e {
                                            Endurance::Finite(v) => v,
                                            Endurance::Infinite => 0,
                                        };
                                        let survived = crate::rng::rng_ratio(
                                            &mut self.weapon_rngs[weapon_id as usize],
                                            v as u32,
                                            1000,
                                        );
                                        let e2 = crate::bullet::endurance_step(e, survived);
                                        match &mut self.bullets[ev.bullet] {
                                            Some(inst) => {
                                                inst.endurance = Some(e2);
                                            },
                                            None => {},
                                        }
                                    }
                                } else {
                                    let e2 = crate::bullet::endurance_step(e, true);
                                    match &mut self.bullets[ev.bullet] {
                                        Some(inst) => {
                                            inst.endurance = Some(e2);
                                        },
                                        None => {},
                                    }
                                }
                            },
                            None => {},
                        }
                    },
                    None => {},
                }
            }
            proof {
                assert(events@.take(k + 1).drop_last() =~= events@.take(k as int));
                assert(events@.take(k + 1).last() == events@[k as int]);
                assert(self.succeed_events@ =~= old(self).succeed_events@ + hit_succession_events(
                    events@.take(k + 1),
                    v0,
                ));
                assert forall|i: int|
                    0 <= i < bs0.len() && !first_hit_for(events@.take(k + 1), i) implies self.bullets@[i] == bs0[i] by {
                    assert(!first_hit_for(events@.take(k as int), i)) by {
                        if first_hit_for(events@.take(k as int), i) {
                            let w = choose|w: int|
                                0 <= w < k && (#[trigger] events@.take(k as int)[w]).first_hit
                                    && events@.take(k as int)[w].bullet == i;
                            assert(events@.take(k + 1)[w].first_hit && events@.take(k + 1)[w].bullet
                                == i);
                        }
                    }
                    if i == ev.bullet && ev.first_hit {
                        assert(events@.take(k + 1)[k as int] == ev);
                        assert(first_hit_for(events@.take(k + 1), i));
                    }
                }
                assert forall|a: int, c: int, s: u64|
                    0 <= a < c < self.bullets@.len() && active_beam_of(self.bullets@[a], s)
                        && active_beam_of(self.bullets@[c], s) implies false by {
                    assert(active_beam_of(pre[a], s) == active_beam_of(self.bullets@[a], s));
                    assert(active_beam_of(pre[c], s) == active_beam_of(self.bullets@[c], s));
                }
            }
            k = k + 1;
        }
        proof {
            assert(events@.take(n as int) =~= events@);
        }
    }

    /// Apply this tick's damage: every hit event deducts the striking
    /// bullet's damage, rounded up to whole points, from its target's
    /// remaining health.  Vanished bullets or targets are local no-ops.
    #[verifier::loop_isolation(false)]
    pub fn hit_damage_system(&mut self, events: &Vec<BulletHitEvent>)
        requires
            old(self).wf(),
        ensures
            final(self).wf(),
            true,
            final(self).characters@ == damage_fold(
                old(self).characters@,
                views_of(old(self).bullets@),
                events@,
            ),
            final(self).bullets@ == old(self).bullets@,
            final(self).weapons@ == old(self).weapons@,
            final(self).spawn_requests@ == old(self).spawn_requests@,
            final(self).succeed_events@ == old(self).succeed_events@,
    {
        let ghost chars0 = old(self).characters@;
        let ghost v0 = views_of(old(self).bullets@);
        let n = events.len();
        proof {
            assert(self.characters@ =~= damage_fold(chars0, v0, events@.take(0)));
        }
        let mut k: usize = 0;
        while k < n
            invariant
                0 <= k <= n,
                n == events@.len(),
                self.bullets@ == old(self).bullets@,
                self.weapons@ == old(self).weapons@,
                self.weapon_rngs@ == old(self).weapon_rngs@,
                self.spawn_requests@ == old(self).spawn_requests@,
                self.succeed_events@ == old(self).succeed_events@,
                self.characters@ == damage_fold(chars0, v0, events@.take(k as int)),
                self.characters@.len() == chars0.len(),
                forall|i: int|
                    0 <= i < self.characters@.len() ==> match #[trigger] self.characters@[i] {
                        Some(c) => c.wf(),
                        None => true,
                    },
            decreases n - k,
        {
            let ev = events[k];
            if ev.bullet < self.bullets.len() && ev.target < self.characters.len() {
                let dmg_milli = match &self.bullets[ev.bullet] {
                    Some(inst) => Some(inst.bullet.damage_milli),
                    None => None,
                };
                match dmg_milli {
                    Some(dm) => {
                        let dmg: u64 = crate::fixp::milli_ceil(dm);
                        match self.characters[ev.target] {
                            Some(c) => {
                                let life2: i64 = if c.life >= -1000000000000000 + (dmg as i64) {
                                    c.life - (dmg as i64)
                                } else {
                                    -1000000000000000
                                };
                                match &mut self.characters[ev.target] {
                                    Some(cm) => {
                                        cm.life = life2;
                                    },
                                    None => {},
                                }
                            },
                            None => {},
                        }
                    },
                    None => {},
                }
            }
            proof {
                assert(events@.take(k + 1).drop_last() =~= events@.take(k as int));
                assert(events@.take(k + 1).last() == events@[k as int]);
                assert(self.characters@ =~= damage_fold(chars0, v0, events@.take(k + 1)));
            }
            k = k + 1;
        }
        proof {
            assert(events@.take(n as int) =~= events@);
        }
    }

    /// Give every enemy that lacks a hostile target, and carries a
    /// movement or aim strategy, the nearest living player as its
    /// target.  Actors already holding a target are left alone: there is
    /// no re-targeting while the target lives.
    #[verifier::rlimit(60)]
    #[verifier::loop_isolation(false)]
    pub fn enemy_search_nearist_player(&mut self)
        requires
            old(self).wf(),
        ensures
            final(self).wf(),
            final(self).characters@.len() == old(self).characters@.len(),
            forall|i: int|
                0 <= i < old(self).characters@.len() ==> (match #[trigger] old(self).characters@[i] {
                    Some(c) => {
                        if needs_target(c) && (exists|j: int| alive_player(old(self).characters@, j)) {
                            exists|j: int|
                                #[trigger] is_nearest_player(old(self).characters@, c.pos, j)
                                    && final(self).characters@[i] == Some(
                                    Character { hostile: Some(HostileTarget(j as u64)), ..c },
                                )
                        } else {
                            final(self).characters@[i] == old(self).characters@[i]
                        }
                    },
                    None => final(self).characters@[i] is None,
                }),
            final(self).bullets@ == old(self).bullets@,
            final(self).weapons@ == old(self).weapons@,
            final(self).spawn_requests@ == old(self).spawn_requests@,
            final(self).succeed_events@ == old(self).succeed_events@,
    {
        let ghost chars0 = old(self).characters@;
        let n = self.characters.len();
        let mut i: usize = 0;
        while i < n
            invariant
                0 <= i <= n,
                self.characters@.len() == n,
                self.bullets@ == old(self).bullets@,
                self.weapons@ == old(self).weapons@,
                self.weapon_rngs@ == old(self).weapon_rngs@,
                self.spawn_requests@ == old(self).spawn_requests@,
                self.succeed_events@ == old(self).succeed_events@,
                forall|k: int| i <= k < n ==> self.characters@[k] == chars0[k],
                forall|k: int|
                    0 <= k < n ==> ((#[trigger] self.characters@[k]) is Some <==> chars0[k]
                        is Some),
                forall|k: int|
                    0 <= k < n && (#[trigger] chars0[k]) is Some
                        ==> self.characters@[k].unwrap() == (Character {
                        hostile: self.characters@[k].unwrap().hostile,
                        ..chars0[k].unwrap()
                    }),
                forall|k: int|
                    0 <= k < i ==> (match #[trigger] chars0[k] {
                        Some(c) => {
                            if needs_target(c) && (exists|j: int| alive_player(chars0, j)) {
                                exists|j: int|
                                    #[trigger] is_nearest_player(chars0, c.pos, j)
                                        && self.characters@[k] == Some(
                                        Character { hostile: Some(HostileTarget(j as u64)), ..c },
                                    )
                            } else {
                                self.characters@[k] == chars0[k]
                            }
                        },
                        None => self.characters@[k] is None,
                    }),
                forall|k: int|
                    0 <= k < n ==> (match #[trigger] self.characters@[k] {
                        Some(c) => c.wf(),
                        None => true,
                    }),
            decreases n - i,
        {
            let (wants, pos) = match &self.characters[i] {
                Some(c) => (
                    !c.is_player && c.hostile.is_none() && (c.move_targeting.is_some()
                        || c.aim_targeting.is_some()),
                    c.pos,
                ),
                None => (false, Vec2m { x: 0, y: 0 }),
            };
            if wants {
                let found = nearest_player(&self.characters, pos);
                proof {
                    lemma_players_agree(self.characters@, chars0);
                }
                match found {
                    Some(j) => {
                        proof {
                            lemma_nearest_transfer(self.characters@, chars0, pos, j as int);
                        }
                        match &mut self.characters[i] {
                            Some(c) => {
                                c.hostile = Some(HostileTarget(j as u64));
                            },
                            None => {},
                        }
                    },
                    None => {},
                }
            }
            i = i + 1;
        }
    }

    /// Resolve every targeting actor's movement strategy against its
    /// hostile target: chase, follow-at-distance, or outflank.  An actor
    /// whose target no longer exists drops the reference and becomes
    /// eligible for re-acquisition next cycle.
    #[verifier::rlimit(100)]
    pub fn move_targeting_system(&mut self)
        requires
            old(self).wf(),
        ensures
            final(self).wf(),
            final(self).characters@.len() == old(self).characters@.len(),
            forall|i: int|
                0 <= i < old(self).characters@.len() ==> (match #[trigger] old(self).characters@[i] {
                    Some(c) => {
                        if c.move_targeting is Some && c.hostile is Some {
                            if owner_alive(old(self).characters@, c.hostile.unwrap().0) {
                                final(self).characters@[i] == Some(
                                    Character {
                                        movement: crate::enemy_targeting::move_intent_spec(
                                            c.move_targeting.unwrap(),
                                            c.pos,
                                            old(self).characters@[c.hostile.unwrap().0 as int].unwrap().pos,
                                            old(self).characters@[c.hostile.unwrap().0 as int].unwrap().vel,
                                        ),
                                        ..c
                                    },
                                )
                            } else {
                                final(self).characters@[i] == Some(
                                    Character { hostile: None, ..c },
                                )
                            }
                        } else {
                            final(self).characters@[i] == old(self).characters@[i]
                        }
                    },
                    None => final(self).characters@[i] is None,
                }),
            final(self).bullets@ == old(self).bullets@,
            final(self).weapons@ == old(self).weapons@,
            final(self).spawn_requests@ == old(self).spawn_requests@,
            final(self).succeed_events@ == old(self).succeed_events@,
    {
        let ghost chars0 = old(self).characters@;
        let n = self.characters.len();
        let mut actions: Vec<TargetAction> = Vec::new();
        let mut k: usize = 0;
        while k < n
            invariant
                0 <= k <= n,
                chars0 == old(self).characters@,
                self.characters@ == chars0,
                n == chars0.len(),
                self.bullets@ == old(self).bullets@,
                self.weapons@ == old(self).weapons@,
                self.weapon_rngs@ == old(self).weapon_rngs@,
                self.spawn_requests@ == old(self).spawn_requests@,
                self.succeed_events@ == old(self).succeed_events@,
                actions@.len() == k,
                forall|m: int|
                    0 <= m < n ==> (match #[trigger] self.characters@[m] {
                        Some(c) => c.wf(),
                        None => true,
                    }),
                forall|m: int|
                    0 <= m < k ==> (#[trigger] actions@[m]) == move_target_action(chars0, m),
                forall|m: int|
                    0 <= m < k ==> (match #[trigger] actions@[m] {
                        TargetAction::SetMovement(mv) => match mv {
                            Some(Movement::PointMove(p)) => p.bounded(COORD_LIMIT as int),
                            Some(Movement::DirectionMove(_)) => false,
                            None => true,
                        },
                        _ => true,
                    }),
            decreases n - k,
        {
            let info = match &self.characters[k] {
                Some(c) => match (c.move_targeting, c.hostile) {
                    (Some(t), Some(h)) => Some((t, h.0, c.pos)),
                    _ => None,
                },
                None => None,
            };
            let act: TargetAction = match info {
                Some((t, h, pos)) => {
                    if h < self.characters.len() as u64 {
                        match self.characters[h as usize] {
                            Some(target) => TargetAction::SetMovement(
                                crate::enemy_targeting::move_intent(t, pos, target.pos, target.vel),
                            ),
                            None => TargetAction::ClearHostile,
                        }
                    } else {
                        TargetAction::ClearHostile
                    }
                },
                None => TargetAction::Keep,
            };
            actions.push(act);
            k = k + 1;
        }
        let mut i: usize = 0;
        while i < n
            invariant
                0 <= i <= n,
                chars0 == old(self).characters@,
                self.characters@.len() == n,
                n == chars0.len(),
                self.bullets@ == old(self).bullets@,
                self.weapons@ == old(self).weapons@,
                self.weapon_rngs@ == old(self).weapon_rngs@,
                self.spawn_requests@ == old(self).spawn_requests@,
                self.succeed_events@ == old(self).succeed_events@,
                actions@.len() == n,
                forall|m: int|
                    0 <= m < n ==> (#[trigger] actions@[m]) == move_target_action(chars0, m),
                forall|m: int|
                    0 <= m < n ==> (match #[trigger] actions@[m] {
                        TargetAction::SetMovement(mv) => match mv {
                            Some(Movement::PointMove(p)) => p.bounded(COORD_LIMIT as int),
                            Some(Movement::DirectionMove(_)) => false,
                            None => true,
                        },
                        _ => true,
                    }),
                forall|m: int| i <= m < n ==> self.characters@[m] == chars0[m],
                forall|m: int|
                    0 <= m < i ==> self.characters@[m] == (match #[trigger] chars0[m] {
                        Some(c) => match move_target_action(chars0, m) {
                            TargetAction::SetMovement(mv) => Some(Character { movement: mv, ..c }),
                            TargetAction::ClearHostile => Some(Character { hostile: None, ..c }),
                            TargetAction::Keep => Some(c),
                        },
                        None => None::<Character>,
                    }),
                forall|m: int|
                    0 <= m < n ==> (match #[trigger] self.characters@[m] {
                        Some(c) => c.wf(),
                        None => true,
                    }),
            decreases n - i,
        {
            match actions[i] {
                TargetAction::SetMovement(mv) => {
                    match &mut self.characters[i] {
                        Some(c) => {
                            c.movement = mv;
                        },
                        None => {},
                    }
                },
                TargetAction::ClearHostile => {
                    match &mut self.characters[i] {
                        Some(c) => {
                            c.hostile = None;
                        },
                        None => {},
                    }
                },
                TargetAction::Keep => {},
            }
            i = i + 1;
        }
    }

    /// Resolve every targeting actor's aim strategy against its hostile
    /// target: aim at its current position, or extrapolate along its
    /// velocity half a second ahead.  A vanished target is a local
    /// no-op here (the movement pass clears the reference).
    #[verifier::rlimit(60)]
    #[verifier::loop_isolation(false)]
    pub fn aim_targeting_system(&mut self)
        requires
            old(self).wf(),
        ensures
            final(self).wf(),
            final(self).characters@.len() == old(self).characters@.len(),
            forall|i: int|
                0 <= i < old(self).characters@.len() ==> (match #[trigger] old(self).characters@[i] {
                    Some(c) => {
                        if c.aim_targeting is Some && c.hostile is Some && owner_alive(
                            old(self).characters@,
                            c.hostile.unwrap().0,
                        ) {
                            final(self).characters@[i] == Some(
                                Character {
                                    aim: crate::enemy_targeting::aim_point_spec(
                                        c.aim_targeting.unwrap(),
                                        old(self).characters@[c.hostile.unwrap().0 as int].unwrap().pos,
                                        old(self).characters@[c.hostile.unwrap().0 as int].unwrap().vel,
                                    ),
                                    ..c
                                },
                            )
                        } else {
                            final(self).characters@[i] == old(self).characters@[i]
                        }
                    },
                    None => final(self).characters@[i] is None,
                }),
            final(self).bullets@ == old(self).bullets@,
            final(self).weapons@ == old(self).weapons@,
            final(self).spawn_requests@ == old(self).spawn_requests@,
            final(self).succeed_events@ == old(self).succeed_events@,
    {
        let ghost chars0 = old(self).characters@;
        let n = self.characters.len();
        let mut i: usize = 0;
        while i < n
            invariant
                0 <= i <= n,
                self.characters@.len() == n,
                self.bullets@ == old(self).bullets@,
                self.weapons@ == old(self).weapons@,
                self.weapon_rngs@ == old(self).weapon_rngs@,
                self.spawn_requests@ == old(self).spawn_requests@,
                self.succeed_events@ == old(self).succeed_events@,
                forall|k: int| i <= k < n ==> self.characters@[k] == chars0[k],
                forall|k: int|
                    0 <= k < n ==> ((#[trigger] self.characters@[k]) is Some <==> chars0[k]
                        is Some),
                forall|k: int|
                    0 <= k < n && (#[trigger] chars0[k]) is Some
                        ==> self.characters@[k].unwrap() == (Character {
                        aim: self.characters@[k].unwrap().aim,
                        ..chars0[k].unwrap()
                    }),
                forall|k: int|
                    0 <= k < i ==> (match #[trigger] chars0[k] {
                        Some(c) => {
                            if c.aim_targeting is Some && c.hostile is Some && owner_alive(
                                chars0,
                                c.hostile.unwrap().0,
                            ) {
                                self.characters@[k] == Some(
                                    Character {
                                        aim: crate::enemy_targeting::aim_point_spec(
                                            c.aim_targeting.unwrap(),
                                            chars0[c.hostile.unwrap().0 as int].unwrap().pos,
                                            chars0[c.hostile.unwrap().0 as int].unwrap().vel,
                                        ),
                                        ..c
                                    },
                                )
                            } else {
                                self.characters@[k] == chars0[k]
                            }
                        },
                        None => self.characters@[k] is None,
                    }),
                forall|k: int|
                    0 <= k < n ==> (match #[trigger] self.characters@[k] {
                        Some(c) => c.wf(),
                        None => true,
                    }),
            decreases n - i,
        {
            let info = match &self.characters[i] {
                Some(c) => match (c.aim_targeting, c.hostile) {
                    (Some(t), Some(h)) => Some((t, h.0)),
                    _ => None,
                },
                None => None,
            };
            match info {
                Some((t, h)) => {
                    if h < self.characters.len() as u64 {
                        match self.characters[h as usize] {
                            Some(target) => {
                                let aim = crate::enemy_targeting::aim_point(
                                    t,
                                    target.pos,
                                    target.vel,
                                );
                                proof {
                                    assert(target.pos == chars0[h as int].unwrap().pos
                                        && target.vel == chars0[h as int].unwrap().vel);
                                }
                                match &mut self.characters[i] {
                                    Some(c) => {
                                        c.aim = aim;
                                    },
                                    None => {},
                                }
                            },
                            None => {},
                        }
                    }
                },
                None => {},
            }
            i = i + 1;
        }
    }

    /// Keep every character's facing pointed at its aim point (left
    /// alone when the aim point sits exactly on the character).
    #[verifier::loop_isolation(false)]
    pub fn aim_system(&mut self)
        requires
            old(self).wf(),
        ensures
            final(self).wf(),
            final(self).characters@.len() == old(self).characters@.len(),
            forall|i: int|
                0 <= i < old(self).characters@.len() ==> final(self).characters@[i] == (match #[trigger] old(self).characters@[i] {
                    Some(c) => Some(Character { facing: facing_toward(c), ..c }),
                    None => None::<Character>,
                }),
            final(self).bullets@ == old(self).bullets@,
            final(self).weapons@ == old(self).weapons@,
            final(self).spawn_requests@ == old(self).spawn_requests@,
            final(self).succeed_events@ == old(self).succeed_events@,
    {
        let ghost chars0 = old(self).characters@;
        let n = self.characters.len();
        let mut i: usize = 0;
        while i < n
            invariant
                0 <= i <= n,
                self.characters@.len() == n,
                self.bullets@ == old(self).bullets@,
                self.weapons@ == old(self).weapons@,
                self.weapon_rngs@ == old(self).weapon_rngs@,
                self.spawn_requests@ == old(self).spawn_requests@,
                self.succeed_events@ == old(self).succeed_events@,
                forall|k: int| i <= k < n ==> self.characters@[k] == chars0[k],
                forall|k: int|
                    0 <= k < i ==> self.characters@[k] == (match #[trigger] chars0[k] {
                        Some(c) => Some(Character { facing: facing_toward(c), ..c }),
                        None => None::<Character>,
                    }),
                forall|k: int|
                    0 <= k < n ==> (match #[trigger] self.characters@[k] {
                        Some(c) => c.wf(),
                        None => true,
                    }),
            decreases n - i,
        {
            let info = match &self.characters[i] {
                Some(c) => Some((c.aim, c.pos)),
                None => None,
            };
            match info {
                Some((aim, pos)) => {
                    let d = aim.sub(pos);
                    if !(d.x == 0 && d.y == 0) {
                        let f = crate::vec2::norm_scale(d, 1000);
                        match &mut self.characters[i] {
                            Some(c) => {
                                c.facing = f;
                            },
                            None => {},
                        }
                    }
                },
                None => {},
            }
            i = i + 1;
        }
    }

    /// Advance every movable entity one frame: characters follow their
    /// movement intent or axis input (knocked-back characters are
    /// handled by the forced-move pass instead), and bullets follow
    /// their variant's movement intent.
    #[verifier::rlimit(60)]
    #[verifier::loop_isolation(false)]
    pub fn move_system(&mut self, dt_ms: u64)
        requires
            old(self).wf(),
            dt_ms <= crate::movement::FRAME_LIMIT_MS,
        ensures
            final(self).wf(),
            final(self).characters@.len() == old(self).characters@.len(),
            final(self).bullets@.len() == old(self).bullets@.len(),
            forall|i: int|
                0 <= i < old(self).characters@.len() ==> final(self).characters@[i] == (match #[trigger] old(self).characters@[i] {
                    Some(c) => if c.forced is None {
                        Some(moved_character(c, dt_ms as int))
                    } else {
                        Some(c)
                    },
                    None => None::<Character>,
                }),
            forall|i: int|
                0 <= i < old(self).bullets@.len() ==> final(self).bullets@[i] == (match #[trigger] old(self).bullets@[i] {
                    Some(b) => if b.movement is Some {
                        Some(moved_bullet(b, dt_ms as int))
                    } else {
                        Some(b)
                    },
                    None => None::<BulletInstance>,
                }),
            final(self).weapons@ == old(self).weapons@,
            final(self).spawn_requests@ == old(self).spawn_requests@,
            final(self).succeed_events@ == old(self).succeed_events@,
    {
        let ghost chars0 = old(self).characters@;
        let ghost bs0 = old(self).bullets@;
        let n = self.characters.len();
        let mut i: usize = 0;
        while i < n
            invariant
                0 <= i <= n,
                self.characters@.len() == n,
                self.bullets@ == bs0,
                self.weapons@ == old(self).weapons@,
                self.weapon_rngs@ == old(self).weapon_rngs@,
                self.spawn_requests@ == old(self).spawn_requests@,
                self.succeed_events@ == old(self).succeed_events@,
                forall|k: int| i <= k < n ==> self.characters@[k] == chars0[k],
                forall|k: int|
                    0 <= k < i ==> self.characters@[k] == (match #[trigger] chars0[k] {
                        Some(c) => if c.forced is None {
                            Some(moved_character(c, dt_ms as int))
                        } else {
                            Some(c)
                        },
                        None => None::<Character>,
                    }),
                forall|k: int|
                    0 <= k < n ==> (match #[trigger] self.characters@[k] {
                        Some(c) => c.wf(),
                        None => true,
                    }),
            decreases n - i,
        {
            let info = match &self.characters[i] {
                Some(c) => if c.forced.is_none() {
                    Some((c.pos, c.speed, c.movement, c.x_move, c.y_move))
                } else {
                    None
                },
                None => None,
            };
            match info {
                Some((pos, speed, movement, x, y)) => {
                    let res = crate::movement::resolve_movement(pos, speed, movement, x, y, dt_ms);
                    match &mut self.characters[i] {
                        Some(c) => {
                            c.pos = res.pos;
                            c.vel = res.vel;
                            c.movement = res.movement;
                        },
                        None => {},
                    }
                },
                None => {},
            }
            i = i + 1;
        }
        let m = self.bullets.len();
        let mut j: usize = 0;
        while j < m
            invariant
                0 <= j <= m,
                self.bullets@.len() == m,
                self.characters@.len() == n,
                forall|k: int|
                    0 <= k < n ==> self.characters@[k] == (match #[trigger] chars0[k] {
                        Some(c) => if c.forced is None {
                            Some(moved_character(c, dt_ms as int))
                        } else {
                            Some(c)
                        },
                        None => None::<Character>,
                    }),
                forall|k: int|
                    0 <= k < n ==> (match #[trigger] self.characters@[k] {
                        Some(c) => c.wf(),
                        None => true,
                    }),
                self.weapons@ == old(self).weapons@,
                self.weapon_rngs@ == old(self).weapon_rngs@,
                self.spawn_requests@ == old(self).spawn_requests@,
                self.succeed_events@ == old(self).succeed_events@,
                forall|k: int| j <= k < m ==> self.bullets@[k] == bs0[k],
                forall|k: int|
                    0 <= k < j ==> self.bullets@[k] == (match #[trigger] bs0[k] {
                        Some(b) => if b.movement is Some {
                            Some(moved_bullet(b, dt_ms as int))
                        } else {
                            Some(b)
                        },
                        None => None::<BulletInstance>,
                    }),
                forall|k: int|
                    0 <= k < m ==> (match #[trigger] self.bullets@[k] {
                        Some(b) => b.wf(),
                        None => true,
                    }),
                beams_unique(self.bullets@),
            decreases m - j,
        {
            let ghost pre = self.bullets@;
            let info = match &self.bullets[j] {
                Some(b) => match b.movement {
                    Some(mv) => Some((b.pos, b.bullet.speed, mv)),
                    None => None,
                },
                None => None,
            };
            match info {
                Some((pos, speed, mv)) => {
                    let res = crate::movement::resolve_movement(
                        pos,
                        speed,
                        Some(mv),
                        None,
                        None,
                        dt_ms,
                    );
                    match &mut self.bullets[j] {
                        Some(b) => {
                            b.pos = res.pos;
                            b.movement = res.movement;
                        },
                        None => {},
                    }
                },
                None => {},
            }
            proof {
                assert forall|a: int, c: int, s: u64|
                    0 <= a < c < self.bullets@.len() && active_beam_of(self.bullets@[a], s)
                        && active_beam_of(self.bullets@[c], s) implies false by {
                    assert(active_beam_of(pre[a], s) == active_beam_of(self.bullets@[a], s));
                    assert(active_beam_of(pre[c], s) == active_beam_of(self.bullets@[c], s));
                }
            }
            j = j + 1;
        }
    }

    /// Knock characters back on mutual contact: for each contacting
    /// pair of characters, the first is shocked away from the second
    /// along the line between them.
    #[verifier::loop_isolation(false)]
    pub fn player_enemy_shock_system(&mut self, contacts: &Vec<(usize, usize)>)
        requires
            old(self).wf(),
        ensures
            final(self).wf(),
            final(self).characters@ == shock_pairs_fold(old(self).characters@, contacts@),
            final(self).bullets@ == old(self).bullets@,
            final(self).weapons@ == old(self).weapons@,
            final(self).spawn_requests@ == old(self).spawn_requests@,
            final(self).succeed_events@ == old(self).succeed_events@,
    {
        let ghost chars0 = old(self).characters@;
        let n = contacts.len();
        proof {
            assert(self.characters@ =~= shock_pairs_fold(chars0, contacts@.take(0)));
        }
        let mut k: usize = 0;
        while k < n
            invariant
                0 <= k <= n,
                n == contacts@.len(),
                self.bullets@ == old(self).bullets@,
                self.weapons@ == old(self).weapons@,
                self.weapon_rngs@ == old(self).weapon_rngs@,
                self.spawn_requests@ == old(self).spawn_requests@,
                self.succeed_events@ == old(self).succeed_events@,
                self.characters@ == shock_pairs_fold(chars0, contacts@.take(k as int)),
                self.characters@.len() == chars0.len(),
                forall|m: int|
                    0 <= m < self.characters@.len() ==> (match #[trigger] self.characters@[m] {
                        Some(c) => c.wf(),
                        None => true,
                    }),
            decreases n - k,
        {
            let (a, b) = contacts[k];
            if a < self.characters.len() && b < self.characters.len() && a != b {
                let pa = match &self.characters[a] {
                    Some(c) => Some(c.pos),
                    None => None,
                };
                let pb = match &self.characters[b] {
                    Some(c) => Some(c.pos),
                    None => None,
                };
                match (pa, pb) {
                    (Some(p1), Some(p2)) => {
                        let d = p1.sub(p2);
                        let dir = crate::vec2::norm_scale(d, 1000);
                        match &mut self.characters[a] {
                            Some(c) => {
                                c.shocked = Some(Shocked { impact: 1000, direction: dir });
                            },
                            None => {},
                        }
                    },
                    _ => {},
                }
            }
            proof {
                assert(contacts@.take(k + 1).drop_last() =~= contacts@.take(k as int));
                assert(contacts@.take(k + 1).last() == contacts@[k as int]);
                assert(self.characters@ =~= shock_pairs_fold(chars0, contacts@.take(k + 1)));
            }
            k = k + 1;
        }
        proof {
            assert(contacts@.take(n as int) =~= contacts@);
        }
    }

    /// Drive every armed shock: the shocked character is forced along
    /// the shock direction at the impact-curve speed for the shock age.
    #[verifier::loop_isolation(false)]
    pub fn shock_system(&mut self)
        requires
            old(self).wf(),
        ensures
            final(self).wf(),
            final(self).characters@.len() == old(self).characters@.len(),
            forall|i: int|
                0 <= i < old(self).characters@.len() ==> final(self).characters@[i] == (match #[trigger] old(self).characters@[i] {
                    Some(c) => Some(shock_step(c)),
                    None => None::<Character>,
                }),
            final(self).bullets@ == old(self).bullets@,
            final(self).weapons@ == old(self).weapons@,
            final(self).spawn_requests@ == old(self).spawn_requests@,
            final(self).succeed_events@ == old(self).succeed_events@,
    {
        let ghost chars0 = old(self).characters@;
        let n = self.characters.len();
        let mut i: usize = 0;
        while i < n
            invariant
                0 <= i <= n,
                self.characters@.len() == n,
                self.bullets@ == old(self).bullets@,
                self.weapons@ == old(self).weapons@,
                self.weapon_rngs@ == old(self).weapon_rngs@,
                self.spawn_requests@ == old(self).spawn_requests@,
                self.succeed_events@ == old(self).succeed_events@,
                forall|k: int| i <= k < n ==> self.characters@[k] == chars0[k],
                forall|k: int|
                    0 <= k < i ==> self.characters@[k] == (match #[trigger] chars0[k] {
                        Some(c) => Some(shock_step(c)),
                        None => None::<Character>,
                    }),
                forall|k: int|
                    0 <= k < n ==> (match #[trigger] self.characters@[k] {
                        Some(c) => c.wf(),
                        None => true,
                    }),
            decreases n - i,
        {
            let info = match &self.characters[i] {
                Some(c) => match (c.shocked, c.shock_timer) {
                    (Some(s), Some(t)) => Some((s, t)),
                    _ => None,
                },
                None => None,
            };
            match info {
                Some((s, t)) => {
                    let speed = crate::forced_moving::shock_speed(s.impact, t);
                    match &mut self.characters[i] {
                        Some(c) => {
                            c.forced = Some(ForcedMove { direction: s.direction, speed });
                        },
                        None => {},
                    }
                },
                None => {},
            }
            i = i + 1;
        }
    }

    /// Run the shock timers: a fresh shock arms its timer; a shock that
    /// has lasted its duration is cleared together with its timer and
    /// its forced motion.
    #[verifier::loop_isolation(false)]
    pub fn shock_timer_system(&mut self, dt_ms: u64)
        requires
            old(self).wf(),
            dt_ms <= crate::movement::FRAME_LIMIT_MS,
        ensures
            final(self).wf(),
            final(self).characters@.len() == old(self).characters@.len(),
            forall|i: int|
                0 <= i < old(self).characters@.len() ==> final(self).characters@[i] == (match #[trigger] old(self).characters@[i] {
                    Some(c) => Some(shock_timer_step(c, dt_ms as int)),
                    None => None::<Character>,
                }),
            final(self).bullets@ == old(self).bullets@,
            final(self).weapons@ == old(self).weapons@,
            final(self).spawn_requests@ == old(self).spawn_requests@,
            final(self).succeed_events@ == old(self).succeed_events@,
    {
        let ghost chars0 = old(self).characters@;
        let n = self.characters.len();
        let mut i: usize = 0;
        while i < n
            invariant
                0 <= i <= n,
                self.characters@.len() == n,
                self.bullets@ == old(self).bullets@,
                self.weapons@ == old(self).weapons@,
                self.weapon_rngs@ == old(self).weapon_rngs@,
                self.spawn_requests@ == old(self).spawn_requests@,
                self.succeed_events@ == old(self).succeed_events@,
                forall|k: int| i <= k < n ==> self.characters@[k] == chars0[k],
                forall|k: int|
                    0 <= k < i ==> self.characters@[k] == (match #[trigger] chars0[k] {
                        Some(c) => Some(shock_timer_step(c, dt_ms as int)),
                        None => None::<Character>,
                    }),
                forall|k: int|
                    0 <= k < n ==> (match #[trigger] self.characters@[k] {
                        Some(c) => c.wf(),
                        None => true,
                    }),
            decreases n - i,
        {
            let info = match &self.characters[i] {
                Some(c) => if c.shocked.is_some() {
                    Some(c.shock_timer)
                } else {
                    None
                },
                None => None,
            };
            match info {
                Some(timer) => {
                    match timer {
                        None => {
                            match &mut self.characters[i] {
                                Some(c) => {
                                    c.shock_timer = Some(0);
                                },
                                None => {},
                            }
                        },
                        Some(t) => {
                            if dt_ms >= SHOCK_DURATION_MS || t + dt_ms >= SHOCK_DURATION_MS {
                                match &mut self.characters[i] {
                                    Some(c) => {
                                        c.shocked = None;
                                        c.shock_timer = None;
                                        c.forced = None;
                                    },
                                    None => {},
                                }
                            } else {
                                match &mut self.characters[i] {
                                    Some(c) => {
                                        c.shock_timer = Some(t + dt_ms);
                                    },
                                    None => {},
                                }
                            }
                        },
                    }
                },
                None => {},
            }
            i = i + 1;
        }
    }

    /// Carry every forced motion one frame forward.
    #[verifier::loop_isolation(false)]
    pub fn forced_move_system(&mut self, dt_ms: u64)
        requires
            old(self).wf(),
            dt_ms <= crate::movement::FRAME_LIMIT_MS,
        ensures
            final(self).wf(),
            final(self).characters@.len() == old(self).characters@.len(),
            forall|i: int|
                0 <= i < old(self).characters@.len() ==> final(self).characters@[i] == (match #[trigger] old(self).characters@[i] {
                    Some(c) => Some(forced_moved(c, dt_ms as int)),
                    None => None::<Character>,
                }),
            final(self).bullets@ == old(self).bullets@,
            final(self).weapons@ == old(self).weapons@,
            final(self).spawn_requests@ == old(self).spawn_requests@,
            final(self).succeed_events@ == old(self).succeed_events@,
    {
        let ghost chars0 = old(self).characters@;
        let n = self.characters.len();
        let mut i: usize = 0;
        while i < n
            invariant
                0 <= i <= n,
                self.characters@.len() == n,
                self.bullets@ == old(self).bullets@,
                self.weapons@ == old(self).weapons@,
                self.weapon_rngs@ == old(self).weapon_rngs@,
                self.spawn_requests@ == old(self).spawn_requests@,
                self.succeed_events@ == old(self).succeed_events@,
                forall|k: int| i <= k < n ==> self.characters@[k] == chars0[k],
                forall|k: int|
                    0 <= k < i ==> self.characters@[k] == (match #[trigger] chars0[k] {
                        Some(c) => Some(forced_moved(c, dt_ms as int)),
                        None => None::<Character>,
                    }),
                forall|k: int|
                    0 <= k < n ==> (match #[trigger] self.characters@[k] {
                        Some(c) => c.wf(),
                        None => true,
                    }),
            decreases n - i,
        {
            let info = match &self.characters[i] {
                Some(c) => match c.forced {
                    Some(f) => Some((f, c.pos)),
                    None => None,
                },
                None => None,
            };
            match info {
                Some((f, pos)) => {
                    assert(-60000000000000000 <= f.direction.x * f.speed <= 60000000000000000
                        && -60000000000000000 <= f.direction.y * f.speed <= 60000000000000000)
                        by (nonlinear_arith)
                        requires
                            -10000 <= f.direction.x <= 10000,
                            -10000 <= f.direction.y <= 10000,
                            -6000000000000 <= f.speed <= 6000000000000,
                    ;
                    proof {
                        crate::fixp::lemma_div_trunc_bound(
                            f.direction.x * f.speed,
                            1000,
                            60000000000000,
                        );
                        crate::fixp::lemma_div_trunc_bound(
                            f.direction.y * f.speed,
                            1000,
                            60000000000000,
                        );
                    }
                    let vx: i64 = crate::fixp::milli_div(f.direction.x * f.speed);
                    let vy: i64 = crate::fixp::milli_div(f.direction.y * f.speed);
                    assert(-600000000000000000 <= vx * dt_ms <= 600000000000000000
                        && -600000000000000000 <= vy * dt_ms <= 600000000000000000)
                        by (nonlinear_arith)
                        requires
                            -60000000000000 <= vx <= 60000000000000,
                            -60000000000000 <= vy <= 60000000000000,
                            0 <= dt_ms <= 10000,
                    ;
                    proof {
                        crate::fixp::lemma_div_trunc_bound(
                            vx * dt_ms,
                            1000,
                            600000000000000,
                        );
                        crate::fixp::lemma_div_trunc_bound(
                            vy * dt_ms,
                            1000,
                            600000000000000,
                        );
                    }
                    let sx: i64 = crate::fixp::milli_div(vx * (dt_ms as i64));
                    let sy: i64 = crate::fixp::milli_div(vy * (dt_ms as i64));
                    let np = Vec2m {
                        x: crate::movement::clamp_coord(pos.x + sx),
                        y: crate::movement::clamp_coord(pos.y + sy),
                    };
                    match &mut self.characters[i] {
                        Some(c) => {
                            c.pos = np;
                        },
                        None => {},
                    }
                },
                None => {},
            }
            i = i + 1;
        }
    }

    /// Apply one frame of keyboard input to every keyboard-controlled
    /// player: the four movement keys' edges update the axis-move state.
    #[verifier::loop_isolation(false)]
    pub fn handle_input(&mut self, keys: &crate::input_handling::KeyFacts)
        requires
            old(self).wf(),
        ensures
            final(self).wf(),
            final(self).characters@.len() == old(self).characters@.len(),
            forall|i: int|
                0 <= i < old(self).characters@.len() ==> final(self).characters@[i] == (match #[trigger] old(self).characters@[i] {
                    Some(c) => if c.is_player && c.keyboard {
                        Some(
                            Character {
                                x_move: crate::input_handling::x_axis_update_spec(c.x_move, *keys),
                                y_move: crate::input_handling::y_axis_update_spec(c.y_move, *keys),
                                ..c
                            },
                        )
                    } else {
                        Some(c)
                    },
                    None => None::<Character>,
                }),
            final(self).bullets@ == old(self).bullets@,
            final(self).weapons@ == old(self).weapons@,
            final(self).spawn_requests@ == old(self).spawn_requests@,
            final(self).succeed_events@ == old(self).succeed_events@,
    {
        let ghost chars0 = old(self).characters@;
        let n = self.characters.len();
        let mut i: usize = 0;
        while i < n
            invariant
                0 <= i <= n,
                self.characters@.len() == n,
                self.bullets@ == old(self).bullets@,
                self.weapons@ == old(self).weapons@,
                self.weapon_rngs@ == old(self).weapon_rngs@,
                self.spawn_requests@ == old(self).spawn_requests@,
                self.succeed_events@ == old(self).succeed_events@,
                forall|k: int| i <= k < n ==> self.characters@[k] == chars0[k],
                forall|k: int|
                    0 <= k < i ==> self.characters@[k] == (match #[trigger] chars0[k] {
                        Some(c) => if c.is_player && c.keyboard {
                            Some(
                                Character {
                                    x_move: crate::input_handling::x_axis_update_spec(
                                        c.x_move,
                                        *keys,
                                    ),
                                    y_move: crate::input_handling::y_axis_update_spec(
                                        c.y_move,
                                        *keys,
                                    ),
                                    ..c
                                },
                            )
                        } else {
                            Some(c)
                        },
                        None => None::<Character>,
                    }),
                forall|k: int|
                    0 <= k < n ==> (match #[trigger] self.characters@[k] {
                        Some(c) => c.wf(),
                        None => true,
                    }),
            decreases n - i,
        {
            let info = match &self.characters[i] {
                Some(c) => if c.is_player && c.keyboard {
                    Some((c.x_move, c.y_move))
                } else {
                    None
                },
                None => None,
            };
            match info {
                Some((x, y)) => {
                    let x2 = crate::input_handling::x_axis_update(x, keys);
                    let y2 = crate::input_handling::y_axis_update(y, keys);
                    match &mut self.characters[i] {
                        Some(c) => {
                            c.x_move = x2;
                            c.y_move = y2;
                        },
                        None => {},
                    }
                },
                None => {},
            }
            i = i + 1;
        }
    }

    /// Apply one frame of mouse input: the cursor position becomes every
    /// keyboard-controlled player's aim point, and a click edge opens or
    /// closes the trigger gate of every weapon wielded by a player-side
    /// character.  When one frame carries both click edges, the release
    /// takes effect after the press and the weapon ends not shooting.
    /// Without a cursor position nothing changes.
    #[verifier::loop_isolation(false)]
    pub fn handle_mouse(&mut self, cursor: Option<Vec2m>, just_pressed: bool, just_released: bool)
        requires
            old(self).wf(),
            match cursor {
                Some(p) => p.bounded(COORD_LIMIT as int),
                None => true,
            },
        ensures
            final(self).wf(),
            final(self).characters@.len() == old(self).characters@.len(),
            forall|i: int|
                0 <= i < old(self).characters@.len() ==> final(self).characters@[i] == (match #[trigger] old(self).characters@[i] {
                    Some(c) => match cursor {
                        Some(p) => if c.is_player && c.keyboard {
                            Some(Character { aim: p, ..c })
                        } else {
                            Some(c)
                        },
                        None => Some(c),
                    },
                    None => None::<Character>,
                }),
            final(self).weapons@.len() == old(self).weapons@.len(),
            forall|i: int|
                0 <= i < old(self).weapons@.len() ==> (#[trigger] final(self).weapons@[i]).owner
                    == old(self).weapons@[i].owner && final(self).weapons@[i].weapon == (
                match cursor {
                    Some(p) => {
                        if (just_pressed || just_released) && owner_alive(
                            old(self).characters@,
                            old(self).weapons@[i].owner,
                        ) && old(self).characters@[old(self).weapons@[i].owner as int].unwrap().is_player {
                            Weapon { shooting: !just_released, ..old(self).weapons@[i].weapon }
                        } else {
                            old(self).weapons@[i].weapon
                        }
                    },
                    None => old(self).weapons@[i].weapon,
                }),
            final(self).bullets@ == old(self).bullets@,
            final(self).spawn_requests@ == old(self).spawn_requests@,
            final(self).succeed_events@ == old(self).succeed_events@,
    {
        let ghost chars0 = old(self).characters@;
        let ghost ws0 = old(self).weapons@;
        match cursor {
            Some(p) => {
                let n = self.characters.len();
                let mut i: usize = 0;
                while i < n
                    invariant
                        0 <= i <= n,
                        self.characters@.len() == n,
                        self.bullets@ == old(self).bullets@,
                        self.weapons@ == ws0,
                        self.weapon_rngs@ == old(self).weapon_rngs@,
                        self.spawn_requests@ == old(self).spawn_requests@,
                        self.succeed_events@ == old(self).succeed_events@,
                        p.bounded(COORD_LIMIT as int),
                        forall|k: int| i <= k < n ==> self.characters@[k] == chars0[k],
                        forall|k: int|
                            0 <= k < i ==> self.characters@[k] == (match #[trigger] chars0[k] {
                                Some(c) => if c.is_player && c.keyboard {
                                    Some(Character { aim: p, ..c })
                                } else {
                                    Some(c)
                                },
                                None => None::<Character>,
                            }),
                        forall|k: int|
                            0 <= k < n ==> (match #[trigger] self.characters@[k] {
                                Some(c) => c.wf(),
                                None => true,
                            }),
                    decreases n - i,
                {
                    let wants = match &self.characters[i] {
                        Some(c) => c.is_player && c.keyboard,
                        None => false,
                    };
                    if wants {
                        match &mut self.characters[i] {
                            Some(c) => {
                                c.aim = p;
                            },
                            None => {},
                        }
                    }
                    i = i + 1;
                }
                if just_pressed || just_released {
                    let m = self.weapons.len();
                    let mut j: usize = 0;
                    while j < m
                        invariant
                            0 <= j <= m,
                            self.weapons@.len() == m,
                            self.bullets@ == old(self).bullets@,
                            self.weapon_rngs@ == old(self).weapon_rngs@,
                            self.spawn_requests@ == old(self).spawn_requests@,
                            self.succeed_events@ == old(self).succeed_events@,
                            self.characters@.len() == n,
                            just_pressed || just_released,
                            forall|k: int|
                                0 <= k < n ==> self.characters@[k] == (match #[trigger] chars0[k] {
                                    Some(c) => if c.is_player && c.keyboard {
                                        Some(Character { aim: p, ..c })
                                    } else {
                                        Some(c)
                                    },
                                    None => None::<Character>,
                                }),
                            forall|k: int|
                                0 <= k < n ==> (match #[trigger] self.characters@[k] {
                                    Some(c) => c.wf(),
                                    None => true,
                                }),
                            forall|k: int| j <= k < m ==> self.weapons@[k] == ws0[k],
                            forall|k: int|
                                0 <= k < j ==> (#[trigger] self.weapons@[k]).owner == ws0[k].owner
                                    && self.weapons@[k].weapon == (if owner_alive(
                                    chars0,
                                    ws0[k].owner,
                                ) && chars0[ws0[k].owner as int].unwrap().is_player {
                                    Weapon { shooting: !just_released, ..ws0[k].weapon }
                                } else {
                                    ws0[k].weapon
                                }),
                            forall|k: int|
                                0 <= k < j ==> (#[trigger] self.weapons@[k]).weapon.wf(),
                        decreases m - j,
                    {
                        let owner = self.weapons[j].owner;
                        let mut is_player_weapon = false;
                        if owner < self.characters.len() as u64 {
                            proof {
                                assert(self.characters@[owner as int] == (match chars0[owner as int] {
                                    Some(c) => if c.is_player && c.keyboard {
                                        Some(Character { aim: p, ..c })
                                    } else {
                                        Some(c)
                                    },
                                    None => None::<Character>,
                                }));
                            }
                            match &self.characters[owner as usize] {
                                Some(c) => {
                                    is_player_weapon = c.is_player;
                                },
                                None => {},
                            }
                        }
                        if is_player_weapon {
                            self.weapons[j].weapon.shooting = !just_released;
                        }
                        j = j + 1;
                    }
                }
            },
            None => {},
        }
    }

    /// The frame's spawn phase: consume last tick's succeed events into
    /// succession requests, spawn everything requested, run the variant
    /// initializers and resolve the new bullets' movement intents.
    #[verifier::rlimit(100)]
    fn run_spawn_phase(&mut self)
        requires
            old(self).wf(),
        ensures
            final(self).wf(),
            final(self).characters@ == old(self).characters@,
            final(self).weapons@ == old(self).weapons@,
            final(self).spawn_requests@.len() == 0,
            final(self).succeed_events@.len() == 0,
            final(self).bullets@.len() == old(self).bullets@.len() + flat_requests(
                old(self).spawn_requests@ + succession_requests(
                    old(self).succeed_events@,
                    old(self).weapons@,
                ),
            ).len(),
            forall|i: int|
                0 <= i < old(self).bullets@.len() ==> (match #[trigger] old(self).bullets@[i] {
                    None => final(self).bullets@[i] is None,
                    Some(b) => {
                        if b.state == BulletState::Spawning {
                            if frame_activates(b, old(self).bullets@, i) {
                                final(self).bullets@[i] is Some && same_bullet_core(
                                    activated(b),
                                    final(self).bullets@[i].unwrap(),
                                )
                            } else {
                                final(self).bullets@[i] is None
                            }
                        } else {
                            final(self).bullets@[i] is Some && same_bullet_core(
                                b,
                                final(self).bullets@[i].unwrap(),
                            )
                        }
                    },
                }),
    {
        let ghost b0 = old(self).bullets@;
        self.bullet_succeed();
        let ghost s1req = self.spawn_requests@;
        self.bullet_spawner();
        let ghost b2 = self.bullets@;
        proof {
            assert forall|i: int, s: u64|
                0 <= i < b0.len() implies (#[trigger] beam_conflict(b2, i, s)) == beam_conflict(
                b0,
                i,
                s,
            ) by {
                assert forall|j: int|
                    0 <= j < b2.len() && #[trigger] active_beam_of(b2[j], s) implies
                    old_active_conflict(b0, s) by {
                    if j < b0.len() {
                        assert(active_beam_of(b0[j], s));
                    } else {
                        let k = j - b0.len();
                        assert((#[trigger] b2[b0.len() + k]) is Some && is_fresh_instance(
                            b2[b0.len() + k].unwrap(),
                            flat_requests(s1req)[k],
                            old(self).characters@,
                        ));
                        assert(b2[j].unwrap().state == BulletState::Spawning);
                    }
                }
                assert forall|j: int|
                    0 <= j < b0.len() && #[trigger] active_beam_of(b0[j], s) implies
                    old_active_conflict(b2, s) by {
                    assert(active_beam_of(b2[j], s));
                }
                assert forall|j: int|
                    0 <= j < i && #[trigger] spawning_beam_of(b2[j], s) implies
                    earlier_spawning_beam(b0, i, s) by {
                    assert(spawning_beam_of(b0[j], s));
                }
                assert forall|j: int|
                    0 <= j < i && #[trigger] spawning_beam_of(b0[j], s) implies
                    earlier_spawning_beam(b2, i, s) by {
                    assert(spawning_beam_of(b2[j], s));
                }
            }
        }
        self.bullet_initializers();
        let ghost b3 = self.bullets@;
        self.bullet_move_intents();
        let ghost b4 = self.bullets@;
        proof {
            assert forall|i: int|
                0 <= i < b3.len() && (#[trigger] b3[i]) is Some implies b4[i] is Some
                && same_bullet_core(b3[i].unwrap(), b4[i].unwrap()) by {}
        }
        self.lazer_shot_move_system();
        proof {
            assert forall|i: int|
                0 <= i < b4.len() && (#[trigger] b4[i]) is Some implies self.bullets@[i] is Some
                && same_bullet_core(b4[i].unwrap(), self.bullets@[i].unwrap()) by {}
        }
    }

    /// The frame's targeting phase: hostile-target acquisition, movement
    /// and aim strategies, and facing alignment.  Only aim points,
    /// hostile references, movement intents and facings change.
    #[verifier::rlimit(100)]
    fn run_targeting_phase(&mut self)
        requires
            old(self).wf(),
        ensures
            final(self).wf(),
            final(self).bullets@ == old(self).bullets@,
            final(self).weapons@ == old(self).weapons@,
            final(self).spawn_requests@ == old(self).spawn_requests@,
            final(self).succeed_events@ == old(self).succeed_events@,
            final(self).characters@.len() == old(self).characters@.len(),
            forall|i: int|
                0 <= i < old(self).characters@.len() ==> (((#[trigger] old(self).characters@[i])
                    is Some <==> final(self).characters@[i] is Some) && (old(self).characters@[i]
                    is Some ==> ({
                    let c = old(self).characters@[i].unwrap();
                    let c2 = final(self).characters@[i].unwrap();
                    &&& c2.pos == c.pos
                    &&& c2.vel == c.vel
                    &&& c2.life == c.life
                    &&& c2.is_player == c.is_player
                    &&& c2.speed == c.speed
                    &&& c2.keyboard == c.keyboard
                    &&& c2.move_targeting == c.move_targeting
                    &&& c2.aim_targeting == c.aim_targeting
                    &&& c2.shocked == c.shocked
                    &&& c2.shock_timer == c.shock_timer
                    &&& c2.forced == c.forced
                    &&& c2.x_move == c.x_move
                    &&& c2.y_move == c.y_move
                }))),
    {
        self.enemy_search_nearist_player();
        self.move_targeting_system();
        self.aim_targeting_system();
        self.aim_system();
    }

    /// The frame's weapon phase: count cooldowns down, then fire every
    /// ready weapon from its wielder's current transform.
    #[verifier::rlimit(100)]
    fn run_weapon_phase(&mut self, dt_ms: u64)
        requires
            old(self).wf(),
        ensures
            final(self).wf(),
            final(self).characters@ == old(self).characters@,
            final(self).bullets@ == old(self).bullets@,
            final(self).succeed_events@ == old(self).succeed_events@,
            final(self).weapons@.len() == old(self).weapons@.len(),
            forall|i: int|
                0 <= i < old(self).weapons@.len() ==> (#[trigger] final(self).weapons@[i]).owner
                    == old(self).weapons@[i].owner && final(self).weapons@[i].weapon
                    == frame_weapon(old(self).weapons@[i], old(self).characters@, dt_ms as int),
            final(self).spawn_requests@ == old(self).spawn_requests@ + fired_requests(
                ticked_weapons(old(self).weapons@, dt_ms as int),
                old(self).characters@,
            ),
    {
        self.cooldown_system(dt_ms);
        proof {
            assert(self.weapons@ =~= ticked_weapons(old(self).weapons@, dt_ms as int));
        }
        self.shoot_system();
    }

    /// The frame's motion phase: knockback, shock timers, forced motion
    /// and the movement resolver.  Only positions, velocities, movement
    /// intents and shock state change; bullets keep their whole
    /// lifecycle state.
    #[verifier::rlimit(100)]
    fn run_motion_phase(&mut self, dt_ms: u64, char_contacts: &Vec<(usize, usize)>)
        requires
            old(self).wf(),
            dt_ms <= crate::movement::FRAME_LIMIT_MS,
        ensures
            final(self).wf(),
            final(self).weapons@ == old(self).weapons@,
            final(self).spawn_requests@ == old(self).spawn_requests@,
            final(self).succeed_events@ == old(self).succeed_events@,
            final(self).characters@.len() == old(self).characters@.len(),
            forall|i: int|
                0 <= i < old(self).characters@.len() ==> (((#[trigger] old(self).characters@[i])
                    is Some <==> final(self).characters@[i] is Some) && (old(self).characters@[i]
                    is Some ==> ({
                    let c = old(self).characters@[i].unwrap();
                    let c2 = final(self).characters@[i].unwrap();
                    &&& c2.life == c.life
                    &&& c2.is_player == c.is_player
                    &&& c2.speed == c.speed
                    &&& c2.keyboard == c.keyboard
                    &&& c2.move_targeting == c.move_targeting
                    &&& c2.aim_targeting == c.aim_targeting
                    &&& c2.aim == c.aim
                    &&& c2.hostile == c.hostile
                    &&& c2.x_move == c.x_move
                    &&& c2.y_move == c.y_move
                }))),
            final(self).bullets@.len() == old(self).bullets@.len(),
            forall|i: int|
                0 <= i < old(self).bullets@.len() ==> (((#[trigger] old(self).bullets@[i])
                    is Some <==> final(self).bullets@[i] is Some) && (old(self).bullets@[i]
                    is Some ==> same_bullet_core(
                    old(self).bullets@[i].unwrap(),
                    final(self).bullets@[i].unwrap(),
                ))),
    {
        self.player_enemy_shock_system(char_contacts);
        proof {
            lemma_shock_fold_frame(old(self).characters@, char_contacts@);
        }
        self.shock_system();
        self.shock_timer_system(dt_ms);
        self.forced_move_system(dt_ms);
        self.move_system(dt_ms);
    }

    /// The frame's sweep phase: endurance exhaustion, the lifetime
    /// timer, the despawn sweep with its succeed events, and the reaping
    /// of dead characters.
    #[verifier::rlimit(100)]
    fn run_sweep_phase(&mut self, dt_ms: u64)
        requires
            old(self).wf(),
            dt_ms <= crate::movement::FRAME_LIMIT_MS,
        ensures
            final(self).wf(),
            final(self).weapons@ == old(self).weapons@,
            final(self).spawn_requests@ == old(self).spawn_requests@,
            final(self).bullets@.len() == old(self).bullets@.len(),
            forall|i: int|
                0 <= i < old(self).bullets@.len() ==> final(self).bullets@[i] == (match #[trigger] old(self).bullets@[i] {
                    Some(b) => if swept_bullet(b, dt_ms as int).state == BulletState::PendingDespawn {
                        None::<BulletInstance>
                    } else {
                        Some(swept_bullet(b, dt_ms as int))
                    },
                    None => None::<BulletInstance>,
                }),
            final(self).succeed_events@ == old(self).succeed_events@ + despawn_events(
                swept_arena(old(self).bullets@, dt_ms as int),
                old(self).bullets@.len() as int,
            ),
            final(self).characters@.len() == old(self).characters@.len(),
            forall|i: int|
                0 <= i < old(self).characters@.len() ==> final(self).characters@[i] == (match #[trigger] old(self).characters@[i] {
                    Some(c) => if c.life > 0 {
                        Some(c)
                    } else {
                        None::<Character>
                    },
                    None => None::<Character>,
                }),
    {
        let ghost b0 = old(self).bullets@;
        let ghost dt = dt_ms as int;
        self.bullet_endurance();
        self.bullet_lifetime(dt_ms);
        proof {
            assert(self.bullets@ =~= swept_arena(b0, dt));
        }
        self.bullet_before_despawn();
        self.life_dies_system();
    }

    /// One presentation tick, in declared phase order: succession and
    /// spawning first, then variant initialization and movement intents,
    /// targeting, aiming, firing, knockback, movement integration, and
    /// finally the lifetime, endurance and despawn sweeps.  Succeed
    /// events generated during this tick sit in the queue until the
    /// start of the next one; health never changes here (damage belongs
    /// to the fixed tick), so exactly the already-dead are reaped.
    #[verifier::rlimit(100)]
    pub fn frame(&mut self, dt_ms: u64, char_contacts: &Vec<(usize, usize)>)
        requires
            old(self).wf(),
            dt_ms <= crate::movement::FRAME_LIMIT_MS,
        ensures
            final(self).wf(),
            final(self).bullets@.len() == old(self).bullets@.len() + flat_requests(
                old(self).spawn_requests@ + succession_requests(
                    old(self).succeed_events@,
                    old(self).weapons@,
                ),
            ).len(),
            final(self).characters@.len() == old(self).characters@.len(),
            final(self).weapons@.len() == old(self).weapons@.len(),
            forall|i: int|
                0 <= i < old(self).weapons@.len() ==> (#[trigger] final(self).weapons@[i]).owner
                    == old(self).weapons@[i].owner && final(self).weapons@[i].weapon
                    == frame_weapon(old(self).weapons@[i], old(self).characters@, dt_ms as int),
            final(self).spawn_requests@.len() == fired_requests(
                ticked_weapons(old(self).weapons@, dt_ms as int),
                old(self).characters@,
            ).len(),
            forall|j: int|
                0 <= j < final(self).spawn_requests@.len() ==> (#[trigger] final(self).spawn_requests@[j]) == (SpawnRequest {
                    facing: final(self).spawn_requests@[j].facing,
                    ..fired_requests(
                        ticked_weapons(old(self).weapons@, dt_ms as int),
                        old(self).characters@,
                    )[j]
                }),
            forall|i: int|
                0 <= i < old(self).characters@.len() ==> ((#[trigger] final(self).characters@[i])
                    is Some <==> (old(self).characters@[i] is Some
                    && old(self).characters@[i].unwrap().life > 0)),
            forall|i: int|
                0 <= i < old(self).characters@.len() && (#[trigger] final(self).characters@[i])
                    is Some ==> ({
                    let c = old(self).characters@[i].unwrap();
                    let c2 = final(self).characters@[i].unwrap();
                    &&& c2.life == c.life
                    &&& c2.is_player == c.is_player
                    &&& c2.speed == c.speed
                    &&& c2.keyboard == c.keyboard
                    &&& c2.move_targeting == c.move_targeting
                    &&& c2.aim_targeting == c.aim_targeting
                }),
            forall|i: int|
                0 <= i < old(self).bullets@.len() ==> (match #[trigger] old(self).bullets@[i] {
                    None => final(self).bullets@[i] is None,
                    Some(b) => {
                        if frame_removes(b, old(self).bullets@, i, dt_ms as int) {
                            final(self).bullets@[i] is None
                        } else {
                            final(self).bullets@[i] is Some && ({
                                let b2 = final(self).bullets@[i].unwrap();
                                &&& b2.state == BulletState::Active
                                &&& b2.age_ms == b.age_ms + dt_ms
                                &&& b2.endurance == frame_tracked_endurance(
                                    b,
                                    old(self).bullets@,
                                    i,
                                )
                                &&& b2.hits.entries@ == b.hits.entries@
                                &&& b2.bullet == b.bullet
                                &&& b2.variant == b.variant
                                &&& b2.weapon == b.weapon
                                &&& b2.shooter == b.shooter
                                &&& b2.generation == b.generation
                                &&& b2.player_side == b.player_side
                            })
                        }
                    },
                }),
            forall|i: int|
                0 <= i < old(self).bullets@.len() ==> events_for(final(self).succeed_events@, i)
                    == (match #[trigger] old(self).bullets@[i] {
                    Some(b) => if frame_succeeds_bullet(b, old(self).bullets@, i, dt_ms as int) {
                        1int
                    } else {
                        0int
                    },
                    None => 0int,
                }),
            forall|i: int|
                0 <= i < old(self).bullets@.len() && (#[trigger] old(self).bullets@[i]) is Some
                    && frame_succeeds_bullet(
                    old(self).bullets@[i].unwrap(),
                    old(self).bullets@,
                    i,
                    dt_ms as int,
                ) ==> (exists|k: int|
                    0 <= k < final(self).succeed_events@.len() && (#[trigger] final(self).succeed_events@[k]).bullet == i && final(self).succeed_events@[k].weapon
                        == old(self).bullets@[i].unwrap().weapon && final(self).succeed_events@[k].generation == old(self).bullets@[i].unwrap().generation),
            forall|k: int|
                0 <= k < final(self).succeed_events@.len() ==> (#[trigger] final(self).succeed_events@[k]).bullet < final(self).bullets@.len() && final(self).bullets@[final(self).succeed_events@[k].bullet as int] is None,
    {
        let ghost b0 = old(self).bullets@;
        let ghost c0 = old(self).characters@;
        let ghost w0 = old(self).weapons@;
        let ghost dt = dt_ms as int;
        self.run_spawn_phase();
        let ghost s1b = self.bullets@;
        self.run_targeting_phase();
        let ghost s2c = self.characters@;
        proof {
            assert forall|i: int|
                0 <= i < w0.len() implies frame_weapon(w0[i], s2c, dt) == frame_weapon(
                w0[i],
                c0,
                dt,
            ) by {
                assert(owner_alive(s2c, w0[i].owner) == owner_alive(c0, w0[i].owner));
            }
        }
        self.run_weapon_phase(dt_ms);
        proof {
            lemma_fired_requests_agree(ticked_weapons(w0, dt), s2c, c0);
        }
        self.run_motion_phase(dt_ms, char_contacts);
        let ghost s4b = self.bullets@;
        let ghost s4c = self.characters@;
        let ghost n4 = self.bullets.len();
        self.run_sweep_phase(dt_ms);
        proof {
            let arena = swept_arena(s4b, dt);
            assert(self.succeed_events@ =~= despawn_events(arena, s4b.len() as int));
            assert forall|i: int|
                0 <= i < b0.len() implies events_for(self.succeed_events@, i) == (match b0[i] {
                Some(b) => if frame_succeeds_bullet(b, b0, i, dt) {
                    1int
                } else {
                    0int
                },
                None => 0int,
            }) by {
                lemma_despawn_emits_once(arena, s4b.len() as int, i);
                assert(s1b[i] is Some <==> s4b[i] is Some);
            }
            assert forall|i: int|
                0 <= i < b0.len() && (#[trigger] b0[i]) is Some && frame_succeeds_bullet(
                    b0[i].unwrap(),
                    b0,
                    i,
                    dt,
                ) implies (exists|k: int|
                0 <= k < self.succeed_events@.len() && (#[trigger] self.succeed_events@[k]).bullet
                    == i && self.succeed_events@[k].weapon == b0[i].unwrap().weapon
                    && self.succeed_events@[k].generation == b0[i].unwrap().generation) by {
                lemma_despawn_emits_once(arena, s4b.len() as int, i);
                let ev = despawn_event_of(arena[i].unwrap(), i);
                assert(self.succeed_events@.contains(ev));
                let k = choose|k: int|
                    0 <= k < self.succeed_events@.len() && self.succeed_events@[k] == ev;
                assert(self.succeed_events@[k].bullet == i);
            }
            lemma_despawn_events_members(arena, s4b.len() as int);
            assert forall|k: int|
                0 <= k < self.succeed_events@.len() implies (#[trigger] self.succeed_events@[k]).bullet
                    < self.bullets@.len() && self.bullets@[self.succeed_events@[k].bullet as int]
                    is None by {
                let ev = self.succeed_events@[k];
                assert(pending_succeeds(arena[ev.bullet as int]));
                assert(swept_bullet(s4b[ev.bullet as int].unwrap(), dt).state
                    == BulletState::PendingDespawn);
            }
        }
    }

    /// One fixed-rate simulation tick: resolve the physics contacts into
    /// hit events, then consume them — hit accounting strictly precedes
    /// the endurance evaluation, and damage applies to every event.  The
    /// events are returned for inspection.
    #[verifier::rlimit(100)]
    pub fn fixed_tick(&mut self, contacts: &Vec<(usize, usize)>) -> (events: Vec<BulletHitEvent>)
        requires
            old(self).wf(),
        ensures
            final(self).wf(),
            events@ == hits_fold(
                views_of(old(self).bullets@),
                Seq::<BulletHitEvent>::empty(),
                old(self).characters@,
                contacts@,
            ).1,
            final(self).bullets@.len() == old(self).bullets@.len(),
            forall|i: int|
                0 <= i < old(self).bullets@.len() ==> ((#[trigger] old(self).bullets@[i]) is Some
                    <==> final(self).bullets@[i] is Some),
            forall|i: int|
                0 <= i < old(self).bullets@.len() && (#[trigger] old(self).bullets@[i]) is Some
                    ==> ({
                    let hv = hits_fold(
                        views_of(old(self).bullets@),
                        Seq::<BulletHitEvent>::empty(),
                        old(self).characters@,
                        contacts@,
                    ).0[i].unwrap();
                    let c = final(self).bullets@[i].unwrap()@;
                    &&& c == (crate::bullet::BulletModel { endurance: c.endurance, ..hv })
                    &&& (hv.endurance is Some <==> c.endurance is Some)
                    &&& (hv.endurance == Some(Endurance::Infinite) ==> c.endurance == Some(
                        Endurance::Infinite,
                    ))
                    &&& (match (hv.endurance, c.endurance) {
                        (Some(e), Some(e2)) => e.is_finite() == e2.is_finite(),
                        _ => true,
                    })
                }),
            forall|i: int|
                0 <= i < old(self).bullets@.len() && !first_hit_for(events@, i) ==> views_of(
                    final(self).bullets@,
                )[i] == hits_fold(
                    views_of(old(self).bullets@),
                    Seq::<BulletHitEvent>::empty(),
                    old(self).characters@,
                    contacts@,
                ).0[i],
            final(self).succeed_events@ == old(self).succeed_events@ + hit_succession_events(
                events@,
                hits_fold(
                    views_of(old(self).bullets@),
                    Seq::<BulletHitEvent>::empty(),
                    old(self).characters@,
                    contacts@,
                ).0,
            ),
            final(self).characters@ == damage_fold(
                old(self).characters@,
                views_of(old(self).bullets@),
                events@,
            ),
            final(self).weapons@ == old(self).weapons@,
            final(self).spawn_requests@ == old(self).spawn_requests@,
    {
        let ghost v0 = views_of(old(self).bullets@);
        let ghost chars0 = old(self).characters@;
        let events = self.bullet_hit_system(contacts);
        let ghost r = hits_fold(v0, Seq::<BulletHitEvent>::empty(), chars0, contacts@);
        let ghost mid = self.bullets@;
        proof {
            assert(views_of(mid) == r.0);
            lemma_hits_fold_frame(v0, Seq::<BulletHitEvent>::empty(), chars0, contacts@);
        }
        self.bullet_hit_endurance_system(&events);
        let ghost mid2 = self.bullets@;
        self.hit_damage_system(&events);
        proof {
            assert forall|i: int| 0 <= i < mid.len() && (#[trigger] mid[i]) is Some implies (
            views_of(mid)[i] == Some(mid[i].unwrap()@) && views_of(mid2)[i] == Some(
                mid2[i].unwrap()@,
            )) by {}
            assert forall|i: int|
                0 <= i < v0.len() implies (((#[trigger] views_of(mid2)[i]) is Some <==> v0[i]
                is Some) && (v0[i] is Some ==> views_of(mid2)[i].unwrap().bullet
                == v0[i].unwrap().bullet)) by {
                assert(views_of(mid)[i] == r.0[i]);
                if mid[i] is Some {
                    assert(same_but_endurance(mid[i].unwrap()@, mid2[i].unwrap()@));
                }
            }
            lemma_damage_fold_agrees(chars0, views_of(mid2), v0, events@);
            assert forall|i: int|
                0 <= i < old(self).bullets@.len() implies ((#[trigger] old(self).bullets@[i])
                is Some <==> self.bullets@[i] is Some) by {
                assert(views_of(old(self).bullets@)[i] == v0[i]);
                assert(views_of(mid)[i] == r.0[i]);
                assert(v0[i] is Some <==> r.0[i] is Some);
            }
            assert forall|i: int|
                0 <= i < old(self).bullets@.len() && !first_hit_for(events@, i) implies views_of(
                self.bullets@,
            )[i] == r.0[i] by {
                assert(mid2[i] == mid[i]);
                assert(views_of(mid)[i] == r.0[i]);
            }
        }
        events
    }
}

/// How many succeed events in the list belong to bullet `i`.
pub open spec fn events_for(evs: Seq<SucceedEvent>, i: int) -> int
    decreases evs.len(),
{
    if evs.len() == 0 {
        0
    } else {
        events_for(evs.drop_last(), i) + if evs.last().bullet == i {
            1int
        } else {
            0int
        }
    }
}

/// Law (succession on expiry): one despawn sweep emits exactly one
/// succeed event for a pending bullet that still tracks a finite
/// endurance — carrying that bullet's next-generation index and last
/// transform — and emits none for any other bullet, no matter how the
/// rest of the arena looks.
pub proof fn lemma_despawn_emits_once(bullets: Seq<Option<BulletInstance>>, upto: int, i: int)
    requires
        0 <= upto <= bullets.len(),
        upto <= usize::MAX,
    ensures
        events_for(despawn_events(bullets, upto), i) == if 0 <= i < upto && pending_succeeds(
            bullets[i],
        ) {
            1int
        } else {
            0int
        },
        (0 <= i < upto && pending_succeeds(bullets[i])) ==> despawn_events(
            bullets,
            upto,
        ).contains(despawn_event_of(bullets[i].unwrap(), i)),
    decreases upto,
{
    if upto > 0 {
        lemma_despawn_emits_once(bullets, upto - 1, i);
        let pre = despawn_events(bullets, upto - 1);
        if !pending_succeeds(bullets[upto - 1]) {
            assert(despawn_events(bullets, upto) == pre);
        } else {
            let ev = despawn_event_of(bullets[upto - 1].unwrap(), upto - 1);
            let all = pre.push(ev);
            assert(despawn_events(bullets, upto) == all);
            assert(all.drop_last() =~= pre);
            assert(all.last() == ev);
            assert(events_for(all, i) == events_for(pre, i) + if ev.bullet == i {
                1int
            } else {
                0int
            });
            if 0 <= i < upto && pending_succeeds(bullets[i]) {
                if i == upto - 1 {
                    assert(all[all.len() - 1] == despawn_event_of(bullets[i].unwrap(), i));
                } else {
                    let k = choose|k: int|
                        0 <= k < pre.len() && pre[k] == despawn_event_of(bullets[i].unwrap(), i);
                    assert(all[k] == despawn_event_of(bullets[i].unwrap(), i));
                }
            }
        }
    } else {
        assert(despawn_events(bullets, 0) =~= Seq::<SucceedEvent>::empty());
    }
}

/// Law (generation chaining): a succeed event at generation `g` fires
/// blueprint entry `g` exactly when the owning weapon still holds that
/// entry; the emitted request carries the entry, the dying bullet's
/// transform as the new origin, and the original shooter.
pub proof fn lemma_succession_next_generation(ev: SucceedEvent, ws: Seq<WeaponSlot>)
    ensures
        succession_requests(seq![ev], ws).len() == if succession_fires(ev, ws) {
            1int
        } else {
            0int
        },
        succession_fires(ev, ws) ==> succession_requests(seq![ev], ws)[0] == succession_request(
            ev,
            ws,
        ),
        succession_fires(ev, ws) <==> (ev.weapon < ws.len() && ev.generation < ws[ev.weapon as int].weapon.loads@.len()),
{
    let single = seq![ev];
    assert(single.drop_last() =~= Seq::<SucceedEvent>::empty());
    assert(single.last() == ev);
    assert(succession_requests(Seq::<SucceedEvent>::empty(), ws) =~= Seq::<SpawnRequest>::empty());
    if succession_fires(ev, ws) {
        assert(succession_requests(single, ws) == Seq::<SpawnRequest>::empty().push(
            succession_request(ev, ws),
        ));
    } else {
        assert(succession_requests(single, ws) == succession_requests(
            Seq::<SucceedEvent>::empty(),
            ws,
        ));
    }
}

/// Law (beam exclusivity): in a well-formed world, any two distinct
/// active beams belong to distinct shooters — at most one beam exists
/// per shooter at any time.
pub proof fn lemma_beam_exclusive(w: World, a: int, b: int)
    requires
        w.wf(),
        0 <= a < b < w.bullets@.len(),
        w.bullets@[a] is Some,
        w.bullets@[b] is Some,
        w.bullets@[a].unwrap().state == BulletState::Active,
        w.bullets@[b].unwrap().state == BulletState::Active,
        w.bullets@[a].unwrap().variant is Beam,
        w.bullets@[b].unwrap().variant is Beam,
    ensures
        w.bullets@[a].unwrap().shooter != w.bullets@[b].unwrap().shooter,
{
    let s = w.bullets@[a].unwrap().shooter;
    if w.bullets@[b].unwrap().shooter == s {
        assert(active_beam_of(w.bullets@[a], s) && active_beam_of(w.bullets@[b], s));
    }
}

/// Law (hit limit one): under a hit limit of one, a registering contact
/// emits a hit event exactly when the bullet has never struck that
/// target before; afterwards the count is positive, so no later contact
/// with the same target ever emits again.
pub proof fn lemma_hit_limit_one_contact(
    bs: Seq<Option<crate::bullet::BulletModel>>,
    es: Seq<BulletHitEvent>,
    chars: Seq<Option<Character>>,
    c: (usize, usize),
)
    requires
        contact_registers(bs, chars, c),
        bs[c.0 as int].unwrap().bullet.hit_limit == crate::hits::HitLimit::Limit(1u32),
    ensures
        ({
            let r = hit_step(bs, es, chars, c);
            &&& r.1.len() == es.len() + (if crate::hits::hit_count_of(
                bs[c.0 as int].unwrap().hits,
                c.1 as u64,
            ) == 0 {
                1int
            } else {
                0int
            })
            &&& crate::hits::hit_count_of(r.0[c.0 as int].unwrap().hits, c.1 as u64) >= 1
        }),
{
    let h = bs[c.0 as int].unwrap().hits;
    crate::hits::lemma_hit_limit_one(h, c.1 as u64);
    crate::hits::lemma_bump_count(h, c.1 as u64);
}

/// How many hit events in the list belong to bullet `b` against target
/// `t`.
pub open spec fn events_for_pair(evs: Seq<BulletHitEvent>, b: usize, t: usize) -> int
    decreases evs.len(),
{
    if evs.len() == 0 {
        0
    } else {
        events_for_pair(evs.drop_last(), b, t) + if evs.last().bullet == b && evs.last().target
            == t {
            1int
        } else {
            0int
        }
    }
}

/// Law (hit limit one, whole tick): resolving any contact list against a
/// bullet with a hit limit of one emits exactly one hit event for a
/// target the bullet had never struck — and none at all for a target it
/// had already struck — no matter how many contacts with that target the
/// list holds.
pub proof fn lemma_hit_limit_one_run(
    bs: Seq<Option<crate::bullet::BulletModel>>,
    es: Seq<BulletHitEvent>,
    chars: Seq<Option<Character>>,
    cs: Seq<(usize, usize)>,
    b: usize,
    t: usize,
)
    requires
        b < bs.len(),
        bs[b as int] is Some,
        bs[b as int].unwrap().bullet.hit_limit == crate::hits::HitLimit::Limit(1u32),
    ensures
        ({
            let r = hits_fold(bs, es, chars, cs);
            &&& r.0.len() == bs.len()
            &&& r.0[b as int] is Some
            &&& r.0[b as int].unwrap().bullet == bs[b as int].unwrap().bullet
            &&& crate::hits::hit_count_of(r.0[b as int].unwrap().hits, t as u64)
                >= crate::hits::hit_count_of(bs[b as int].unwrap().hits, t as u64)
            &&& events_for_pair(r.1, b, t) == events_for_pair(es, b, t) + (
            if crate::hits::hit_count_of(bs[b as int].unwrap().hits, t as u64) == 0
                && crate::hits::hit_count_of(r.0[b as int].unwrap().hits, t as u64) >= 1 {
                1int
            } else {
                0int
            })
        }),
    decreases cs.len(),
{
    if cs.len() > 0 {
        lemma_hit_limit_one_run(bs, es, chars, cs.drop_last(), b, t);
        let pre = hits_fold(bs, es, chars, cs.drop_last());
        let c = cs.last();
        let r = hit_step(pre.0, pre.1, chars, c);
        if contact_registers(pre.0, chars, c) {
            let bm = pre.0[c.0 as int].unwrap();
            let s2 = crate::hits::bump_spec(bm.hits, c.1 as u64);
            let cnt = crate::hits::hit_count_of(s2, c.1 as u64);
            crate::hits::lemma_bump_count(bm.hits, c.1 as u64);
            crate::hits::lemma_hit_count_monotone(bm.hits, c.1 as u64, t as u64);
            if crate::hits::emits_hit(cnt, bm.bullet.hit_limit) {
                let ev = BulletHitEvent { bullet: c.0, target: c.1, pos: bm.pos, first_hit: cnt == 1 };
                assert(r.1.drop_last() =~= pre.1);
                assert(r.1.last() == ev);
            }
        }
    }
}

/// A weapon after the frame's cooldown countdown.
pub open spec fn ticked_weapon(w: Weapon, dt: int) -> Weapon {
    Weapon {
        cooldown_ms: (if w.cooldown_ms >= dt {
            w.cooldown_ms - dt
        } else {
            0int
        }) as u64,
        ..w
    }
}

/// Whether a weapon fires during a frame: after the countdown it is
/// ready, and its wielder still exists to shoot from.
pub open spec fn fires_in_frame(slot: WeaponSlot, chars: Seq<Option<Character>>, dt: int) -> bool {
    ticked_weapon(slot.weapon, dt).ready() && owner_alive(chars, slot.owner)
}

/// A weapon after one whole frame: counted down, then re-armed if it
/// fired.
pub open spec fn frame_weapon(slot: WeaponSlot, chars: Seq<Option<Character>>, dt: int) -> Weapon {
    let t = ticked_weapon(slot.weapon, dt);
    if fires_in_frame(slot, chars, dt) {
        Weapon { cooldown_ms: t.armed_cooldown() as u64, ..t }
    } else {
        t
    }
}

/// The weapon arena after the frame's countdown, slot for slot.
pub open spec fn ticked_weapons(ws: Seq<WeaponSlot>, dt: int) -> Seq<WeaponSlot> {
    Seq::new(ws.len(), |i: int| WeaponSlot { weapon: ticked_weapon(ws[i].weapon, dt), ..ws[i] })
}

/// Whether a spawned bullet's variant initializer lets it live: every
/// variant but a conflicting beam.
pub open spec fn frame_activates(b: BulletInstance, bullets: Seq<Option<BulletInstance>>, i: int) -> bool {
    !(b.variant is Beam) || !beam_conflict(bullets, i, b.shooter)
}

/// The endurance a bullet tracks at this frame's sweeps: one whose
/// initializer runs this frame gains its blueprint endurance.
pub open spec fn frame_tracked_endurance(
    b: BulletInstance,
    bullets: Seq<Option<BulletInstance>>,
    i: int,
) -> Option<Endurance> {
    if b.state == BulletState::Spawning && frame_activates(b, bullets, i) {
        Some(b.bullet.endurance)
    } else {
        b.endurance
    }
}

/// Whether an already-present bullet is removed by this frame: it was
/// already marked, its beam initializer discards it, its tracked
/// endurance is exhausted, or its lifetime elapses.
pub open spec fn frame_removes(
    b: BulletInstance,
    bullets: Seq<Option<BulletInstance>>,
    i: int,
    dt: int,
) -> bool {
    if b.state == BulletState::PendingDespawn {
        true
    } else if b.state == BulletState::Spawning && !frame_activates(b, bullets, i) {
        true
    } else {
        (match frame_tracked_endurance(b, bullets, i) {
            Some(Endurance::Finite(v)) => v < 0,
            _ => false,
        }) || b.age_ms + dt >= b.bullet.life_time_ms
    }
}

/// Whether this frame's removal of the bullet emits a succeed event:
/// only a removal that still tracks a nonnegative finite endurance does
/// (exhaustion retires the tracking first, and an infinite endurance or
/// a discarded beam ends silently).
pub open spec fn frame_succeeds_bullet(
    b: BulletInstance,
    bullets: Seq<Option<BulletInstance>>,
    i: int,
    dt: int,
) -> bool {
    frame_removes(b, bullets, i, dt) && !(b.state == BulletState::Spawning && !frame_activates(
        b,
        bullets,
        i,
    )) && (match frame_tracked_endurance(b, bullets, i) {
        Some(Endurance::Finite(v)) => v >= 0,
        _ => false,
    })
}

/// Equal in every lifecycle-relevant field: only position, facing and
/// movement intent may differ.
pub open spec fn same_bullet_core(b: BulletInstance, b2: BulletInstance) -> bool {
    &&& b2.state == b.state
    &&& b2.age_ms == b.age_ms
    &&& b2.endurance == b.endurance
    &&& b2.hits.entries@ == b.hits.entries@
    &&& b2.bullet == b.bullet
    &&& b2.variant == b.variant
    &&& b2.weapon == b.weapon
    &&& b2.shooter == b.shooter
    &&& b2.generation == b.generation
    &&& b2.player_side == b.player_side
}

/// The trigger pass reads only a wielder's existence and position, so
/// two character arenas equal in those fire the same requests, equal in
/// everything but the captured facing.
pub proof fn lemma_fired_requests_agree(
    ws: Seq<WeaponSlot>,
    ca: Seq<Option<Character>>,
    cb: Seq<Option<Character>>,
)
    requires
        ca.len() == cb.len(),
        forall|i: int|
            0 <= i < ca.len() ==> (((#[trigger] ca[i]) is Some <==> cb[i] is Some) && (ca[i]
                is Some ==> ca[i].unwrap().pos == cb[i].unwrap().pos)),
    ensures
        fired_requests(ws, ca).len() == fired_requests(ws, cb).len(),
        forall|j: int|
            0 <= j < fired_requests(ws, ca).len() ==> (#[trigger] fired_requests(ws, ca)[j])
                == (SpawnRequest { facing: fired_requests(ws, ca)[j].facing, ..fired_requests(
                ws,
                cb,
            )[j] }),
    decreases ws.len(),
{
    if ws.len() > 0 {
        lemma_fired_requests_agree(ws.drop_last(), ca, cb);
        let slot = ws.last();
        assert(owner_alive(ca, slot.owner) == owner_alive(cb, slot.owner));
        let pa = fired_requests(ws.drop_last(), ca);
        let pb = fired_requests(ws.drop_last(), cb);
        if weapon_fires(slot, ca) {
            let ra = pa.push(fired_request(slot, ca, ws.len() - 1));
            let rb = pb.push(fired_request(slot, cb, ws.len() - 1));
            assert forall|j: int| 0 <= j < ra.len() implies (#[trigger] ra[j]) == (SpawnRequest {
                facing: ra[j].facing,
                ..rb[j]
            }) by {
                if j < pa.len() {
                    assert(ra[j] == pa[j] && rb[j] == pb[j]);
                }
            }
        }
    }
}

/// Every event of one despawn sweep names a slot that was pending and
/// succeeding, and is exactly that slot's event.
pub proof fn lemma_despawn_events_members(bullets: Seq<Option<BulletInstance>>, upto: int)
    requires
        0 <= upto <= bullets.len(),
        upto <= usize::MAX,
    ensures
        forall|k: int|
            0 <= k < despawn_events(bullets, upto).len() ==> ({
                let ev = #[trigger] despawn_events(bullets, upto)[k];
                &&& 0 <= ev.bullet < upto
                &&& pending_succeeds(bullets[ev.bullet as int])
                &&& ev == despawn_event_of(bullets[ev.bullet as int].unwrap(), ev.bullet as int)
            }),
    decreases upto,
{
    if upto > 0 {
        lemma_despawn_events_members(bullets, upto - 1);
        let pre = despawn_events(bullets, upto - 1);
        if pending_succeeds(bullets[upto - 1]) {
            let all = pre.push(despawn_event_of(bullets[upto - 1].unwrap(), upto - 1));
            assert forall|k: int| 0 <= k < all.len() implies ({
                let ev = #[trigger] all[k];
                &&& 0 <= ev.bullet < upto
                &&& pending_succeeds(bullets[ev.bullet as int])
                &&& ev == despawn_event_of(bullets[ev.bullet as int].unwrap(), ev.bullet as int)
            }) by {
                if k < pre.len() {
                    assert(all[k] == pre[k]);
                }
            }
        }
    }
}

/// One bullet through the frame's two sweeps: endurance exhaustion
/// first, then the lifetime timer.
pub open spec fn swept_bullet(b: BulletInstance, dt: int) -> BulletInstance {
    lifetime_step(endurance_sweep_step(b), dt)
}

/// The whole arena through the two sweeps.
pub open spec fn swept_arena(bs: Seq<Option<BulletInstance>>, dt: int) -> Seq<
    Option<BulletInstance>,
> {
    Seq::new(
        bs.len(),
        |i: int|
            match bs[i] {
                Some(b) => Some(swept_bullet(b, dt)),
                None => None::<BulletInstance>,
            },
    )
}

/// The knockback pass changes `shocked` only: no character appears,
/// disappears, or changes any other field.
pub proof fn lemma_shock_fold_frame(chars: Seq<Option<Character>>, cs: Seq<(usize, usize)>)
    ensures
        shock_pairs_fold(chars, cs).len() == chars.len(),
        forall|i: int|
            0 <= i < chars.len() ==> (((#[trigger] chars[i]) is Some <==> shock_pairs_fold(
                chars,
                cs,
            )[i] is Some) && (chars[i] is Some ==> shock_pairs_fold(chars, cs)[i].unwrap()
                == (Character { shocked: shock_pairs_fold(chars, cs)[i].unwrap().shocked, ..chars[i].unwrap() }))),
    decreases cs.len(),
{
    if cs.len() > 0 {
        lemma_shock_fold_frame(chars, cs.drop_last());
        let pre = shock_pairs_fold(chars, cs.drop_last());
        let c = cs.last();
        let r = shock_pair_step(pre, c);
        assert forall|i: int|
            0 <= i < chars.len() && (#[trigger] chars[i]) is Some implies r[i].unwrap()
            == (Character { shocked: r[i].unwrap().shocked, ..chars[i].unwrap() }) by {
            if !(c.0 < pre.len() && pre[c.0 as int] is Some && c.1 < pre.len() && pre[c.1 as int]
                is Some && c.0 != c.1 && i == c.0) {
                assert(r[i] == pre[i]);
            }
        }
    }
}

/// One shock application: character `c.0` is knocked back away from
/// character `c.1`, along the normalized line between them.
pub open spec fn shock_pair_step(chars: Seq<Option<Character>>, c: (usize, usize)) -> Seq<
    Option<Character>,
> {
    if c.0 < chars.len() && chars[c.0 as int] is Some && c.1 < chars.len() && chars[c.1 as int]
        is Some && c.0 != c.1 {
        let a = chars[c.0 as int].unwrap();
        let b = chars[c.1 as int].unwrap();
        let d = Vec2m { x: (a.pos.x - b.pos.x) as i64, y: (a.pos.y - b.pos.y) as i64 };
        chars.update(
            c.0 as int,
            Some(
                Character {
                    shocked: Some(
                        Shocked { impact: 1000, direction: crate::vec2::norm_scale_spec(d, 1000) },
                    ),
                    ..a
                },
            ),
        )
    } else {
        chars
    }
}

/// Apply a whole list of character contact pairs, in order.
pub open spec fn shock_pairs_fold(chars: Seq<Option<Character>>, cs: Seq<(usize, usize)>) -> Seq<
    Option<Character>,
>
    decreases cs.len(),
{
    if cs.len() == 0 {
        chars
    } else {
        shock_pair_step(shock_pairs_fold(chars, cs.drop_last()), cs.last())
    }
}

/// One tick of the shock driver: a shocked character whose timer is
/// armed is forced along the shock direction at the impact-curve speed.
pub open spec fn shock_step(c: Character) -> Character {
    match (c.shocked, c.shock_timer) {
        (Some(s), Some(t)) => Character {
            forced: Some(
                ForcedMove {
                    direction: s.direction,
                    speed: crate::forced_moving::shock_speed_spec(s.impact as int, t as int)
                        as i64,
                },
            ),
            ..c
        },
        _ => c,
    }
}

/// One tick of the shock timer: a fresh shock arms the timer; an
/// elapsed one clears the shock, the timer and the forced motion.
pub open spec fn shock_timer_step(c: Character, dt: int) -> Character {
    match c.shocked {
        Some(_) => match c.shock_timer {
            None => Character { shock_timer: Some(0), ..c },
            Some(t) => if t + dt >= SHOCK_DURATION_MS {
                Character { shocked: None, shock_timer: None, forced: None, ..c }
            } else {
                Character { shock_timer: Some((t + dt) as u64), ..c }
            },
        },
        None => c,
    }
}

/// One frame of forced motion.
pub open spec fn forced_moved(c: Character, dt: int) -> Character {
    match c.forced {
        Some(f) => {
            let vx = crate::fixp::div_milli(f.direction.x * f.speed);
            let vy = crate::fixp::div_milli(f.direction.y * f.speed);
            Character {
                pos: Vec2m {
                    x: crate::movement::clamp_coord_spec(
                        c.pos.x + crate::fixp::div_milli(vx * dt),
                    ) as i64,
                    y: crate::movement::clamp_coord_spec(
                        c.pos.y + crate::fixp::div_milli(vy * dt),
                    ) as i64,
                },
                ..c
            }
        },
        None => c,
    }
}

/// The facing the aim pass gives a character: norm-scaled from its
/// position toward its aim point.
pub open spec fn facing_toward(c: Character) -> Vec2m {
    let d = Vec2m { x: (c.aim.x - c.pos.x) as i64, y: (c.aim.y - c.pos.y) as i64 };
    if d.is_zero() {
        c.facing
    } else {
        crate::vec2::norm_scale_spec(d, 1000)
    }
}

/// A character after one frame of the movement resolver.
pub open spec fn moved_character(c: Character, dt: int) -> Character {
    let res = crate::movement::resolve_movement_spec(
        c.pos,
        c.speed as int,
        c.movement,
        c.x_move,
        c.y_move,
        dt,
    );
    Character { pos: res.pos, vel: res.vel, movement: res.movement, ..c }
}

/// A bullet after one frame of the movement resolver.
pub open spec fn moved_bullet(b: BulletInstance, dt: int) -> BulletInstance {
    let res = crate::movement::resolve_movement_spec(
        b.pos,
        b.bullet.speed as int,
        b.movement,
        None,
        None,
        dt,
    );
    BulletInstance { pos: res.pos, movement: res.movement, ..b }
}

/// The nearest living player to `pos`: the first slot at minimal squared
/// distance, or none when no player lives.
fn nearest_player(chars: &Vec<Option<Character>>, pos: Vec2m) -> (r: Option<usize>)
    requires
        pos.bounded(COORD_LIMIT as int),
        forall|k: int|
            0 <= k < chars@.len() ==> (match #[trigger] chars@[k] {
                Some(c) => c.wf(),
                None => true,
            }),
    ensures
        match r {
            Some(j) => is_nearest_player(chars@, pos, j as int),
            None => forall|k: int| !alive_player(chars@, k),
        },
{
    let n = chars.len();
    let mut best: Option<usize> = None;
    let mut best_d: u64 = 0;
    let mut k: usize = 0;
    while k < n
        invariant
            0 <= k <= n,
            n == chars@.len(),
            pos.bounded(COORD_LIMIT as int),
            forall|m: int|
                0 <= m < chars@.len() ==> (match #[trigger] chars@[m] {
                    Some(c) => c.wf(),
                    None => true,
                }),
            match best {
                Some(j) => (j as int) < k && alive_player(chars@, j as int) && best_d == dist_sq_spec(
                    pos,
                    chars@[j as int].unwrap().pos,
                ) && (forall|m: int|
                    0 <= m < k && #[trigger] alive_player(chars@, m) ==> best_d <= dist_sq_spec(
                        pos,
                        chars@[m].unwrap().pos,
                    )) && (forall|m: int|
                    0 <= m < j && #[trigger] alive_player(chars@, m) ==> dist_sq_spec(
                        pos,
                        chars@[m].unwrap().pos,
                    ) > best_d),
                None => forall|m: int| 0 <= m < k ==> !alive_player(chars@, m),
            },
        decreases n - k,
    {
        let cur = match &chars[k] {
            Some(c) => if c.is_player {
                Some(c.pos)
            } else {
                None
            },
            None => None,
        };
        match cur {
            Some(ppos) => {
                let d = crate::vec2::dist_sq(pos, ppos);
                match best {
                    Some(_) => {
                        if d < best_d {
                            best = Some(k);
                            best_d = d;
                        }
                    },
                    None => {
                        best = Some(k);
                        best_d = d;
                    },
                }
            },
            None => {},
        }
        k = k + 1;
    }
    best
}

/// Liveness, player flags and positions agree between two character
/// arenas that differ only in targeting state.
proof fn lemma_players_agree(a: Seq<Option<Character>>, b: Seq<Option<Character>>)
    requires
        a.len() == b.len(),
        forall|k: int| 0 <= k < a.len() ==> ((#[trigger] a[k]) is Some <==> b[k] is Some),
        forall|k: int|
            0 <= k < a.len() && (#[trigger] b[k]) is Some ==> a[k].unwrap() == (Character {
                hostile: a[k].unwrap().hostile,
                ..b[k].unwrap()
            }),
    ensures
        forall|k: int|
            #![trigger alive_player(a, k)]
            #![trigger alive_player(b, k)]
            alive_player(a, k) <==> alive_player(b, k),
        forall|k: int|
            alive_player(a, k) ==> (#[trigger] a[k]).unwrap().pos == b[k].unwrap().pos,
{
    assert forall|k: int| #[trigger] alive_player(a, k) implies alive_player(b, k) by {
        assert(a[k].unwrap() == (Character { hostile: a[k].unwrap().hostile, ..b[k].unwrap() }));
    }
    assert forall|k: int| #[trigger] alive_player(b, k) implies alive_player(a, k) by {
        assert(a[k].unwrap() == (Character { hostile: a[k].unwrap().hostile, ..b[k].unwrap() }));
    }
}

/// Being the nearest player transfers between two character arenas that
/// differ only in targeting state.
proof fn lemma_nearest_transfer(a: Seq<Option<Character>>, b: Seq<Option<Character>>, pos: Vec2m, j: int)
    requires
        a.len() == b.len(),
        forall|k: int| 0 <= k < a.len() ==> ((#[trigger] a[k]) is Some <==> b[k] is Some),
        forall|k: int|
            0 <= k < a.len() && (#[trigger] b[k]) is Some ==> a[k].unwrap() == (Character {
                hostile: a[k].unwrap().hostile,
                ..b[k].unwrap()
            }),
        is_nearest_player(a, pos, j),
    ensures
        is_nearest_player(b, pos, j),
{
    lemma_players_agree(a, b);
    assert(alive_player(b, j));
    assert forall|k: int| #[trigger] alive_player(b, k) implies dist_sq_spec(
        pos,
        b[j].unwrap().pos,
    ) <= dist_sq_spec(pos, b[k].unwrap().pos) by {
        assert(alive_player(a, k));
        assert(a[k].unwrap().pos == b[k].unwrap().pos);
        assert(a[j].unwrap().pos == b[j].unwrap().pos);
    }
    assert forall|k: int| 0 <= k < j && #[trigger] alive_player(b, k) implies dist_sq_spec(
        pos,
        b[k].unwrap().pos,
    ) > dist_sq_spec(pos, b[j].unwrap().pos) by {
        assert(alive_player(a, k));
        assert(a[k].unwrap().pos == b[k].unwrap().pos);
        assert(a[j].unwrap().pos == b[j].unwrap().pos);
    }
}

/// The bullet arena abstracted to models.
pub open spec fn views_of(bullets: Seq<Option<BulletInstance>>) -> Seq<Option<crate::bullet::BulletModel>> {
    bullets.map(
        |i: int, b: Option<BulletInstance>|
            match b {
                Some(inst) => Some(inst@),
                None => None::<crate::bullet::BulletModel>,
            },
    )
}

/// A physics contact registers only when the bullet is active (has its
/// collision footprint) and the struck entity is a living character of
/// the opposite side.
pub open spec fn contact_registers(
    bs: Seq<Option<crate::bullet::BulletModel>>,
    chars: Seq<Option<Character>>,
    c: (usize, usize),
) -> bool {
    &&& c.0 < bs.len()
    &&& bs[c.0 as int] is Some
    &&& bs[c.0 as int].unwrap().state == BulletState::Active
    &&& c.1 < chars.len()
    &&& chars[c.1 as int] is Some
    &&& chars[c.1 as int].unwrap().is_player != bs[c.0 as int].unwrap().player_side
}

/// Resolve one contact: the bullet's count for that target rises by one,
/// atomically, before the hit limit is evaluated; a hit event is emitted
/// exactly when the post-increment count is within the limit, flagged as
/// a first hit when the count is one.
pub open spec fn hit_step(
    bs: Seq<Option<crate::bullet::BulletModel>>,
    es: Seq<BulletHitEvent>,
    chars: Seq<Option<Character>>,
    c: (usize, usize),
) -> (Seq<Option<crate::bullet::BulletModel>>, Seq<BulletHitEvent>) {
    if contact_registers(bs, chars, c) {
        let b = bs[c.0 as int].unwrap();
        let s2 = crate::hits::bump_spec(b.hits, c.1 as u64);
        let cnt = crate::hits::hit_count_of(s2, c.1 as u64);
        let bs2 = bs.update(c.0 as int, Some(crate::bullet::BulletModel { hits: s2, ..b }));
        if crate::hits::emits_hit(cnt, b.bullet.hit_limit) {
            (
                bs2,
                es.push(
                    BulletHitEvent { bullet: c.0, target: c.1, pos: b.pos, first_hit: cnt == 1 },
                ),
            )
        } else {
            (bs2, es)
        }
    } else {
        (bs, es)
    }
}

/// Resolve a whole contact list, in order.
pub open spec fn hits_fold(
    bs: Seq<Option<crate::bullet::BulletModel>>,
    es: Seq<BulletHitEvent>,
    chars: Seq<Option<Character>>,
    cs: Seq<(usize, usize)>,
) -> (Seq<Option<crate::bullet::BulletModel>>, Seq<BulletHitEvent>)
    decreases cs.len(),
{
    if cs.len() == 0 {
        (bs, es)
    } else {
        let pre = hits_fold(bs, es, chars, cs.drop_last());
        hit_step(pre.0, pre.1, chars, cs.last())
    }

}

/// Slot `j` holds a living player.
pub open spec fn alive_player(chars: Seq<Option<Character>>, j: int) -> bool {
    0 <= j < chars.len() && chars[j] is Some && chars[j].unwrap().is_player
}

/// Slot `j` holds the nearest living player to `pos` (first such slot on
/// ties, by squared straight-line distance).
pub open spec fn is_nearest_player(chars: Seq<Option<Character>>, pos: Vec2m, j: int) -> bool {
    &&& alive_player(chars, j)
    &&& forall|k: int|
        #[trigger] alive_player(chars, k) ==> dist_sq_spec(pos, chars[j].unwrap().pos)
            <= dist_sq_spec(pos, chars[k].unwrap().pos)
    &&& forall|k: int|
        0 <= k < j && #[trigger] alive_player(chars, k) ==> dist_sq_spec(pos, chars[k].unwrap().pos)
            > dist_sq_spec(pos, chars[j].unwrap().pos)
}

/// An actor that still needs a hostile target: an enemy without one that
/// carries a movement or aim strategy.
pub open spec fn needs_target(c: Character) -> bool {
    !c.is_player && c.hostile is None && (c.move_targeting is Some || c.aim_targeting is Some)
}

/// Equal in everything but movement intent, hostile reference and aim.
pub open spec fn same_char_core(c: Character, c2: Character) -> bool {
    c2 == (Character { movement: c2.movement, hostile: c2.hostile, aim: c2.aim, ..c })
}

/// Equal in everything but the hit ledger.
pub open spec fn same_but_hits(b: crate::bullet::BulletModel, b2: crate::bullet::BulletModel) -> bool {
    b2 == crate::bullet::BulletModel { hits: b2.hits, ..b }
}

/// The hit-resolution fold changes hit ledgers only: no bullet appears,
/// disappears, or changes any other field.
pub proof fn lemma_hits_fold_frame(
    bs: Seq<Option<crate::bullet::BulletModel>>,
    es: Seq<BulletHitEvent>,
    chars: Seq<Option<Character>>,
    cs: Seq<(usize, usize)>,
)
    ensures
        hits_fold(bs, es, chars, cs).0.len() == bs.len(),
        forall|i: int|
            0 <= i < bs.len() ==> (((#[trigger] bs[i]) is Some <==> hits_fold(
                bs,
                es,
                chars,
                cs,
            ).0[i] is Some) && (bs[i] is Some ==> same_but_hits(
                bs[i].unwrap(),
                hits_fold(bs, es, chars, cs).0[i].unwrap(),
            ))),
    decreases cs.len(),
{
    if cs.len() > 0 {
        lemma_hits_fold_frame(bs, es, chars, cs.drop_last());
        let pre = hits_fold(bs, es, chars, cs.drop_last());
        let c = cs.last();
        let r = hit_step(pre.0, pre.1, chars, c);
        if contact_registers(pre.0, chars, c) {
            assert forall|i: int|
                0 <= i < bs.len() && (#[trigger] bs[i]) is Some implies same_but_hits(
                bs[i].unwrap(),
                r.0[i].unwrap(),
            ) by {
                if i != c.0 {
                    assert(r.0[i] == pre.0[i]);
                }
            }
        }
    }
}

/// Damage application reads only a bullet's existence and its damage
/// value, so two bullet arenas that agree on those yield the same fold.
pub proof fn lemma_damage_fold_agrees(
    chars: Seq<Option<Character>>,
    bs1: Seq<Option<crate::bullet::BulletModel>>,
    bs2: Seq<Option<crate::bullet::BulletModel>>,
    evs: Seq<BulletHitEvent>,
)
    requires
        bs1.len() == bs2.len(),
        forall|i: int|
            0 <= i < bs1.len() ==> (((#[trigger] bs1[i]) is Some <==> bs2[i] is Some) && (bs1[i]
                is Some ==> bs1[i].unwrap().bullet == bs2[i].unwrap().bullet)),
    ensures
        damage_fold(chars, bs1, evs) == damage_fold(chars, bs2, evs),
    decreases evs.len(),
{
    if evs.len() > 0 {
        lemma_damage_fold_agrees(chars, bs1, bs2, evs.drop_last());
    }
}

/// Whether any first-hit event in the list names bullet `i`.
pub open spec fn first_hit_for(evs: Seq<BulletHitEvent>, i: int) -> bool {
    exists|k: int|
        0 <= k < evs.len() && (#[trigger] evs[k]).first_hit && evs[k].bullet == i
}

/// Equal in everything but the endurance tracking.
pub open spec fn same_but_endurance(b: crate::bullet::BulletModel, b2: crate::bullet::BulletModel) -> bool {
    b2 == crate::bullet::BulletModel { endurance: b2.endurance, ..b }
}

/// The succeed events one endurance pass emits: one per first-hit event
/// whose bullet still exists — chaining on impact happens regardless of
/// whether the Bernoulli trial then destroys the bullet.
pub open spec fn hit_succession_events(
    evs: Seq<BulletHitEvent>,
    bs: Seq<Option<crate::bullet::BulletModel>>,
) -> Seq<SucceedEvent>
    decreases evs.len(),
{
    if evs.len() == 0 {
        Seq::empty()
    } else {
        let pre = hit_succession_events(evs.drop_last(), bs);
        let ev = evs.last();
        if ev.first_hit && ev.bullet < bs.len() && bs[ev.bullet as int] is Some {
            let b = bs[ev.bullet as int].unwrap();
            pre.push(
                SucceedEvent {
                    weapon: b.weapon,
                    generation: b.generation,
                    bullet: ev.bullet,
                    pos: b.pos,
                    facing: b.facing,
                },
            )
        } else {
            pre
        }
    }
}

/// One damage application: every hit event deducts the bullet's damage,
/// rounded up to whole points, from the target's health — regardless of
/// the endurance outcome.
pub open spec fn damage_step(
    chars: Seq<Option<Character>>,
    bs: Seq<Option<crate::bullet::BulletModel>>,
    ev: BulletHitEvent,
) -> Seq<Option<Character>> {
    if ev.bullet < bs.len() && bs[ev.bullet as int] is Some && ev.target < chars.len()
        && chars[ev.target as int] is Some {
        let c = chars[ev.target as int].unwrap();
        let dmg = crate::fixp::ceil_milli(bs[ev.bullet as int].unwrap().bullet.damage_milli as int);
        let life2 = if c.life - dmg >= -LIFE_LIMIT {
            c.life - dmg
        } else {
            -LIFE_LIMIT as int
        };
        chars.update(ev.target as int, Some(Character { life: life2 as i64, ..c }))
    } else {
        chars
    }
}

/// Apply a whole hit-event list's damage, in order.
pub open spec fn damage_fold(
    chars: Seq<Option<Character>>,
    bs: Seq<Option<crate::bullet::BulletModel>>,
    evs: Seq<BulletHitEvent>,
) -> Seq<Option<Character>>
    decreases evs.len(),
{
    if evs.len() == 0 {
        chars
    } else {
        damage_step(damage_fold(chars, bs, evs.drop_last()), bs, evs.last())
    }
}

/// The facing a tracking beam adopts: from its own base toward the
/// shooter's aim point, norm-scaled to a milli-unit vector (unchanged
/// when the aim point sits exactly on the base).
pub open spec fn beam_facing(b: BulletInstance, shooter: Character) -> Vec2m {
    let d = Vec2m { x: (shooter.aim.x - b.pos.x) as i64, y: (shooter.aim.y - b.pos.y) as i64 };
    if d.is_zero() {
        b.facing
    } else {
        crate::vec2::norm_scale_spec(d, 1000)
    }
}

/// Whether a shooter identifier occurs in the list.
fn shooter_in(v: &Vec<u64>, s: u64) -> (r: bool)
    ensures
        r == v@.contains(s),
{
    let n = v.len();
    let mut i: usize = 0;
    while i < n
        invariant
            0 <= i <= n,
            n == v@.len(),
            forall|j: int| 0 <= j < i ==> v@[j] != s,
        decreases n - i,
    {
        if v[i] == s {
            return true;
        }
        i = i + 1;
    }
    false
}

} // verus!
