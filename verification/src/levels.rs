//! Level wave state: which enemies remain to spawn, the weighted random
//! pick among them, and the spawn-rate pacing tiers.

use vstd::prelude::*;
use crate::vec2::Vec2m;
use crate::weapon::ConfigError;

verus! {

/// How an enemy entry spawns.
#[derive(Clone, Copy, PartialEq, Eq, Structural, Debug)]
pub enum EnemyClass {
    /// Spawned one at a time with pace following the live enemy count;
    /// the parameter implies its strength.
    Normal(u32),
    /// Spawned together at the end of the level.
    Boss,
}

/// One entry of a level's spawn list.
#[derive(Clone, Debug)]
pub struct EnemyDescriptor {
    /// The enemy kind's name.
    pub enemy: String,
    pub class: EnemyClass,
    /// How many of this entry are still to spawn.
    pub amount: u32,
}

/// A level's spawn configuration and progress.
#[derive(Clone, Debug)]
pub struct LevelInfo {
    pub id: i32,
    pub is_spawning: bool,
    pub enemy_to_spawn: Vec<EnemyDescriptor>,
    pub wave_enemy_limit: usize,
}

/// The wave a level is currently in.
#[derive(Clone, Copy, PartialEq, Eq, Structural, Debug)]
pub struct CurrentWave(pub usize);

/// The repeating timer gating normal-enemy spawns.
#[derive(Clone, Copy, PartialEq, Eq, Structural, Debug)]
pub struct NextSpawnTimer {
    pub elapsed_ms: u64,
    pub duration_ms: u64,
}

/// Per-entry count of enemies already spawned, by entry index.
#[derive(Clone, Debug)]
pub struct SpawnedCounter(pub Vec<(u64, u32)>);

/// Marks a boss-class enemy entity.
#[derive(Clone, Copy, PartialEq, Eq, Structural, Debug)]
pub struct BossClass;

/// Marks a normal-class enemy entity, with its strength.
#[derive(Clone, Copy, PartialEq, Eq, Structural, Debug)]
pub struct NormalClass(pub u32);

/// A back-reference from a spawned enemy to its level.
#[derive(Clone, Copy, PartialEq, Eq, Structural, Debug)]
pub struct LevelRef(pub u64);

/// The one-shot timer armed before the bosses appear.
#[derive(Clone, Copy, PartialEq, Eq, Structural, Debug)]
pub struct BossSpawnTimer(pub u64);

/// Sum of the amounts of the first `k` entries, all classes counted (the
/// pick walks every entry).
pub open spec fn prefix_amount(s: Seq<EnemyDescriptor>, k: int) -> int
    decreases k,
{
    if k <= 0 {
        0
    } else {
        prefix_amount(s, k - 1) + s[k - 1].amount
    }
}

/// Sum of the amounts of entries that are not bosses: the population the
/// weighted pick draws from.
pub open spec fn remaining_normal_spec(s: Seq<EnemyDescriptor>) -> int
    decreases s.len(),
{
    if s.len() == 0 {
        0
    } else {
        remaining_normal_spec(s.drop_last()) + if s.last().class is Boss {
            0
        } else {
            s.last().amount as int
        }
    }
}

/// How many enemies of the level are still to spawn outside boss waves.
pub fn remaining_normal(descs: &Vec<EnemyDescriptor>) -> (r: u64)
    requires
        descs@.len() <= 1000000,
    ensures
        r == remaining_normal_spec(descs@),
        r <= descs@.len() * 4294967296,
{
    let n = descs.len();
    let mut sum: u64 = 0;
    let mut k: usize = 0;
    proof {
        assert(remaining_normal_spec(descs@.take(0)) == 0);
    }
    while k < n
        invariant
            0 <= k <= n,
            n == descs@.len(),
            n <= 1000000,
            sum == remaining_normal_spec(descs@.take(k as int)),
            sum <= k * 4294967296,
        decreases n - k,
    {
        let add: u64 = match descs[k].class {
            EnemyClass::Boss => 0,
            EnemyClass::Normal(_) => descs[k].amount as u64,
        };
        proof {
            assert(descs@.take(k + 1).drop_last() =~= descs@.take(k as int));
            assert(descs@.take(k + 1).last() == descs@[k as int]);
            assert(k * 4294967296 + 4294967296 == (k + 1) * 4294967296) by (nonlinear_arith);
        }
        sum = sum + add;
        k = k + 1;
    }
    proof {
        assert(descs@.take(n as int) =~= descs@);
    }
    sum
}

/// The weighted pick: walk the entries subtracting amounts from the
/// drawn value; the first entry whose cumulative amount exceeds the draw
/// is picked.  `None` only when the draw reaches past every entry.
pub fn pick_descriptor(descs: &Vec<EnemyDescriptor>, next: u64) -> (r: Option<usize>)
    requires
        descs@.len() <= 1000000,
    ensures
        match r {
            Some(k) => 0 <= k < descs@.len() && prefix_amount(descs@, k as int) <= next
                < prefix_amount(descs@, k as int + 1),
            None => next >= prefix_amount(descs@, descs@.len() as int),
        },
{
    let n = descs.len();
    let mut acc: u64 = 0;
    let mut k: usize = 0;
    while k < n
        invariant
            0 <= k <= n,
            n == descs@.len(),
            n <= 1000000,
            acc == prefix_amount(descs@, k as int),
            acc <= next,
            acc <= k * 4294967296,
        decreases n - k,
    {
        proof {
            assert(k * 4294967296 + 4294967296 == (k + 1) * 4294967296) by (nonlinear_arith);
        }
        let a = descs[k].amount as u64;
        if next < acc + a {
            return Some(k);
        }
        acc = acc + a;
        k = k + 1;
    }
    None
}

/// The spawn interval tier for a live enemy count: fast while the wave
/// is under its limit, slower up to twice the limit, slowest beyond.
pub open spec fn pace_duration_spec(count: int, limit: int) -> int {
    if count < limit {
        600
    } else if count < 2 * limit {
        2000
    } else {
        6000
    }
}

pub fn pace_duration(count: usize, limit: usize) -> (r: u64)
    ensures
        r == pace_duration_spec(count as int, limit as int),
{
    if count < limit {
        600
    } else if count / 2 < limit {
        proof {
            assert((count as int) < 2 * (limit as int)) by (nonlinear_arith)
                requires
                    (count as int) / 2 < limit as int,
            ;
        }
        2000
    } else {
        proof {
            assert(!((count as int) < 2 * (limit as int))) by (nonlinear_arith)
                requires
                    (count as int) / 2 >= limit as int,
                    count >= limit,
            ;
        }
        6000
    }
}

/// The spawn-list layout the weighted pick relies on: once a boss entry
/// appears, every later entry is a boss too.  A draw below the non-boss
/// total then always lands on a normal entry (on any other layout the
/// cumulative walk could land on a boss and spawn nothing).
pub open spec fn bosses_last(s: Seq<EnemyDescriptor>) -> bool {
    forall|i: int, j: int|
        0 <= i < j < s.len() && (#[trigger] s[i].class) is Boss ==> (#[trigger] s[j].class) is Boss
}

/// Prefix sums ignore the dropped last entry.
proof fn lemma_prefix_agree_drop_last(s: Seq<EnemyDescriptor>, m: int)
    requires
        s.len() >= 1,
        0 <= m <= s.len() - 1,
    ensures
        prefix_amount(s, m) == prefix_amount(s.drop_last(), m),
    decreases m,
{
    if m > 0 {
        lemma_prefix_agree_drop_last(s, m - 1);
        assert(s.drop_last()[m - 1] == s[m - 1]);
    }
}

/// When every entry from `k` on is a boss, the non-boss total fits in
/// the first `k` entries' cumulative amount.
proof fn lemma_remaining_le_prefix(s: Seq<EnemyDescriptor>, k: int)
    requires
        0 <= k <= s.len(),
        forall|j: int| k <= j < s.len() ==> (#[trigger] s[j].class) is Boss,
    ensures
        remaining_normal_spec(s) <= prefix_amount(s, k),
    decreases s.len(),
{
    if s.len() == 0 {
    } else if k == s.len() {
        lemma_remaining_le_prefix(s.drop_last(), k - 1);
        lemma_prefix_agree_drop_last(s, k - 1);
        assert(prefix_amount(s, k) == prefix_amount(s, k - 1) + s[k - 1].amount);
    } else {
        assert(s.last().class is Boss);
        assert forall|j: int| k <= j < s.drop_last().len() implies (#[trigger] s.drop_last()[j].class)
            is Boss by {
            assert(s.drop_last()[j] == s[j]);
        }
        lemma_remaining_le_prefix(s.drop_last(), k);
        lemma_prefix_agree_drop_last(s, k);
    }
}

/// A spawn decision of the level pacer: which entry fired, and where the
/// enemy appears.
#[derive(Clone, Copy, PartialEq, Eq, Structural, Debug)]
pub struct EnemySpawn {
    pub desc_index: usize,
    pub pos: Vec2m,
}

/// Whether the level's repeating spawn timer fires on a tick of `dt`
/// milliseconds.
pub open spec fn spawner_fires(l: Level, dt: int) -> bool {
    l.timer.elapsed_ms + dt >= l.timer.duration_ms
}

/// The spawn timer after one pacer tick: run (and wrap on firing), then
/// retuned to the pace tier for the live enemy count — elapsed time
/// resets exactly when the interval actually changes.
pub open spec fn retuned_timer(l: Level, live: int, dt: int) -> NextSpawnTimer {
    let after = if spawner_fires(l, dt) {
        0int
    } else {
        l.timer.elapsed_ms + dt
    };
    let want = pace_duration_spec(live, l.info.wave_enemy_limit as int);
    NextSpawnTimer {
        elapsed_ms: (if l.timer.duration_ms != want {
            0int
        } else {
            after
        }) as u64,
        duration_ms: want as u64,
    }
}

/// A level entity: its configuration and its spawn timer.
#[derive(Clone, Debug)]
pub struct Level {
    pub info: LevelInfo,
    pub timer: NextSpawnTimer,
    pub boss_timer: Option<BossSpawnTimer>,
}

impl Level {
    pub open spec fn wf(self) -> bool {
        &&& self.info.enemy_to_spawn@.len() <= 1000000
        &&& self.info.wave_enemy_limit <= 1000000
        &&& self.timer.duration_ms >= 1
        &&& self.timer.duration_ms <= 1000000000
        &&& self.timer.elapsed_ms <= self.timer.duration_ms
        &&& match self.boss_timer {
            Some(BossSpawnTimer(t)) => t <= 10000,
            None => true,
        }
    }

    /// One tick of the level's normal-enemy pacer.  When the repeating
    /// spawn timer fires and normal enemies remain, one entry is picked
    /// with probability proportional to its remaining amount, its amount
    /// drops by one, and the enemy appears at a uniform random position
    /// within three hundred units of the origin.  A pick that lands on a
    /// boss entry spawns nothing.  Afterwards the timer's interval is
    /// retuned to the live enemy count.
    pub fn level_enemy_spawner(
        &mut self,
        rng: &mut rand::rngs::StdRng,
        live_enemy_count: usize,
        dt_ms: u64,
    ) -> (r: Option<EnemySpawn>)
        requires
            old(self).wf(),
            dt_ms <= 1000000,
            live_enemy_count <= 1000000,
        ensures
            final(self).wf(),
            !old(self).info.is_spawning ==> (*final(self) == *old(self) && r is None),
            final(self).info.id == old(self).info.id && final(self).info.is_spawning == old(self).info.is_spawning && final(self).info.wave_enemy_limit == old(self).info.wave_enemy_limit,
            final(self).info.enemy_to_spawn@.len() == old(self).info.enemy_to_spawn@.len(),
            r is Some ==> old(self).info.is_spawning && spawner_fires(*old(self), dt_ms as int)
                && remaining_normal_spec(old(self).info.enemy_to_spawn@) > 0,
            (old(self).info.is_spawning && spawner_fires(*old(self), dt_ms as int)
                && remaining_normal_spec(old(self).info.enemy_to_spawn@) > 0 && bosses_last(
                old(self).info.enemy_to_spawn@,
            )) ==> r is Some,
            (old(self).info.is_spawning && spawner_fires(*old(self), dt_ms as int)
                && remaining_normal_spec(old(self).info.enemy_to_spawn@) == 0) ==> (r is None
                && final(self).timer == (NextSpawnTimer {
                elapsed_ms: 0,
                duration_ms: old(self).timer.duration_ms,
            })),
            (old(self).info.is_spawning && !(spawner_fires(*old(self), dt_ms as int)
                && remaining_normal_spec(old(self).info.enemy_to_spawn@) == 0)) ==> final(self).timer == retuned_timer(*old(self), live_enemy_count as int, dt_ms as int),
            match r {
                Some(spawn) => {
                    &&& spawn.desc_index < old(self).info.enemy_to_spawn@.len()
                    &&& !(old(self).info.enemy_to_spawn@[spawn.desc_index as int].class is Boss)
                    &&& old(self).info.enemy_to_spawn@[spawn.desc_index as int].amount >= 1
                    &&& final(self).info.enemy_to_spawn@ == old(self).info.enemy_to_spawn@.update(
                        spawn.desc_index as int,
                        EnemyDescriptor {
                            amount: (old(self).info.enemy_to_spawn@[spawn.desc_index as int].amount - 1) as u32,
                            ..old(self).info.enemy_to_spawn@[spawn.desc_index as int]
                        },
                    )
                    &&& spawn.pos.bounded(300000)
                },
                None => final(self).info.enemy_to_spawn@ == old(self).info.enemy_to_spawn@,
            },
    {
        if !self.info.is_spawning {
            return None;
        }
        let fired = self.timer.elapsed_ms + dt_ms >= self.timer.duration_ms;
        if fired {
            self.timer.elapsed_ms = 0;
        } else {
            self.timer.elapsed_ms = self.timer.elapsed_ms + dt_ms;
        }
        let mut result: Option<EnemySpawn> = None;
        if fired {
            let remains = remaining_normal(&self.info.enemy_to_spawn);
            if remains == 0 {
                return None;
            }
            let next = crate::rng::rng_range(rng, 0, remains as i64);
            match pick_descriptor(&self.info.enemy_to_spawn, next as u64) {
                Some(k) => {
                    let is_boss = match self.info.enemy_to_spawn[k].class {
                        EnemyClass::Boss => true,
                        EnemyClass::Normal(_) => false,
                    };
                    if !is_boss {
                        let amount = self.info.enemy_to_spawn[k].amount;
                        proof {
                            assert(prefix_amount(self.info.enemy_to_spawn@, k + 1)
                                == prefix_amount(self.info.enemy_to_spawn@, k as int)
                                + self.info.enemy_to_spawn@[k as int].amount);
                        }
                        if amount >= 1 {
                            let x = crate::rng::rng_range(rng, -300000, 300001);
                            let y = crate::rng::rng_range(rng, -300000, 300001);
                            self.info.enemy_to_spawn[k].amount = amount - 1;
                            result = Some(EnemySpawn { desc_index: k, pos: Vec2m { x, y } });
                        }
                    } else {
                        proof {
                            if bosses_last(old(self).info.enemy_to_spawn@) {
                                assert forall|j: int|
                                    k <= j < self.info.enemy_to_spawn@.len() implies (
                                #[trigger] self.info.enemy_to_spawn@[j].class) is Boss by {
                                    if j > k {
                                        assert(self.info.enemy_to_spawn@[k as int].class is Boss);
                                    }
                                }
                                lemma_remaining_le_prefix(self.info.enemy_to_spawn@, k as int);
                            }
                        }
                    }
                },
                None => {
                    proof {
                        lemma_remaining_le_prefix(
                            self.info.enemy_to_spawn@,
                            self.info.enemy_to_spawn@.len() as int,
                        );
                        assert(false);
                    }
                },
            }
        }
        let want = pace_duration(live_enemy_count, self.info.wave_enemy_limit);
        if self.timer.duration_ms != want {
            self.timer.elapsed_ms = 0;
            self.timer.duration_ms = want;
        }
        result
    }

    /// One tick of the boss pacer: once every amount has been spawned
    /// and a boss entry exists, a ten-second timer is armed; when it has
    /// elapsed the boss wave is due.
    pub fn level_boss_spawner(&mut self, dt_ms: u64) -> (due: bool)
        requires
            old(self).wf(),
            dt_ms <= 1000000,
        ensures
            final(self).wf(),
            final(self).info == old(self).info,
            final(self).timer == old(self).timer,
            match old(self).boss_timer {
                Some(BossSpawnTimer(t)) => due == (t + dt_ms >= 10000) && final(self).boss_timer
                    == Some(BossSpawnTimer((if t + dt_ms >= 10000 { 10000u64 } else { (t + dt_ms) as u64 }))),
                None => !due && (final(self).boss_timer == (if has_boss_entry(
                    old(self).info.enemy_to_spawn@,
                ) && all_amounts_spent(old(self).info.enemy_to_spawn@) {
                    Some(BossSpawnTimer(0))
                } else {
                    None::<BossSpawnTimer>
                })),
            },
    {
        match self.boss_timer {
            Some(BossSpawnTimer(t)) => {
                if t + dt_ms >= 10000 {
                    self.boss_timer = Some(BossSpawnTimer(10000));
                    true
                } else {
                    self.boss_timer = Some(BossSpawnTimer(t + dt_ms));
                    false
                }
            },
            None => {
                let mut any_boss = false;
                let mut spent = true;
                let n = self.info.enemy_to_spawn.len();
                let mut k: usize = 0;
                while k < n
                    invariant
                        0 <= k <= n,
                        n == self.info.enemy_to_spawn@.len(),
                        any_boss == has_boss_prefix(self.info.enemy_to_spawn@, k as int),
                        spent == amounts_spent_prefix(self.info.enemy_to_spawn@, k as int),
                    decreases n - k,
                {
                    let is_boss = match self.info.enemy_to_spawn[k].class {
                        EnemyClass::Boss => true,
                        EnemyClass::Normal(_) => false,
                    };
                    if is_boss {
                        any_boss = true;
                    }
                    if self.info.enemy_to_spawn[k].amount != 0 {
                        spent = false;
                    }
                    k = k + 1;
                }
                if any_boss && spent {
                    self.boss_timer = Some(BossSpawnTimer(0));
                }
                false
            },
        }
    }
}

/// Some prefix entry is a boss.
pub open spec fn has_boss_prefix(s: Seq<EnemyDescriptor>, k: int) -> bool {
    exists|j: int| 0 <= j < k && (#[trigger] s[j].class) is Boss
}

/// Some entry is a boss.
pub open spec fn has_boss_entry(s: Seq<EnemyDescriptor>) -> bool {
    has_boss_prefix(s, s.len() as int)
}

/// All prefix amounts are spent.
pub open spec fn amounts_spent_prefix(s: Seq<EnemyDescriptor>, k: int) -> bool {
    forall|j: int| 0 <= j < k ==> (#[trigger] s[j].amount) == 0
}

/// Every entry's amount is spent.
pub open spec fn all_amounts_spent(s: Seq<EnemyDescriptor>) -> bool {
    amounts_spent_prefix(s, s.len() as int)
}

} // verus!
