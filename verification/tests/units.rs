//! Unit checks of the arithmetic, hit accounting, weapon gating,
//! movement resolution, input decoding, knockback curve and level
//! pacing.

use bullet_core::bullet::{endurance_step, Bullet, BulletVariant, Endurance};
use bullet_core::enemies::type_dispatch;
use bullet_core::enemy_targeting::{aim_point, move_intent, AimTargetingType, MoveTargetingType};
use bullet_core::fixp::{cos_milli, isqrt, milli_ceil, milli_div, sin_milli, trunc_div};
use bullet_core::forced_moving::impact_curve;
use bullet_core::hits::{HitCount, HitLimit};
use bullet_core::input_handling::{x_axis_update, y_axis_update, KeyFacts};
use bullet_core::levels::{
    pace_duration, pick_descriptor, remaining_normal, EnemyClass, EnemyDescriptor, Level,
    LevelInfo, NextSpawnTimer,
};
use bullet_core::movement::{resolve_movement, Movement, XAxisMove, YAxisMove};
use bullet_core::vec2::{dist_sq, norm_scale, rotate, Vec2m};
use bullet_core::weapon::{ConfigError, Weapon};

#[test]
fn isqrt_exact_values() {
    assert_eq!(isqrt(0), 0);
    assert_eq!(isqrt(1), 1);
    assert_eq!(isqrt(3), 1);
    assert_eq!(isqrt(4), 2);
    assert_eq!(isqrt(99), 9);
    assert_eq!(isqrt(100), 10);
    assert_eq!(isqrt(10_000_000_000), 100_000);
    assert_eq!(isqrt(u64::MAX), 4_294_967_295);
}

#[test]
fn milli_rounding() {
    assert_eq!(milli_div(1999), 1);
    assert_eq!(milli_div(-1999), -1);
    assert_eq!(milli_ceil(1), 1);
    assert_eq!(milli_ceil(1000), 1);
    assert_eq!(milli_ceil(1001), 2);
    assert_eq!(milli_ceil(80_000), 80);
    assert_eq!(trunc_div(-7, 2), -3);
}

#[test]
fn trig_fixed_points() {
    assert_eq!(sin_milli(0), 0);
    assert_eq!(cos_milli(0), 1000);
    // a quarter turn: sine one, cosine zero
    assert_eq!(sin_milli(1571), 1000);
    assert_eq!(cos_milli(1571).abs() <= 2, true);
    // odd and even symmetry
    assert_eq!(sin_milli(-300), -sin_milli(300));
    assert_eq!(cos_milli(-300), cos_milli(300));
    // a half turn: sine zero-ish, cosine minus one
    assert!(sin_milli(3142).abs() <= 2);
    assert!((cos_milli(3142) + 1000).abs() <= 2);
}

#[test]
fn rotation_keeps_direction_scale() {
    let up = Vec2m { x: 0, y: 1000 };
    assert_eq!(rotate(up, 0), up);
    let r = rotate(up, 300);
    assert_eq!(r, Vec2m { x: -296, y: 955 });
    let l = rotate(up, -300);
    assert_eq!(l, Vec2m { x: 296, y: 955 });
}

#[test]
fn norm_scale_exact() {
    assert_eq!(
        norm_scale(Vec2m { x: 3000, y: 4000 }, 1000),
        Vec2m { x: 600, y: 800 }
    );
    assert_eq!(norm_scale(Vec2m { x: 0, y: 0 }, 1000), Vec2m { x: 0, y: 0 });
    assert_eq!(
        norm_scale(Vec2m { x: -5000, y: 0 }, 200),
        Vec2m { x: -200, y: 0 }
    );
    assert_eq!(dist_sq(Vec2m { x: 0, y: 0 }, Vec2m { x: 3, y: 4 }), 25);
}

#[test]
fn hit_counts_accumulate_per_target() {
    let mut h = HitCount::new();
    assert_eq!(h.get(7), 0);
    assert_eq!(h.bump(7), 1);
    assert_eq!(h.bump(7), 2);
    assert_eq!(h.bump(9), 1);
    assert_eq!(h.get(7), 2);
    assert_eq!(h.get(9), 1);
    assert_eq!(h.get(8), 0);
}

#[test]
fn endurance_rule_regimes() {
    // integer budget: decremented by exactly one unit
    assert_eq!(
        endurance_step(Endurance::Finite(3000), false),
        Endurance::Finite(2000)
    );
    // probability regime: survival keeps it, failure sets the sentinel
    assert_eq!(
        endurance_step(Endurance::Finite(500), true),
        Endurance::Finite(500)
    );
    assert_eq!(
        endurance_step(Endurance::Finite(500), false),
        Endurance::Finite(-1000)
    );
    // already exhausted: untouched
    assert_eq!(
        endurance_step(Endurance::Finite(-1000), true),
        Endurance::Finite(-1000)
    );
    // infinite: pass-through
    assert_eq!(endurance_step(Endurance::Infinite, false), Endurance::Infinite);
}

#[test]
fn weapon_rejects_zero_accelerate() {
    let r = Weapon::new(0, vec![]);
    assert_eq!(r.unwrap_err(), ConfigError::InvalidAccelerate);
    assert_eq!(
        Weapon::new(2_000_000, vec![]).unwrap_err(),
        ConfigError::InvalidAccelerate
    );
    assert!(Weapon::new(100, vec![]).is_ok());
}

#[test]
fn weapon_fire_gating_and_cooldown() {
    let b = Bullet {
        life_time_ms: 300,
        endurance: Endurance::Finite(1000),
        hit_limit: HitLimit::Limit(1),
        speed: 1_000_000,
        cooldown_ms: 600,
        damage_milli: 10_000,
    };
    let mut w = Weapon::new(1000, vec![(b, BulletVariant::Lane)]).unwrap();
    let origin = Vec2m { x: 0, y: 0 };
    let up = Vec2m { x: 0, y: 1000 };
    // not flagged shooting: no shot
    assert!(w.fire(origin, up, 1, 2).is_none());
    w.shooting = true;
    let req = w.fire(origin, up, 1, 2).unwrap();
    assert_eq!(req.generation, 0);
    assert_eq!(req.by, 1);
    assert_eq!(req.with, 2);
    // armed cooldown: 600 * 100 / 1000 = 60 ms
    assert_eq!(w.cooldown_ms, 60);
    assert!(w.fire(origin, up, 1, 2).is_none());
    w.tick_cooldown(59);
    assert!(w.fire(origin, up, 1, 2).is_none());
    w.tick_cooldown(1);
    assert!(w.fire(origin, up, 1, 2).is_some());
    // empty blueprint: a no-op even when shooting
    let mut empty = Weapon::new(100, vec![]).unwrap();
    empty.shooting = true;
    assert!(empty.fire(origin, up, 1, 2).is_none());
    assert_eq!(empty.cooldown_ms, 0);
    // succession lookup
    assert!(w.next_load(0).is_some());
    assert!(w.next_load(1).is_none());
}

#[test]
fn movement_resolver_cases() {
    let origin = Vec2m { x: 0, y: 0 };
    // direction intent: velocity is direction times speed
    let r = resolve_movement(
        origin,
        1_000_000,
        Some(Movement::DirectionMove(Vec2m { x: 0, y: 1000 })),
        None,
        None,
        1000,
    );
    assert_eq!(r.vel, Vec2m { x: 0, y: 1_000_000 });
    assert_eq!(r.pos, Vec2m { x: 0, y: 1_000_000 });
    assert!(matches!(r.movement, Some(Movement::DirectionMove(_))));
    // seek intent far away: head for the point
    let r = resolve_movement(
        origin,
        1_000_000,
        Some(Movement::PointMove(Vec2m { x: 0, y: 5_000_000 })),
        None,
        None,
        1000,
    );
    assert_eq!(r.vel, Vec2m { x: 0, y: 1_000_000 });
    assert_eq!(r.pos, Vec2m { x: 0, y: 1_000_000 });
    // seek intent within reach: arrive and clear the intent
    let r = resolve_movement(
        origin,
        1_000_000,
        Some(Movement::PointMove(Vec2m { x: 0, y: 500_000 })),
        None,
        None,
        1000,
    );
    assert_eq!(r.pos, Vec2m { x: 0, y: 500_000 });
    assert_eq!(r.vel, Vec2m { x: 0, y: 0 });
    assert!(r.movement.is_none());
    // axis input: diagonals are normalized
    let r = resolve_movement(
        origin,
        1_000_000,
        None,
        Some(XAxisMove::Right),
        Some(YAxisMove::Up),
        1000,
    );
    assert_eq!(r.vel, Vec2m { x: 707_213, y: 707_213 });
}

#[test]
fn targeting_strategies_exact() {
    let me = Vec2m { x: 0, y: 0 };
    let target = Vec2m { x: 200_000, y: 0 };
    let vel = Vec2m { x: 0, y: 40_000 };
    assert_eq!(
        move_intent(MoveTargetingType::Chase, me, target, vel),
        Some(Movement::PointMove(target))
    );
    // outflank: lead along the target's heading by one and a half units
    assert_eq!(
        move_intent(MoveTargetingType::Outflank, me, target, vel),
        Some(Movement::PointMove(Vec2m { x: 200_000, y: 1500 }))
    );
    assert_eq!(aim_point(AimTargetingType::AimCurrent, target, vel), target);
    // predictive aim: half a second of velocity ahead
    assert_eq!(
        aim_point(AimTargetingType::AimPredict, target, vel),
        Vec2m { x: 200_000, y: 20_000 }
    );
}

#[test]
fn axis_input_transitions() {
    let no_keys = KeyFacts {
        left_just_pressed: false,
        left_just_released: false,
        left_pressed: false,
        right_just_pressed: false,
        right_just_released: false,
        right_pressed: false,
        up_just_pressed: false,
        up_just_released: false,
        up_pressed: false,
        down_just_pressed: false,
        down_just_released: false,
        down_pressed: false,
    };
    assert_eq!(x_axis_update(None, &no_keys), None);
    let mut k = no_keys;
    k.left_just_pressed = true;
    assert_eq!(x_axis_update(None, &k), Some(XAxisMove::Left));
    // releasing left while right is held falls back to right
    let mut k = no_keys;
    k.left_just_released = true;
    k.right_pressed = true;
    assert_eq!(x_axis_update(Some(XAxisMove::Left), &k), Some(XAxisMove::Right));
    let mut k = no_keys;
    k.left_just_released = true;
    assert_eq!(x_axis_update(Some(XAxisMove::Left), &k), None);
    let mut k = no_keys;
    k.down_just_pressed = true;
    assert_eq!(y_axis_update(Some(YAxisMove::Up), &k), Some(YAxisMove::Down));
    let mut k = no_keys;
    k.up_just_released = true;
    k.down_pressed = true;
    assert_eq!(y_axis_update(Some(YAxisMove::Up), &k), Some(YAxisMove::Down));
}

#[test]
fn impact_curve_shape() {
    // zero at the start, a rise, and back to zero at the end
    assert_eq!(impact_curve(0), 0);
    assert!(impact_curve(100) > 0);
    assert!(impact_curve(400).abs() <= 2);
}

#[test]
fn enemy_kind_dispatch() {
    assert!(type_dispatch("normal").is_ok());
    assert_eq!(
        type_dispatch("unknown").unwrap_err(),
        ConfigError::UnknownEnemyKind
    );
}

#[test]
fn level_pick_and_pacing() {
    let descs = vec![
        EnemyDescriptor { enemy: String::from("normal"), class: EnemyClass::Normal(1), amount: 3 },
        EnemyDescriptor { enemy: String::from("normal"), class: EnemyClass::Normal(2), amount: 2 },
        EnemyDescriptor { enemy: String::from("normal"), class: EnemyClass::Boss, amount: 1 },
    ];
    assert_eq!(remaining_normal(&descs), 5);
    assert_eq!(pick_descriptor(&descs, 0), Some(0));
    assert_eq!(pick_descriptor(&descs, 2), Some(0));
    assert_eq!(pick_descriptor(&descs, 3), Some(1));
    assert_eq!(pick_descriptor(&descs, 4), Some(1));
    assert_eq!(pick_descriptor(&descs, 5), Some(2));
    assert_eq!(pick_descriptor(&descs, 6), None);
    assert_eq!(pace_duration(2, 3), 600);
    assert_eq!(pace_duration(3, 3), 2000);
    assert_eq!(pace_duration(5, 3), 2000);
    assert_eq!(pace_duration(6, 3), 6000);
}

#[test]
fn level_pacer_timer_and_spawn_promise() {
    let mut level = Level {
        info: LevelInfo {
            id: 0,
            is_spawning: true,
            enemy_to_spawn: vec![EnemyDescriptor {
                enemy: String::from("normal"),
                class: EnemyClass::Normal(1),
                amount: 2,
            }],
            wave_enemy_limit: 3,
        },
        timer: NextSpawnTimer { elapsed_ms: 0, duration_ms: 600 },
        boss_timer: None,
    };
    let mut rng = bullet_core::rng::rng_from_seed(4);
    // below the firing point: no spawn, elapsed time advances
    assert!(level.level_enemy_spawner(&mut rng, 0, 100).is_none());
    assert_eq!(level.timer.elapsed_ms, 100);
    // the timer fires with only normal entries remaining: a spawn is owed
    let spawn = level.level_enemy_spawner(&mut rng, 0, 500).unwrap();
    assert_eq!(spawn.desc_index, 0);
    assert!(spawn.pos.x.abs() <= 300_000 && spawn.pos.y.abs() <= 300_000);
    assert_eq!(level.info.enemy_to_spawn[0].amount, 1);
    // pace retune: at the wave limit the interval slows and resets
    level.level_enemy_spawner(&mut rng, 3, 100);
    assert_eq!(level.timer.duration_ms, 2000);
    assert_eq!(level.timer.elapsed_ms, 0);
    // unchanged tier: no reset, elapsed time keeps running
    level.level_enemy_spawner(&mut rng, 3, 100);
    assert_eq!(level.timer.duration_ms, 2000);
    assert_eq!(level.timer.elapsed_ms, 100);
    // beyond twice the limit: the slowest tier
    level.level_enemy_spawner(&mut rng, 7, 100);
    assert_eq!(level.timer.duration_ms, 6000);
    // everything spent: a fired timer spawns nothing and resets
    level.info.enemy_to_spawn[0].amount = 0;
    level.timer = NextSpawnTimer { elapsed_ms: 0, duration_ms: 600 };
    assert!(level.level_enemy_spawner(&mut rng, 0, 600).is_none());
    assert_eq!(level.timer.elapsed_ms, 0);
    assert_eq!(level.timer.duration_ms, 600);
}

#[test]
fn weapon_rng_draws_follow_their_contracts() {
    // the ratio draw is exact at its edges, and range draws stay in
    // bounds: these would fail if the wrappers echoed their inputs
    let mut w = bullet_core::world::World::new(5);
    w.spawn_character(bullet_core::world::Character::new(
        Vec2m { x: 0, y: 0 },
        100,
        300_000,
        true,
    ));
    let b = Bullet {
        life_time_ms: 60_000,
        endurance: Endurance::Finite(0),
        hit_limit: HitLimit::Unlimited,
        speed: 0,
        cooldown_ms: 0,
        damage_milli: 1_000,
    };
    w.spawn_character(bullet_core::world::Character::new(
        Vec2m { x: 0, y: 50_000 },
        100,
        150_000,
        false,
    ));
    let wid = w.add_weapon(Weapon::new(100, vec![(b, BulletVariant::Lane)]).unwrap(), 0);
    w.weapons[wid].weapon.shooting = true;
    w.frame(16, &vec![]);
    w.frame(16, &vec![]);
    // endurance zero is a Bernoulli with probability zero: always dies
    w.fixed_tick(&vec![(0, 1)]);
    assert_eq!(
        w.bullets[0].as_ref().unwrap().endurance,
        Some(Endurance::Finite(-1000))
    );
}
