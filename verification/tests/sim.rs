//! End-to-end simulation scenarios: firing, hit limits, endurance,
//! succession chains, beams, splash fans and targeting.

use bullet_core::bullet::{Bullet, BulletState, BulletVariant, Endurance};
use bullet_core::enemy_targeting::{AimTargetingType, MoveTargetingType};
use bullet_core::hits::HitLimit;
use bullet_core::movement::Movement;
use bullet_core::vec2::Vec2m;
use bullet_core::input_handling::KeyFacts;
use bullet_core::weapon::{SpawnRequest, Weapon};
use bullet_core::world::{Character, World};

fn world_with_shooter_and_target() -> World {
    let mut w = World::new(7);
    let player = Character::new(Vec2m { x: 0, y: 0 }, 100, 300_000, true);
    let enemy = Character::new(Vec2m { x: 0, y: 50_000 }, 100, 150_000, false);
    w.spawn_character(player);
    w.spawn_character(enemy);
    w
}

#[test]
fn hit_limit_one_emits_once_per_target() {
    let mut w = world_with_shooter_and_target();
    let b = Bullet {
        life_time_ms: 60_000,
        endurance: Endurance::Infinite,
        hit_limit: HitLimit::Limit(1),
        speed: 0,
        cooldown_ms: 0,
        damage_milli: 10_000,
    };
    let wid = w.add_weapon(Weapon::new(100, vec![(b, BulletVariant::Lane)]).unwrap(), 0);
    w.weapons[wid].weapon.shooting = true;
    w.frame(16, &vec![]); // fire: request queued
    w.frame(16, &vec![]); // spawn + initialize
    assert_eq!(w.bullets.len(), 1);
    // first contact: one event, first hit, damage applied
    let ev1 = w.fixed_tick(&vec![(0, 1)]);
    assert_eq!(ev1.len(), 1);
    assert!(ev1[0].first_hit);
    assert_eq!(w.characters[1].as_ref().unwrap().life, 90);
    // repeated contacts: never another event for the same target
    for _ in 0..5 {
        let ev = w.fixed_tick(&vec![(0, 1)]);
        assert_eq!(ev.len(), 0);
    }
    assert_eq!(w.characters[1].as_ref().unwrap().life, 90);
    // a distinct target still gets its one event
    let mut w2 = world_with_shooter_and_target();
    let extra = Character::new(Vec2m { x: 10_000, y: 50_000 }, 100, 150_000, false);
    w2.spawn_character(extra);
    let wid2 = w2.add_weapon(Weapon::new(100, vec![(b, BulletVariant::Lane)]).unwrap(), 0);
    w2.weapons[wid2].weapon.shooting = true;
    w2.frame(16, &vec![]);
    w2.frame(16, &vec![]);
    let ev = w2.fixed_tick(&vec![(0, 1), (0, 2)]);
    assert_eq!(ev.len(), 2);
    assert!(ev.iter().all(|e| e.first_hit));
}

#[test]
fn natural_expiry_emits_one_succeed_and_spawns_next_generation() {
    let mut w = world_with_shooter_and_target();
    let gen0 = Bullet {
        life_time_ms: 20,
        endurance: Endurance::Finite(1000),
        hit_limit: HitLimit::Limit(1),
        speed: 0,
        cooldown_ms: 600,
        damage_milli: 10_000,
    };
    let gen1 = Bullet {
        life_time_ms: 20,
        endurance: Endurance::Finite(1000),
        hit_limit: HitLimit::Limit(1),
        speed: 0,
        cooldown_ms: 600,
        damage_milli: 80_000,
    };
    let wid = w.add_weapon(
        Weapon::new(
            100,
            vec![(gen0, BulletVariant::Lane), (gen1, BulletVariant::Explode)],
        )
        .unwrap(),
        0,
    );
    w.weapons[wid].weapon.shooting = true;
    w.frame(16, &vec![]); // fire
    w.weapons[wid].weapon.shooting = false;
    w.frame(16, &vec![]); // spawn + init; the timer reaches 16 of 20
    assert_eq!(w.bullets.len(), 1);
    assert!(w.bullets[0].is_some());
    w.frame(16, &vec![]); // lifetime elapsed: despawned, succeed emitted
    assert!(w.bullets[0].is_none());
    assert_eq!(w.succeed_events.len(), 1);
    assert_eq!(w.succeed_events[0].generation, 1);
    w.frame(16, &vec![]); // succeed consumed -> explode spawned
    assert_eq!(w.bullets.len(), 2);
    let next = w.bullets[1].as_ref().unwrap();
    assert!(matches!(next.variant, BulletVariant::Explode));
    assert_eq!(next.generation, 2);
    // let the explode expire: its succeed names generation 2, past the
    // blueprint's end, so the chain stops
    w.frame(16, &vec![]);
    w.frame(16, &vec![]);
    assert!(w.bullets.iter().all(|b| b.is_none()));
    w.frame(16, &vec![]);
    w.frame(16, &vec![]);
    assert_eq!(w.bullets.len(), 2); // nothing new spawned
}

#[test]
fn infinite_endurance_despawns_silently() {
    let mut w = world_with_shooter_and_target();
    let b = Bullet {
        life_time_ms: 20,
        endurance: Endurance::Infinite,
        hit_limit: HitLimit::Unlimited,
        speed: 0,
        cooldown_ms: 600,
        damage_milli: 10_000,
    };
    let wid = w.add_weapon(
        Weapon::new(100, vec![(b, BulletVariant::Lane), (b, BulletVariant::Lane)]).unwrap(),
        0,
    );
    w.weapons[wid].weapon.shooting = true;
    w.frame(16, &vec![]);
    w.frame(16, &vec![]);
    w.weapons[wid].weapon.shooting = false;
    w.frame(16, &vec![]);
    w.frame(16, &vec![]);
    assert!(w.bullets[0].is_none());
    assert_eq!(w.succeed_events.len(), 0);
}

#[test]
fn at_most_one_beam_per_shooter() {
    let mut w = world_with_shooter_and_target();
    let b = Bullet {
        life_time_ms: 60_000,
        endurance: Endurance::Infinite,
        hit_limit: HitLimit::Unlimited,
        speed: 0,
        cooldown_ms: 0,
        damage_milli: 1_000,
    };
    let beam = BulletVariant::Beam { width: 4_000, length: 900_000 };
    let req = SpawnRequest {
        shooter_pos: Vec2m { x: 0, y: 0 },
        facing: Vec2m { x: 0, y: 1000 },
        by: 0,
        with: 0,
        bullet: b,
        variant: beam,
        generation: 0,
    };
    w.add_weapon(Weapon::new(100, vec![(b, beam)]).unwrap(), 0);
    // two beams requested at once for the same shooter
    w.spawn_requests.push(req);
    w.spawn_requests.push(req);
    w.frame(16, &vec![]);
    assert_eq!(w.bullets.len(), 2);
    assert!(w.bullets[0].is_some());
    assert_eq!(w.bullets[0].as_ref().unwrap().state, BulletState::Active);
    assert!(w.bullets[1].is_none(), "the second beam must be discarded");
    // a later beam while the first is still active is discarded too
    w.spawn_requests.push(req);
    w.frame(16, &vec![]);
    assert!(w.bullets[2].is_none());
    // a beam for a different shooter coexists
    let mut req2 = req;
    req2.by = 1;
    w.spawn_requests.push(req2);
    w.frame(16, &vec![]);
    assert!(w.bullets[3].is_some());
}

#[test]
fn beam_tracks_shooter_aim_each_tick() {
    let mut w = world_with_shooter_and_target();
    let b = Bullet {
        life_time_ms: 60_000,
        endurance: Endurance::Infinite,
        hit_limit: HitLimit::Unlimited,
        speed: 0,
        cooldown_ms: 0,
        damage_milli: 1_000,
    };
    let beam = BulletVariant::Beam { width: 4_000, length: 900_000 };
    w.spawn_requests.push(SpawnRequest {
        shooter_pos: Vec2m { x: 0, y: 0 },
        facing: Vec2m { x: 0, y: 1000 },
        by: 0,
        with: 0,
        bullet: b,
        variant: beam,
        generation: 0,
    });
    w.frame(16, &vec![]);
    w.characters[0].as_mut().unwrap().aim = Vec2m { x: 10_000, y: 0 };
    w.frame(16, &vec![]);
    let facing = w.bullets[0].as_ref().unwrap().facing;
    assert_eq!(facing, Vec2m { x: 1000, y: 0 });
    w.characters[0].as_mut().unwrap().aim = Vec2m { x: 0, y: -10_000 };
    w.frame(16, &vec![]);
    let facing = w.bullets[0].as_ref().unwrap().facing;
    assert_eq!(facing, Vec2m { x: 0, y: -1000 });
}

#[test]
fn endurance_bernoulli_reproducible_with_same_seed() {
    let run = |seed: u64| -> Endurance {
        let mut w = World::new(seed);
        w.spawn_character(Character::new(Vec2m { x: 0, y: 0 }, 100, 300_000, true));
        w.spawn_character(Character::new(Vec2m { x: 0, y: 50_000 }, 1000, 150_000, false));
        let b = Bullet {
            life_time_ms: 60_000,
            endurance: Endurance::Finite(500),
            hit_limit: HitLimit::Unlimited,
            speed: 0,
            cooldown_ms: 0,
            damage_milli: 1_000,
        };
        let wid = w.add_weapon(Weapon::new(100, vec![(b, BulletVariant::Lane)]).unwrap(), 0);
        w.weapons[wid].weapon.shooting = true;
        w.frame(16, &vec![]);
        w.frame(16, &vec![]);
        w.fixed_tick(&vec![(0, 1)]);
        w.bullets[0].as_ref().unwrap().endurance.unwrap()
    };
    let a = run(42);
    let b = run(42);
    assert_eq!(a, b, "same seed must give the same survival outcome");
    assert!(a == Endurance::Finite(500) || a == Endurance::Finite(-1000));
    // and across many seeds both outcomes occur
    let mut survived = 0;
    let mut destroyed = 0;
    for seed in 0..32 {
        match run(seed) {
            Endurance::Finite(500) => survived += 1,
            Endurance::Finite(-1000) => destroyed += 1,
            other => panic!("unexpected endurance {:?}", other),
        }
    }
    assert!(survived > 0 && destroyed > 0);
}

#[test]
fn two_generation_blueprint_scenario() {
    // blueprint: (dmg 10, lane, endurance one unit) then (dmg 80,
    // explode, infinite); one shot at a stationary 100-health target.
    let mut w = world_with_shooter_and_target();
    let lane = Bullet {
        life_time_ms: 300,
        endurance: Endurance::Finite(1000),
        hit_limit: HitLimit::Limit(1),
        speed: 0,
        cooldown_ms: 600,
        damage_milli: 10_000,
    };
    let explode = Bullet {
        life_time_ms: 300,
        endurance: Endurance::Infinite,
        hit_limit: HitLimit::Unlimited,
        speed: 0,
        cooldown_ms: 1000,
        damage_milli: 80_000,
    };
    let wid = w.add_weapon(
        Weapon::new(
            100,
            vec![(lane, BulletVariant::Lane), (explode, BulletVariant::Explode)],
        )
        .unwrap(),
        0,
    );
    w.weapons[wid].weapon.shooting = true;
    w.frame(16, &vec![]); // fire
    w.weapons[wid].weapon.shooting = false;
    w.frame(16, &vec![]); // lane spawned and active
    // the lane bullet hits: first hit, health 100 -> 90, endurance one
    // unit -> zero, and the hit itself chains generation one
    let ev = w.fixed_tick(&vec![(0, 1)]);
    assert_eq!(ev.len(), 1);
    assert!(ev[0].first_hit);
    assert_eq!(w.characters[1].as_ref().unwrap().life, 90);
    assert_eq!(
        w.bullets[0].as_ref().unwrap().endurance,
        Some(Endurance::Finite(0))
    );
    assert_eq!(w.succeed_events.len(), 1);
    assert_eq!(w.succeed_events[0].generation, 1);
    w.frame(16, &vec![]); // succeed consumed: explode spawned
    let explode_idx = 1;
    let nb = w.bullets[explode_idx].as_ref().unwrap();
    assert!(matches!(nb.variant, BulletVariant::Explode));
    assert_eq!(nb.state, BulletState::Active);
    // two explode hits of ceil(80) finish the remaining 90 health
    let ev = w.fixed_tick(&vec![(explode_idx, 1)]);
    assert_eq!(ev.len(), 1);
    assert_eq!(w.characters[1].as_ref().unwrap().life, 10);
    let ev = w.fixed_tick(&vec![(explode_idx, 1)]);
    assert_eq!(ev.len(), 1);
    assert_eq!(w.characters[1].as_ref().unwrap().life, -70);
    // the dead target is removed on the next presentation tick
    w.frame(16, &vec![]);
    assert!(w.characters[1].is_none());
}

#[test]
fn splash_fires_three_jittered_instances() {
    let mut w = world_with_shooter_and_target();
    let b = Bullet {
        life_time_ms: 60_000,
        endurance: Endurance::Finite(1000),
        hit_limit: HitLimit::Limit(1),
        speed: 1_000_000,
        cooldown_ms: 600,
        damage_milli: 10_000,
    };
    let splash = BulletVariant::Splash { count: 3, angle: 300 };
    let wid = w.add_weapon(Weapon::new(100, vec![(b, splash)]).unwrap(), 0);
    w.weapons[wid].weapon.shooting = true;
    w.frame(16, &vec![]); // fire
    w.weapons[wid].weapon.shooting = false;
    w.frame(16, &vec![]); // fan of three spawned, initialized, jittered
    assert_eq!(w.bullets.len(), 3);
    for i in 0..3 {
        let inst = w.bullets[i].as_ref().unwrap();
        match inst.movement {
            Some(Movement::DirectionMove(d)) => {
                // firing facing is (0, 1000); within 0.3 radians of it
                // the direction keeps cos >= 955 and |sin| <= 300
                assert!(d.y >= 955, "direction {:?} outside the spread", d);
                assert!(d.x.abs() <= 300, "direction {:?} outside the spread", d);
            }
            other => panic!("splash instance without direction: {:?}", other),
        }
    }
}

#[test]
fn follow_stands_still_near_and_seeks_far() {
    let mut w = World::new(3);
    w.spawn_character(Character::new(Vec2m { x: 0, y: 50_000 }, 100, 300_000, true));
    let mut enemy = Character::new(Vec2m { x: 0, y: 0 }, 100, 150_000, false);
    enemy.move_targeting = Some(MoveTargetingType::Follow);
    enemy.aim_targeting = Some(AimTargetingType::AimCurrent);
    w.spawn_character(enemy);
    // target 50 units away: no movement intent
    w.frame(16, &vec![]);
    assert!(w.characters[1].as_ref().unwrap().hostile.is_some());
    w.frame(16, &vec![]);
    assert!(w.characters[1].as_ref().unwrap().movement.is_none());
    // target moved to 150 units away: intent becomes seek-target
    w.characters[0].as_mut().unwrap().pos = Vec2m { x: 0, y: 150_000 };
    w.frame(16, &vec![]);
    match w.characters[1].as_ref().unwrap().movement {
        Some(Movement::PointMove(p)) => assert_eq!(p, Vec2m { x: 0, y: 150_000 }),
        other => panic!("expected a seek intent, got {:?}", other),
    }
}

#[test]
fn vanished_target_clears_reference() {
    let mut w = World::new(3);
    w.spawn_character(Character::new(Vec2m { x: 0, y: 50_000 }, 100, 300_000, true));
    let mut enemy = Character::new(Vec2m { x: 0, y: 0 }, 100, 150_000, false);
    enemy.move_targeting = Some(MoveTargetingType::Chase);
    w.spawn_character(enemy);
    w.frame(16, &vec![]);
    assert_eq!(
        w.characters[1].as_ref().unwrap().hostile,
        Some(bullet_core::enemy_targeting::HostileTarget(0))
    );
    // the player dies; the reference is cleared next cycle
    w.characters[0].as_mut().unwrap().life = 0;
    w.frame(16, &vec![]);
    w.frame(16, &vec![]);
    assert!(w.characters[0].is_none());
    assert!(w.characters[1].as_ref().unwrap().hostile.is_none());
}

#[test]
fn cooldown_gates_refire() {
    let mut w = world_with_shooter_and_target();
    let b = Bullet {
        life_time_ms: 60_000,
        endurance: Endurance::Infinite,
        hit_limit: HitLimit::Unlimited,
        speed: 0,
        cooldown_ms: 600,
        damage_milli: 1_000,
    };
    let wid = w.add_weapon(Weapon::new(100, vec![(b, BulletVariant::Lane)]).unwrap(), 0);
    w.weapons[wid].weapon.shooting = true;
    w.frame(16, &vec![]); // fires; arms 600 * 100 / 100 = 600 ms
    assert_eq!(w.weapons[wid].weapon.cooldown_ms, 600);
    let spawned_after_first = w.spawn_requests.len();
    assert_eq!(spawned_after_first, 1);
    w.frame(16, &vec![]); // still cooling: no second request
    assert_eq!(w.spawn_requests.len(), 0); // drained into a spawn
    assert_eq!(w.bullets.len(), 1);
    for _ in 0..40 {
        w.frame(16, &vec![]);
    }
    // cooldown has elapsed; the weapon fired again
    assert_eq!(w.bullets.len(), 2);
}

#[test]
fn mouse_input_aims_and_gates_the_trigger() {
    let mut w = World::new(11);
    let mut player = Character::new(Vec2m { x: 0, y: 0 }, 100, 300_000, true);
    player.keyboard = true;
    w.spawn_character(player);
    let b = Bullet {
        life_time_ms: 60_000,
        endurance: Endurance::Infinite,
        hit_limit: HitLimit::Unlimited,
        speed: 0,
        cooldown_ms: 0,
        damage_milli: 1_000,
    };
    let wid = w.add_weapon(Weapon::new(100, vec![(b, BulletVariant::Lane)]).unwrap(), 0);
    // without a cursor nothing changes
    w.handle_mouse(None, true, false);
    assert!(!w.weapons[wid].weapon.shooting);
    // a click aims the player and opens the trigger gate
    w.handle_mouse(Some(Vec2m { x: 5_000, y: 0 }), true, false);
    assert!(w.weapons[wid].weapon.shooting);
    assert_eq!(w.characters[0].as_ref().unwrap().aim, Vec2m { x: 5_000, y: 0 });
    // releasing closes it again
    w.handle_mouse(Some(Vec2m { x: 5_000, y: 0 }), false, true);
    assert!(!w.weapons[wid].weapon.shooting);
    // a click fully contained in one frame: the release comes after the
    // press, so the weapon ends not shooting
    w.handle_mouse(Some(Vec2m { x: 5_000, y: 0 }), true, true);
    assert!(!w.weapons[wid].weapon.shooting);
}

#[test]
fn keyboard_input_moves_the_player() {
    let mut w = World::new(11);
    let mut player = Character::new(Vec2m { x: 0, y: 0 }, 100, 300_000, true);
    player.keyboard = true;
    w.spawn_character(player);
    let mut keys = KeyFacts {
        left_just_pressed: false,
        left_just_released: false,
        left_pressed: false,
        right_just_pressed: false,
        right_just_released: false,
        right_pressed: false,
        up_just_pressed: false,
        up_just_released: false,
        up_pressed: false,
        down_just_pressed: false,
        down_just_released: false,
        down_pressed: false,
    };
    keys.right_just_pressed = true;
    keys.right_pressed = true;
    w.handle_input(&keys);
    assert_eq!(
        w.characters[0].as_ref().unwrap().x_move,
        Some(bullet_core::movement::XAxisMove::Right)
    );
    w.frame(1000, &vec![]);
    // one second at three hundred units per second, heading right
    assert_eq!(
        w.characters[0].as_ref().unwrap().pos,
        Vec2m { x: 300_000, y: 0 }
    );
}
