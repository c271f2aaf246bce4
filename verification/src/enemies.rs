//! Enemy kinds: the name dispatch and the initializer that equips a
//! freshly spawned enemy with its stats and targeting strategies.

use vstd::prelude::*;
use crate::enemy_targeting::{AimTargetingType, MoveTargetingType};
use crate::vec2::Vec2m;
use crate::weapon::ConfigError;
use crate::world::{Character, World};
use vstd::string::StringSliceAdditionalSpecFns;

verus! {

/// The ordinary enemy kind.
#[derive(Clone, Copy, PartialEq, Eq, Structural, Debug)]
pub struct NormalEnemy;

/// Whether two byte strings are equal.
fn bytes_eq(a: &[u8], b: &[u8]) -> (r: bool)
    ensures
        r == (a@ == b@),
{
    if a.len() != b.len() {
        return false;
    }
    let n = a.len();
    let mut i: usize = 0;
    while i < n
        invariant
            0 <= i <= n,
            n == a@.len(),
            a@.len() == b@.len(),
            forall|j: int| 0 <= j < i ==> a@[j] == b@[j],
        decreases n - i,
    {
        if a[i] != b[i] {
            return false;
        }
        i = i + 1;
    }
    proof {
        assert(a@ =~= b@);
    }
    true
}

/// Resolve an enemy kind by name.  An unknown name is a configuration
/// error, fatal at construction and never mid-simulation.
pub fn type_dispatch(name: &str) -> (r: Result<NormalEnemy, ConfigError>)
    ensures
        r is Ok <==> name.spec_bytes() == "normal".spec_bytes(),
        r is Err ==> r.unwrap_err() == ConfigError::UnknownEnemyKind,
{
    if bytes_eq(name.as_bytes(), "normal".as_bytes()) {
        Ok(NormalEnemy)
    } else {
        Err(ConfigError::UnknownEnemyKind)
    }
}

/// Spawn and equip an ordinary enemy: a hundred health, a speed of a
/// hundred and fifty units per second, aiming at current positions and
/// chasing its target.  Returns the new character's identifier.
pub fn normal_enemy_initializer(world: &mut World, pos: Vec2m) -> (id: usize)
    requires
        old(world).wf(),
        pos.bounded(crate::vec2::COORD_LIMIT as int),
    ensures
        final(world).wf(),
        id == old(world).characters@.len(),
        final(world).characters@.len() == old(world).characters@.len() + 1,
        ({
            let c = final(world).characters@[id as int].unwrap();
            &&& final(world).characters@[id as int] is Some
            &&& c.pos == pos
            &&& c.life == 100
            &&& c.speed == 150000
            &&& !c.is_player
            &&& c.aim_targeting == Some(AimTargetingType::AimCurrent)
            &&& c.move_targeting == Some(MoveTargetingType::Chase)
            &&& c.hostile is None
        }),
        forall|k: int|
            0 <= k < old(world).characters@.len() ==> final(world).characters@[k] == old(
                world,
            ).characters@[k],
        final(world).bullets@ == old(world).bullets@,
        final(world).weapons@ == old(world).weapons@,
        final(world).spawn_requests@ == old(world).spawn_requests@,
        final(world).succeed_events@ == old(world).succeed_events@,
{
    let mut c = Character::new(pos, 100, 150000, false);
    c.aim_targeting = Some(AimTargetingType::AimCurrent);
    c.move_targeting = Some(MoveTargetingType::Chase);
    world.spawn_character(c)
}

} // verus!
