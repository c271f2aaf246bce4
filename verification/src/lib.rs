//! Verified core of a projectile-combat simulation: weapons fire bullets,
//! bullets carry typed movement behaviours, hits are resolved against
//! targets with per-target hit limits, endurance rules decide survival, and
//! dying bullets chain into the next generation of their weapon's blueprint.
//!
//! All world arithmetic is integer fixed point: one spatial unit, one second
//! and one unit of probability are each a thousand milli-steps.  Rendering,
//! physics broad-phase and input decoding are external collaborators: the
//! library consumes plain contact lists and aim points and hands back plain
//! component state.

pub mod fixp;
pub mod forced_moving;
pub mod bullet;
pub mod enemies;
pub mod enemy_targeting;
pub mod hits;
pub mod input_handling;
pub mod levels;
pub mod movement;
pub mod rng;
pub mod weapon;
pub mod world;
pub mod vec2;
