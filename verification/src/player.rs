//! The player's counters and what a key press or a shot does to them.

use crate::enemy::{eliminate_enemy, EnemyState};
use crate::globals::Kulay;
use crate::hud::Score;
use vstd::prelude::*;

verus! {

/// The hit points a round starts with.
pub const FULL_HEALTH: usize = 5;

/// What a shot that takes an enemy down is worth, and what any other shot
/// that meets something costs.
pub const SHOT_POINTS: i32 = 100;

/// Hit points left.
pub struct PlayerHealth(pub usize);

/// The colour the player currently shoots with.
pub struct PlayerWeapon(pub Kulay);

/// Enemies shot down in this round.
pub struct KillCount(pub usize);

/// What the ray of a shot met first: the entity, and its colour if it
/// carries one.
#[derive(Debug, Clone, Copy, PartialEq, Eq, Structural)]
pub struct RayHit {
    pub entity: u64,
    pub color: Option<Kulay>,
}

/// Whether a shot takes down what it met: it met something of the weapon's
/// colour.
pub open spec fn shot_lands(hit: Option<RayHit>, weapon: Kulay) -> bool {
    hit matches Some(h) && h.color == Some(weapon)
}

/// The weapon after a frame in which the keys `1` and `2` were or were not
/// pressed: `1` selects blue and wins over `2`, which selects red.
pub open spec fn weapon_after(weapon: Kulay, digit1: bool, digit2: bool) -> Kulay {
    if digit1 {
        Kulay::Asul
    } else if digit2 {
        Kulay::Pula
    } else {
        weapon
    }
}

/// Switches the weapon on a press of `1` or `2`.
pub fn switch_weapon_system(
    digit1_just_pressed: bool,
    digit2_just_pressed: bool,
    weapon: &mut PlayerWeapon,
)
    ensures
        final(weapon).0 == weapon_after(old(weapon).0, digit1_just_pressed, digit2_just_pressed),
{
    if digit1_just_pressed {
        weapon.0 = Kulay::Asul;
    } else if digit2_just_pressed {
        weapon.0 = Kulay::Pula;
    }
}

/// Whether the counters have room for what the shot does to them.
pub open spec fn shot_fits(hit: Option<RayHit>, weapon: Kulay, score: i32, kills: usize) -> bool {
    if shot_lands(hit, weapon) {
        score + SHOT_POINTS <= i32::MAX && kills < usize::MAX
    } else if hit is Some {
        score - SHOT_POINTS >= i32::MIN
    } else {
        true
    }
}

/// Whether `player_shoot_system` may be called on these values.
pub fn can_settle_shot(
    hit: Option<RayHit>,
    player_weapon: &PlayerWeapon,
    scoreboard: &Score,
    kill_count: &KillCount,
) -> (fits: bool)
    ensures
        fits == shot_fits(hit, player_weapon.0, scoreboard.0, kill_count.0),
{
    match hit {
        None => true,
        Some(met) => {
            let lands = match met.color {
                Some(color) => color == player_weapon.0,
                None => false,
            };
            if lands {
                scoreboard.0 <= i32::MAX - SHOT_POINTS && kill_count.0 < usize::MAX
            } else {
                scoreboard.0 >= i32::MIN + SHOT_POINTS
            }
        },
    }
}

/// Settles a shot.
///
/// A shot into the void changes nothing. A shot that meets an enemy of the
/// weapon's colour eliminates it, earns `SHOT_POINTS` and counts as a kill.
/// Any other shot that meets something costs `SHOT_POINTS`. The result is
/// the entity to despawn, if there is one.
pub fn player_shoot_system(
    hit: Option<RayHit>,
    player_weapon: &PlayerWeapon,
    enemy_state: &mut EnemyState,
    scoreboard: &mut Score,
    kill_count: &mut KillCount,
) -> (despawn: Option<u64>)
    requires
        shot_fits(hit, player_weapon.0, old(scoreboard).0, old(kill_count).0),
    ensures
        hit is None ==> {
            &&& despawn is None
            &&& final(scoreboard).0 == old(scoreboard).0
            &&& final(kill_count).0 == old(kill_count).0
            &&& final(enemy_state)@ == old(enemy_state)@
        },
        shot_lands(hit, player_weapon.0) ==> {
            &&& despawn == if old(enemy_state)@.pos.contains_key(hit->0.entity) {
                Some(hit->0.entity)
            } else {
                None
            }
            &&& final(scoreboard).0 == old(scoreboard).0 + SHOT_POINTS
            &&& final(kill_count).0 == old(kill_count).0 + 1
            &&& final(enemy_state)@ == old(enemy_state)@.without(hit->0.entity)
        },
        hit is Some && !shot_lands(hit, player_weapon.0) ==> {
            &&& despawn is None
            &&& final(scoreboard).0 == old(scoreboard).0 - SHOT_POINTS
            &&& final(kill_count).0 == old(kill_count).0
            &&& final(enemy_state)@ == old(enemy_state)@
        },
{
    let Some(met) = hit else {
        return None;
    };
    let lands = match met.color {
        Some(color) => color == player_weapon.0,
        None => false,
    };
    if lands {
        let despawn = eliminate_enemy(met.entity, enemy_state);
        scoreboard.0 += SHOT_POINTS;
        kill_count.0 += 1;
        if despawn {
            Some(met.entity)
        } else {
            None
        }
    } else {
        scoreboard.0 -= SHOT_POINTS;
        None
    }
}

} // verus!
