//! What contact between the player and enemies costs.

use crate::enemy::{despawned, eliminate_all, EnemyState};
use crate::player::PlayerHealth;
use vstd::prelude::*;

verus! {

/// The hit points left after `hits` enemies touched the player: each takes
/// one, down to zero.
pub open spec fn health_after(health: usize, hits: nat) -> nat {
    if hits >= health {
        0
    } else {
        (health - hits) as nat
    }
}

/// Contacts add up: settling some and then the others leaves the health
/// that settling all of them at once leaves, and health never goes up.
pub proof fn lemma_health_after_adds(health: usize, first: nat, then: nat)
    ensures
        health_after(health, first) <= health,
        health_after(health_after(health, first) as usize, then) == health_after(
            health,
            first + then,
        ),
{
}

/// Settles the contacts of a frame.
///
/// `touching` lists the enemies whose sensor overlaps the player's. Each
/// costs a hit point while there is one left, and each is eliminated. The
/// result lists the entities to despawn.
pub fn player_enemy_collider_system(
    touching: &Vec<u64>,
    player_health: &mut PlayerHealth,
    enemy_state: &mut EnemyState,
) -> (despawn: Vec<u64>)
    ensures
        final(player_health).0 == health_after(old(player_health).0, touching@.len()),
        despawn@ == despawned(old(enemy_state)@.pos.dom(), touching@),
        final(enemy_state)@ == old(enemy_state)@.without_all(touching@.to_set()),
{
    if touching.len() >= player_health.0 {
        player_health.0 = 0;
    } else {
        player_health.0 -= touching.len();
    }
    eliminate_all(touching, enemy_state)
}

} // verus!
