//! Colours, game states and the rules that react to clicks, collisions and
//! resets.

use crate::enemy::{despawned, eliminate_all, EnemyState, Wave};
use crate::global_physics::health_after;
use crate::hud::{HudEntities, Score};
use crate::player::{KillCount, PlayerHealth, FULL_HEALTH};
use vstd::prelude::*;

verus! {

/// The two colours an enemy or a weapon can have: red and blue.
#[derive(Debug, Clone, Copy, PartialEq, Eq, Hash, Structural)]
pub enum Kulay {
    Pula,
    Asul,
}

/// A colour by hue in degrees and by saturation and lightness in percent.
#[derive(Debug, Clone, Copy, PartialEq, Eq, Structural)]
pub struct Hsl {
    pub hue: u16,
    pub saturation: u8,
    pub lightness: u8,
}

/// The phases of a session.
#[derive(Debug, Clone, Copy, PartialEq, Eq, Hash, Structural)]
pub enum GameState {
    MainMenu,
    InGame,
    GameOver,
}

/// What a frame's contacts lead to.
#[derive(Debug)]
pub struct CollisionOutcome {
    /// The state to move to, if the game changes state.
    pub next_state: Option<GameState>,
    /// How many hit points the player lost: one damage event each.
    pub damage: usize,
    /// The entities to despawn.
    pub despawn: Vec<u64>,
}

/// Whether the round is lost but the game has not yet said so.
pub open spec fn game_over_due(health: usize, game_state: GameState) -> bool {
    health == 0 && game_state != GameState::GameOver
}

/// Whether a left click should start a round: only outside a running one.
pub fn mouse_pressed_and_not_ingame(game_state: GameState, left_just_pressed: bool) -> (run: bool)
    ensures
        run == (game_state != GameState::InGame && left_just_pressed),
{
    game_state != GameState::InGame && left_just_pressed
}

/// The state to request when a round is started: `InGame`, unless the game
/// is already there.
pub fn update_game_state_to_ingame(game_state: GameState) -> (next: Option<GameState>)
    ensures
        next == if game_state != GameState::InGame {
            Some(GameState::InGame)
        } else {
            None::<GameState>
        },
{
    if game_state != GameState::InGame {
        Some(GameState::InGame)
    } else {
        None
    }
}

/// Whether this frame ends the round instead of settling contacts.
pub fn is_game_over_due(player_health: &PlayerHealth, game_state: GameState) -> (due: bool)
    ensures
        due == game_over_due(player_health.0, game_state),
{
    player_health.0 == 0 && game_state != GameState::GameOver
}

/// Settles the contacts of a frame, or ends the round.
///
/// With no hit point left and the game not yet over, the frame only asks
/// for the `GameOver` state. Otherwise each enemy in `touching`, the
/// enemies whose sensor overlaps the player's, costs a hit point while
/// there is one left, and each is eliminated.
pub fn player_enemy_collider_system(
    touching: &Vec<u64>,
    player_health: &mut PlayerHealth,
    enemy_state: &mut EnemyState,
    game_state: GameState,
) -> (outcome: CollisionOutcome)
    ensures
        game_over_due(old(player_health).0, game_state) ==> {
            &&& outcome.next_state == Some(GameState::GameOver)
            &&& outcome.damage == 0
            &&& outcome.despawn@ == Seq::<u64>::empty()
            &&& final(player_health).0 == old(player_health).0
            &&& final(enemy_state)@ == old(enemy_state)@
        },
        !game_over_due(old(player_health).0, game_state) ==> {
            &&& outcome.next_state is None
            &&& final(player_health).0 == health_after(old(player_health).0, touching@.len())
            &&& outcome.damage == old(player_health).0 - final(player_health).0
            &&& outcome.despawn@ == despawned(old(enemy_state)@.pos.dom(), touching@)
            &&& final(enemy_state)@ == old(enemy_state)@.without_all(touching@.to_set())
        },
{
    if is_game_over_due(player_health, game_state) {
        return CollisionOutcome {
            next_state: Some(GameState::GameOver),
            damage: 0,
            despawn: Vec::new(),
        };
    }
    let health_before = player_health.0;
    let despawn = crate::global_physics::player_enemy_collider_system(
        touching,
        player_health,
        enemy_state,
    );
    CollisionOutcome { next_state: None, damage: health_before - player_health.0, despawn }
}

/// Starts the round over.
///
/// Every enemy in `enemies` is eliminated, the score and the kill count go
/// back to zero, the health to `FULL_HEALTH`, the list of display entities
/// is emptied, and the enemy state is the one a round starts from. The
/// result lists the entities to despawn.
pub fn reset_system(
    enemies: &Vec<u64>,
    enemy_state: &mut EnemyState,
    score: &mut Score,
    hud_entities: &mut HudEntities,
    player_health: &mut PlayerHealth,
    kill_count: &mut KillCount,
) -> (despawn: Vec<u64>)
    ensures
        despawn@ == despawned(old(enemy_state)@.pos.dom(), enemies@),
        final(score).0 == 0,
        final(hud_entities)@ == Seq::<u64>::empty(),
        final(player_health).0 == FULL_HEALTH,
        final(kill_count).0 == 0,
        final(enemy_state)@ == Wave::start(),
{
    let despawn = eliminate_all(enemies, enemy_state);

    score.0 = 0;
    hud_entities.0.clear();
    player_health.0 = FULL_HEALTH;
    kill_count.0 = 0;
    *enemy_state = EnemyState::default();
    despawn
}

} // verus!
