use handgun_heroes::enemy::{EnemyPos, EnemyState};
use handgun_heroes::global_physics::player_enemy_collider_system;
use handgun_heroes::player::PlayerHealth;

fn two_enemies() -> EnemyState {
    let mut state = EnemyState::default();
    state.pos.insert(1, EnemyPos { x: 0, y: 3 });
    state.pos.insert(2, EnemyPos { x: 1, y: 3 });
    state
}

#[test]
fn each_touching_enemy_takes_a_hit_point_and_leaves() {
    let mut state = two_enemies();
    let mut health = PlayerHealth(5);
    let despawn = player_enemy_collider_system(&vec![1, 2], &mut health, &mut state);
    assert_eq!(despawn, vec![1, 2]);
    assert_eq!(health.0, 3);
    assert!(state.pos.is_empty());
}

#[test]
fn touching_at_zero_health_only_removes_the_enemy() {
    let mut state = two_enemies();
    let mut health = PlayerHealth(0);
    let despawn = player_enemy_collider_system(&vec![2], &mut health, &mut state);
    assert_eq!(despawn, vec![2]);
    assert_eq!(health.0, 0);
    assert_eq!(state.pos.len(), 1);
}

#[test]
fn more_contacts_than_hit_points_leave_zero() {
    let mut state = two_enemies();
    let mut health = PlayerHealth(1);
    let despawn = player_enemy_collider_system(&vec![2, 1, 5], &mut health, &mut state);
    assert_eq!(despawn, vec![2, 1]);
    assert_eq!(health.0, 0);
}

#[test]
fn contacts_in_two_frames_cost_what_they_cost_in_one() {
    let mut state = two_enemies();
    let mut split = PlayerHealth(4);
    player_enemy_collider_system(&vec![1], &mut split, &mut state);
    player_enemy_collider_system(&vec![2], &mut split, &mut state);
    let mut state = two_enemies();
    let mut whole = PlayerHealth(4);
    player_enemy_collider_system(&vec![1, 2], &mut whole, &mut state);
    assert_eq!(split.0, whole.0);
    assert_eq!(whole.0, 2);
}
