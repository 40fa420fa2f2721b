use arena_sim::entities::{SpellEffect, ENEMY_HEALTH, ENEMY_SPEED, PLAYER_HEALTH};
use arena_sim::geometry::{Bounds, Point, ONE};
use arena_sim::shake::ScreenShake;
use arena_sim::simulation::Simulation;
use arena_sim::wave::WaveState;

fn playfield() -> Bounds {
    Bounds::centered(480 * ONE, 270 * ONE)
}

fn sim_with_player() -> Simulation {
    let mut sim = Simulation::new(playfield(), true);
    assert!(sim.respawn_player().is_some());
    sim
}

#[test]
fn first_spawn_tick_makes_one_enemy_active() {
    let mut sim = sim_with_player();
    assert_eq!(sim.waves, WaveState { wave_number: 0, pending_count: 1, active_count: 0 });
    let id = sim.spawn_enemy();
    assert!(id.is_some());
    assert_eq!(sim.waves.pending_count, 0);
    assert_eq!(sim.waves.active_count, 1);
    assert_eq!(sim.waves.wave_number, 0);
    assert_eq!(sim.store.enemies.len(), 1);
    let e = sim.store.enemies[0];
    assert_eq!(e.health, ENEMY_HEALTH);
    assert_eq!(e.health, 1_000_000);
    assert_eq!(Some(e.id), id);
    let b = playfield();
    assert!(b.left <= e.pos.x && e.pos.x < b.right);
    assert!(b.bottom <= e.pos.y && e.pos.y < b.top);
}

#[test]
fn cleared_wave_two_starts_wave_three_with_eight() {
    let mut sim = sim_with_player();
    sim.waves = WaveState { wave_number: 2, pending_count: 0, active_count: 0 };
    let r = sim.complete_wave();
    assert_eq!(r, Some(3));
    assert_eq!(sim.waves, WaveState { wave_number: 3, pending_count: 8, active_count: 0 });
}

#[test]
fn lethal_hit_then_death_sweep_removes_enemy() {
    let mut sim = sim_with_player();
    let target = Point::new(50 * ONE, 0);
    sim.store.spawn_enemy(Point::origin(), target);
    sim.waves.active_count = 1;
    let effect = SpellEffect { base_damage: ONE as u32, element_type: 0 };
    sim.store.spawn_projectile(Point::origin(), Point::origin(), effect, true, true);
    sim.apply_spell_effects();
    assert_eq!(sim.store.enemies[0].health, 0);
    let live = sim.count_and_remove_dead_enemies();
    assert_eq!(live, 0);
    assert!(sim.store.enemies.is_empty());
    assert_eq!(sim.waves.active_count, 0);
    assert_eq!(sim.store.projectiles.len(), 1);
}

#[test]
fn shake_decays_by_one_and_a_half() {
    let mut s = ScreenShake::new();
    s.magnitude = 20 * ONE as u64;
    assert_eq!((s.decay_num, s.decay_den), (3, 2));
    s.step_with(0, 0, 0);
    assert_eq!(s.magnitude, 13_333_333);
}

#[test]
fn shake_decay_with_random_draws() {
    let mut s = ScreenShake::new();
    s.magnitude = 20 * ONE as u64;
    s.apply_screen_shake();
    assert_eq!(s.magnitude, 13_333_333);
}

#[test]
fn respawned_player_at_origin() {
    let sim = sim_with_player();
    let p = sim.store.player.unwrap();
    assert_eq!(p.pos, Point::origin());
    assert_eq!(p.health, PLAYER_HEALTH);
    assert!(p.face < 10);
}

#[test]
fn spawned_enemy_heads_for_player() {
    let mut sim = sim_with_player();
    sim.spawn_enemy_at(Point::new(30 * ONE, 40 * ONE));
    let e = sim.store.enemies[0];
    assert_eq!(e.vel, Point::new(-18 * ONE / 5, -24 * ONE / 5));
    assert_eq!(ENEMY_SPEED, 6 * ONE);
}
