use arena_sim::entities::{EntityStore, SpellEffect};
use arena_sim::geometry::{boxes_overlap, heading_toward, isqrt, move_point, Bounds, Point, HIT_BOX, ONE};
use arena_sim::level::Level;
use arena_sim::shake::{ScreenShake, SHAKE_PER_CAST};
use arena_sim::simulation::{Simulation, MAGIC_MISSILE_DAMAGE, MAGIC_MISSILE_SPEED};
use arena_sim::wave::WaveState;

fn playfield() -> Bounds {
    Bounds::centered(480 * ONE, 270 * ONE)
}

fn missile() -> SpellEffect {
    SpellEffect { base_damage: ONE as u32, element_type: 0 }
}

#[test]
fn counters_stay_natural_over_ticks() {
    let mut sim = Simulation::new(playfield(), true);
    sim.respawn_player();
    for _ in 0..5 {
        sim.spawn_enemy();
        sim.frame_tick(16_000);
        sim.complete_wave();
        assert_eq!(sim.waves.active_count as usize, sim.store.enemies.len());
    }
    assert_eq!(sim.waves.pending_count, 0);
    assert_eq!(sim.waves.active_count, 1);
}

#[test]
fn wave_advances_only_when_cleared() {
    let mut w = WaveState::new();
    assert_eq!(w.complete_wave(), None);
    assert!(w.spawn_tick(true));
    assert_eq!(w.complete_wave(), None);
    w.record_survivors(0);
    assert_eq!(w.complete_wave(), Some(1));
    assert_eq!(w, WaveState { wave_number: 1, pending_count: 4, active_count: 0 });
    assert_eq!(w.complete_wave(), None);
    assert_eq!(w.wave_number, 1);
}

#[test]
fn no_spawn_without_pending_or_player() {
    let mut sim = Simulation::new(playfield(), true);
    assert_eq!(sim.spawn_enemy(), None);
    assert_eq!(sim.waves.pending_count, 1);
    sim.respawn_player();
    sim.waves.pending_count = 0;
    for _ in 0..3 {
        assert_eq!(sim.spawn_enemy(), None);
    }
    assert!(sim.store.enemies.is_empty());
    assert_eq!(sim.waves.pending_count, 0);
    assert_eq!(sim.waves.active_count, 0);
}

#[test]
fn overlapping_projectiles_add_up() {
    let mut store = EntityStore::new();
    store.spawn_enemy(Point::origin(), Point::new(ONE, 0));
    store.spawn_projectile(Point::new(7 * ONE, 0), Point::origin(), missile(), true, true);
    store.spawn_projectile(Point::new(0, -7 * ONE), Point::origin(), missile(), true, true);
    store.spawn_projectile(Point::new(8 * ONE, 0), Point::origin(), missile(), true, true);
    store.resolve_collisions();
    assert_eq!(store.enemies[0].health, ONE - 2 * ONE);
    store.resolve_collisions();
    assert_eq!(store.enemies[0].health, -3 * ONE);
}

#[test]
fn overlap_edge_is_exclusive() {
    assert!(boxes_overlap(Point::origin(), Point::new(HIT_BOX - 1, HIT_BOX - 1)));
    assert!(!boxes_overlap(Point::origin(), Point::new(HIT_BOX, 0)));
    assert!(!boxes_overlap(Point::new(0, -HIT_BOX), Point::origin()));
}

#[test]
fn non_piercing_projectile_is_spent() {
    let mut sim = Simulation::new(playfield(), false);
    sim.respawn_player();
    sim.store.spawn_enemy(Point::new(100 * ONE, 0), Point::origin());
    sim.waves.active_count = 1;
    sim.store.spawn_projectile(Point::new(100 * ONE, 0), Point::origin(), missile(), true, false);
    sim.store.spawn_projectile(Point::new(-100 * ONE, 0), Point::origin(), missile(), true, false);
    sim.apply_spell_effects();
    assert_eq!(sim.store.projectiles.len(), 1);
    assert_eq!(sim.store.projectiles[0].pos, Point::new(-100 * ONE, 0));
}

#[test]
fn dead_entities_are_gone_after_frame() {
    let mut sim = Simulation::new(playfield(), true);
    sim.respawn_player();
    sim.store.spawn_enemy(Point::new(50 * ONE, 50 * ONE), Point::origin());
    sim.store.spawn_enemy(Point::new(-50 * ONE, 50 * ONE), Point::origin());
    sim.waves.active_count = 2;
    sim.store.spawn_projectile(Point::new(50 * ONE, 50 * ONE), Point::origin(), missile(), true, true);
    sim.frame_tick(0);
    assert_eq!(sim.store.enemies.len(), 1);
    assert_eq!(sim.store.enemies[0].pos, Point::new(-50 * ONE, 50 * ONE));
    assert_eq!(sim.waves.active_count, 1);
    sim.store.player.as_mut().unwrap().health = 0;
    sim.frame_tick(0);
    assert!(sim.store.player.is_none());
}

#[test]
fn projectile_leaving_playfield_is_gone() {
    let mut sim = Simulation::new(playfield(), true);
    sim.respawn_player();
    sim.store.spawn_projectile(Point::new(470 * ONE, 0), Point::new(20 * ONE, 0), missile(), true, true);
    sim.store.spawn_projectile(Point::new(470 * ONE, 0), Point::new(20 * ONE, 0), missile(), false, true);
    sim.frame_tick(250_000);
    assert_eq!(sim.store.projectiles.len(), 2);
    assert_eq!(sim.store.projectiles[0].pos, Point::new(475 * ONE, 0));
    sim.frame_tick(250_000);
    // exactly on the right edge: still inside the closed playfield
    assert_eq!(sim.store.projectiles.len(), 2);
    assert_eq!(sim.store.projectiles[0].pos, Point::new(480 * ONE, 0));
    sim.frame_tick(1);
    assert_eq!(sim.store.projectiles.len(), 1);
    assert!(!sim.store.projectiles[0].destroy_on_oob);
    assert_eq!(sim.store.projectiles[0].pos, Point::new(480 * ONE + 20, 0));
}

#[test]
fn shake_settles_to_zero() {
    let mut s = ScreenShake::new();
    s.magnitude = 20 * ONE as u64;
    let mut last = s.magnitude;
    let mut ticks = 0;
    while s.magnitude > 0 {
        s.apply_screen_shake();
        assert!(s.magnitude < last);
        last = s.magnitude;
        ticks += 1;
        assert!(ticks <= 20 * ONE);
    }
    assert_eq!(ticks, 41);
    s.apply_screen_shake();
    assert_eq!(s.magnitude, 0);
}

#[test]
fn shake_camera_closes_in_on_target() {
    let mut s = ScreenShake::new();
    s.magnitude = 4 * ONE as u64;
    s.target_offset = Point::new(10 * ONE, -10 * ONE);
    // draw 0: |d|^2 > 0, so the target is kept
    s.step_with(0, 0, 0);
    assert_eq!(s.camera_offset, Point::new(9 * ONE, -9 * ONE));
    assert_eq!(s.target_offset, Point::new(10 * ONE, -10 * ONE));
}

#[test]
fn shake_retargets_within_log_reach() {
    let mut s = ScreenShake::new();
    s.magnitude = 20 * ONE as u64;
    // camera on target: any draw retargets; reach is log2(20) = 4.32191... units
    s.step_with(1, 0, 750_000);
    assert_eq!(s.target_offset, Point::new(-4_321_914, 2_160_957));
    let mut m3 = ScreenShake::new();
    m3.magnitude = 3 * ONE as u64;
    m3.step_with(1, 0, 0);
    assert_eq!(m3.target_offset, Point::new(-1_584_960, -1_584_960));
    let mut m15 = ScreenShake::new();
    m15.magnitude = 3 * ONE as u64 / 2;
    m15.step_with(1, 0, 0);
    assert_eq!(m15.target_offset, Point::new(-584_960, -584_960));
    let mut t = ScreenShake::new();
    t.magnitude = ONE as u64 / 2;
    t.step_with(1, 0, 999_999);
    assert_eq!(t.target_offset, Point::origin());
}

#[test]
fn cast_spawns_missile_and_kicks_shake() {
    let mut sim = Simulation::new(playfield(), true);
    assert_eq!(sim.cast_magic_missile(Point::new(ONE, 0)), None);
    sim.respawn_player();
    let id = sim.cast_magic_missile(Point::new(0, 10 * ONE));
    assert!(id.is_some());
    let p = sim.store.projectiles[0];
    assert_eq!(Some(p.id), id);
    assert_eq!(p.pos, Point::origin());
    assert_eq!(p.vel, Point::new(0, MAGIC_MISSILE_SPEED));
    assert_eq!(p.effect.base_damage, MAGIC_MISSILE_DAMAGE);
    assert!(p.destroy_on_oob);
    assert!(p.piercing);
    assert_eq!(sim.shake.magnitude, SHAKE_PER_CAST);
    assert_eq!(SHAKE_PER_CAST, 20 * ONE as u64);
}

#[test]
fn heading_formula() {
    assert_eq!(heading_toward(Point::origin(), Point::new(3 * ONE, 4 * ONE), 6 * ONE), Point::new(3_600_000, 4_800_000));
    assert_eq!(heading_toward(Point::origin(), Point::origin(), 6 * ONE), Point::origin());
    assert_eq!(heading_toward(Point::origin(), Point::new(-1, 1), 10), Point::new(-7, 7));
    assert_eq!(heading_toward(Point::origin(), Point::new(1, 2), 1000), Point::new(447, 894));
}

#[test]
fn square_root_floor() {
    assert_eq!(isqrt(0), 0);
    assert_eq!(isqrt(24), 4);
    assert_eq!(isqrt(25), 5);
    assert_eq!(isqrt(u128::MAX), u64::MAX);
}

#[test]
fn movement_formula() {
    let p = move_point(Point::new(ONE, ONE), Point::new(ONE, -2 * ONE), 500_000);
    assert_eq!(p, Point::new(ONE + ONE / 2, 0));
    let q = move_point(Point::new(0, 0), Point::new(-3, 0), 500_000);
    assert_eq!(q, Point::new(-1, 0));
}

#[test]
fn bounds_are_closed() {
    let b = playfield();
    assert!(b.contains(Point::origin()));
    assert!(b.contains(Point::new(480 * ONE, 0)));
    assert!(b.contains(Point::new(-480 * ONE, -270 * ONE)));
    assert!(!b.contains(Point::new(480 * ONE + 1, 0)));
    assert!(!b.contains(Point::new(0, -270 * ONE - 1)));
}

#[test]
fn level_layout_is_mirrored() {
    let level = Level { needs_regeneration: true, width: 4, height: 2, tile_width: 16, tile_height: 16 };
    let tiles = level.layout_with(&vec![7, 12]);
    assert_eq!(tiles.len(), 8);
    assert_eq!(tiles[0].tile_id, 2);
    assert_eq!(tiles[4].tile_id, 1);
    assert_eq!(tiles[5].pos, Point::new(-16 * ONE, 0));
    assert_eq!(tiles[4].pos, Point::new(16 * ONE, 0));
    assert_eq!(tiles[0].pos, Point::origin());
}

#[test]
fn level_regenerates_once() {
    let mut level = Level::new();
    let tiles = level.regenerate_level().unwrap();
    assert_eq!(tiles.len(), 4 * 25 * 25);
    assert!(tiles.iter().all(|t| 1 <= t.tile_id && t.tile_id <= 6));
    assert!(level.regenerate_level().is_none());
}

#[test]
fn spawn_positions_are_drawn() {
    let b = playfield();
    let mut sim = Simulation::new(b, true);
    sim.respawn_player();
    sim.waves.pending_count = 8;
    for _ in 0..8 {
        sim.spawn_enemy();
    }
    assert_eq!(sim.store.enemies.len(), 8);
    assert!(sim.store.enemies.iter().any(|e| e.pos.x != b.left));
    assert!(sim.store.enemies.iter().any(|e| e.pos.y != b.bottom));
}
