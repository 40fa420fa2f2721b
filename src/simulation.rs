//! The simulation context and its tick functions. Per frame the host casts
//! spells, runs [`Simulation::frame_tick`] (movement, collisions, death and
//! bounds sweeps) and the camera shake; on fixed cadences it respawns the
//! player and spawns enemies (every unit of time) and completes waves (every
//! three).
use vstd::prelude::*;
use crate::combat::{enemy_hit, is_alive, keeps_going, player_survivor, stays_in_play, touches_enemy};
use crate::entities::{
    enemy_moved, fresh_enemy, fresh_player, projectile_moved, Enemy, EntityStore, Projectile, SpellEffect, PLAYER_FACES,
};
use crate::geometry::{heading, heading_toward, overlaps, Bounds, Point, ONE};
use crate::random::random_in;
use crate::shake::{after_shake_tick, ScreenShake, SHAKE_PER_CAST};
use crate::wave::{after_completion_tick, after_recount, after_spawn_tick, WaveState};

verus! {

/// Speed of a magic missile, in steps per second (100 world units).
pub const MAGIC_MISSILE_SPEED: i64 = 100_000_000;

/// Damage of a magic missile (1 world unit of health).
pub const MAGIC_MISSILE_DAMAGE: u32 = 1_000_000;

/// Element of a magic missile.
pub const MAGIC_MISSILE_ELEMENT: usize = 0;

/// Everything the simulation owns: the entities, the wave counters, the camera
/// shake, the playfield and whether magic missiles pierce (survive their hits).
pub struct Simulation {
    pub store: EntityStore,
    pub waves: WaveState,
    pub shake: ScreenShake,
    pub bounds: Bounds,
    pub piercing_missiles: bool,
}

/// The projectile that a cast from `from` toward `target` creates.
pub open spec fn magic_missile(id: u64, from: Point, target: Point, piercing: bool) -> Projectile {
    Projectile {
        id,
        pos: from,
        vel: heading(from, target, MAGIC_MISSILE_SPEED as int),
        effect: SpellEffect { base_damage: MAGIC_MISSILE_DAMAGE, element_type: MAGIC_MISSILE_ELEMENT },
        destroy_on_oob: true,
        piercing,
    }
}

/// `e` is the enemy with identifier `id` spawned somewhere in `b`, aimed at `target`.
pub open spec fn spawned_in(e: Enemy, id: u64, b: Bounds, target: Point) -> bool {
    &&& b.left <= e.pos.x < b.right
    &&& b.bottom <= e.pos.y < b.top
    &&& e == fresh_enemy(id, e.pos, target)
}

/// Damage leaves positions alone, so a projectile touches the same enemies before
/// and after a collision pass.
proof fn lemma_hits_keep_positions(es: Seq<Enemy>, ps: Seq<Projectile>)
    ensures
        (|p: Projectile| keeps_going(es.map_values(|e: Enemy| enemy_hit(e, ps)), p)) =~= (|p: Projectile|
            keeps_going(es, p)),
{
    let hit = es.map_values(|e: Enemy| enemy_hit(e, ps));
    assert forall|p: Projectile| keeps_going(hit, p) == keeps_going(es, p) by {
        if touches_enemy(p.pos, es) {
            let i = choose|i: int| 0 <= i < es.len() && overlaps(#[trigger] es[i].pos, p.pos);
            assert(hit[i].pos == es[i].pos);
        }
        if touches_enemy(p.pos, hit) {
            let i = choose|i: int| 0 <= i < hit.len() && overlaps(#[trigger] hit[i].pos, p.pos);
            assert(hit[i].pos == es[i].pos);
        }
    }
}

impl Simulation {
    pub open spec fn wf(self) -> bool {
        &&& self.store.wf()
        &&& self.shake.wf()
        &&& self.bounds.wf()
        &&& self.waves.active_count == self.store.enemies@.len()
    }

    /// Nothing but the playfield: no entities, wave 0 with one enemy pending, a
    /// settled shake with decay 1.5; magic missiles pierce when `piercing`.
    pub fn new(bounds: Bounds, piercing: bool) -> (r: Simulation)
        requires
            bounds.wf(),
        ensures
            r.wf(),
            r.bounds == bounds,
            r.piercing_missiles == piercing,
            r.store.player.is_none(),
            r.store.enemies@.len() == 0,
            r.store.projectiles@.len() == 0,
            r.store.next_id == 0,
            r.waves == (WaveState { wave_number: 0, pending_count: 1, active_count: 0 }),
            r.shake == ScreenShake::new_spec(),
    {
        Simulation {
            store: EntityStore::new(),
            waves: WaveState::new(),
            shake: ScreenShake::new(),
            bounds,
            piercing_missiles: piercing,
        }
    }

    /// Spawn cadence, player: brings a player back at the origin when none is alive.
    pub fn respawn_player(&mut self) -> (r: Option<u64>)
        requires
            old(self).wf(),
            old(self).store.next_id < u64::MAX,
        ensures
            final(self).wf(),
            final(self).waves == old(self).waves,
            final(self).shake == old(self).shake,
            final(self).bounds == old(self).bounds,
            final(self).piercing_missiles == old(self).piercing_missiles,
            final(self).store.enemies@ == old(self).store.enemies@,
            final(self).store.projectiles@ == old(self).store.projectiles@,
            old(self).store.player.is_some() ==> r.is_none() && final(self).store.player
                == old(self).store.player,
            old(self).store.player.is_some() ==> final(self).store.next_id == old(self).store.next_id,
            old(self).store.player.is_none() ==> r == Some(old(self).store.next_id)
                && final(self).store.next_id == old(self).store.next_id + 1
                && final(self).store.player.is_some()
                && final(self).store.player.unwrap() == fresh_player(old(self).store.next_id, final(self).store.player.unwrap().face)
                && final(self).store.player.unwrap().face < PLAYER_FACES,
    {
        self.store.respawn_player()
    }

    /// Spawn cadence, enemies, with the spawn position given: when a player is
    /// alive and enemies are pending, one enemy appears at `pos` heading for the
    /// player, and moves from pending to active. Otherwise nothing changes.
    pub fn spawn_enemy_at(&mut self, pos: Point) -> (r: Option<u64>)
        requires
            old(self).wf(),
            old(self).store.next_id < u64::MAX,
            pos.in_world(),
        ensures
            final(self).wf(),
            final(self).shake == old(self).shake,
            final(self).bounds == old(self).bounds,
            final(self).piercing_missiles == old(self).piercing_missiles,
            final(self).waves@ == after_spawn_tick(old(self).waves@, old(self).store.player.is_some()),
            final(self).store.player == old(self).store.player,
            final(self).store.projectiles@ == old(self).store.projectiles@,
            old(self).store.player.is_some() && old(self).waves.pending_count > 0 ==> r == Some(
                old(self).store.next_id,
            ) && final(self).store.next_id == old(self).store.next_id + 1
                && final(self).store.enemies@ == old(self).store.enemies@.push(
                fresh_enemy(old(self).store.next_id, pos, old(self).store.player.unwrap().pos),
            ),
            !(old(self).store.player.is_some() && old(self).waves.pending_count > 0) ==> r.is_none()
                && final(self).store.next_id == old(self).store.next_id
                && final(self).store.enemies@ == old(self).store.enemies@,
    {
        let target: Point = match &self.store.player {
            Some(p) => p.pos,
            None => {
                return None;
            },
        };
        if self.waves.pending_count == 0 {
            return None;
        }
        let id: u64 = self.store.spawn_enemy(pos, target);
        self.waves.spawn_tick(true);
        Some(id)
    }

    /// Spawn cadence, enemies: as [`Simulation::spawn_enemy_at`], at a position drawn
    /// uniformly from the playfield.
    pub fn spawn_enemy(&mut self) -> (r: Option<u64>)
        requires
            old(self).wf(),
            old(self).store.next_id < u64::MAX,
        ensures
            final(self).wf(),
            final(self).shake == old(self).shake,
            final(self).bounds == old(self).bounds,
            final(self).piercing_missiles == old(self).piercing_missiles,
            final(self).waves@ == after_spawn_tick(old(self).waves@, old(self).store.player.is_some()),
            final(self).store.player == old(self).store.player,
            final(self).store.projectiles@ == old(self).store.projectiles@,
            old(self).store.player.is_some() && old(self).waves.pending_count > 0 ==> r == Some(
                old(self).store.next_id,
            ) && final(self).store.next_id == old(self).store.next_id + 1
                && final(self).store.enemies@.len() == old(self).store.enemies@.len() + 1
                && final(self).store.enemies@.drop_last() == old(self).store.enemies@
                && spawned_in(final(self).store.enemies@.last(), old(self).store.next_id, old(self).bounds, old(self).store.player.unwrap().pos),
            !(old(self).store.player.is_some() && old(self).waves.pending_count > 0) ==> r.is_none()
                && final(self).store.next_id == old(self).store.next_id
                && final(self).store.enemies@ == old(self).store.enemies@,
    {
        if self.store.player.is_none() || self.waves.pending_count == 0 {
            return None;
        }
        let x: i64 = random_in(self.bounds.left, self.bounds.right);
        let y: i64 = random_in(self.bounds.bottom, self.bounds.top);
        let r: Option<u64> = self.spawn_enemy_at(Point { x, y });
        assert(self.store.enemies@.drop_last() =~= old(self).store.enemies@);
        r
    }

    /// Wave cadence: when nothing is pending and no enemy is alive, the next wave
    /// starts; returns its number then.
    pub fn complete_wave(&mut self) -> (r: Option<u32>)
        requires
            old(self).wf(),
            old(self).waves.wave_number < u32::MAX,
        ensures
            final(self).wf(),
            final(self).waves@ == after_completion_tick(old(self).waves@),
            r == (if old(self).waves.pending_count == 0 && old(self).waves.active_count == 0 {
                Some(final(self).waves.wave_number)
            } else {
                None::<u32>
            }),
            final(self).store.player == old(self).store.player,
            final(self).store.enemies@ == old(self).store.enemies@,
            final(self).store.projectiles@ == old(self).store.projectiles@,
            final(self).store.next_id == old(self).store.next_id,
            final(self).shake == old(self).shake,
            final(self).bounds == old(self).bounds,
            final(self).piercing_missiles == old(self).piercing_missiles,
    {
        self.waves.complete_wave()
    }

    /// Moves every enemy and projectile for `dt` microseconds.
    pub fn movement(&mut self, dt: u32)
        requires
            old(self).wf(),
        ensures
            final(self).wf(),
            final(self).store.enemies@ == old(self).store.enemies@.map_values(|e: Enemy| enemy_moved(e, dt as int)),
            final(self).store.projectiles@ == old(self).store.projectiles@.map_values(
                |p: Projectile| projectile_moved(p, dt as int),
            ),
            final(self).store.player == old(self).store.player,
            final(self).store.next_id == old(self).store.next_id,
            final(self).waves == old(self).waves,
            final(self).shake == old(self).shake,
            final(self).bounds == old(self).bounds,
            final(self).piercing_missiles == old(self).piercing_missiles,
    {
        self.store.integrate(dt);
    }

    /// Collision pass: every projectile damages every enemy it overlaps once;
    /// then non-piercing projectiles that touched an enemy are retired.
    pub fn apply_spell_effects(&mut self)
        requires
            old(self).wf(),
        ensures
            final(self).wf(),
            final(self).store.enemies@ == old(self).store.enemies@.map_values(
                |e: Enemy| enemy_hit(e, old(self).store.projectiles@),
            ),
            final(self).store.projectiles@ == old(self).store.projectiles@.filter(
                |p: Projectile| keeps_going(old(self).store.enemies@, p),
            ),
            final(self).store.player == old(self).store.player,
            final(self).store.next_id == old(self).store.next_id,
            final(self).waves == old(self).waves,
            final(self).shake == old(self).shake,
            final(self).bounds == old(self).bounds,
            final(self).piercing_missiles == old(self).piercing_missiles,
    {
        self.store.resolve_collisions();
        proof {
            lemma_hits_keep_positions(old(self).store.enemies@, old(self).store.projectiles@);
        }
        self.store.retire_spent_projectiles();
    }

    /// Death sweep: retires dead enemies (and a dead player) and sets the active
    /// count to the number of surviving enemies, which it returns.
    pub fn count_and_remove_dead_enemies(&mut self) -> (live: usize)
        requires
            old(self).wf(),
        ensures
            final(self).wf(),
            final(self).store.enemies@ == old(self).store.enemies@.filter(|e: Enemy| is_alive(e)),
            final(self).store.player == player_survivor(old(self).store.player),
            final(self).store.projectiles@ == old(self).store.projectiles@,
            final(self).store.next_id == old(self).store.next_id,
            live == final(self).store.enemies@.len(),
            final(self).waves@ == after_recount(old(self).waves@, live as int),
            final(self).shake == old(self).shake,
            final(self).bounds == old(self).bounds,
            final(self).piercing_missiles == old(self).piercing_missiles,
    {
        let live: usize = self.store.remove_dead();
        self.waves.record_survivors(live as u64);
        live
    }

    /// Bounds sweep: retires every projectile marked for it that is no longer
    /// inside the closed playfield rectangle.
    pub fn clean_oob_components(&mut self)
        requires
            old(self).wf(),
        ensures
            final(self).wf(),
            final(self).store.projectiles@ == old(self).store.projectiles@.filter(
                |p: Projectile| stays_in_play(old(self).bounds, p),
            ),
            final(self).store.enemies@ == old(self).store.enemies@,
            final(self).store.player == old(self).store.player,
            final(self).store.next_id == old(self).store.next_id,
            final(self).waves == old(self).waves,
            final(self).shake == old(self).shake,
            final(self).bounds == old(self).bounds,
            final(self).piercing_missiles == old(self).piercing_missiles,
    {
        let bounds: Bounds = self.bounds;
        self.store.remove_out_of_bounds(&bounds);
    }

    /// One frame of `dt` microseconds: movement, the collision pass, the death
    /// sweep (with the recount) and the bounds sweep. Afterwards no enemy or player
    /// is dead and no marked projectile is outside the playfield.
    pub fn frame_tick(&mut self, dt: u32)
        requires
            old(self).wf(),
        ensures
            final(self).wf(),
            final(self).store.enemies@ == frame_enemies(old(self).store.enemies@, old(self).store.projectiles@, dt as int),
            final(self).store.projectiles@ == frame_projectiles(
                old(self).store.enemies@,
                old(self).store.projectiles@,
                old(self).bounds,
                dt as int,
            ),
            final(self).store.player == player_survivor(old(self).store.player),
            final(self).store.next_id == old(self).store.next_id,
            final(self).waves@ == after_recount(old(self).waves@, final(self).store.enemies@.len() as int),
            final(self).shake == old(self).shake,
            final(self).bounds == old(self).bounds,
            final(self).piercing_missiles == old(self).piercing_missiles,
            forall|i: int| 0 <= i < final(self).store.enemies@.len() ==> #[trigger] final(self).store.enemies@[i].health > 0,
            final(self).store.player.is_some() ==> final(self).store.player.unwrap().health > 0,
            forall|i: int|
                0 <= i < final(self).store.projectiles@.len() ==> #[trigger] stays_in_play(
                    old(self).bounds,
                    final(self).store.projectiles@[i],
                ),
    {
        self.movement(dt);
        self.apply_spell_effects();
        self.count_and_remove_dead_enemies();
        self.clean_oob_components();
    }

    /// Casts a magic missile from the player toward `target`: a projectile with
    /// `MAGIC_MISSILE_DAMAGE`, marked for the bounds sweep, and the shake grows by
    /// `SHAKE_PER_CAST`. Without a player nothing happens.
    pub fn cast_magic_missile(&mut self, target: Point) -> (r: Option<u64>)
        requires
            old(self).wf(),
            old(self).store.next_id < u64::MAX,
            target.in_world(),
        ensures
            final(self).wf(),
            final(self).store.enemies@ == old(self).store.enemies@,
            final(self).store.player == old(self).store.player,
            final(self).waves == old(self).waves,
            final(self).bounds == old(self).bounds,
            final(self).piercing_missiles == old(self).piercing_missiles,
            old(self).store.player.is_none() ==> r.is_none() && final(self).store.next_id
                == old(self).store.next_id && final(self).store.projectiles@ == old(
                self,
            ).store.projectiles@ && final(self).shake == old(self).shake,
            old(self).store.player.is_some() ==> r == Some(old(self).store.next_id)
                && final(self).store.next_id == old(self).store.next_id + 1
                && final(self).store.projectiles@ == old(self).store.projectiles@.push(
                magic_missile(
                    old(self).store.next_id,
                    old(self).store.player.unwrap().pos,
                    target,
                    old(self).piercing_missiles,
                ),
            ) && final(self).shake.magnitude == (if old(self).shake.magnitude + SHAKE_PER_CAST > u64::MAX {
                u64::MAX as int
            } else {
                old(self).shake.magnitude + SHAKE_PER_CAST
            }) && final(self).shake.decay_num == old(self).shake.decay_num
                && final(self).shake.decay_den == old(self).shake.decay_den
                && final(self).shake.target_offset == old(self).shake.target_offset
                && final(self).shake.camera_offset == old(self).shake.camera_offset,
    {
        let from: Point = match &self.store.player {
            Some(p) => p.pos,
            None => {
                return None;
            },
        };
        let vel: Point = heading_toward(from, target, MAGIC_MISSILE_SPEED);
        let effect: SpellEffect = SpellEffect {
            base_damage: MAGIC_MISSILE_DAMAGE,
            element_type: MAGIC_MISSILE_ELEMENT,
        };
        let id: u64 = self.store.spawn_projectile(from, vel, effect, true, self.piercing_missiles);
        self.shake.kick();
        Some(id)
    }

    /// One tick of the camera shake with fresh random draws.
    pub fn apply_screen_shake(&mut self)
        requires
            old(self).wf(),
        ensures
            final(self).wf(),
            (exists|k: int, x: int, y: int|
                0 <= k < ONE && 0 <= x < ONE && 0 <= y < ONE
                    && final(self).shake == after_shake_tick(old(self).shake, k, x, y)),
            final(self).store.enemies@ == old(self).store.enemies@,
            final(self).store.projectiles@ == old(self).store.projectiles@,
            final(self).store.player == old(self).store.player,
            final(self).store.next_id == old(self).store.next_id,
            final(self).waves == old(self).waves,
            final(self).bounds == old(self).bounds,
            final(self).piercing_missiles == old(self).piercing_missiles,
    {
        self.shake.apply_screen_shake();
    }
}

/// The enemies after one frame: moved, damaged by the moved projectiles, and
/// the dead ones retired.
pub open spec fn frame_enemies(es: Seq<Enemy>, ps: Seq<Projectile>, dt: int) -> Seq<Enemy> {
    let moved_ps = ps.map_values(|p: Projectile| projectile_moved(p, dt));
    es.map_values(|e: Enemy| enemy_moved(e, dt)).map_values(|e: Enemy| enemy_hit(e, moved_ps)).filter(
        |e: Enemy| is_alive(e),
    )
}

/// The projectiles after one frame: moved, the spent non-piercing ones retired,
/// then those outside `b` that are marked for it.
pub open spec fn frame_projectiles(es: Seq<Enemy>, ps: Seq<Projectile>, b: Bounds, dt: int) -> Seq<Projectile> {
    let moved_es = es.map_values(|e: Enemy| enemy_moved(e, dt));
    ps.map_values(|p: Projectile| projectile_moved(p, dt)).filter(|p: Projectile| keeps_going(moved_es, p)).filter(
        |p: Projectile| stays_in_play(b, p),
    )
}

/// A frame creates no enemy: every enemy left after it carries the identifier of
/// an enemy that was there before.
pub proof fn lemma_frame_creates_no_enemy(es: Seq<Enemy>, ps: Seq<Projectile>, dt: int, i: int)
    requires
        0 <= i < frame_enemies(es, ps, dt).len(),
    ensures
        exists|j: int| 0 <= j < es.len() && (#[trigger] es[j]).id == frame_enemies(es, ps, dt)[i].id,
{
    let moved_ps = ps.map_values(|p: Projectile| projectile_moved(p, dt));
    let hit = es.map_values(|e: Enemy| enemy_moved(e, dt)).map_values(|e: Enemy| enemy_hit(e, moved_ps));
    let kept = hit.filter(|e: Enemy| is_alive(e));
    assert(kept.contains(kept[i]));
    hit.lemma_filter_contains_rev(|e: Enemy| is_alive(e), kept[i]);
    let j = choose|j: int| 0 <= j < hit.len() && hit[j] == kept[i];
    assert(es[j].id == kept[i].id);
}

} // verus!
