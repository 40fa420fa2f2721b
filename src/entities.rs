//! The entity store: the player, the enemies and the projectiles, each with a
//! stable identifier that is never handed out twice.
use vstd::prelude::*;
use crate::geometry::{heading, heading_toward, move_point, moved, Point, ONE};
use crate::random::random_in;

verus! {

/// Health of a freshly spawned enemy (1 world unit).
pub const ENEMY_HEALTH: i64 = 1_000_000;

/// Speed of an enemy, in steps per second (6 world units).
pub const ENEMY_SPEED: i64 = 6_000_000;

/// Health of a freshly spawned player (10 world units).
pub const PLAYER_HEALTH: i64 = 10_000_000;

/// Number of player appearances to pick from.
pub const PLAYER_FACES: u32 = 10;

/// What a projectile does to an enemy it touches.
#[derive(Clone, Copy, Debug, PartialEq, Eq, Structural)]
pub struct SpellEffect {
    /// Health removed from each overlapping enemy per collision pass, in steps.
    pub base_damage: u32,
    pub element_type: usize,
}

#[derive(Clone, Copy, Debug, PartialEq, Eq, Structural)]
pub struct Player {
    pub id: u64,
    pub pos: Point,
    pub health: i64,
    /// Which of the `PLAYER_FACES` appearances the player wears.
    pub face: u32,
}

#[derive(Clone, Copy, Debug, PartialEq, Eq, Structural)]
pub struct Enemy {
    pub id: u64,
    pub pos: Point,
    pub vel: Point,
    pub health: i64,
}

#[derive(Clone, Copy, Debug, PartialEq, Eq, Structural)]
pub struct Projectile {
    pub id: u64,
    pub pos: Point,
    pub vel: Point,
    pub effect: SpellEffect,
    /// Retired as soon as it leaves the closed playfield rectangle.
    pub destroy_on_oob: bool,
    /// Survives its hits; a non-piercing projectile is retired after the
    /// collision pass in which it touched an enemy.
    pub piercing: bool,
}

/// Every live entity of the simulation. Identifiers come from `next_id`, which
/// only grows, so a retired identifier is never reused.
pub struct EntityStore {
    pub player: Option<Player>,
    pub enemies: Vec<Enemy>,
    pub projectiles: Vec<Projectile>,
    pub next_id: u64,
}

/// The enemy that a spawn at `pos` aimed at `target` creates.
pub open spec fn fresh_enemy(id: u64, pos: Point, target: Point) -> Enemy {
    Enemy { id, pos, vel: heading(pos, target, ENEMY_SPEED as int), health: ENEMY_HEALTH }
}

/// The player that a respawn creates.
pub open spec fn fresh_player(id: u64, face: u32) -> Player {
    Player { id, pos: Point { x: 0, y: 0 }, health: PLAYER_HEALTH, face }
}

pub open spec fn enemy_moved(e: Enemy, dt: int) -> Enemy {
    Enemy { pos: moved(e.pos, e.vel, dt), ..e }
}

pub open spec fn projectile_moved(p: Projectile, dt: int) -> Projectile {
    Projectile { pos: moved(p.pos, p.vel, dt), ..p }
}

impl EntityStore {
    /// Number of live entities.
    pub open spec fn population(self) -> int {
        self.enemies@.len() + self.projectiles@.len() + if self.player.is_some() { 1int } else { 0int }
    }

    pub open spec fn wf(self) -> bool {
        &&& self.population() <= self.next_id
        &&& forall|i: int|
            0 <= i < self.enemies@.len() ==> #[trigger] self.enemies@[i].id < self.next_id
                && self.enemies@[i].pos.in_world()
        &&& forall|i: int|
            0 <= i < self.projectiles@.len() ==> #[trigger] self.projectiles@[i].id < self.next_id
                && self.projectiles@[i].pos.in_world()
        &&& self.player.is_some() ==> self.player.unwrap().id < self.next_id
            && self.player.unwrap().pos.in_world()
    }

    /// An empty store.
    pub fn new() -> (r: EntityStore)
        ensures
            r.wf(),
            r.player.is_none(),
            r.enemies@.len() == 0,
            r.projectiles@.len() == 0,
            r.next_id == 0,
    {
        EntityStore { player: None, enemies: Vec::new(), projectiles: Vec::new(), next_id: 0 }
    }

    pub fn has_player(&self) -> (r: bool)
        ensures
            r == self.player.is_some(),
    {
        self.player.is_some()
    }

    /// Whether another entity can still get an identifier of its own.
    pub fn has_free_id(&self) -> (r: bool)
        ensures
            r == (self.next_id < u64::MAX),
    {
        self.next_id < u64::MAX
    }

    /// Inserts an enemy at `pos`, heading for `target` at `ENEMY_SPEED`, with
    /// `ENEMY_HEALTH`; returns its identifier.
    pub fn spawn_enemy(&mut self, pos: Point, target: Point) -> (id: u64)
        requires
            old(self).wf(),
            old(self).next_id < u64::MAX,
            pos.in_world(),
            target.in_world(),
        ensures
            final(self).wf(),
            id == old(self).next_id,
            final(self).next_id == old(self).next_id + 1,
            final(self).enemies@ == old(self).enemies@.push(fresh_enemy(id, pos, target)),
            final(self).projectiles@ == old(self).projectiles@,
            final(self).player == old(self).player,
    {
        let id: u64 = self.next_id;
        let vel: Point = heading_toward(pos, target, ENEMY_SPEED);
        self.enemies.push(Enemy { id, pos, vel, health: ENEMY_HEALTH });
        self.next_id = id + 1;
        proof {
            assert forall|i: int| 0 <= i < self.enemies@.len() implies #[trigger] self.enemies@[i].id < self.next_id
                && self.enemies@[i].pos.in_world() by {
                if i < old(self).enemies@.len() {
                    assert(self.enemies@[i] == old(self).enemies@[i]);
                }
            }
        }
        id
    }

    /// Inserts a projectile; returns its identifier.
    pub fn spawn_projectile(
        &mut self,
        pos: Point,
        vel: Point,
        effect: SpellEffect,
        destroy_on_oob: bool,
        piercing: bool,
    ) -> (id: u64)
        requires
            old(self).wf(),
            old(self).next_id < u64::MAX,
            pos.in_world(),
        ensures
            final(self).wf(),
            id == old(self).next_id,
            final(self).next_id == old(self).next_id + 1,
            final(self).projectiles@ == old(self).projectiles@.push(
                Projectile { id, pos, vel, effect, destroy_on_oob, piercing },
            ),
            final(self).enemies@ == old(self).enemies@,
            final(self).player == old(self).player,
    {
        let id: u64 = self.next_id;
        self.projectiles.push(Projectile { id, pos, vel, effect, destroy_on_oob, piercing });
        self.next_id = id + 1;
        proof {
            assert forall|i: int| 0 <= i < self.projectiles@.len() implies #[trigger] self.projectiles@[i].id < self.next_id
                && self.projectiles@[i].pos.in_world() by {
                if i < old(self).projectiles@.len() {
                    assert(self.projectiles@[i] == old(self).projectiles@[i]);
                }
            }
        }
        id
    }

    /// When no player is alive, inserts one at the origin with `PLAYER_HEALTH`
    /// wearing `face`, and returns its identifier; otherwise changes nothing.
    pub fn respawn_player_with(&mut self, face: u32) -> (r: Option<u64>)
        requires
            old(self).wf(),
            old(self).next_id < u64::MAX,
        ensures
            final(self).wf(),
            final(self).enemies@ == old(self).enemies@,
            final(self).projectiles@ == old(self).projectiles@,
            old(self).player.is_some() ==> r.is_none() && final(self).player == old(self).player
                && final(self).next_id == old(self).next_id,
            old(self).player.is_none() ==> r == Some(old(self).next_id)
                && final(self).next_id == old(self).next_id + 1
                && final(self).player == Some(fresh_player(old(self).next_id, face)),
    {
        if self.player.is_some() {
            return None;
        }
        let id: u64 = self.next_id;
        self.player = Some(Player { id, pos: Point::origin(), health: PLAYER_HEALTH, face });
        self.next_id = id + 1;
        Some(id)
    }

    /// When no player is alive, inserts one at the origin with a face drawn
    /// uniformly from `0..PLAYER_FACES`; otherwise changes nothing.
    pub fn respawn_player(&mut self) -> (r: Option<u64>)
        requires
            old(self).wf(),
            old(self).next_id < u64::MAX,
        ensures
            final(self).wf(),
            final(self).enemies@ == old(self).enemies@,
            final(self).projectiles@ == old(self).projectiles@,
            old(self).player.is_some() ==> r.is_none() && final(self).player == old(self).player
                && final(self).next_id == old(self).next_id,
            old(self).player.is_none() ==> r == Some(old(self).next_id)
                && final(self).next_id == old(self).next_id + 1
                && final(self).player.is_some()
                && final(self).player.unwrap() == fresh_player(old(self).next_id, final(self).player.unwrap().face)
                && final(self).player.unwrap().face < PLAYER_FACES,
    {
        if self.player.is_some() {
            return None;
        }
        let face: i64 = random_in(0, PLAYER_FACES as i64);
        self.respawn_player_with(face as u32)
    }

    /// Moves every enemy and projectile along its velocity for `dt` microseconds.
    pub fn integrate(&mut self, dt: u32)
        requires
            old(self).wf(),
        ensures
            final(self).wf(),
            final(self).next_id == old(self).next_id,
            final(self).player == old(self).player,
            final(self).enemies@ == old(self).enemies@.map_values(|e: Enemy| enemy_moved(e, dt as int)),
            final(self).projectiles@ == old(self).projectiles@.map_values(
                |p: Projectile| projectile_moved(p, dt as int),
            ),
    {
        let mut enemies: Vec<Enemy> = Vec::new();
        let mut i: usize = 0;
        while i < self.enemies.len()
            invariant
                i <= self.enemies@.len(),
                enemies@.len() == i,
                forall|j: int| 0 <= j < i ==> #[trigger] enemies@[j] == enemy_moved(self.enemies@[j], dt as int),
            decreases self.enemies@.len() - i,
        {
            let e: Enemy = self.enemies[i];
            enemies.push(Enemy { pos: move_point(e.pos, e.vel, dt), ..e });
            i = i + 1;
        }
        let mut projectiles: Vec<Projectile> = Vec::new();
        let mut k: usize = 0;
        while k < self.projectiles.len()
            invariant
                k <= self.projectiles@.len(),
                projectiles@.len() == k,
                forall|j: int| 0 <= j < k ==> #[trigger] projectiles@[j] == projectile_moved(self.projectiles@[j], dt as int),
            decreases self.projectiles@.len() - k,
        {
            let p: Projectile = self.projectiles[k];
            projectiles.push(Projectile { pos: move_point(p.pos, p.vel, dt), ..p });
            k = k + 1;
        }
        assert(enemies@ =~= self.enemies@.map_values(|e: Enemy| enemy_moved(e, dt as int)));
        assert(projectiles@ =~= self.projectiles@.map_values(|p: Projectile| projectile_moved(p, dt as int)));
        self.enemies = enemies;
        self.projectiles = projectiles;
    }
}

} // verus!
