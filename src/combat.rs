//! Collision damage and the retirement of dead, spent and out-of-bounds entities.
use vstd::prelude::*;
use crate::entities::{Enemy, EntityStore, Player, Projectile};
use crate::geometry::{boxes_overlap, overlaps, Bounds, Point};

verus! {

/// Damage that the projectiles `ps` deal in one pass to an enemy at `pos`: each
/// projectile whose hit-box overlaps the enemy's counts once.
pub open spec fn damage_at(pos: Point, ps: Seq<Projectile>) -> int
    decreases ps.len(),
{
    if ps.len() == 0 {
        0
    } else {
        damage_at(pos, ps.drop_last()) + if overlaps(pos, ps.last().pos) {
            ps.last().effect.base_damage as int
        } else {
            0
        }
    }
}

/// `health - damage`, held at `i64::MIN`.
pub open spec fn health_after(health: i64, damage: int) -> i64 {
    if health - damage < i64::MIN { i64::MIN } else { (health - damage) as i64 }
}

pub open spec fn enemy_hit(e: Enemy, ps: Seq<Projectile>) -> Enemy {
    Enemy { health: health_after(e.health, damage_at(e.pos, ps)), ..e }
}

/// Some enemy of `es` overlaps a hit-box at `pos`.
pub open spec fn touches_enemy(pos: Point, es: Seq<Enemy>) -> bool {
    exists|i: int| 0 <= i < es.len() && overlaps(#[trigger] es[i].pos, pos)
}

pub open spec fn is_alive(e: Enemy) -> bool {
    e.health > 0
}

pub open spec fn player_survivor(p: Option<Player>) -> Option<Player> {
    match p {
        Some(q) => if q.health > 0 { Some(q) } else { None },
        None => None,
    }
}

pub open spec fn stays_in_play(b: Bounds, p: Projectile) -> bool {
    !p.destroy_on_oob || b.holds(p.pos)
}

pub open spec fn keeps_going(es: Seq<Enemy>, p: Projectile) -> bool {
    p.piercing || !touches_enemy(p.pos, es)
}

proof fn lemma_filter_prefix<A>(s: Seq<A>, i: int, pred: spec_fn(A) -> bool)
    requires
        0 <= i < s.len(),
    ensures
        s.subrange(0, i + 1).filter(pred) == if pred(s[i]) {
            s.subrange(0, i).filter(pred).push(s[i])
        } else {
            s.subrange(0, i).filter(pred)
        },
{
    reveal(Seq::filter);
    assert(s.subrange(0, i + 1).drop_last() =~= s.subrange(0, i));
}

/// Damage dealt by `ps` to an enemy at `pos`, exactly.
fn damage_from(pos: Point, ps: &Vec<Projectile>) -> (r: i128)
    ensures
        r == damage_at(pos, ps@),
        0 <= r <= ps@.len() * 0xFFFF_FFFFint,
{
    let mut total: i128 = 0;
    let mut k: usize = 0;
    while k < ps.len()
        invariant
            k <= ps@.len(),
            total == damage_at(pos, ps@.subrange(0, k as int)),
            0 <= total <= k * 0xFFFF_FFFFint,
        decreases ps@.len() - k,
    {
        let p: Projectile = ps[k];
        assert(ps@.subrange(0, k + 1).drop_last() =~= ps@.subrange(0, k as int));
        if boxes_overlap(pos, p.pos) {
            assert(k * 0xFFFF_FFFFint <= 0xFFFF_FFFF_FFFF_FFFFint * 0xFFFF_FFFFint) by (nonlinear_arith)
                requires
                    k <= 0xFFFF_FFFF_FFFF_FFFFint,
            ;
            total = total + p.effect.base_damage as i128;
        }
        k = k + 1;
    }
    assert(ps@.subrange(0, ps@.len() as int) =~= ps@);
    total
}

/// Whether the hit-box at `pos` overlaps that of some enemy of `es`.
fn touches_any(pos: Point, es: &Vec<Enemy>) -> (r: bool)
    ensures
        r == touches_enemy(pos, es@),
{
    let mut i: usize = 0;
    while i < es.len()
        invariant
            i <= es@.len(),
            forall|j: int| 0 <= j < i ==> !overlaps(#[trigger] es@[j].pos, pos),
        decreases es@.len() - i,
    {
        if boxes_overlap(es[i].pos, pos) {
            return true;
        }
        i = i + 1;
    }
    false
}

impl EntityStore {
    /// Every projectile deals its damage once to every enemy whose hit-box it
    /// overlaps; several overlapping projectiles add up.
    pub fn resolve_collisions(&mut self)
        requires
            old(self).wf(),
        ensures
            final(self).wf(),
            final(self).next_id == old(self).next_id,
            final(self).player == old(self).player,
            final(self).projectiles@ == old(self).projectiles@,
            final(self).enemies@ == old(self).enemies@.map_values(
                |e: Enemy| enemy_hit(e, old(self).projectiles@),
            ),
    {
        let mut enemies: Vec<Enemy> = Vec::new();
        let mut i: usize = 0;
        while i < self.enemies.len()
            invariant
                i <= self.enemies@.len(),
                enemies@.len() == i,
                forall|j: int| 0 <= j < i ==> #[trigger] enemies@[j] == enemy_hit(self.enemies@[j], self.projectiles@),
                self.wf(),
            decreases self.enemies@.len() - i,
        {
            let e: Enemy = self.enemies[i];
            let damage: i128 = damage_from(e.pos, &self.projectiles);
            assert(self.projectiles@.len() <= self.next_id);
            assert(self.projectiles@.len() * 0xFFFF_FFFFint <= 0xFFFF_FFFF_FFFF_FFFFint * 0xFFFF_FFFFint) by (nonlinear_arith)
                requires
                    self.projectiles@.len() <= 0xFFFF_FFFF_FFFF_FFFFint,
            ;
            let left: i128 = e.health as i128 - damage;
            let health: i64 = if left < i64::MIN as i128 { i64::MIN } else { left as i64 };
            enemies.push(Enemy { health, ..e });
            i = i + 1;
        }
        assert(enemies@ =~= self.enemies@.map_values(|e: Enemy| enemy_hit(e, self.projectiles@)));
        self.enemies = enemies;
        assert forall|i: int| 0 <= i < self.enemies@.len() implies #[trigger] self.enemies@[i].id < self.next_id
            && self.enemies@[i].pos.in_world() by {
            assert(self.enemies@[i].pos == old(self).enemies@[i].pos);
        }
    }

    /// Retires every non-piercing projectile that overlaps some enemy.
    pub fn retire_spent_projectiles(&mut self)
        requires
            old(self).wf(),
        ensures
            final(self).wf(),
            final(self).next_id == old(self).next_id,
            final(self).player == old(self).player,
            final(self).enemies@ == old(self).enemies@,
            final(self).projectiles@ == old(self).projectiles@.filter(
                |p: Projectile| keeps_going(old(self).enemies@, p),
            ),
    {
        let ghost pred = |p: Projectile| keeps_going(self.enemies@, p);
        let mut kept: Vec<Projectile> = Vec::new();
        let mut i: usize = 0;
        while i < self.projectiles.len()
            invariant
                i <= self.projectiles@.len(),
                kept@ == self.projectiles@.subrange(0, i as int).filter(pred),
                kept@.len() <= i,
                pred == (|p: Projectile| keeps_going(self.enemies@, p)),
                forall|j: int| 0 <= j < kept@.len() ==> #[trigger] kept@[j].id < self.next_id
                    && kept@[j].pos.in_world(),
                self.wf(),
            decreases self.projectiles@.len() - i,
        {
            let p: Projectile = self.projectiles[i];
            proof {
                lemma_filter_prefix(self.projectiles@, i as int, pred);
            }
            if p.piercing || !touches_any(p.pos, &self.enemies) {
                kept.push(p);
            }
            i = i + 1;
        }
        assert(self.projectiles@.subrange(0, self.projectiles@.len() as int) =~= self.projectiles@);
        self.projectiles = kept;
    }

    /// Retires every enemy, and the player, whose health is at most zero;
    /// returns the number of enemies left.
    pub fn remove_dead(&mut self) -> (live: usize)
        requires
            old(self).wf(),
        ensures
            final(self).wf(),
            final(self).next_id == old(self).next_id,
            final(self).projectiles@ == old(self).projectiles@,
            final(self).enemies@ == old(self).enemies@.filter(|e: Enemy| is_alive(e)),
            final(self).player == player_survivor(old(self).player),
            live == final(self).enemies@.len(),
            forall|i: int| 0 <= i < final(self).enemies@.len() ==> #[trigger] final(self).enemies@[i].health > 0,
    {
        let ghost pred = |e: Enemy| is_alive(e);
        let mut kept: Vec<Enemy> = Vec::new();
        let mut i: usize = 0;
        while i < self.enemies.len()
            invariant
                i <= self.enemies@.len(),
                kept@ == self.enemies@.subrange(0, i as int).filter(pred),
                kept@.len() <= i,
                pred == (|e: Enemy| is_alive(e)),
                forall|j: int| 0 <= j < kept@.len() ==> #[trigger] kept@[j].id < self.next_id
                    && kept@[j].pos.in_world() && kept@[j].health > 0,
                self.wf(),
            decreases self.enemies@.len() - i,
        {
            let e: Enemy = self.enemies[i];
            proof {
                lemma_filter_prefix(self.enemies@, i as int, pred);
            }
            if e.health > 0 {
                kept.push(e);
            }
            i = i + 1;
        }
        assert(self.enemies@.subrange(0, self.enemies@.len() as int) =~= self.enemies@);
        self.enemies = kept;
        let dead: bool = match &self.player {
            Some(p) => p.health <= 0,
            None => false,
        };
        if dead {
            self.player = None;
        }
        self.enemies.len()
    }

    /// Retires every projectile marked `destroy_on_oob` that is no longer
    /// inside the closed rectangle `bounds`.
    pub fn remove_out_of_bounds(&mut self, bounds: &Bounds)
        requires
            old(self).wf(),
        ensures
            final(self).wf(),
            final(self).next_id == old(self).next_id,
            final(self).player == old(self).player,
            final(self).enemies@ == old(self).enemies@,
            final(self).projectiles@ == old(self).projectiles@.filter(|p: Projectile| stays_in_play(*bounds, p)),
            forall|i: int|
                0 <= i < final(self).projectiles@.len() ==> #[trigger] stays_in_play(*bounds, final(self).projectiles@[i]),
    {
        let ghost pred = |p: Projectile| stays_in_play(*bounds, p);
        let mut kept: Vec<Projectile> = Vec::new();
        let mut i: usize = 0;
        while i < self.projectiles.len()
            invariant
                i <= self.projectiles@.len(),
                kept@ == self.projectiles@.subrange(0, i as int).filter(pred),
                kept@.len() <= i,
                pred == (|p: Projectile| stays_in_play(*bounds, p)),
                forall|j: int| 0 <= j < kept@.len() ==> #[trigger] kept@[j].id < self.next_id
                    && kept@[j].pos.in_world() && stays_in_play(*bounds, kept@[j]),
                self.wf(),
            decreases self.projectiles@.len() - i,
        {
            let p: Projectile = self.projectiles[i];
            proof {
                lemma_filter_prefix(self.projectiles@, i as int, pred);
            }
            if !p.destroy_on_oob || bounds.contains(p.pos) {
                assert(stays_in_play(*bounds, p));
                kept.push(p);
            }
            i = i + 1;
        }
        assert(self.projectiles@.subrange(0, self.projectiles@.len() as int) =~= self.projectiles@);
        self.projectiles = kept;
    }
}

/// Damage over a run of projectiles splits over any cut of the run.
pub proof fn lemma_damage_adds_up(pos: Point, a: Seq<Projectile>, b: Seq<Projectile>)
    ensures
        damage_at(pos, a + b) == damage_at(pos, a) + damage_at(pos, b),
    decreases b.len(),
{
    if b.len() > 0 {
        lemma_damage_adds_up(pos, a, b.drop_last());
        assert((a + b).drop_last() =~= a + b.drop_last());
    } else {
        assert(a + b =~= a);
    }
}

/// In one collision pass each projectile counts once against an enemy: adding a
/// projectile to the pass adds its damage exactly when its hit-box overlaps the
/// enemy's, and nothing otherwise.
pub proof fn lemma_damage_once_per_pair(e: Enemy, a: Seq<Projectile>, p: Projectile, b: Seq<Projectile>)
    ensures
        damage_at(e.pos, a + seq![p] + b) == damage_at(e.pos, a + b) + if overlaps(e.pos, p.pos) {
            p.effect.base_damage as int
        } else {
            0
        },
        overlaps(e.pos, p.pos) && e.health - p.effect.base_damage >= i64::MIN ==> enemy_hit(
            e,
            seq![p],
        ).health == e.health - p.effect.base_damage,
{
    lemma_damage_adds_up(e.pos, a + seq![p], b);
    lemma_damage_adds_up(e.pos, a, seq![p]);
    lemma_damage_adds_up(e.pos, a, b);
    let one = seq![p];
    assert(one.drop_last() =~= Seq::<Projectile>::empty());
    assert(one.last() == p);
    assert(damage_at(e.pos, Seq::<Projectile>::empty()) == 0);
    assert(damage_at(e.pos, one) == if overlaps(e.pos, p.pos) {
        p.effect.base_damage as int
    } else {
        0
    });
}

/// An enemy whose health is at most zero is not among the survivors of the death
/// sweep.
pub proof fn lemma_dead_are_retired(es: Seq<Enemy>, i: int)
    requires
        0 <= i < es.len(),
        es[i].health <= 0,
    ensures
        !es.filter(|e: Enemy| is_alive(e)).contains(es[i]),
{
    let kept = es.filter(|e: Enemy| is_alive(e));
    if kept.contains(es[i]) {
        let k = choose|k: int| 0 <= k < kept.len() && kept[k] == es[i];
        es.lemma_filter_pred(|e: Enemy| is_alive(e), k);
    }
}

/// A projectile marked for the bounds sweep that has left the closed
/// playfield is not among the projectiles the sweep keeps.
pub proof fn lemma_out_of_bounds_retired(b: Bounds, ps: Seq<Projectile>, i: int)
    requires
        0 <= i < ps.len(),
        ps[i].destroy_on_oob,
        !b.holds(ps[i].pos),
    ensures
        !ps.filter(|p: Projectile| stays_in_play(b, p)).contains(ps[i]),
{
    let kept = ps.filter(|p: Projectile| stays_in_play(b, p));
    if kept.contains(ps[i]) {
        let k = choose|k: int| 0 <= k < kept.len() && kept[k] == ps[i];
        ps.lemma_filter_pred(|p: Projectile| stays_in_play(b, p), k);
    }
}

/// A projectile inside the closed playfield, or not marked for the bounds sweep,
/// is kept by it.
pub proof fn lemma_in_bounds_kept(b: Bounds, ps: Seq<Projectile>, i: int)
    requires
        0 <= i < ps.len(),
        stays_in_play(b, ps[i]),
    ensures
        ps.filter(|p: Projectile| stays_in_play(b, p)).contains(ps[i]),
{
    ps.lemma_filter_contains(|p: Projectile| stays_in_play(b, p), i);
}

} // verus!
