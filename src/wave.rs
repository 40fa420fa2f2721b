//! The wave state machine: wave number, enemies still to spawn, enemies alive.
use vstd::prelude::*;

verus! {

/// Counters of the current wave.
#[derive(Clone, Copy, Debug, PartialEq, Eq, Structural)]
pub struct WaveState {
    pub wave_number: u32,
    /// Enemies of this wave not spawned yet.
    pub pending_count: u64,
    /// Enemies alive, as last counted.
    pub active_count: u64,
}

/// The counters as mathematical integers.
pub struct WaveModel {
    pub wave: int,
    pub pending: int,
    pub active: int,
}

/// What can happen to the counters in one tick.
pub enum WaveEvent {
    /// The spawn cadence fired; `player_present` says whether a player is alive.
    SpawnTick { player_present: bool },
    /// The slower wave-completion cadence fired.
    CompletionTick,
    /// The death sweep counted `live` surviving enemies.
    Recount { live: nat },
}

impl View for WaveState {
    type V = WaveModel;

    open spec fn view(&self) -> WaveModel {
        WaveModel {
            wave: self.wave_number as int,
            pending: self.pending_count as int,
            active: self.active_count as int,
        }
    }
}

/// Enemies pending when wave `new_wave` starts: `(new_wave + 1) * 2`.
pub open spec fn wave_size(new_wave: int) -> int {
    (new_wave + 1) * 2
}

pub open spec fn after_spawn_tick(m: WaveModel, player_present: bool) -> WaveModel {
    if player_present && m.pending > 0 {
        WaveModel { wave: m.wave, pending: m.pending - 1, active: m.active + 1 }
    } else {
        m
    }
}

pub open spec fn after_completion_tick(m: WaveModel) -> WaveModel {
    if m.pending == 0 && m.active == 0 {
        WaveModel { wave: m.wave + 1, pending: wave_size(m.wave + 1), active: 0 }
    } else {
        m
    }
}

pub open spec fn after_recount(m: WaveModel, live: int) -> WaveModel {
    WaveModel { wave: m.wave, pending: m.pending, active: live }
}

pub open spec fn after_event(m: WaveModel, ev: WaveEvent) -> WaveModel {
    match ev {
        WaveEvent::SpawnTick { player_present } => after_spawn_tick(m, player_present),
        WaveEvent::CompletionTick => after_completion_tick(m),
        WaveEvent::Recount { live } => after_recount(m, live as int),
    }
}

pub open spec fn after_events(m: WaveModel, evs: Seq<WaveEvent>) -> WaveModel
    decreases evs.len(),
{
    if evs.len() == 0 {
        m
    } else {
        after_event(after_events(m, evs.drop_last()), evs.last())
    }
}

pub open spec fn counters_natural(m: WaveModel) -> bool {
    m.wave >= 0 && m.pending >= 0 && m.active >= 0
}

impl WaveState {
    /// Wave 0 with one enemy to spawn.
    pub fn new() -> (r: WaveState)
        ensures
            r.wave_number == 0,
            r.pending_count == 1,
            r.active_count == 0,
    {
        WaveState { wave_number: 0, pending_count: 1, active_count: 0 }
    }

    /// One spawn tick: with a player present and enemies pending, one enemy is
    /// moved from pending to active. Returns whether an enemy is to be spawned.
    pub fn spawn_tick(&mut self, player_present: bool) -> (spawned: bool)
        requires
            old(self).active_count < u64::MAX,
        ensures
            final(self)@ == after_spawn_tick(old(self)@, player_present),
            spawned == (player_present && old(self).pending_count > 0),
    {
        if player_present && self.pending_count > 0 {
            self.pending_count = self.pending_count - 1;
            self.active_count = self.active_count + 1;
            true
        } else {
            false
        }
    }

    /// One wave-completion tick: when nothing is pending and nothing is alive,
    /// the wave number goes up by one and the next wave's enemies become
    /// pending. Returns the new wave number when that happened.
    pub fn complete_wave(&mut self) -> (r: Option<u32>)
        requires
            old(self).wave_number < u32::MAX,
        ensures
            final(self)@ == after_completion_tick(old(self)@),
            r == (if old(self).pending_count == 0 && old(self).active_count == 0 {
                Some(final(self).wave_number)
            } else {
                None::<u32>
            }),
    {
        if self.pending_count == 0 && self.active_count == 0 {
            let wave: u32 = self.wave_number + 1;
            self.wave_number = wave;
            self.pending_count = (wave as u64 + 1) * 2;
            Some(wave)
        } else {
            None
        }
    }

    /// Sets the active count to the number of enemies that survived.
    pub fn record_survivors(&mut self, live: u64)
        ensures
            final(self)@ == after_recount(old(self)@, live as int),
    {
        self.active_count = live;
    }
}

/// Whatever ticks happen, starting from natural counters the wave number, the
/// pending count and the active count never drop below zero.
pub proof fn lemma_counters_stay_natural(m: WaveModel, evs: Seq<WaveEvent>)
    requires
        counters_natural(m),
    ensures
        counters_natural(after_events(m, evs)),
    decreases evs.len(),
{
    if evs.len() > 0 {
        lemma_counters_stay_natural(m, evs.drop_last());
    }
}

/// In one tick the wave number either stays or, on a completion tick only, goes
/// up by exactly one; then the pending count is `(wave_number + 1) * 2`.
pub proof fn lemma_wave_step(m: WaveModel, ev: WaveEvent)
    ensures
        after_event(m, ev).wave == m.wave || (after_event(m, ev).wave == m.wave + 1
            && ev == WaveEvent::CompletionTick
            && after_event(m, ev).pending == (after_event(m, ev).wave + 1) * 2),
{
}

/// Over any run of ticks the wave number never decreases.
pub proof fn lemma_wave_non_decreasing(m: WaveModel, evs: Seq<WaveEvent>)
    ensures
        after_events(m, evs).wave >= m.wave,
    decreases evs.len(),
{
    if evs.len() > 0 {
        lemma_wave_non_decreasing(m, evs.drop_last());
        lemma_wave_step(after_events(m, evs.drop_last()), evs.last());
    }
}

/// With nothing pending, no tick short of a completion tick spawns an enemy:
/// every spawn tick leaves the counters as they were, and nothing becomes pending.
pub proof fn lemma_no_spawn_without_pending(m: WaveModel, evs: Seq<WaveEvent>)
    requires
        m.pending == 0,
        forall|i: int| 0 <= i < evs.len() ==> evs[i] != WaveEvent::CompletionTick,
    ensures
        after_events(m, evs).pending == 0,
        forall|i: int|
            0 <= i < evs.len() && (#[trigger] evs[i]) is SpawnTick ==> after_event(
                after_events(m, evs.take(i)),
                evs[i],
            ) == after_events(m, evs.take(i)),
    decreases evs.len(),
{
    if evs.len() > 0 {
        let front = evs.drop_last();
        lemma_no_spawn_without_pending(m, front);
        assert forall|i: int| 0 <= i < evs.len() && (#[trigger] evs[i]) is SpawnTick implies after_event(
            after_events(m, evs.take(i)),
            evs[i],
        ) == after_events(m, evs.take(i)) by {
            if i < front.len() {
                assert(evs.take(i) =~= front.take(i));
                assert(front[i] == evs[i]);
            } else {
                assert(evs.take(i) =~= front);
            }
        }
    }
}

} // verus!
