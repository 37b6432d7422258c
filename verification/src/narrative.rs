//! Narrative: the autobiography.
//!
//! The being does not remember raw observations; it remembers the moments its
//! functional mode changed. These salient events accumulate into an allostatic
//! load (chronic instability) and a mood bias (the emotional colouring of its
//! history), and that history reflects back into the interoceptive channels.
use vstd::prelude::*;
use crate::basins::Basin;
use crate::field_tracked::{SomaticField, spec_field_inject, spec_raw};
use crate::q88::{
    Q88_SCALE,
    q88_ema_update,
    q88_mul,
    q88_sub,
    sat16,
    spec_q88_ema,
    spec_q88_mul,
    trunc_div,
    lemma_ema_moves_toward_target,
};
use crate::tracked_value::Meaning;

verus! {

pub const LEDGER_SIZE: usize = 8;

/// One change of basin: where from, where to, how hard the free-energy shock
/// was, and the valence at that moment.
#[derive(Clone, Copy, Debug)]
pub struct SalientEvent {
    pub from: Basin,
    pub to: Basin,
    pub catalyst: i16,
    pub valence: i16,
}

#[derive(Clone, Copy, Debug)]
pub struct NarrativeEngine {
    /// Ring buffer of the last `LEDGER_SIZE` salient events.
    pub ledger: [Option<SalientEvent>; LEDGER_SIZE],
    /// Next slot of the ring buffer to write.
    pub idx: usize,
    pub episodes: u16,
    pub prev_basin: Basin,
    pub cycles_in_basin: u16,
    pub allostatic_load: i16,
    pub mood_bias: i16,
    pub narrative_burden: i16,
    pub identity_coherence: i16,
}

/// Number of recorded events among the first `n` slots.
pub open spec fn ledger_count(l: Seq<Option<SalientEvent>>, n: int) -> int
    decreases n,
{
    if n <= 0 {
        0
    } else {
        ledger_count(l, n - 1) + (if l[n - 1] is Some {
            1int
        } else {
            0
        })
    }
}

/// Sum of the catalysts of recorded events among the first `n` slots.
pub open spec fn ledger_catalyst_sum(l: Seq<Option<SalientEvent>>, n: int) -> int
    decreases n,
{
    if n <= 0 {
        0
    } else {
        ledger_catalyst_sum(l, n - 1) + (match l[n - 1] {
            Some(e) => e.catalyst as int,
            None => 0,
        })
    }
}

/// Sum of the valences of recorded events among the first `n` slots.
pub open spec fn ledger_valence_sum(l: Seq<Option<SalientEvent>>, n: int) -> int
    decreases n,
{
    if n <= 0 {
        0
    } else {
        ledger_valence_sum(l, n - 1) + (match l[n - 1] {
            Some(e) => e.valence as int,
            None => 0,
        })
    }
}

/// Allostatic load: half the mean catalyst of the recorded transitions,
/// clamped to [0, i16::MAX].
pub open spec fn spec_allostatic_load(l: Seq<Option<SalientEvent>>) -> i16 {
    let h = trunc_div(ledger_catalyst_sum(l, 8), ledger_count(l, 8)) / 2;
    crate::q88::clamp_int(h, 0, i16::MAX as int) as i16
}

/// Mood bias: the mean valence of the recorded transitions.
pub open spec fn spec_mood_bias(l: Seq<Option<SalientEvent>>) -> i16 {
    trunc_div(ledger_valence_sum(l, 8), ledger_count(l, 8)) as i16
}

/// Dwell bonus: cycles in the current basin, capped at 1.0.
pub open spec fn dwell_bonus(cycles: u16) -> i16 {
    (if cycles < 256 {
        cycles as int
    } else {
        256
    }) as i16
}

/// Identity coherence moves toward one 1/256 per tick spent in the current
/// basin, capped at 1: the step `cycle` takes lands between the old
/// coherence and `min(cycles, 256)`, and stays put once it is there.
pub proof fn lemma_coherence_tracks_dwell(coherence: i16, cycles: u16)
    ensures
        ({
            let m = if cycles < 256 {
                cycles as int
            } else {
                256
            };
            let next = spec_q88_ema(coherence, dwell_bonus(cycles), 8);
            &&& coherence <= m ==> coherence <= next <= m
            &&& m <= coherence ==> m <= next <= coherence
            &&& coherence == m ==> next == coherence
        }),
{
    lemma_ema_moves_toward_target(coherence, dwell_bonus(cycles), 8);
}

/// Magnitude of a shock, saturating at `i16::MAX`.
pub open spec fn spec_catalyst(free_energy: i16) -> i16 {
    if free_energy == i16::MIN {
        i16::MAX
    } else if free_energy < 0 {
        (-free_energy) as i16
    } else {
        free_energy
    }
}

proof fn lemma_ledger_bounds(l: Seq<Option<SalientEvent>>, n: int)
    requires
        0 <= n <= l.len(),
    ensures
        0 <= ledger_count(l, n) <= n,
        -32768 * ledger_count(l, n) <= ledger_valence_sum(l, n) <= 32767 * ledger_count(l, n),
        -32768 * ledger_count(l, n) <= ledger_catalyst_sum(l, n) <= 32767 * ledger_count(l, n),
    decreases n,
{
    if n > 0 {
        lemma_ledger_bounds(l, n - 1);
    }
}

/// The episode count after a tick in `basin`, coming from `prev`: one more
/// (saturating) on a change of basin, otherwise unchanged.
pub open spec fn next_episodes(episodes: u16, prev: Basin, basin: Basin) -> u16 {
    if basin != prev {
        if episodes == u16::MAX {
            u16::MAX
        } else {
            (episodes + 1) as u16
        }
    } else {
        episodes
    }
}

/// The basin after a run of ticks in `basins`, starting from `start`.
pub open spec fn last_basin(start: Basin, basins: Seq<Basin>) -> Basin {
    if basins.len() == 0 {
        start
    } else {
        basins.last()
    }
}

/// Number of ticks in `basins` whose basin differs from the one before it
/// (the first compared with `start`).
pub open spec fn basin_changes(start: Basin, basins: Seq<Basin>) -> int
    decreases basins.len(),
{
    if basins.len() == 0 {
        0
    } else {
        let before = basins.drop_last();
        basin_changes(start, before) + (if basins.last() != last_basin(start, before) {
            1int
        } else {
            0
        })
    }
}

/// The episode count after ticks in `basins`, one `cycle` each, starting
/// from count `episodes` in basin `start`.
pub open spec fn episodes_after(episodes: u16, start: Basin, basins: Seq<Basin>) -> u16
    decreases basins.len(),
{
    if basins.len() == 0 {
        episodes
    } else {
        let before = basins.drop_last();
        next_episodes(
            episodes_after(episodes, start, before),
            last_basin(start, before),
            basins.last(),
        )
    }
}

/// Only a change of basin is an episode: over any run of ticks the count
/// grows by exactly the number of changes, saturating at `u16::MAX`. From a
/// new narrative (count 0, basin Rest) it is the number of changes.
pub proof fn lemma_episodes_count_changes(episodes: u16, start: Basin, basins: Seq<Basin>)
    ensures
        episodes_after(episodes, start, basins) == (if episodes + basin_changes(start, basins)
            < u16::MAX {
            episodes + basin_changes(start, basins)
        } else {
            u16::MAX as int
        }),
        basin_changes(start, basins) >= 0,
    decreases basins.len(),
{
    if basins.len() > 0 {
        lemma_episodes_count_changes(episodes, start, basins.drop_last());
    }
}

/// What ledger slot `j` holds after the salient events `events` were written
/// in order, event `k` into slot `k % 8`: the latest event for that slot, or
/// nothing if fewer than `j + 1` events were written.
pub open spec fn slot_event(events: Seq<SalientEvent>, j: int) -> Option<SalientEvent> {
    let t = events.len() as int;
    if j < t {
        Some(events[j + 8 * ((t - 1 - j) / 8)])
    } else {
        None
    }
}

/// The ledger after the salient events `events` were written in order.
pub open spec fn ledger_of(events: Seq<SalientEvent>) -> Seq<Option<SalientEvent>> {
    Seq::new(8, |j: int| slot_event(events, j))
}

/// Sum of the catalysts of `events[lo..hi]`.
pub open spec fn catalyst_range(events: Seq<SalientEvent>, lo: int, hi: int) -> int
    decreases hi - lo,
{
    if hi <= lo {
        0
    } else {
        catalyst_range(events, lo, hi - 1) + events[hi - 1].catalyst
    }
}

/// Sum of the valences of `events[lo..hi]`.
pub open spec fn valence_range(events: Seq<SalientEvent>, lo: int, hi: int) -> int
    decreases hi - lo,
{
    if hi <= lo {
        0
    } else {
        valence_range(events, lo, hi - 1) + events[hi - 1].valence
    }
}

/// Index of the first of the (at most eight) most recent events.
pub open spec fn recent_start(events: Seq<SalientEvent>) -> int {
    if events.len() < 8 {
        0
    } else {
        events.len() - 8
    }
}

proof fn lemma_ranges_front(events: Seq<SalientEvent>, lo: int, hi: int)
    requires
        0 <= lo < hi <= events.len(),
    ensures
        catalyst_range(events, lo, hi) == events[lo].catalyst + catalyst_range(events, lo + 1, hi),
        valence_range(events, lo, hi) == events[lo].valence + valence_range(events, lo + 1, hi),
    decreases hi - lo,
{
    if hi - 1 > lo {
        lemma_ranges_front(events, lo, hi - 1);
        assert(catalyst_range(events, lo + 1, hi) == catalyst_range(events, lo + 1, hi - 1)
            + events[hi - 1].catalyst);
        assert(valence_range(events, lo + 1, hi) == valence_range(events, lo + 1, hi - 1)
            + events[hi - 1].valence);
    } else {
        assert(catalyst_range(events, lo, lo) == 0);
        assert(valence_range(events, lo, lo) == 0);
        assert(catalyst_range(events, lo + 1, hi) == 0);
        assert(valence_range(events, lo + 1, hi) == 0);
    }
}

proof fn lemma_ranges_prefix(events: Seq<SalientEvent>, e: SalientEvent, lo: int, hi: int)
    requires
        0 <= lo,
        hi <= events.len(),
    ensures
        catalyst_range(events.push(e), lo, hi) == catalyst_range(events, lo, hi),
        valence_range(events.push(e), lo, hi) == valence_range(events, lo, hi),
    decreases hi - lo,
{
    if hi > lo {
        lemma_ranges_prefix(events, e, lo, hi - 1);
    }
}

/// Writing one more event changes exactly the slot `len % 8`.
proof fn lemma_slot_after_push(events: Seq<SalientEvent>, e: SalientEvent, j: int)
    requires
        0 <= j < 8,
    ensures
        slot_event(events.push(e), j) == (if j == events.len() % 8 {
            Some(e)
        } else {
            slot_event(events, j)
        }),
        events.len() >= 8 && j == events.len() % 8 ==> slot_event(events, j) == Some(
            events[events.len() - 8],
        ),
        events.len() < 8 && j == events.len() % 8 ==> slot_event(events, j).is_none(),
{
    let t = events.len() as int;
    let q = t / 8;
    let r = t % 8;
    assert(t == 8 * q + r && 0 <= r < 8) by (nonlinear_arith)
        requires
            t >= 0,
            q == t / 8,
            r == t % 8,
    ;
    if j == r {
        assert((t - j) / 8 == q) by (nonlinear_arith)
            requires
                t - j == 8 * q,
        ;
        if t >= 8 {
            assert((t - 1 - j) / 8 == q - 1) by (nonlinear_arith)
                requires
                    t - 1 - j == 8 * (q - 1) + 7,
            ;
        }
    } else if j < t {
        let a = (t - 1 - j) / 8;
        assert((t - j) / 8 == a) by (nonlinear_arith)
            requires
                a == (t - 1 - j) / 8,
                t == 8 * q + r,
                0 <= r < 8,
                0 <= j < 8,
                j != r,
                j < t,
        ;
        assert(0 <= j + 8 * a < t) by (nonlinear_arith)
            requires
                a == (t - 1 - j) / 8,
                0 <= j < t,
        ;
    } else {
        assert(j > t || (j == t && t < 8));
    }
}

/// Sum over the recorded slots of `l`, with one slot replaced.
proof fn lemma_ledger_update(l: Seq<Option<SalientEvent>>, i: int, x: Option<SalientEvent>, n: int)
    requires
        0 <= i < l.len(),
        0 <= n <= l.len(),
    ensures
        ledger_count(l.update(i, x), n) == ledger_count(l, n) + (if i < n {
            (if x is Some { 1int } else { 0 }) - (if l[i] is Some { 1int } else { 0 })
        } else {
            0
        }),
        ledger_catalyst_sum(l.update(i, x), n) == ledger_catalyst_sum(l, n) + (if i < n {
            (match x {
                Some(e) => e.catalyst as int,
                None => 0,
            }) - (match l[i] {
                Some(e) => e.catalyst as int,
                None => 0,
            })
        } else {
            0
        }),
        ledger_valence_sum(l.update(i, x), n) == ledger_valence_sum(l, n) + (if i < n {
            (match x {
                Some(e) => e.valence as int,
                None => 0,
            }) - (match l[i] {
                Some(e) => e.valence as int,
                None => 0,
            })
        } else {
            0
        }),
    decreases n,
{
    if n > 0 {
        lemma_ledger_update(l, i, x, n - 1);
    }
}

proof fn lemma_empty_ledger(n: int)
    requires
        0 <= n <= 8,
    ensures
        ledger_count(ledger_of(Seq::empty()), n) == 0,
        ledger_catalyst_sum(ledger_of(Seq::empty()), n) == 0,
        ledger_valence_sum(ledger_of(Seq::empty()), n) == 0,
    decreases n,
{
    if n > 0 {
        lemma_empty_ledger(n - 1);
    }
}

/// The ledger keeps exactly the eight most recent transitions: it holds
/// `min(len, 8)` events, and their catalyst and valence sums are those of the
/// last `min(len, 8)` events written.
proof fn lemma_ledger_of_sums(events: Seq<SalientEvent>)
    ensures
        ledger_count(ledger_of(events), 8) == events.len() - recent_start(events),
        ledger_catalyst_sum(ledger_of(events), 8) == catalyst_range(
            events,
            recent_start(events),
            events.len() as int,
        ),
        ledger_valence_sum(ledger_of(events), 8) == valence_range(
            events,
            recent_start(events),
            events.len() as int,
        ),
    decreases events.len(),
{
    if events.len() == 0 {
        lemma_empty_ledger(8);
        assert(events =~= Seq::<SalientEvent>::empty());
    } else {
        let before = events.drop_last();
        let e = events.last();
        let t = before.len() as int;
        assert(before.push(e) =~= events);
        lemma_ledger_of_sums(before);
        let i = t % 8;
        lemma_slot_after_push(before, e, i);
        assert(ledger_of(events) =~= ledger_of(before).update(i, Some(e))) by {
            assert forall|j: int| 0 <= j < 8 implies ledger_of(events)[j] == ledger_of(
                before,
            ).update(i, Some(e))[j] by {
                lemma_slot_after_push(before, e, j);
            }
        }
        lemma_ledger_update(ledger_of(before), i, Some(e), 8);
        lemma_ranges_prefix(before, e, recent_start(before), t);
        lemma_ranges_prefix(before, e, recent_start(events), t);
        assert(catalyst_range(events, recent_start(events), t + 1) == catalyst_range(
            events,
            recent_start(events),
            t,
        ) + e.catalyst);
        assert(valence_range(events, recent_start(events), t + 1) == valence_range(
            events,
            recent_start(events),
            t,
        ) + e.valence);
        assert(ledger_of(before)[i] == slot_event(before, i));
        let old_slot = ledger_of(before)[i];
        if t >= 8 {
            lemma_ranges_front(before, t - 8, t);
            assert(recent_start(events) == t - 7);
            assert(old_slot == Some(before[t - 8]));
            assert(ledger_count(ledger_of(events), 8) == ledger_count(ledger_of(before), 8));
            assert(ledger_catalyst_sum(ledger_of(events), 8) == ledger_catalyst_sum(
                ledger_of(before),
                8,
            ) + e.catalyst - before[t - 8].catalyst);
        } else {
            assert(recent_start(events) == 0);
            assert(old_slot.is_none());
            assert(ledger_count(ledger_of(events), 8) == ledger_count(ledger_of(before), 8) + 1);
            assert(ledger_catalyst_sum(ledger_of(events), 8) == ledger_catalyst_sum(
                ledger_of(before),
                8,
            ) + e.catalyst);
        }
    }
}

/// The narrative remembers only the last eight transitions. A new narrative
/// holds the ledger of no events; each recorded transition writes slot
/// `len % 8`, which is exactly the ledger of the longer history; and the
/// allostatic load and mood bias computed from that ledger are half the mean
/// catalyst and the mean valence of the (at most eight) most recent events.
pub proof fn lemma_ledger_keeps_last_eight(events: Seq<SalientEvent>, e: SalientEvent)
    ensures
        ledger_of(Seq::empty()) == Seq::new(8, |j: int| None::<SalientEvent>),
        ledger_of(events.push(e)) == ledger_of(events).update(
            (events.len() % 8) as int,
            Some(e),
        ),
        events.len() > 0 ==> spec_allostatic_load(ledger_of(events)) == crate::q88::clamp_int(
            trunc_div(
                catalyst_range(events, recent_start(events), events.len() as int),
                events.len() - recent_start(events),
            ) / 2,
            0,
            i16::MAX as int,
        ),
        events.len() > 0 ==> spec_mood_bias(ledger_of(events)) == trunc_div(
            valence_range(events, recent_start(events), events.len() as int),
            events.len() - recent_start(events),
        ) as i16,
{
    assert(ledger_of(Seq::empty()) =~= Seq::new(8, |j: int| None::<SalientEvent>));
    assert forall|j: int| 0 <= j < 8 implies ledger_of(events.push(e))[j] == ledger_of(
        events,
    ).update((events.len() % 8) as int, Some(e))[j] by {
        lemma_slot_after_push(events, e, j);
    }
    assert(ledger_of(events.push(e)) =~= ledger_of(events).update(
        (events.len() % 8) as int,
        Some(e),
    ));
    lemma_ledger_of_sums(events);
}

impl NarrativeEngine {
    pub fn new() -> (r: NarrativeEngine)
        ensures
            forall|i: int| 0 <= i < 8 ==> r.ledger[i].is_none(),
            r.idx == 0,
            r.episodes == 0,
            r.prev_basin == Basin::Rest,
            r.cycles_in_basin == 0,
            r.allostatic_load == 0,
            r.mood_bias == 0,
            r.narrative_burden == 0,
            r.identity_coherence == Q88_SCALE,
    {
        NarrativeEngine {
            ledger: [None; LEDGER_SIZE],
            idx: 0,
            episodes: 0,
            prev_basin: Basin::Rest,
            cycles_in_basin: 0,
            allostatic_load: 0,
            mood_bias: 0,
            narrative_burden: 0,
            identity_coherence: Q88_SCALE,
        }
    }

    /// Recompute load and mood from the ledger; unchanged while it is empty.
    fn recompute(&mut self)
        ensures
            final(self).ledger == old(self).ledger,
            final(self).idx == old(self).idx,
            final(self).episodes == old(self).episodes,
            final(self).prev_basin == old(self).prev_basin,
            final(self).cycles_in_basin == old(self).cycles_in_basin,
            final(self).narrative_burden == old(self).narrative_burden,
            final(self).identity_coherence == old(self).identity_coherence,
            ledger_count(old(self).ledger@, 8) > 0 ==> {
                &&& final(self).allostatic_load == spec_allostatic_load(old(self).ledger@)
                &&& final(self).mood_bias == spec_mood_bias(old(self).ledger@)
            },
            ledger_count(old(self).ledger@, 8) == 0 ==> {
                &&& final(self).allostatic_load == old(self).allostatic_load
                &&& final(self).mood_bias == old(self).mood_bias
            },
    {
        let ghost l = self.ledger@;
        let mut load: i32 = 0;
        let mut mood: i32 = 0;
        let mut n: i32 = 0;
        let mut i: usize = 0;
        while i < LEDGER_SIZE
            invariant
                i <= LEDGER_SIZE,
                l == self.ledger@,
                n == ledger_count(l, i as int),
                load == ledger_catalyst_sum(l, i as int),
                mood == ledger_valence_sum(l, i as int),
            decreases LEDGER_SIZE - i,
        {
            proof {
                lemma_ledger_bounds(l, i + 1);
            }
            match self.ledger[i] {
                Some(e) => {
                    load = load + e.catalyst as i32;
                    mood = mood + e.valence as i32;
                    n = n + 1;
                },
                None => {},
            }
            i = i + 1;
        }
        proof {
            lemma_ledger_bounds(l, 8);
        }
        if n > 0 {
            let avg_load: i32 = load / n;
            let half: i32 = avg_load >> 1;
            assert(half * 2 <= avg_load && avg_load < half * 2 + 2) by (bit_vector)
                requires
                    half == avg_load >> 1,
            ;
            self.allostatic_load = (if half < 0 {
                0
            } else if half > i16::MAX as i32 {
                i16::MAX as i32
            } else {
                half
            }) as i16;
            let avg_mood: i32 = mood / n;
            assert(-32768 <= avg_mood <= 32767) by (nonlinear_arith)
                requires
                    avg_mood == trunc_div(mood as int, n as int),
                    -32768 * n <= mood <= 32767 * n,
                    1 <= n <= 8,
            ;
            self.mood_bias = avg_mood as i16;
        }
    }

    /// Record this tick. A change of basin is a salient event: it is written
    /// to the ledger slot `idx` (modulo the ledger size), overwriting the
    /// oldest, counted as an episode, and the load and mood are recomputed.
    /// Coherence then moves toward the dwell time, and burden toward the load.
    pub fn cycle(&mut self, basin: Basin, field: &SomaticField, free_energy: i16)
        ensures
            final(self).prev_basin == basin,
            final(self).episodes == next_episodes(old(self).episodes, old(self).prev_basin, basin),
            basin != old(self).prev_basin ==> {
                let ev = SalientEvent {
                    from: old(self).prev_basin,
                    to: basin,
                    catalyst: spec_catalyst(free_energy),
                    valence: spec_raw(field.ch@, Meaning::Valence),
                };
                &&& final(self).ledger@ == old(self).ledger@.update(
                    (old(self).idx % 8) as int,
                    Some(ev),
                )
                &&& final(self).idx == (old(self).idx % 8 + 1) % 8
                &&& final(self).cycles_in_basin == 1
                &&& final(self).allostatic_load == spec_allostatic_load(final(self).ledger@)
                &&& final(self).mood_bias == spec_mood_bias(final(self).ledger@)
            },
            basin == old(self).prev_basin ==> {
                &&& final(self).ledger == old(self).ledger
                &&& final(self).idx == old(self).idx
                &&& final(self).cycles_in_basin == (if old(self).cycles_in_basin == u16::MAX {
                    u16::MAX
                } else {
                    (old(self).cycles_in_basin + 1) as u16
                })
                &&& final(self).allostatic_load == old(self).allostatic_load
                &&& final(self).mood_bias == old(self).mood_bias
            },
            final(self).identity_coherence == spec_q88_ema(
                old(self).identity_coherence,
                dwell_bonus(final(self).cycles_in_basin),
                8,
            ),
            final(self).narrative_burden == spec_q88_ema(
                old(self).narrative_burden,
                final(self).allostatic_load,
                4,
            ),
            // Coherence moves toward the dwell bonus without overshooting it,
            // and never leaves [0, 1] once inside it.
            old(self).identity_coherence <= dwell_bonus(final(self).cycles_in_basin) ==> old(
                self,
            ).identity_coherence <= final(self).identity_coherence <= dwell_bonus(
                final(self).cycles_in_basin,
            ),
            dwell_bonus(final(self).cycles_in_basin) <= old(self).identity_coherence ==> dwell_bonus(
                final(self).cycles_in_basin,
            ) <= final(self).identity_coherence <= old(self).identity_coherence,
            0 <= old(self).identity_coherence <= Q88_SCALE ==> 0
                <= final(self).identity_coherence <= Q88_SCALE,
    {
        if basin != self.prev_basin {
            let fe_abs: i16 = if free_energy == i16::MIN {
                i16::MAX
            } else if free_energy < 0 {
                -free_energy
            } else {
                free_energy
            };
            let ev = SalientEvent {
                from: self.prev_basin,
                to: basin,
                catalyst: fe_abs,
                valence: field.raw(Meaning::Valence),
            };
            let slot = self.idx % LEDGER_SIZE;
            self.ledger[slot] = Some(ev);
            self.idx = (slot + 1) % LEDGER_SIZE;
            self.episodes = if self.episodes == u16::MAX {
                u16::MAX
            } else {
                self.episodes + 1
            };
            self.prev_basin = basin;
            self.cycles_in_basin = 0;
            proof {
                lemma_ledger_count_positive(self.ledger@, slot as int);
            }
            self.recompute();
        }
        self.cycles_in_basin = if self.cycles_in_basin == u16::MAX {
            u16::MAX
        } else {
            self.cycles_in_basin + 1
        };
        // Identity coherence: long dwell raises it; churn erodes it.
        let c = self.cycles_in_basin;
        let dwell: i16 = if c < 256 {
            c as i16
        } else {
            256
        };
        proof {
            lemma_ema_moves_toward_target(self.identity_coherence, dwell, 8);
        }
        self.identity_coherence = q88_ema_update(self.identity_coherence, dwell, Q88_SCALE / 32);
        // Narrative burden grows slowly with accumulated load.
        self.narrative_burden = q88_ema_update(
            self.narrative_burden,
            self.allostatic_load,
            Q88_SCALE / 64,
        );
    }

    /// Reflect the compressed history back into the interoceptive channels:
    /// burden (times 1/8) raises fatigue, mood bias (times 1/8) colours
    /// valence, and an incoherent history (1 - coherence, times 1/16, when
    /// positive) is taken off felt arousal. Each is a mind injection.
    pub fn apply_identity_reflection(&self, field: &mut SomaticField)
        ensures
            final(field).ch@ == spec_field_inject(
                spec_field_inject(
                    spec_field_inject(
                        old(field).ch@,
                        Meaning::Fatigue,
                        spec_q88_mul(self.narrative_burden, 32),
                    ),
                    Meaning::Valence,
                    spec_q88_mul(self.mood_bias, 32),
                ),
                Meaning::FeltArousal,
                (-crate::q88::clamp_int(
                    spec_q88_mul(sat16(256 - self.identity_coherence), 16) as int,
                    0,
                    i16::MAX as int,
                )) as i16,
            ),
    {
        field.inject(Meaning::Fatigue, q88_mul(self.narrative_burden, Q88_SCALE / 8));
        field.inject(Meaning::Valence, q88_mul(self.mood_bias, Q88_SCALE / 8));
        let damp = q88_mul(q88_sub(Q88_SCALE, self.identity_coherence), Q88_SCALE / 16);
        let d: i16 = if damp < 0 {
            0
        } else {
            damp
        };
        field.inject(Meaning::FeltArousal, -d);
    }
}

proof fn lemma_ledger_count_positive(l: Seq<Option<SalientEvent>>, k: int)
    requires
        0 <= k < 8,
        l.len() == 8,
        l[k] is Some,
    ensures
        ledger_count(l, 8) > 0,
{
    lemma_ledger_bounds(l, k);
    lemma_count_monotone(l, k + 1, 8);
}

proof fn lemma_count_monotone(l: Seq<Option<SalientEvent>>, a: int, b: int)
    requires
        0 <= a <= b,
    ensures
        ledger_count(l, a) <= ledger_count(l, b),
    decreases b - a,
{
    if a < b {
        lemma_count_monotone(l, a, b - 1);
    }
}

} // verus!
