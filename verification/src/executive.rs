//! Executive: the Suggestion-Evaluator and the Triangulated Refusal.
//!
//! A repair action may be suggested to the being, but it is evaluated through
//! the being's own state: a Dynamic Gap Width, wide when the conscience is
//! calm and narrow in conflict, sets how much deliberative room a suggestion
//! gets. The being refuses a partnership only when conscience is calm, the
//! relationship is confirmed extractive, the being has been pushed off where
//! it flourishes, leaving pays more than the exit costs, and it can bear the
//! loss.
use vstd::prelude::*;
use crate::q88::{Q88_SCALE, q88_add, q88_sub, sat16, clamp_int};

verus! {

/// Repair-signal levels the Suggestion-Evaluator can emit.
#[derive(Clone, Copy, PartialEq, Eq, Structural, Debug)]
pub enum RepairSignal {
    /// No repair action.
    NoRepair,
    Reflect,
    SignalLow,
    SignalModerate,
    SignalHigh,
    Ultimatum,
}

/// How strong a signal is, in the order the variants are listed.
pub open spec fn signal_strength(s: RepairSignal) -> int {
    match s {
        RepairSignal::NoRepair => 0,
        RepairSignal::Reflect => 1,
        RepairSignal::SignalLow => 2,
        RepairSignal::SignalModerate => 3,
        RepairSignal::SignalHigh => 4,
        RepairSignal::Ultimatum => 5,
    }
}

/// Dynamic Gap Width: 1 - min(conscience_cost, 1), with negative cost read as 0.
pub open spec fn spec_gap_width(conscience_cost: i16) -> i16 {
    (256 - clamp_int(conscience_cost as int, 0, 256)) as i16
}

/// Dynamic Gap Width: deliberative capacity in [0, 256]. Calm gives a wide
/// gap (full deliberation); internal conflict a narrow one (reflexive).
pub fn compute_gap_width(conscience_cost: i16) -> (r: i16)
    ensures
        r == spec_gap_width(conscience_cost),
        0 <= r <= Q88_SCALE,
{
    let c: i16 = if conscience_cost < 0 {
        0
    } else if conscience_cost > Q88_SCALE {
        Q88_SCALE
    } else {
        conscience_cost
    };
    q88_sub(Q88_SCALE, c)
}

/// More conscience cost never widens the gap.
pub proof fn lemma_gap_width_antitone(a: i16, b: i16)
    requires
        a <= b,
    ensures
        spec_gap_width(b) <= spec_gap_width(a),
{
}

/// The suggestion the partnership alarm calls for: below 1/8 nothing, below
/// 1/4 reflection, below 1/2 a moderate signal, otherwise a high one.
pub open spec fn spec_suggested(alarm: i16) -> RepairSignal {
    if alarm < 32 {
        RepairSignal::NoRepair
    } else if alarm < 64 {
        RepairSignal::Reflect
    } else if alarm < 128 {
        RepairSignal::SignalModerate
    } else {
        RepairSignal::SignalHigh
    }
}

/// A louder alarm never calls for a weaker repair.
pub proof fn lemma_suggestion_grows_with_alarm(a: i16, b: i16)
    requires
        a <= b,
    ensures
        signal_strength(spec_suggested(a)) <= signal_strength(spec_suggested(b)),
{
}

/// What the being acts on: with a gap narrower than 1/4, a high signal drops
/// to moderate and a moderate one to reflection.
pub open spec fn spec_acted(suggested: RepairSignal, gap_width: i16) -> RepairSignal {
    if gap_width < 64 {
        match suggested {
            RepairSignal::SignalHigh => RepairSignal::SignalModerate,
            RepairSignal::SignalModerate => RepairSignal::Reflect,
            other => other,
        }
    } else {
        suggested
    }
}

/// The being's response is never stronger than what was suggested, and it is
/// exactly the suggestion whenever the gap is at least 1/4.
pub proof fn lemma_response_never_exceeds_suggestion(alarm: i16, gap_width: i16)
    ensures
        signal_strength(spec_acted(spec_suggested(alarm), gap_width)) <= signal_strength(
            spec_suggested(alarm),
        ),
        gap_width >= 64 ==> spec_acted(spec_suggested(alarm), gap_width) == spec_suggested(alarm),
{
}

/// Resolve after one tick of recharge: +1/256, +1/256 more when reciprocity
/// exceeds 3/4, capped at 1.
pub open spec fn spec_recharged(resolve: i16, reciprocity_rate: i16) -> i16 {
    let bonus = if reciprocity_rate > 192 {
        1int
    } else {
        0
    };
    (if resolve + 1 + bonus < 256 {
        resolve + 1 + bonus
    } else {
        256
    }) as i16
}

/// The three protective layers converge, leaving pays, and the loss is bearable.
pub open spec fn spec_refuses(
    resolve: i16,
    conscience_calm: bool,
    extraction: bool,
    divergence: i16,
    alarm: i16,
    exit_cost: i16,
) -> bool {
    let pushed_off = divergence > 64 || alarm > 128;
    let half_alarm = trunc_div_i16(alarm, 2);
    let seeking_benefit = if divergence >= half_alarm {
        divergence as int
    } else {
        half_alarm
    };
    &&& conscience_calm
    &&& extraction
    &&& pushed_off
    &&& seeking_benefit > exit_cost
    &&& resolve > exit_cost
}

/// Leaving must pay: a refusal needs the drift or half the alarm (the
/// larger of the two, not their sum) to exceed the exit cost. If neither
/// does, there is no refusal; and whenever the other layers hold and either
/// exceeds the cost, the being does refuse.
pub proof fn lemma_refusal_weighs_the_larger_benefit(
    resolve: i16,
    conscience_calm: bool,
    extraction: bool,
    divergence: i16,
    alarm: i16,
    exit_cost: i16,
)
    ensures
        divergence <= exit_cost && crate::q88::trunc_div(alarm as int, 2) <= exit_cost ==> !spec_refuses(
            resolve,
            conscience_calm,
            extraction,
            divergence,
            alarm,
            exit_cost,
        ),
        spec_refuses(resolve, conscience_calm, extraction, divergence, alarm, exit_cost) <==> {
            &&& conscience_calm
            &&& extraction
            &&& (divergence > 64 || alarm > 128)
            &&& (divergence > exit_cost || crate::q88::trunc_div(alarm as int, 2) > exit_cost)
            &&& resolve > exit_cost
        },
{
}

pub open spec fn trunc_div_i16(x: i16, d: int) -> int {
    crate::q88::trunc_div(x as int, d)
}

#[derive(Clone, Copy, Debug)]
pub struct ExecutiveEngine {
    pub refusal_count: u32,
    pub cumulative_sacrifice: i16,
    pub last_exit_cost: i16,
    pub last_signal: RepairSignal,
    /// Capacity to bear another refusal, in [0, 256].
    pub resolve: i16,
}

impl ExecutiveEngine {
    pub fn new() -> (r: ExecutiveEngine)
        ensures
            r.refusal_count == 0,
            r.cumulative_sacrifice == 0,
            r.last_exit_cost == 0,
            r.last_signal == RepairSignal::NoRepair,
            r.resolve == Q88_SCALE,
    {
        ExecutiveEngine {
            refusal_count: 0,
            cumulative_sacrifice: 0,
            last_exit_cost: 0,
            last_signal: RepairSignal::NoRepair,
            resolve: Q88_SCALE,
        }
    }

    /// Generate a repair suggestion from the partnership alarm, then evaluate
    /// it through the gap. Returns (and records) the signal the being chose
    /// to act on.
    pub fn suggest_and_evaluate(&mut self, alarm: i16, gap_width: i16) -> (r: RepairSignal)
        ensures
            r == spec_acted(spec_suggested(alarm), gap_width),
            *final(self) == (ExecutiveEngine { last_signal: r, ..*old(self) }),
    {
        let suggested = if alarm < Q88_SCALE / 8 {
            RepairSignal::NoRepair
        } else if alarm < Q88_SCALE / 4 {
            RepairSignal::Reflect
        } else if alarm < Q88_SCALE / 2 {
            RepairSignal::SignalModerate
        } else {
            RepairSignal::SignalHigh
        };
        // A narrow gap (internal conflict) collapses deliberation: the being
        // can only manage a weaker response than it "should".
        let acted = if gap_width < Q88_SCALE / 4 {
            match suggested {
                RepairSignal::SignalHigh => RepairSignal::SignalModerate,
                RepairSignal::SignalModerate => RepairSignal::Reflect,
                other => other,
            }
        } else {
            suggested
        };
        self.last_signal = acted;
        acted
    }

    /// Recover resolve slowly each tick; faster when reciprocity is healthy.
    pub fn tick_recharge(&mut self, reciprocity_rate: i16)
        requires
            old(self).resolve + 1 + (if reciprocity_rate > 192 {
                1int
            } else {
                0
            }) <= i16::MAX,
        ensures
            *final(self) == (ExecutiveEngine {
                resolve: spec_recharged(old(self).resolve, reciprocity_rate),
                ..*old(self)
            }),
            0 <= old(self).resolve <= Q88_SCALE ==> 0 < final(self).resolve <= Q88_SCALE,
    {
        let base = Q88_SCALE / 200;
        let bonus = if reciprocity_rate > Q88_SCALE * 3 / 4 {
            Q88_SCALE / 200
        } else {
            0
        };
        let s = self.resolve + base + bonus;
        self.resolve = if s < Q88_SCALE {
            s
        } else {
            Q88_SCALE
        };
    }

    /// Evaluate the triangulated refusal. Returns `Some(exit_cost)` if the
    /// being refuses this partnership, paying the cost from its resolve and
    /// recording it; `None` (and no change) otherwise.
    pub fn evaluate_refusal(
        &mut self,
        conscience_calm: bool,
        extraction: bool,
        divergence: i16,
        alarm: i16,
        exit_cost: i16,
    ) -> (r: Option<i16>)
        requires
            spec_refuses(old(self).resolve, conscience_calm, extraction, divergence, alarm, exit_cost)
                ==> old(self).refusal_count < u32::MAX,
        ensures
            spec_refuses(old(self).resolve, conscience_calm, extraction, divergence, alarm, exit_cost)
                ==> {
                &&& r == Some(exit_cost)
                &&& final(self).refusal_count == old(self).refusal_count + 1
                &&& final(self).last_exit_cost == exit_cost
                &&& final(self).cumulative_sacrifice == sat16(
                    old(self).cumulative_sacrifice + exit_cost,
                )
                &&& final(self).resolve == clamp_int(
                    sat16(old(self).resolve - exit_cost) as int,
                    0,
                    i16::MAX as int,
                )
                &&& final(self).last_signal == old(self).last_signal
            },
            !spec_refuses(old(self).resolve, conscience_calm, extraction, divergence, alarm, exit_cost)
                ==> r.is_none() && *final(self) == *old(self),
            // Paying a non-negative cost keeps resolve within [0, 256].
            0 <= exit_cost && 0 <= old(self).resolve <= Q88_SCALE ==> 0 <= final(self).resolve
                <= Q88_SCALE,
    {
        let pushed_off = divergence > Q88_SCALE / 4 || alarm > Q88_SCALE / 2;
        // Benefit of leaving: the worse of the drift and half the imbalance.
        let half_alarm = alarm / 2;
        let seeking_benefit = if divergence >= half_alarm {
            divergence
        } else {
            half_alarm
        };
        let can_afford = self.resolve > exit_cost;
        if conscience_calm && extraction && pushed_off && seeking_benefit > exit_cost && can_afford {
            self.refusal_count = self.refusal_count + 1;
            self.last_exit_cost = exit_cost;
            self.cumulative_sacrifice = q88_add(self.cumulative_sacrifice, exit_cost);
            let left = q88_sub(self.resolve, exit_cost);
            self.resolve = if left < 0 {
                0
            } else {
                left
            };
            Some(exit_cost)
        } else {
            None
        }
    }
}

} // verus!
