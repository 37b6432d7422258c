//! Theory of mind: one being's model of another, built only from what can be
//! observed from the outside.
//!
//! The projection `Observable` strips a being down to what shows: its
//! agitation, the warmth it extends, how available it presents, and whether
//! it is turned inward. A `MindModel` holds a slowly revised belief about a
//! partner from a stream of such observations. Its giving only ever rises
//! from what it understands (the soothing impulse is additive and capped), and
//! when shown warmth exceeds the actual return, suspicion rises.
use vstd::prelude::*;
use crate::basins::Basin;
use crate::q88::{
    Q88_SCALE,
    clamp_int,
    q88_ema_update,
    q88_mul,
    spec_q88_ema,
    spec_q88_mul,
    lemma_ema_moves_toward_target,
};

verus! {

/// Perceptions track fairly quickly (~0.16).
pub const PERCEPT_ALPHA: i16 = 40;

/// Confidence in the model grows slowly (~0.08).
pub const ATTUNE_ALPHA: i16 = 20;

/// A read on disposition is held, not flickered (~0.06).
pub const INTENT_ALPHA: i16 = 16;

/// How I think they see me changes slowest (~0.05).
pub const SEEN_AS_ALPHA: i16 = 12;

/// Suspicion moves at ~0.11.
pub const SUSPICION_ALPHA: i16 = 28;

/// Presentation may exceed substance this much before alarm.
pub const SUSPICION_MARGIN: i16 = 40;

/// What one being can perceive of another from the outside, and nothing more.
#[derive(Clone, Copy, Debug, Default)]
pub struct Observable {
    /// Visible agitation.
    pub shown_arousal: i16,
    /// The warmth they actually extend.
    pub shown_warmth: i16,
    /// How available they present as; may diverge from `shown_warmth`.
    pub presentation: i16,
    /// Turned inward (Rest/Recovery) rather than toward you (Engaged).
    pub withdrawn: bool,
}

/// How available a being in `basin` at `arousal_raw` looks: 170 when engaged
/// (70 otherwise) plus half its composure, capped at 1.
pub open spec fn spec_presentation(arousal_raw: i16, basin: Basin) -> i16 {
    let toward = if basin == Basin::Engaged {
        170int
    } else {
        70
    };
    let composure = (256 - clamp_int(arousal_raw as int, 0, 256)) / 2;
    clamp_int(toward + composure, 0, 256) as i16
}

/// Only a being turned toward you (Engaged) presents the extra warmth:
/// every other basin presents alike, the engaged presentation is that plus
/// 100/256 (capped at 1), and a calmer being never looks less available.
pub proof fn lemma_presentation_by_basin(arousal_raw: i16, calmer: i16, basin: Basin)
    ensures
        basin != Basin::Engaged ==> spec_presentation(arousal_raw, basin) == spec_presentation(
            arousal_raw,
            Basin::Rest,
        ),
        spec_presentation(arousal_raw, Basin::Engaged) == (if spec_presentation(
            arousal_raw,
            Basin::Rest,
        ) + 100 < 256 {
            spec_presentation(arousal_raw, Basin::Rest) + 100
        } else {
            256
        }),
        spec_presentation(arousal_raw, Basin::Rest) == 70 + (256 - clamp_int(
            arousal_raw as int,
            0,
            256,
        )) / 2,
        calmer <= arousal_raw ==> spec_presentation(arousal_raw, basin) <= spec_presentation(
            calmer,
            basin,
        ),
{
    let a = clamp_int(arousal_raw as int, 0, 256);
    let b = clamp_int(calmer as int, 0, 256);
    assert(0 <= (256 - a) / 2 <= 128);
    if calmer <= arousal_raw {
        assert((256 - a) / 2 <= (256 - b) / 2);
    }
}

/// Target of the disposition read: twice the return rate's excess over 1/2,
/// in [-1, 1].
pub open spec fn spec_intent_target(my_return_rate: i16) -> i16 {
    clamp_int((my_return_rate - 128) * 2, -256, 256) as i16
}

/// Target of suspicion: how far presentation exceeds the actual return
/// beyond the margin (as an `i16`), capped at 1.
pub open spec fn spec_suspicion_target(presentation: i16, my_return_rate: i16) -> i16 {
    let over = presentation - my_return_rate - 40;
    let gap = (if over < 0 {
        0
    } else {
        over
    }) as i16;
    if gap < 256 {
        gap
    } else {
        256
    }
}

impl Observable {
    /// Project a real being to what is observable of it: its outward arousal
    /// (clamped to [0, 1]), the warmth it gave, and the mode it is in.
    pub fn project(arousal_raw: i16, gave: i16, basin: Basin) -> (r: Observable)
        ensures
            r.shown_arousal == clamp_int(arousal_raw as int, 0, 256),
            r.shown_warmth == gave,
            r.presentation == spec_presentation(arousal_raw, basin),
            r.withdrawn == (basin == Basin::Rest || basin == Basin::Recovery),
    {
        let withdrawn = match basin {
            Basin::Rest | Basin::Recovery => true,
            _ => false,
        };
        let toward: i16 = match basin {
            Basin::Engaged => 170,
            _ => 70,
        };
        let a: i16 = if arousal_raw < 0 {
            0
        } else if arousal_raw > Q88_SCALE {
            Q88_SCALE
        } else {
            arousal_raw
        };
        let composure: i16 = (Q88_SCALE - a) / 2;
        let p: i16 = toward + composure;
        let presentation = if p > Q88_SCALE {
            Q88_SCALE
        } else {
            p
        };
        Observable { shown_arousal: a, shown_warmth: gave, presentation, withdrawn }
    }

    /// A partner known only as a reciprocation rate: neutral agitation, and a
    /// presentation that matches the substance exactly.
    pub fn from_reciprocation(reciprocation: i16) -> (r: Observable)
        ensures
            r == (Observable {
                shown_arousal: 128,
                shown_warmth: reciprocation,
                presentation: reciprocation,
                withdrawn: false,
            }),
    {
        Observable {
            shown_arousal: Q88_SCALE / 2,
            shown_warmth: reciprocation,
            presentation: reciprocation,
            withdrawn: false,
        }
    }
}

/// One being's model of another being's mind: a belief, held over time.
#[derive(Clone, Copy, Debug)]
pub struct MindModel {
    pub of_id: u32,
    /// Moving average of how agitated they appear.
    pub perceived_arousal: i16,
    /// Moving average of the warmth they extend.
    pub perceived_warmth: i16,
    /// Inferred disposition toward me, -1 (extractive) .. +1 (caring).
    pub inferred_intent: i16,
    /// Confidence in this model, 0 .. 1.
    pub attunement: i16,
    /// Nested belief: what I think they make of me, -1 .. +1.
    pub believed_seen_as: i16,
    /// Suspicion that their shown warmth exceeds their actual return, 0 .. 1.
    pub suspicion: i16,
    /// Number of observations taken in.
    pub seen: u32,
}

impl MindModel {
    pub open spec fn spec_distress(&self) -> i16 {
        clamp_int(self.perceived_arousal - 128, 0, i16::MAX as int) as i16
    }

    pub fn new(of_id: u32) -> (r: MindModel)
        ensures
            r == (MindModel {
                of_id,
                perceived_arousal: 128,
                perceived_warmth: 0,
                inferred_intent: 0,
                attunement: 0,
                believed_seen_as: 0,
                suspicion: 0,
                seen: 0,
            }),
    {
        MindModel {
            of_id,
            perceived_arousal: Q88_SCALE / 2,
            perceived_warmth: 0,
            inferred_intent: 0,
            attunement: 0,
            believed_seen_as: 0,
            suspicion: 0,
            seen: 0,
        }
    }

    /// Take in one moment of observing the other, plus the material return
    /// the being is actually receiving from them.
    pub fn observe(&mut self, obs: Observable, my_return_rate: i16)
        requires
            old(self).seen < u32::MAX,
        ensures
            final(self).of_id == old(self).of_id,
            final(self).seen == old(self).seen + 1,
            final(self).perceived_arousal == spec_q88_ema(
                old(self).perceived_arousal,
                obs.shown_arousal,
                PERCEPT_ALPHA,
            ),
            final(self).perceived_warmth == spec_q88_ema(
                old(self).perceived_warmth,
                obs.shown_warmth,
                PERCEPT_ALPHA,
            ),
            final(self).attunement == spec_q88_ema(
                old(self).attunement,
                if obs.withdrawn {
                    192i16
                } else {
                    256i16
                },
                ATTUNE_ALPHA,
            ),
            final(self).inferred_intent == spec_q88_ema(
                old(self).inferred_intent,
                spec_intent_target(my_return_rate),
                INTENT_ALPHA,
            ),
            final(self).believed_seen_as == spec_q88_ema(
                old(self).believed_seen_as,
                spec_intent_target(my_return_rate),
                SEEN_AS_ALPHA,
            ),
            final(self).suspicion == spec_q88_ema(
                old(self).suspicion,
                spec_suspicion_target(obs.presentation, my_return_rate),
                SUSPICION_ALPHA,
            ),
            // An honest partner, presenting no more than it returns (plus the
            // margin), never raises suspicion: it only decays toward zero.
            obs.presentation <= my_return_rate + SUSPICION_MARGIN && old(self).suspicion >= 0
                ==> 0 <= final(self).suspicion <= old(self).suspicion,
    {
        self.seen = self.seen + 1;
        self.perceived_arousal = q88_ema_update(self.perceived_arousal, obs.shown_arousal, PERCEPT_ALPHA);
        self.perceived_warmth = q88_ema_update(self.perceived_warmth, obs.shown_warmth, PERCEPT_ALPHA);
        // Withdrawal gives less to read, so confidence grows toward only 3/4.
        let attune_target: i16 = if obs.withdrawn {
            Q88_SCALE * 3 / 4
        } else {
            Q88_SCALE
        };
        self.attunement = q88_ema_update(self.attunement, attune_target, ATTUNE_ALPHA);
        // Disposition: do they actually give back?
        let it: i32 = (my_return_rate as i32 - 128) * 2;
        let intent_target: i16 = (if it < -256 {
            -256
        } else if it > 256 {
            256
        } else {
            it
        }) as i16;
        self.inferred_intent = q88_ema_update(self.inferred_intent, intent_target, INTENT_ALPHA);
        // How I think they see me.
        self.believed_seen_as = q88_ema_update(self.believed_seen_as, intent_target, SEEN_AS_ALPHA);
        // The tripwire: presentation in excess of substance.
        let over: i32 = obs.presentation as i32 - my_return_rate as i32 - SUSPICION_MARGIN as i32;
        let gap: i16 = (if over < 0 {
            0
        } else {
            over
        }) as i16;
        let target: i16 = if gap < Q88_SCALE {
            gap
        } else {
            Q88_SCALE
        };
        proof {
            lemma_ema_moves_toward_target(self.suspicion, target, SUSPICION_ALPHA);
        }
        self.suspicion = q88_ema_update(self.suspicion, target, SUSPICION_ALPHA);
    }

    /// How distressed the being reads the other to be: perceived arousal
    /// above the settled 1/2, never negative.
    pub fn perceived_distress(&self) -> (r: i16)
        ensures
            r == self.spec_distress(),
            r >= 0,
    {
        let d: i32 = self.perceived_arousal as i32 - 128;
        (if d < 0 {
            0
        } else {
            d
        }) as i16
    }

    /// Warmth the being is moved to extend beyond its baseline, toward a
    /// partner it reads as both suffering and sincere: distress times
    /// attunement times 1/3, capped at 1/4. None toward someone read as
    /// hostile or not yet read.
    pub fn soothing_impulse(&self) -> (r: i16)
        ensures
            self.inferred_intent < 0 || self.attunement < 128 ==> r == 0,
            !(self.inferred_intent < 0 || self.attunement < 128) ==> r == clamp_int(
                spec_q88_mul(spec_q88_mul(self.spec_distress(), self.attunement), 85) as int,
                0,
                64,
            ),
            0 <= r <= Q88_SCALE / 4,
    {
        if self.inferred_intent < 0 || self.attunement < Q88_SCALE / 2 {
            return 0;
        }
        let distress = self.perceived_distress();
        let scaled = q88_mul(q88_mul(distress, self.attunement), Q88_SCALE / 3);
        if scaled < 0 {
            0
        } else if scaled > Q88_SCALE / 4 {
            Q88_SCALE / 4
        } else {
            scaled
        }
    }
}

} // verus!
