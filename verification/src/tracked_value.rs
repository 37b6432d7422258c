//! TrackedValue: a value that knows what it is.
//!
//! A bare `i16` is a number with no idea what it represents. A `TrackedValue` is
//! the same raw Q8.8 bound to what it is about (`Meaning`), where the value
//! came from (`Provenance`), and how far the being should trust it
//! (`confidence`). `Provenance::Learned` is written only by `learn`.
use vstd::prelude::*;
use crate::q88::{Q8_8, q88_mul, spec_q88_mul};

verus! {

/// What a value is about: the property the channel tracks.
#[derive(Clone, Copy, PartialEq, Eq, Structural, Debug)]
pub enum Meaning {
    // Exteroceptive: the world as the body reads it.
    LoadSalience,
    Anisotropy,
    Breach,
    MeanTension,
    // Proprioceptive: the body's sense of its own posture.
    Arousal,
    Stability,
    Coherence,
    Trust,
    // Interoceptive: the oscillator's felt economy.
    FeltArousal,
    Valence,
    Fatigue,
    FreeEnergyVelocity,
    /// A representation the being earned rather than inherited: an index into
    /// a learned-concept table.
    Learned(u16),
}

/// The legible name of each meaning.
pub open spec fn meaning_name(m: Meaning) -> Seq<char> {
    match m {
        Meaning::LoadSalience => "load-salience  (extero)"@,
        Meaning::Anisotropy => "anisotropy     (extero)"@,
        Meaning::Breach => "breach         (extero)"@,
        Meaning::MeanTension => "mean-tension   (extero)"@,
        Meaning::Arousal => "arousal        (proprio)"@,
        Meaning::Stability => "stability      (proprio)"@,
        Meaning::Coherence => "coherence      (proprio)"@,
        Meaning::Trust => "trust          (proprio)"@,
        Meaning::FeltArousal => "arousal        (intero)"@,
        Meaning::Valence => "valence        (intero)"@,
        Meaning::Fatigue => "fatigue        (intero)"@,
        Meaning::FreeEnergyVelocity => "fe-velocity    (intero)"@,
        Meaning::Learned(_) => "learned-concept"@,
    }
}

impl Meaning {
    /// A legible name for this meaning.
    pub fn name(self) -> (r: &'static str)
        ensures
            r@ == meaning_name(self),
    {
        match self {
            Meaning::LoadSalience => "load-salience  (extero)",
            Meaning::Anisotropy => "anisotropy     (extero)",
            Meaning::Breach => "breach         (extero)",
            Meaning::MeanTension => "mean-tension   (extero)",
            Meaning::Arousal => "arousal        (proprio)",
            Meaning::Stability => "stability      (proprio)",
            Meaning::Coherence => "coherence      (proprio)",
            Meaning::Trust => "trust          (proprio)",
            Meaning::FeltArousal => "arousal        (intero)",
            Meaning::Valence => "valence        (intero)",
            Meaning::Fatigue => "fatigue        (intero)",
            Meaning::FreeEnergyVelocity => "fe-velocity    (intero)",
            Meaning::Learned(_) => "learned-concept",
        }
    }
}

/// How a value came to be.
#[derive(Clone, Copy, PartialEq, Eq, Structural, Debug)]
pub enum Provenance {
    /// A prior inherited in the seed, not earned (the genome).
    Inherited,
    /// Written by the body this tick: a fresh somatic reading.
    BodyRead,
    /// Injected by a mind module: conscience, seeking, narrative feedback.
    MindInjected,
    /// Earned by the being's own prediction-error history; written only by
    /// the learning path.
    Learned,
}

/// The legible name of each provenance.
pub open spec fn provenance_name(p: Provenance) -> Seq<char> {
    match p {
        Provenance::Inherited => "inherited"@,
        Provenance::BodyRead => "body-read"@,
        Provenance::MindInjected => "mind-injected"@,
        Provenance::Learned => "learned"@,
    }
}

impl Provenance {
    pub fn name(self) -> (r: &'static str)
        ensures
            r@ == provenance_name(self),
    {
        match self {
            Provenance::Inherited => "inherited",
            Provenance::BodyRead => "body-read",
            Provenance::MindInjected => "mind-injected",
            Provenance::Learned => "learned",
        }
    }
}

/// A value that knows what it is: raw Q8.8, bound to its meaning, its origin,
/// and the being's confidence in it (Q8.8 in [0, 1]).
#[derive(Clone, Copy, Debug)]
pub struct TrackedValue {
    pub raw: i16,
    pub meaning: Meaning,
    pub provenance: Provenance,
    pub confidence: i16,
}

/// The value after a mind injection of `delta`: saturating add, marked
/// mind-injected, meaning and confidence kept.
pub open spec fn spec_injected(t: TrackedValue, delta: i16) -> TrackedValue {
    TrackedValue {
        raw: crate::q88::sat16(t.raw + delta),
        meaning: t.meaning,
        provenance: Provenance::MindInjected,
        confidence: t.confidence,
    }
}

impl TrackedValue {
    pub open spec fn spec_declare(meaning: Meaning) -> TrackedValue {
        TrackedValue { raw: 0, meaning, provenance: Provenance::Inherited, confidence: 0 }
    }

    /// A freshly declared channel: meaning fixed by structure, no value yet,
    /// inherited provenance, zero confidence until experience earns it.
    pub fn declare(meaning: Meaning) -> (r: TrackedValue)
        ensures
            r == TrackedValue::spec_declare(meaning),
    {
        TrackedValue { raw: 0, meaning, provenance: Provenance::Inherited, confidence: 0 }
    }

    /// Set the value from a body reading, marking provenance and confidence.
    pub fn body_read(&mut self, raw: i16, confidence: i16)
        ensures
            *final(self) == (TrackedValue {
                raw,
                meaning: old(self).meaning,
                provenance: Provenance::BodyRead,
                confidence,
            }),
    {
        self.raw = raw;
        self.provenance = Provenance::BodyRead;
        self.confidence = confidence;
    }

    /// Add a mind injection, saturating.
    pub fn inject(&mut self, delta: i16)
        ensures
            *final(self) == spec_injected(*old(self), delta),
    {
        self.raw = crate::q88::q88_add(self.raw, delta);
        self.provenance = Provenance::MindInjected;
    }

    /// Write an earned value: the only path that sets `Provenance::Learned`.
    pub fn learn(&mut self, raw: i16, confidence: i16)
        ensures
            *final(self) == (TrackedValue {
                raw,
                meaning: old(self).meaning,
                provenance: Provenance::Learned,
                confidence,
            }),
    {
        self.raw = raw;
        self.provenance = Provenance::Learned;
        self.confidence = confidence;
    }

    /// The value as Q8.8.
    pub fn value(&self) -> (r: Q8_8)
        ensures
            r.raw == self.raw,
    {
        Q8_8::from_raw(self.raw)
    }

    /// Confidence-weighted value: a low-confidence channel contributes less.
    pub fn weighted(&self) -> (r: i16)
        ensures
            r == spec_q88_mul(self.raw, self.confidence),
    {
        q88_mul(self.raw, self.confidence)
    }
}

/// Weighting by a confidence in [0, 1] never amplifies a signal: the
/// weighted value lies between zero and the raw value.
pub proof fn lemma_confidence_never_amplifies(raw: i16, confidence: i16)
    requires
        0 <= confidence <= 256,
    ensures
        raw >= 0 ==> 0 <= spec_q88_mul(raw, confidence) <= raw,
        raw < 0 ==> raw <= spec_q88_mul(raw, confidence) <= 0,
{
    let p = raw * confidence;
    if raw >= 0 {
        assert(0 <= p <= raw * 256) by (nonlinear_arith)
            requires
                p == raw * confidence,
                raw >= 0,
                0 <= confidence <= 256,
        ;
    } else {
        assert(raw * 256 <= p <= 0) by (nonlinear_arith)
            requires
                p == raw * confidence,
                raw < 0,
                0 <= confidence <= 256,
        ;
    }
}

} // verus!
