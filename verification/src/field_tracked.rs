//! The somatic field: twelve channels, each of which carries its own meaning.
//!
//! Nothing downstream has to remember by convention that channel 9 is valence:
//! the channel says so itself, and callers read and inject by `Meaning`, not
//! by index. Every value arrives tagged with where it came from and how far
//! to trust it.
use vstd::prelude::*;
use crate::body::{Body, spec_features};
use crate::q88::{Q8_8, sat16, trunc_div};
use crate::tracked_value::{Meaning, Provenance, TrackedValue, spec_injected};

verus! {

pub const N_SOMATIC: usize = 12;

#[derive(Clone, Copy, Debug)]
pub struct SomaticField {
    pub ch: [TrackedValue; N_SOMATIC],
}

/// The meaning each slot is declared with: exteroceptive, proprioceptive,
/// then interoceptive channels.
pub open spec fn default_meaning(i: int) -> Meaning {
    if i == 0 {
        Meaning::LoadSalience
    } else if i == 1 {
        Meaning::Anisotropy
    } else if i == 2 {
        Meaning::Breach
    } else if i == 3 {
        Meaning::MeanTension
    } else if i == 4 {
        Meaning::Arousal
    } else if i == 5 {
        Meaning::Stability
    } else if i == 6 {
        Meaning::Coherence
    } else if i == 7 {
        Meaning::Trust
    } else if i == 8 {
        Meaning::FeltArousal
    } else if i == 9 {
        Meaning::Valence
    } else if i == 10 {
        Meaning::Fatigue
    } else {
        Meaning::FreeEnergyVelocity
    }
}

/// Index of the first channel at or after `i` that carries meaning `m`,
/// or -1 when there is none.
pub open spec fn find_meaning_from(s: Seq<TrackedValue>, m: Meaning, i: int) -> int
    decreases s.len() - i,
{
    if i < 0 || i >= s.len() {
        -1
    } else if s[i].meaning == m {
        i
    } else {
        find_meaning_from(s, m, i + 1)
    }
}

/// Index of the first channel that carries meaning `m`, or -1.
pub open spec fn meaning_index(s: Seq<TrackedValue>, m: Meaning) -> int {
    find_meaning_from(s, m, 0)
}

/// The raw value read by meaning: 0 when no channel carries it.
pub open spec fn spec_raw(s: Seq<TrackedValue>, m: Meaning) -> i16 {
    let i = meaning_index(s, m);
    if i >= 0 {
        s[i].raw
    } else {
        0
    }
}

/// The channels after a mind injection by meaning.
pub open spec fn spec_field_inject(s: Seq<TrackedValue>, m: Meaning, delta: i16) -> Seq<TrackedValue> {
    let i = meaning_index(s, m);
    if i >= 0 {
        s.update(i, spec_injected(s[i], delta))
    } else {
        s
    }
}

/// Sum of the raw values of the first `n` channels.
pub open spec fn raw_sum(s: Seq<TrackedValue>, n: int) -> int
    decreases n,
{
    if n <= 0 {
        0
    } else {
        raw_sum(s, n - 1) + s[n - 1].raw
    }
}

/// Sum of squared deviations from `mean` of the first `n` raw values.
pub open spec fn raw_sq_dev_sum(s: Seq<TrackedValue>, mean: int, n: int) -> int
    decreases n,
{
    if n <= 0 {
        0
    } else {
        raw_sq_dev_sum(s, mean, n - 1) + (s[n - 1].raw - mean) * (s[n - 1].raw - mean)
    }
}

pub open spec fn spec_mean_intensity(s: Seq<TrackedValue>) -> i16 {
    trunc_div(raw_sum(s, 12), 12) as i16
}

pub open spec fn spec_variance(s: Seq<TrackedValue>) -> i16 {
    let mean = spec_mean_intensity(s) as int;
    let q = (raw_sq_dev_sum(s, mean, 12) / 12) / 256;
    (if q > i16::MAX {
        i16::MAX as int
    } else {
        q
    }) as i16
}

/// The body's reading for channel `i`: the vote.
pub open spec fn body_vote(b: Body, fe_velocity: i16, i: int) -> i16 {
    let f = spec_features(b.topology.tension@);
    if i == 0 {
        let d = sat16(f.disequilibrium.raw * 2);
        if d < 255 {
            d
        } else {
            255
        }
    } else if i == 1 {
        f.anisotropy.raw
    } else if i == 2 {
        if f.breach.raw < 255 {
            f.breach.raw
        } else {
            255
        }
    } else if i == 3 {
        f.mean_tension.raw
    } else if i == 4 {
        if b.arousal.raw < 255 {
            b.arousal.raw
        } else {
            255
        }
    } else if i == 5 {
        b.stability.raw
    } else if i == 6 {
        b.coherence.raw
    } else if i == 7 {
        b.trust.raw
    } else if i == 8 {
        crate::q88::clamp_int(b.arousal.raw as int, 0, 255) as i16
    } else if i == 9 {
        b.valence.raw
    } else if i == 10 {
        crate::q88::clamp_int(sat16(256 - b.energy.raw) as int, 0, 256) as i16
    } else {
        fe_velocity
    }
}

proof fn lemma_sq_dev_monotone(s: Seq<TrackedValue>, mean: int, a: int, b: int)
    requires
        0 <= a <= b,
    ensures
        0 <= raw_sq_dev_sum(s, mean, a) <= raw_sq_dev_sum(s, mean, b),
    decreases b - a,
{
    if a < b {
        lemma_sq_dev_monotone(s, mean, a, b - 1);
        let d = s[b - 1].raw - mean;
        assert(d * d >= 0) by (nonlinear_arith);
    } else {
        lemma_sq_dev_nonneg(s, mean, a);
    }
}

proof fn lemma_sq_dev_nonneg(s: Seq<TrackedValue>, mean: int, n: int)
    ensures
        0 <= raw_sq_dev_sum(s, mean, n),
    decreases n,
{
    if n > 0 {
        lemma_sq_dev_nonneg(s, mean, n - 1);
        let d = s[n - 1].raw - mean;
        assert(d * d >= 0) by (nonlinear_arith);
    }
}

/// The body reading each meaning names: load (twice the disequilibrium),
/// anisotropy, breach and mean tension from the grid; arousal, stability,
/// coherence and trust from the posture; felt arousal, valence, fatigue
/// (1 - energy) and the free-energy velocity from the oscillator. Readings are
/// capped where the body caps them. No reading is learned.
pub open spec fn reading_for(m: Meaning, b: Body, fe_velocity: i16) -> i16 {
    let f = spec_features(b.topology.tension@);
    match m {
        Meaning::LoadSalience => crate::q88::clamp_int(
            sat16(f.disequilibrium.raw * 2) as int,
            i16::MIN as int,
            255,
        ) as i16,
        Meaning::Anisotropy => f.anisotropy.raw,
        Meaning::Breach => crate::q88::clamp_int(f.breach.raw as int, i16::MIN as int, 255) as i16,
        Meaning::MeanTension => f.mean_tension.raw,
        Meaning::Arousal => crate::q88::clamp_int(b.arousal.raw as int, i16::MIN as int, 255) as i16,
        Meaning::Stability => b.stability.raw,
        Meaning::Coherence => b.coherence.raw,
        Meaning::Trust => b.trust.raw,
        Meaning::FeltArousal => crate::q88::clamp_int(b.arousal.raw as int, 0, 255) as i16,
        Meaning::Valence => b.valence.raw,
        Meaning::Fatigue => crate::q88::clamp_int(sat16(256 - b.energy.raw) as int, 0, 256) as i16,
        Meaning::FreeEnergyVelocity => fe_velocity,
        Meaning::Learned(_) => 0,
    }
}

/// The channels after the body's vote is written into `s` with confidence
/// `conf`: slot `i` gets the `i`-th reading, keeps its meaning, and is marked
/// as read from the body.
pub open spec fn spec_written(s: Seq<TrackedValue>, b: Body, fe_velocity: i16, conf: i16) -> Seq<
    TrackedValue,
> {
    Seq::new(
        12,
        |i: int|
            TrackedValue {
                raw: body_vote(b, fe_velocity, i),
                meaning: s[i].meaning,
                provenance: Provenance::BodyRead,
                confidence: conf,
            },
    )
}

/// The channels carry the declared layout of meanings.
pub open spec fn has_default_layout(s: Seq<TrackedValue>) -> bool {
    &&& s.len() == 12
    &&& forall|i: int| 0 <= i < 12 ==> s[i].meaning == default_meaning(i)
}

/// In the declared layout, each meaning is found at its own slot.
proof fn lemma_default_layout_index(s: Seq<TrackedValue>, i: int)
    requires
        has_default_layout(s),
        0 <= i < 12,
    ensures
        meaning_index(s, default_meaning(i)) == i,
{
    lemma_find_meaning(s, default_meaning(i), 0);
    let k = meaning_index(s, default_meaning(i));
    assert(s[i].meaning == default_meaning(i));
    if k != i {
        assert(0 <= k < 12);
        assert(default_meaning(k) == default_meaning(i));
    }
}

/// The vote lands by meaning: after the body's state is written into a field
/// with the declared layout, reading any meaning gives the body reading that
/// meaning names, from the body's read confidence.
pub proof fn lemma_vote_lands_by_meaning(
    s: Seq<TrackedValue>,
    b: Body,
    fe_velocity: i16,
    conf: i16,
    i: int,
)
    requires
        has_default_layout(s),
        0 <= i < 12,
    ensures
        spec_raw(spec_written(s, b, fe_velocity, conf), default_meaning(i)) == reading_for(
            default_meaning(i),
            b,
            fe_velocity,
        ),
        has_default_layout(spec_written(s, b, fe_velocity, conf)),
        spec_raw(spec_written(s, b, fe_velocity, conf), Meaning::Learned(0)) == 0,
{
    let w = spec_written(s, b, fe_velocity, conf);
    assert(has_default_layout(w));
    lemma_default_layout_index(w, i);
    lemma_find_meaning(w, Meaning::Learned(0), 0);
    let k = meaning_index(w, Meaning::Learned(0));
    if k != -1 {
        assert(w[k].meaning == default_meaning(k));
        assert(!(default_meaning(k) is Learned));
    }
}

/// Reading by meaning finds the first channel that carries the meaning.
pub proof fn lemma_find_meaning(s: Seq<TrackedValue>, m: Meaning, i: int)
    requires
        0 <= i <= s.len(),
    ensures
        find_meaning_from(s, m, i) == -1 ==> forall|j: int| i <= j < s.len() ==> s[j].meaning != m,
        find_meaning_from(s, m, i) != -1 ==> {
            let k = find_meaning_from(s, m, i);
            &&& i <= k < s.len()
            &&& s[k].meaning == m
            &&& forall|j: int| i <= j < k ==> s[j].meaning != m
        },
    decreases s.len() - i,
{
    if i < s.len() {
        lemma_find_meaning(s, m, i + 1);
    }
}

/// Finding by meaning only looks at meanings, so a change that keeps every
/// channel's meaning keeps every lookup.
proof fn lemma_find_meaning_stable(s: Seq<TrackedValue>, t: Seq<TrackedValue>, m: Meaning, i: int)
    requires
        s.len() == t.len(),
        forall|j: int| 0 <= j < s.len() ==> s[j].meaning == t[j].meaning,
    ensures
        find_meaning_from(s, m, i) == find_meaning_from(t, m, i),
    decreases s.len() - i,
{
    if 0 <= i < s.len() {
        lemma_find_meaning_stable(s, t, m, i + 1);
    }
}

/// What an injection by meaning writes, a read by that meaning gives back;
/// every other meaning reads as before.
pub proof fn lemma_inject_then_read(s: Seq<TrackedValue>, m: Meaning, delta: i16, other: Meaning)
    ensures
        meaning_index(s, m) >= 0 ==> spec_raw(spec_field_inject(s, m, delta), m) == sat16(
            spec_raw(s, m) + delta,
        ),
        meaning_index(s, m) < 0 ==> spec_field_inject(s, m, delta) == s,
        other != m ==> spec_raw(spec_field_inject(s, m, delta), other) == spec_raw(s, other),
{
    let t = spec_field_inject(s, m, delta);
    lemma_find_meaning(s, m, 0);
    lemma_find_meaning_stable(s, t, m, 0);
    lemma_find_meaning_stable(s, t, other, 0);
    lemma_find_meaning(s, other, 0);
}

impl Default for SomaticField {
    /// Each slot declared with its meaning fixed: the inherited structure.
    fn default() -> (r: SomaticField)
        ensures
            forall|i: int|
                0 <= i < 12 ==> r.ch[i] == TrackedValue::spec_declare(default_meaning(i)),
    {
        SomaticField {
            ch: [
                TrackedValue::declare(Meaning::LoadSalience),
                TrackedValue::declare(Meaning::Anisotropy),
                TrackedValue::declare(Meaning::Breach),
                TrackedValue::declare(Meaning::MeanTension),
                TrackedValue::declare(Meaning::Arousal),
                TrackedValue::declare(Meaning::Stability),
                TrackedValue::declare(Meaning::Coherence),
                TrackedValue::declare(Meaning::Trust),
                TrackedValue::declare(Meaning::FeltArousal),
                TrackedValue::declare(Meaning::Valence),
                TrackedValue::declare(Meaning::Fatigue),
                TrackedValue::declare(Meaning::FreeEnergyVelocity),
            ],
        }
    }
}

impl SomaticField {
    /// Read a channel by meaning, not by index: the first channel that
    /// carries `m`, or `None`.
    pub fn get(&self, m: Meaning) -> (r: Option<&TrackedValue>)
        ensures
            meaning_index(self.ch@, m) >= 0 ==> r == Some(&self.ch[meaning_index(self.ch@, m)]),
            meaning_index(self.ch@, m) < 0 ==> r.is_none(),
    {
        let mut i: usize = 0;
        while i < N_SOMATIC
            invariant
                i <= N_SOMATIC,
                find_meaning_from(self.ch@, m, 0) == find_meaning_from(self.ch@, m, i as int),
            decreases N_SOMATIC - i,
        {
            if self.ch[i].meaning == m {
                return Some(&self.ch[i]);
            }
            i = i + 1;
        }
        None
    }

    /// The raw Q8.8 for a meaning (0 if absent).
    pub fn raw(&self, m: Meaning) -> (r: i16)
        ensures
            r == spec_raw(self.ch@, m),
    {
        match self.get(m) {
            Some(t) => t.raw,
            None => 0,
        }
    }

    /// Mean of the twelve raw values, rounded toward zero.
    pub fn mean_intensity(&self) -> (r: i16)
        ensures
            r == spec_mean_intensity(self.ch@),
    {
        let mut s: i32 = 0;
        let mut i: usize = 0;
        while i < N_SOMATIC
            invariant
                i <= N_SOMATIC,
                s == raw_sum(self.ch@, i as int),
                -32768 * i <= s <= 32767 * i,
            decreases N_SOMATIC - i,
        {
            s = s + self.ch[i].raw as i32;
            i = i + 1;
        }
        let q: i32 = s / 12;
        assert(-32768 <= q <= 32767) by (nonlinear_arith)
            requires
                q == trunc_div(s as int, 12),
                -32768 * 12 <= s <= 32767 * 12,
        ;
        q as i16
    }

    /// Variance of the twelve raw values, in Q8.8, capped at `i16::MAX`.
    /// The sum of squared deviations must fit an `i32`.
    pub fn variance(&self) -> (r: i16)
        requires
            raw_sq_dev_sum(self.ch@, spec_mean_intensity(self.ch@) as int, 12) <= i32::MAX,
        ensures
            r == spec_variance(self.ch@),
            r >= 0,
    {
        let mean = self.mean_intensity() as i32;
        let ghost total = raw_sq_dev_sum(self.ch@, mean as int, 12);
        let mut s: i32 = 0;
        let mut i: usize = 0;
        while i < N_SOMATIC
            invariant
                i <= N_SOMATIC,
                -32768 <= mean <= 32767,
                total == raw_sq_dev_sum(self.ch@, mean as int, 12),
                total <= i32::MAX,
                s == raw_sq_dev_sum(self.ch@, mean as int, i as int),
            decreases N_SOMATIC - i,
        {
            let d: i32 = self.ch[i].raw as i32 - mean;
            proof {
                lemma_sq_dev_monotone(self.ch@, mean as int, i + 1, 12);
                lemma_sq_dev_monotone(self.ch@, mean as int, 0, i as int);
                assert(raw_sq_dev_sum(self.ch@, mean as int, i + 1) == s + d * d);
            }
            s = s + d * d;
            i = i + 1;
        }
        proof {
            lemma_sq_dev_monotone(self.ch@, mean as int, 0, 12);
        }
        let s12: i32 = s / 12;
        let q: i32 = s12 >> 8;
        assert(q * 256 <= s12 && s12 < q * 256 + 256) by (bit_vector)
            requires
                q == s12 >> 8,
        ;
        (if q > i16::MAX as i32 {
            i16::MAX as i32
        } else {
            q
        }) as i16
    }

    /// Write the body's state into the field: the vote. Each reading is
    /// tagged `BodyRead` and carries confidence `conf`; slot meanings stay.
    pub fn write_from_body(&mut self, b: &Body, fe_velocity: i16, conf: i16)
        ensures
            final(self).ch@ == spec_written(old(self).ch@, *b, fe_velocity, conf),
            forall|i: int|
                0 <= i < 12 ==> final(self).ch[i] == (TrackedValue {
                    raw: body_vote(*b, fe_velocity, i),
                    meaning: old(self).ch[i].meaning,
                    provenance: Provenance::BodyRead,
                    confidence: conf,
                }),
    {
        let f = b.topology.extract_features();
        // Exteroception: the topology's spatial reading of incoming load.
        let d2 = crate::q88::q88_add(f.disequilibrium.raw, f.disequilibrium.raw);
        self.ch[0].body_read(if d2 < 255 { d2 } else { 255 }, conf);
        self.ch[1].body_read(f.anisotropy.raw, conf);
        self.ch[2].body_read(if f.breach.raw < 255 { f.breach.raw } else { 255 }, conf);
        self.ch[3].body_read(f.mean_tension.raw, conf);
        // Proprioception: the body's sense of its own posture.
        self.ch[4].body_read(if b.arousal.raw < 255 { b.arousal.raw } else { 255 }, conf);
        self.ch[5].body_read(b.stability.raw, conf);
        self.ch[6].body_read(b.coherence.raw, conf);
        self.ch[7].body_read(b.trust.raw, conf);
        // Interoception: the oscillator itself.
        self.ch[8].body_read(Q8_8::from_raw(b.arousal.raw).clamp(Q8_8 { raw: 0 }, Q8_8 { raw: 255 }).raw, conf);
        self.ch[9].body_read(b.valence.raw, conf);
        self.ch[10].body_read(
            Q8_8 { raw: 256 }.sub(b.energy).clamp(Q8_8 { raw: 0 }, Q8_8 { raw: 256 }).raw,
            conf,
        );
        self.ch[11].body_read(fe_velocity, conf);
        assert(self.ch@ =~= spec_written(old(self).ch@, *b, fe_velocity, conf));
    }

    /// Inject a signal into the channel that carries meaning `m` (mind
    /// feedback), marking it mind-injected; nothing happens if none does.
    pub fn inject(&mut self, m: Meaning, delta: i16)
        ensures
            final(self).ch@ == spec_field_inject(old(self).ch@, m, delta),
    {
        let mut i: usize = 0;
        while i < N_SOMATIC
            invariant
                i <= N_SOMATIC,
                self.ch == old(self).ch,
                find_meaning_from(self.ch@, m, 0) == find_meaning_from(self.ch@, m, i as int),
            decreases N_SOMATIC - i,
        {
            if self.ch[i].meaning == m {
                self.ch[i].inject(delta);
                assert(self.ch@ =~= spec_field_inject(old(self).ch@, m, delta));
                return;
            }
            i = i + 1;
        }
    }
}

} // verus!
