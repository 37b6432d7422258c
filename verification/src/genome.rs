//! Genome: the five parameters that make a being type distinct.
//!
//! | Parameter      | Default | Range          | What it changes            |
//! |----------------|---------|----------------|----------------------------|
//! | target_arousal | 0.8     | [0.3, 1.5]     | Homeostatic setpoint       |
//! | resting_mu     | -0.2    | [-0.5, -0.05]  | Baseline oscillator damping|
//! | k_resilience   | 0.3     | [0.1, 0.5]     | Resilience weight          |
//! | learning_rate  | 0.1     | [0.02, 0.3]    | Adaptation speed           |
//! | mesh_coupling  | 0.02    | [0.005, 0.05]  | Body diffusion rate        |
//!
//! All values are raw Q8.8 (1.0 == 256), rounded to the nearest 1/256.
use vstd::prelude::*;
use crate::q88::{Q8_8, Q88_SCALE};

verus! {

#[derive(Clone, Copy, PartialEq, Eq, Structural, Debug)]
pub enum BeingKind {
    Blank,
    /// Hyper-aroused, reactive, fast-learning, expressive.
    Spark,
    /// Hypo-aroused, stoic, slow-learning, deeply contained.
    Sentinel,
    /// Curious, exploratory, moderate everything but restless.
    Wanderer,
}

/// Five parameters and a human-facing label.
#[derive(Clone, Copy, Debug, PartialEq)]
pub struct Genome {
    pub target_arousal: Q8_8,
    pub resting_mu: Q8_8,
    pub k_resilience: Q8_8,
    pub learning_rate: Q8_8,
    pub mesh_coupling: Q8_8,
    pub kind: BeingKind,
}

/// A genome from raw Q8.8 parameters.
pub open spec fn genome_of(
    target_arousal: int,
    resting_mu: int,
    k_resilience: int,
    learning_rate: int,
    mesh_coupling: int,
    kind: BeingKind,
) -> Genome {
    Genome {
        target_arousal: Q8_8 { raw: target_arousal as i16 },
        resting_mu: Q8_8 { raw: resting_mu as i16 },
        k_resilience: Q8_8 { raw: k_resilience as i16 },
        learning_rate: Q8_8 { raw: learning_rate as i16 },
        mesh_coupling: Q8_8 { raw: mesh_coupling as i16 },
        kind,
    }
}

/// Defaults: 0.8, -0.2, 0.3, 0.1, 0.02.
pub open spec fn spec_blank() -> Genome {
    genome_of(205, -51, 77, 26, 5, BeingKind::Blank)
}

/// Spark: 1.2, -0.1, 0.15, 0.25, 0.04.
pub open spec fn spec_spark() -> Genome {
    genome_of(307, -26, 38, 64, 10, BeingKind::Spark)
}

/// Sentinel: 0.4, -0.4, 0.4, 0.05, 0.01.
pub open spec fn spec_sentinel() -> Genome {
    genome_of(102, -102, 102, 13, 3, BeingKind::Sentinel)
}

/// Wanderer: 0.9, -0.25, 0.28, 0.18, 0.05.
pub open spec fn spec_wanderer() -> Genome {
    genome_of(230, -64, 72, 46, 13, BeingKind::Wanderer)
}

/// The documented parameter ranges, in raw Q8.8.
pub open spec fn in_documented_ranges(g: Genome) -> bool {
    &&& 77 <= g.target_arousal.raw <= 384
    &&& -128 <= g.resting_mu.raw <= -13
    &&& 26 <= g.k_resilience.raw <= 128
    &&& 5 <= g.learning_rate.raw <= 77
    &&& 1 <= g.mesh_coupling.raw <= 13
}

/// Temperamental heat: (target_arousal - 0.8) / 0.7, clamped to [-1, 1].
pub open spec fn spec_temperament(g: Genome) -> Q8_8 {
    g.target_arousal.spec_sub(Q8_8 { raw: 205 }).spec_div(Q8_8 { raw: 179 }).spec_clamp(
        Q8_8 { raw: -256i16 },
        Q8_8 { raw: 256 },
    )
}

/// Groundedness: (-resting_mu - 0.05) / 0.45, clamped to [0, 1].
pub open spec fn spec_groundedness(g: Genome) -> Q8_8 {
    g.resting_mu.spec_neg().spec_sub(Q8_8 { raw: 13 }).spec_div(Q8_8 { raw: 115 }).spec_clamp(
        Q8_8 { raw: 0 },
        Q8_8 { raw: 256 },
    )
}

impl Genome {
    pub fn blank() -> (r: Genome)
        ensures
            r == spec_blank(),
    {
        Genome {
            target_arousal: Q8_8 { raw: 205 },
            resting_mu: Q8_8 { raw: -51 },
            k_resilience: Q8_8 { raw: 77 },
            learning_rate: Q8_8 { raw: 26 },
            mesh_coupling: Q8_8 { raw: 5 },
            kind: BeingKind::Blank,
        }
    }

    /// Spark: near-critical, low resilience, fast learner.
    pub fn spark() -> (r: Genome)
        ensures
            r == spec_spark(),
    {
        Genome {
            target_arousal: Q8_8 { raw: 307 },
            resting_mu: Q8_8 { raw: -26 },
            k_resilience: Q8_8 { raw: 38 },
            learning_rate: Q8_8 { raw: 64 },
            mesh_coupling: Q8_8 { raw: 10 },
            kind: BeingKind::Spark,
        }
    }

    /// Sentinel: deeply stable, high resilience, slow.
    pub fn sentinel() -> (r: Genome)
        ensures
            r == spec_sentinel(),
    {
        Genome {
            target_arousal: Q8_8 { raw: 102 },
            resting_mu: Q8_8 { raw: -102 },
            k_resilience: Q8_8 { raw: 102 },
            learning_rate: Q8_8 { raw: 13 },
            mesh_coupling: Q8_8 { raw: 3 },
            kind: BeingKind::Sentinel,
        }
    }

    /// Wanderer: a middle temperament with strong curiosity and diffusion.
    pub fn wanderer() -> (r: Genome)
        ensures
            r == spec_wanderer(),
    {
        Genome {
            target_arousal: Q8_8 { raw: 230 },
            resting_mu: Q8_8 { raw: -64 },
            k_resilience: Q8_8 { raw: 72 },
            learning_rate: Q8_8 { raw: 46 },
            mesh_coupling: Q8_8 { raw: 13 },
            kind: BeingKind::Wanderer,
        }
    }

    /// A scalar in [-1, 1]: positive for aroused, reactive types, negative
    /// for cool, contained ones.
    pub fn temperament(&self) -> (r: Q8_8)
        ensures
            r == spec_temperament(*self),
            -Q88_SCALE <= r.raw <= Q88_SCALE,
    {
        let centered = self.target_arousal.sub(Q8_8 { raw: 205 });
        centered.div(Q8_8 { raw: 179 }).clamp(Q8_8 { raw: -256 }, Q8_8 { raw: 256 })
    }

    /// How strongly this being clings to stability, in [0, 1].
    pub fn groundedness(&self) -> (r: Q8_8)
        ensures
            r == spec_groundedness(*self),
            0 <= r.raw <= Q88_SCALE,
    {
        let g = self.resting_mu.neg().sub(Q8_8 { raw: 13 });
        g.div(Q8_8 { raw: 115 }).clamp(Q8_8 { raw: 0 }, Q8_8 { raw: 256 })
    }
}

impl Default for Genome {
    fn default() -> (r: Genome)
        ensures
            r == spec_blank(),
    {
        Genome::blank()
    }
}

/// Every named genome lies inside the documented parameter ranges.
pub proof fn lemma_presets_in_documented_ranges()
    ensures
        in_documented_ranges(spec_blank()),
        in_documented_ranges(spec_spark()),
        in_documented_ranges(spec_sentinel()),
        in_documented_ranges(spec_wanderer()),
{
}

} // verus!
