//! A model of the structure of a feeling agent, in verified fixed point.
//!
//! The body (`body`) is a driven Van der Pol oscillator over a 64-cell
//! tension grid, whose damping is set by a four-factor constitution; its
//! readings are written into a somatic field (`field_tracked`) of channels
//! that carry their own meaning (`tracked_value`). The mind's executive
//! (`executive`) evaluates suggestions and refusals, and the narrative
//! (`narrative`) compresses changes of basin (`basins`) into load, mood and
//! identity coherence. One being's model of another (`mind`) is built only
//! from what can be observed. All arithmetic is saturating Q8.8 (`q88`); the
//! genome (`genome`) sets the parameters that make each being distinct.
pub mod q88;
pub mod genome;
pub mod body;
pub mod tracked_value;
pub mod field_tracked;
pub mod basins;
pub mod narrative;
pub mod executive;
pub mod dyad;
pub mod mind;
