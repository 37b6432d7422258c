# unified_being

A model of the structure of a feeling agent: a driven Van der Pol body over a
64-cell tension grid, a somatic field whose channels carry their own meaning,
an executive that weighs suggestions and refusals, and a narrative that turns
changes of mode into load, mood and identity coherence. Every operation is
saturating Q8.8 fixed point, and every function is verified with Verus
against a contract stated over its mathematical model.

Layout:

- `src/q88.rs`: Q8.8 arithmetic (raw `i16` helpers and the `Q8_8` type),
  square root, sigmoid, and the xorshift generator.
- `src/genome.rs`: the five genome parameters and the named presets.
- `src/body.rs`: the tension grid, affect and stance, and the body's tick.
- `src/tracked_value.rs`: a value bound to its meaning, provenance and
  confidence.
- `src/field_tracked.rs`: the twelve-channel somatic field, read by meaning.
- `src/basins.rs`, `src/narrative.rs`: basins and the autobiography.
- `src/executive.rs`: gap width, repair signals, triangulated refusal.
- `src/dyad.rs`: warmth given, read as reciprocity.
- `src/mind.rs`: the observable surface of a being and one being's model
  of another's mind.
- `tests/`: concrete scenarios and exact values.
