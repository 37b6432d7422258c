use unified_being::tracked_value::{Meaning, Provenance, TrackedValue};

#[test]
fn a_tracked_value_reports_what_it_is() {
    let mut v = TrackedValue::declare(Meaning::Valence);
    assert_eq!(v.provenance, Provenance::Inherited);
    assert_eq!(v.confidence, 0); // not earned yet

    v.body_read(128, 256); // 0.5, full confidence
    assert_eq!(v.value().raw as f32 / 256.0, 0.5);
    assert_eq!(v.provenance, Provenance::BodyRead);
    assert_eq!(v.meaning, Meaning::Valence); // meaning is intrinsic, not by index
}

#[test]
fn confidence_weights_the_signal() {
    let mut v = TrackedValue::declare(Meaning::LoadSalience);
    v.body_read(256, 128); // value 1.0, confidence 0.5
    assert_eq!(v.weighted(), 128); // trusted at half strength
}

#[test]
fn learned_is_the_only_path_that_marks_understanding() {
    let mut v = TrackedValue::declare(Meaning::Learned(0));
    v.learn(200, 200);
    assert_eq!(v.provenance, Provenance::Learned); // grown, not given
}

#[test]
fn other_paths_never_mark_learned() {
    let mut v = TrackedValue::declare(Meaning::Trust);
    assert_ne!(v.provenance, Provenance::Learned);
    v.body_read(10, 20);
    assert_ne!(v.provenance, Provenance::Learned);
    v.inject(5);
    assert_eq!(v.provenance, Provenance::MindInjected);
    assert_eq!(v.raw, 15);
    assert_eq!(v.confidence, 20);
    v.learn(-3, 256);
    assert_eq!((v.raw, v.confidence, v.meaning), (-3, 256, Meaning::Trust));
}

#[test]
fn inject_saturates() {
    let mut v = TrackedValue::declare(Meaning::Fatigue);
    v.body_read(i16::MAX - 1, 256);
    v.inject(100);
    assert_eq!(v.raw, i16::MAX);
    v.body_read(i16::MIN + 1, 256);
    v.inject(-100);
    assert_eq!(v.raw, i16::MIN);
}

#[test]
fn weighting_never_amplifies() {
    let mut v = TrackedValue::declare(Meaning::Valence);
    v.body_read(-300, 64);
    assert_eq!(v.weighted(), -75);
    v.body_read(-1, 1);
    assert_eq!(v.weighted(), -1);
    v.body_read(300, 0);
    assert_eq!(v.weighted(), 0);
    v.body_read(300, 256);
    assert_eq!(v.weighted(), 300);
}

#[test]
fn names_are_legible() {
    assert_eq!(Meaning::Valence.name(), "valence        (intero)");
    assert_eq!(Meaning::LoadSalience.name(), "load-salience  (extero)");
    assert_eq!(Meaning::Trust.name(), "trust          (proprio)");
    assert_eq!(Meaning::FreeEnergyVelocity.name(), "fe-velocity    (intero)");
    assert_eq!(Meaning::Learned(7).name(), "learned-concept");
    assert_eq!(Provenance::Inherited.name(), "inherited");
    assert_eq!(Provenance::BodyRead.name(), "body-read");
    assert_eq!(Provenance::MindInjected.name(), "mind-injected");
    assert_eq!(Provenance::Learned.name(), "learned");
}
