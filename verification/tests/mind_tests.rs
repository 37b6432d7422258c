use unified_being::basins::Basin;
use unified_being::mind::{MindModel, Observable};

#[test]
fn projection_shows_only_the_surface() {
    let o = Observable::project(300, 50, Basin::Engaged);
    assert_eq!((o.shown_arousal, o.shown_warmth, o.presentation, o.withdrawn), (256, 50, 170, false));
    let r = Observable::project(100, -5, Basin::Rest);
    assert_eq!((r.shown_arousal, r.shown_warmth, r.presentation, r.withdrawn), (100, -5, 148, true));
    let d = Observable::project(-20, 0, Basin::Defensive);
    assert_eq!((d.shown_arousal, d.presentation, d.withdrawn), (0, 198, false));
    assert!(Observable::project(0, 0, Basin::Recovery).withdrawn);
}

#[test]
fn a_reciprocation_rate_presents_honestly() {
    let o = Observable::from_reciprocation(77);
    assert_eq!((o.shown_arousal, o.shown_warmth, o.presentation, o.withdrawn), (128, 77, 77, false));
}

#[test]
fn a_new_model_knows_nothing_yet() {
    let m = MindModel::new(9);
    assert_eq!(m.of_id, 9);
    assert_eq!((m.perceived_arousal, m.perceived_warmth, m.inferred_intent), (128, 0, 0));
    assert_eq!((m.attunement, m.believed_seen_as, m.suspicion, m.seen), (0, 0, 0, 0));
    assert_eq!(m.perceived_distress(), 0);
    assert_eq!(m.soothing_impulse(), 0);
}

#[test]
fn a_charmer_raises_suspicion_and_gets_no_warmth() {
    let mut m = MindModel::new(7);
    let charm = Observable { shown_arousal: 230, shown_warmth: 32, presentation: 235, withdrawn: false };
    for _ in 0..12 {
        m.observe(charm, 64);
    }
    assert_eq!(
        (m.perceived_arousal, m.perceived_warmth, m.attunement, m.inferred_intent, m.believed_seen_as, m.suspicion, m.seen),
        (214, 26, 156, -72, -60, 95, 12)
    );
    assert_eq!(m.perceived_distress(), 86);
    // Read as extractive: no soothing, however distressed.
    assert_eq!(m.soothing_impulse(), 0);
}

#[test]
fn a_kind_distressed_partner_is_soothed_within_the_cap() {
    let mut m = MindModel::new(1);
    for _ in 0..40 {
        m.observe(Observable::project(240, 200, Basin::Engaged), 220);
    }
    assert_eq!((m.perceived_arousal, m.perceived_warmth, m.attunement, m.inferred_intent), (234, 194, 240, 162));
    assert_eq!((m.believed_seen_as, m.suspicion), (147, 0));
    assert_eq!(m.perceived_distress(), 106);
    assert_eq!(m.soothing_impulse(), 32);
    assert!(m.soothing_impulse() <= 64);
}

#[test]
fn honesty_only_lets_suspicion_decay() {
    let mut m = MindModel::new(2);
    m.suspicion = 100;
    m.observe(Observable::from_reciprocation(64), 64);
    assert_eq!(m.suspicion, 89);
}

#[test]
fn an_extreme_gap_wraps_as_the_cast_does() {
    let mut m = MindModel::new(3);
    let o = Observable { shown_arousal: 0, shown_warmth: 0, presentation: i16::MAX, withdrawn: true };
    m.observe(o, i16::MIN);
    assert_eq!((m.suspicion, m.attunement, m.inferred_intent), (-5, 15, -16));
}

#[test]
fn distress_never_negative() {
    let mut m = MindModel::new(4);
    m.perceived_arousal = i16::MIN;
    assert_eq!(m.perceived_distress(), 0);
    m.perceived_arousal = i16::MAX;
    assert_eq!(m.perceived_distress(), i16::MAX - 128);
}
