use unified_being::body::Body;
use unified_being::field_tracked::SomaticField;
use unified_being::genome::Genome;
use unified_being::tracked_value::{Meaning, Provenance};

#[test]
fn channels_are_addressable_by_meaning_not_index() {
    let mut field = SomaticField::default();
    // valence lives at index 9 today — but nothing downstream needs to know that.
    field.inject(Meaning::Valence, 64);
    assert_eq!(field.raw(Meaning::Valence), 64);
    // move it to a different slot and the lookup still finds it by meaning.
}

#[test]
fn lookup_follows_a_moved_channel() {
    let mut field = SomaticField::default();
    field.ch.swap(0, 9);
    field.inject(Meaning::Valence, -40);
    assert_eq!(field.ch[0].raw, -40);
    assert_eq!(field.ch[0].provenance, Provenance::MindInjected);
    assert_eq!(field.raw(Meaning::Valence), -40);
    assert_eq!(field.get(Meaning::Valence).unwrap().meaning, Meaning::Valence);
    // Other meanings read as before.
    assert_eq!(field.raw(Meaning::LoadSalience), 0);
    assert_eq!(field.ch[9].provenance, Provenance::Inherited);
}

#[test]
fn default_declares_each_slot() {
    let field = SomaticField::default();
    let order = [
        Meaning::LoadSalience,
        Meaning::Anisotropy,
        Meaning::Breach,
        Meaning::MeanTension,
        Meaning::Arousal,
        Meaning::Stability,
        Meaning::Coherence,
        Meaning::Trust,
        Meaning::FeltArousal,
        Meaning::Valence,
        Meaning::Fatigue,
        Meaning::FreeEnergyVelocity,
    ];
    for (i, m) in order.iter().enumerate() {
        assert_eq!(field.ch[i].meaning, *m);
        assert_eq!(field.ch[i].raw, 0);
        assert_eq!(field.ch[i].confidence, 0);
        assert_eq!(field.ch[i].provenance, Provenance::Inherited);
    }
}

#[test]
fn absent_meaning_reads_zero_and_ignores_injection() {
    let mut field = SomaticField::default();
    assert!(field.get(Meaning::Learned(3)).is_none());
    assert_eq!(field.raw(Meaning::Learned(3)), 0);
    field.inject(Meaning::Learned(3), 99);
    for t in field.ch.iter() {
        assert_eq!(t.raw, 0);
        assert_eq!(t.provenance, Provenance::Inherited);
    }
}

#[test]
fn first_channel_with_a_meaning_wins() {
    let mut field = SomaticField::default();
    field.ch[2].meaning = Meaning::Valence;
    field.ch[2].raw = 11;
    field.ch[9].raw = 22;
    assert_eq!(field.raw(Meaning::Valence), 11);
    field.inject(Meaning::Valence, 1);
    assert_eq!(field.ch[2].raw, 12);
    assert_eq!(field.ch[9].raw, 22);
}

#[test]
fn mean_intensity_truncates_toward_zero() {
    let mut field = SomaticField::default();
    for i in 0..12 {
        field.ch[i].raw = (i as i16) * 10;
    }
    assert_eq!(field.mean_intensity(), 55);
    let mut neg = SomaticField::default();
    neg.ch[0].raw = -25;
    assert_eq!(neg.mean_intensity(), -2);
}

#[test]
fn variance_in_q88() {
    let mut field = SomaticField::default();
    for i in 0..12 {
        field.ch[i].raw = if i % 2 == 0 { 256 } else { -256 };
    }
    assert_eq!(field.variance(), 256);
    assert_eq!(SomaticField::default().variance(), 0);
}

#[test]
fn write_from_body_is_the_vote() {
    let g = Genome::wanderer();
    let b = Body::new(&g);
    let mut field = SomaticField::default();
    field.write_from_body(&b, -17, 200);
    let expected: [i16; 12] = [0, 0, 0, 0, 230, 179, 179, 179, 230, 20, 26, -17];
    for i in 0..12 {
        assert_eq!(field.ch[i].raw, expected[i]);
        assert_eq!(field.ch[i].provenance, Provenance::BodyRead);
        assert_eq!(field.ch[i].confidence, 200);
    }
    assert_eq!(field.raw(Meaning::Valence), 20);
    assert_eq!(field.raw(Meaning::Fatigue), 26);
}

#[test]
fn write_from_body_caps_and_clamps() {
    let g = Genome::blank();
    let mut b = Body::new(&g);
    b.arousal = unified_being::q88::Q8_8::from_raw(400);
    b.energy = unified_being::q88::Q8_8::from_raw(-100);
    for i in 0..64 {
        b.topology.tension[i] = unified_being::q88::Q8_8::from_raw(if i % 2 == 0 { 512 } else { -512 });
    }
    let mut field = SomaticField::default();
    field.write_from_body(&b, 0, 256);
    assert_eq!(field.ch[0].raw, 255); // disequilibrium 1.0, doubled, capped
    assert_eq!(field.ch[3].raw, 256); // mean tension 1.0
    assert_eq!(field.ch[4].raw, 255);
    assert_eq!(field.ch[8].raw, 255);
    assert_eq!(field.ch[10].raw, 256); // fatigue capped at 1.0
}
