use unified_being::basins::Basin;
use unified_being::field_tracked::SomaticField;
use unified_being::narrative::NarrativeEngine;
use unified_being::tracked_value::{Meaning, Provenance};

fn field_with_valence(v: i16) -> SomaticField {
    let mut f = SomaticField::default();
    f.ch[9].raw = v;
    f
}

#[test]
fn a_new_narrative_is_coherent_and_unburdened() {
    let n = NarrativeEngine::new();
    assert_eq!(n.episodes, 0);
    assert_eq!(n.identity_coherence, 256);
    assert_eq!((n.allostatic_load, n.mood_bias, n.narrative_burden), (0, 0, 0));
    assert_eq!(n.prev_basin, Basin::Rest);
}

#[test]
fn a_life_in_six_ticks() {
    let mut n = NarrativeEngine::new();
    let ticks = [
        (Basin::Rest, 10, 50, (0, 0, 1, 0, 0, 0, 248)),
        (Basin::Engaged, 40, 300, (1, 1, 1, 150, 40, 2, 240)),
        (Basin::Engaged, 40, -20, (1, 1, 2, 150, 40, 4, 232)),
        (Basin::Defensive, -60, -500, (2, 2, 1, 200, -10, 7, 224)),
        (Basin::Defensive, 0, 0, (2, 2, 2, 200, -10, 10, 217)),
        (Basin::Rest, 5, i16::MIN, (3, 3, 1, 5594, -5, 97, 210)),
    ];
    for (basin, valence, fe, e) in ticks.iter() {
        n.cycle(*basin, &field_with_valence(*valence), *fe);
        assert_eq!(
            (n.episodes, n.idx, n.cycles_in_basin, n.allostatic_load, n.mood_bias, n.narrative_burden, n.identity_coherence),
            (e.0, e.1 as usize, e.2, e.3, e.4, e.5, e.6)
        );
    }
    let last = n.ledger[2].unwrap();
    assert_eq!((last.from, last.to, last.catalyst, last.valence), (Basin::Defensive, Basin::Rest, i16::MAX, 5));

    let mut field = SomaticField::default();
    field.ch[8].raw = 100;
    field.ch[9].raw = 50;
    field.ch[10].raw = 20;
    n.apply_identity_reflection(&mut field);
    assert_eq!((field.ch[8].raw, field.ch[9].raw, field.ch[10].raw), (98, 49, 32));
    assert_eq!(field.raw(Meaning::Fatigue), 32);
    assert_eq!(field.ch[10].provenance, Provenance::MindInjected);
    assert_eq!(field.ch[0].provenance, Provenance::Inherited);
}

#[test]
fn the_ledger_keeps_the_last_eight_transitions() {
    let mut n = NarrativeEngine::new();
    let basins = [Basin::Engaged, Basin::Rest];
    for k in 0..10 {
        n.cycle(basins[k % 2], &field_with_valence(k as i16), (k as i16) * 10);
    }
    assert_eq!(n.episodes, 10);
    assert_eq!(n.idx, 2);
    // Slots 0 and 1 were overwritten by the ninth and tenth transitions.
    assert_eq!(n.ledger[0].unwrap().valence, 8);
    assert_eq!(n.ledger[1].unwrap().valence, 9);
    assert_eq!(n.ledger[2].unwrap().valence, 2);
    // Mean valence of 2..=9, mean catalyst of 20..=90 halved.
    assert_eq!(n.mood_bias, 5);
    assert_eq!(n.allostatic_load, 27);
}

#[test]
fn long_dwell_restores_coherence() {
    let mut n = NarrativeEngine::new();
    for k in 0..6 {
        let b = if k % 2 == 0 { Basin::Engaged } else { Basin::Defensive };
        n.cycle(b, &field_with_valence(0), 0);
    }
    let churned = n.identity_coherence;
    assert!(churned < 256);
    for _ in 0..400 {
        n.cycle(Basin::Defensive, &field_with_valence(0), 0);
        assert!(n.identity_coherence >= 0 && n.identity_coherence <= 256);
    }
    assert!(n.identity_coherence > churned);
}

#[test]
fn only_changes_of_basin_are_episodes() {
    let mut n = NarrativeEngine::new();
    let run = [
        Basin::Rest, Basin::Rest, Basin::Engaged, Basin::Engaged, Basin::Recovery, Basin::Rest, Basin::Rest,
        Basin::Defensive,
    ];
    for b in run.iter() {
        n.cycle(*b, &field_with_valence(0), 0);
    }
    assert_eq!(n.episodes, 4);
    assert_eq!(n.prev_basin, Basin::Defensive);
    n.episodes = u16::MAX;
    n.cycle(Basin::Rest, &field_with_valence(0), 0);
    assert_eq!(n.episodes, u16::MAX);
}

#[test]
fn an_out_of_range_slot_index_wraps() {
    let mut n = NarrativeEngine::new();
    n.idx = 11;
    n.cycle(Basin::Engaged, &field_with_valence(7), 100);
    assert_eq!(n.ledger[3].unwrap().valence, 7);
    assert_eq!(n.idx, 4);
    assert_eq!((n.allostatic_load, n.mood_bias), (50, 7));
    // No change of basin: the index is left alone.
    n.idx = 20;
    n.cycle(Basin::Engaged, &field_with_valence(7), 100);
    assert_eq!(n.idx, 20);
}
