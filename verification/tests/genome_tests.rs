use unified_being::genome::{BeingKind, Genome};

fn raws(g: &Genome) -> (i16, i16, i16, i16, i16) {
    (g.target_arousal.raw, g.resting_mu.raw, g.k_resilience.raw, g.learning_rate.raw, g.mesh_coupling.raw)
}

#[test]
fn presets_in_q88() {
    assert_eq!(raws(&Genome::blank()), (205, -51, 77, 26, 5));
    assert_eq!(raws(&Genome::spark()), (307, -26, 38, 64, 10));
    assert_eq!(raws(&Genome::sentinel()), (102, -102, 102, 13, 3));
    assert_eq!(raws(&Genome::wanderer()), (230, -64, 72, 46, 13));
    assert_eq!(Genome::blank().kind, BeingKind::Blank);
    assert_eq!(Genome::spark().kind, BeingKind::Spark);
    assert_eq!(Genome::sentinel().kind, BeingKind::Sentinel);
    assert_eq!(Genome::wanderer().kind, BeingKind::Wanderer);
    assert_eq!(raws(&Genome::default()), raws(&Genome::blank()));
}

#[test]
fn presets_lie_in_documented_ranges() {
    for g in [Genome::blank(), Genome::spark(), Genome::sentinel(), Genome::wanderer()] {
        let (ta, mu, k, lr, mc) = raws(&g);
        assert!((77..=384).contains(&ta));
        assert!((-128..=-13).contains(&mu));
        assert!((26..=128).contains(&k));
        assert!((5..=77).contains(&lr));
        assert!((1..=13).contains(&mc));
    }
}

#[test]
fn temperament_heat_and_groundedness() {
    assert_eq!(Genome::spark().temperament().raw, 145);
    assert_eq!(Genome::sentinel().temperament().raw, -147);
    assert_eq!(Genome::blank().temperament().raw, 0);
    assert!(Genome::spark().temperament().raw > 0);
    assert!(Genome::sentinel().temperament().raw < 0);
    assert_eq!(Genome::sentinel().groundedness().raw, 198);
    assert_eq!(Genome::spark().groundedness().raw, 28);
    assert!(Genome::sentinel().groundedness().raw > Genome::spark().groundedness().raw);
}

#[test]
fn temperament_and_groundedness_are_clamped() {
    let mut g = Genome::blank();
    g.target_arousal = unified_being::q88::Q8_8::from_raw(5000);
    assert_eq!(g.temperament().raw, 256);
    g.target_arousal = unified_being::q88::Q8_8::from_raw(-5000);
    assert_eq!(g.temperament().raw, -256);
    g.resting_mu = unified_being::q88::Q8_8::from_raw(200);
    assert_eq!(g.groundedness().raw, 0);
    g.resting_mu = unified_being::q88::Q8_8::from_raw(-3000);
    assert_eq!(g.groundedness().raw, 256);
}
