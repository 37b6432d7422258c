use unified_being::body::{classify_affect, AffectState, Body, PredictiveStance, SomaticFeatures, Topology};
use unified_being::genome::Genome;
use unified_being::q88::Q8_8;

fn qr(raw: i16) -> Q8_8 {
    Q8_8::from_raw(raw)
}

#[test]
fn empty_topology_is_at_rest() {
    let t = Topology::new();
    let f = t.extract_features();
    assert_eq!(t.disequilibrium().raw, 0);
    assert_eq!((f.disequilibrium.raw, f.anisotropy.raw, f.breach.raw, f.mean_tension.raw), (0, 0, 0, 0));
    let mut u = Topology::new();
    let flow = u.diffuse(qr(256), qr(13));
    assert_eq!(flow.raw, 0);
    for i in 0..64 {
        assert_eq!(u.tension[i].raw, 0);
    }
}

#[test]
fn inject_clamps_to_tolerance_and_ignores_bad_index() {
    let mut t = Topology::new();
    t.inject(27, qr(300));
    t.inject(27, qr(300));
    assert_eq!(t.tension[27].raw, 512);
    t.inject(5, qr(-2000));
    assert_eq!(t.tension[5].raw, -512);
    let before = t.tension;
    t.inject(64, qr(100));
    t.inject(usize::MAX, qr(100));
    assert_eq!(t.tension, before);
}

#[test]
fn diffuse_exact_flow() {
    let mut t = Topology::new();
    t.tension[27] = qr(512);
    let flow = t.diffuse(qr(256), qr(13));
    assert_eq!(flow.raw, 4160);
    assert_eq!(t.tension[27].raw, -1506);
    for i in [19usize, 26, 28, 35] {
        assert_eq!(t.tension[i].raw, 500);
    }
    assert_eq!(t.tension[0].raw, 0);

    let mut c = Topology::new();
    c.tension[0] = qr(-256);
    let flow = c.diffuse(qr(256), qr(13));
    assert_eq!(flow.raw, 1040);
    assert_eq!((c.tension[0].raw, c.tension[1].raw, c.tension[8].raw, c.tension[9].raw), (254, -249, -249, 0));
}

#[test]
fn genome_coupling_sets_the_diffusion_rate() {
    // Wanderer coupling 0.05 at dt 0.05: the rate is about the coupling.
    let coupling = Genome::wanderer().mesh_coupling;
    let mut t = Topology::new();
    t.tension[0] = qr(256);
    let flow = t.diffuse(coupling, qr(13));
    assert!(flow.raw > 0 && t.tension[1].raw > 0 && t.tension[8].raw > 0);
    assert_eq!(flow.raw, 52);
    assert_eq!((t.tension[0].raw, t.tension[1].raw, t.tension[8].raw, t.tension[9].raw), (222, 13, 13, 0));

    let mut c = Topology::new();
    c.tension[27] = qr(512);
    let flow = c.diffuse(coupling, qr(13));
    assert_eq!(flow.raw, 208);
    assert_eq!(c.tension[27].raw, 393);
    for i in [19usize, 26, 28, 35] {
        assert_eq!(c.tension[i].raw, 25);
    }
}

#[test]
fn features_of_shaped_grids() {
    let mut t = Topology::new();
    t.tension[0] = qr(256);
    t.tension[63] = qr(-256);
    let f = t.extract_features();
    assert_eq!((f.disequilibrium.raw, f.anisotropy.raw, f.breach.raw, f.mean_tension.raw), (8, 0, 0, 8));

    let mut r = Topology::new();
    for i in 0..64 {
        r.tension[i] = qr(i as i16 * 8 - 256);
    }
    let f = r.extract_features();
    assert_eq!((f.disequilibrium.raw, f.anisotropy.raw, f.breach.raw, f.mean_tension.raw), (85, 3, 9, 128));

    let mut core = Topology::new();
    core.tension[27] = qr(512);
    core.tension[28] = qr(-512);
    core.tension[35] = qr(512);
    core.tension[36] = qr(-512);
    let f = core.extract_features();
    assert_eq!((f.disequilibrium.raw, f.anisotropy.raw, f.breach.raw, f.mean_tension.raw), (64, 0, 256, 32));
}

#[test]
fn a_quiet_body_cannot_be_breached() {
    // Core turbulence with almost no overall tension reads as no breach.
    let mut t = Topology::new();
    t.tension[27] = qr(100);
    t.tension[28] = qr(-100);
    let f = t.extract_features();
    assert!(f.mean_tension.raw < 18);
    assert_eq!(f.breach.raw, 0);
}

#[test]
fn affect_classification() {
    let f = |d: i16, b: i16| SomaticFeatures {
        disequilibrium: qr(d),
        anisotropy: qr(0),
        breach: qr(b),
        mean_tension: qr(0),
    };
    assert_eq!(classify_affect(&f(0, 0), qr(24)), AffectState::Depletion);
    assert_eq!(classify_affect(&f(0, 200), qr(25)), AffectState::Breach);
    assert_eq!(classify_affect(&f(65, 63), qr(200)), AffectState::Containment);
    assert_eq!(classify_affect(&f(65, 64), qr(200)), AffectState::Equilibrium);
    assert_eq!(classify_affect(&f(64, 0), qr(200)), AffectState::Equilibrium);
    assert_eq!(classify_affect(&f(0, 128), qr(200)), AffectState::Equilibrium);
}

#[test]
fn stance_table() {
    assert_eq!(PredictiveStance::from_affect(AffectState::Equilibrium), PredictiveStance::Exploratory);
    assert_eq!(PredictiveStance::from_affect(AffectState::Containment), PredictiveStance::Defensive);
    assert_eq!(PredictiveStance::from_affect(AffectState::Breach), PredictiveStance::Reconstructive);
    assert_eq!(PredictiveStance::from_affect(AffectState::Depletion), PredictiveStance::Dormant);
    assert_eq!(PredictiveStance::Exploratory.eta_multiplier().raw, 256);
    assert_eq!(PredictiveStance::Defensive.eta_multiplier().raw, 51);
    assert_eq!(PredictiveStance::Reconstructive.eta_multiplier().raw, 512);
    assert_eq!(PredictiveStance::Dormant.eta_multiplier().raw, 0);
    assert_eq!(PredictiveStance::Exploratory.precision_weight().raw, 256);
    assert_eq!(PredictiveStance::Defensive.precision_weight().raw, 768);
    assert_eq!(PredictiveStance::Reconstructive.precision_weight().raw, 77);
    assert_eq!(PredictiveStance::Dormant.precision_weight().raw, 256);
}

#[test]
fn new_body_starts_at_its_setpoint() {
    let g = Genome::wanderer();
    let b = Body::new(&g);
    assert_eq!(b.valence.raw, 20);
    assert_eq!(b.arousal.raw, 230);
    assert_eq!(b.mu.raw, -64);
    assert_eq!(b.target_arousal.raw, 230);
    assert_eq!(b.energy.raw, 230);
    assert_eq!((b.trust.raw, b.stability.raw, b.coherence.raw), (179, 179, 179));
    assert_eq!(b.affect, AffectState::Equilibrium);
    assert_eq!(b.stance, PredictiveStance::Exploratory);
    assert!(!b.forcing_detected);
    assert!(!b.is_dead());
}

#[test]
fn one_step_exact() {
    let g = Genome::spark();
    let mut b = Body::new(&g);
    let a = b.step(&g, qr(64), qr(192), qr(32));
    assert_eq!(a, AffectState::Equilibrium);
    assert_eq!(b.drive.raw, 32);
    assert_eq!((b.valence.raw, b.arousal.raw, b.mu.raw, b.energy.raw), (20, 307, 15, 239));
    assert_eq!((b.trust.raw, b.stability.raw, b.coherence.raw), (198, 198, 184));
    assert_eq!(b.target_arousal.raw, 307);
    assert_eq!((b.topology.tension[27].raw, b.topology.tension[36].raw), (5, 26));
    assert_eq!(b.prev_valence.raw, b.valence.raw);
}

#[test]
fn three_steps_exact() {
    let g = Genome::wanderer();
    let mut b = Body::new(&g);
    let expected = [(-47, 239, 192, 192, 184, 5, 25), (-51, 248, 203, 203, 190, 9, 44), (-55, 256, 212, 212, 195, 13, 59)];
    for e in expected.iter() {
        let a = b.step(&g, qr(64), qr(192), qr(32));
        assert_eq!(a, AffectState::Equilibrium);
        assert_eq!((b.valence.raw, b.arousal.raw), (20, 230));
        assert_eq!(
            (b.mu.raw, b.energy.raw, b.trust.raw, b.stability.raw, b.coherence.raw, b.topology.tension[27].raw, b.topology.tension[36].raw),
            *e
        );
    }
}

#[test]
fn a_long_life_exact() {
    let g = Genome::spark();
    let mut b = Body::new(&g);
    for t in 0..60 {
        let threat = if t < 30 { 256 } else { 0 };
        let drive = if t % 7 < 3 { 128 } else { -128 };
        b.step(&g, qr(threat), qr(100), qr(drive));
    }
    assert_eq!((b.valence.raw, b.arousal.raw, b.mu.raw, b.energy.raw), (-108, 332, -62, 256));
    assert_eq!((b.trust.raw, b.stability.raw, b.coherence.raw), (253, 252, 241));
    assert_eq!((b.target_arousal.raw, b.drive.raw, b.death_accumulator), (307, -128, 0));
    assert_eq!((b.topology.tension[27].raw, b.topology.tension[36].raw), (-207, 1));
    let f = b.topology.extract_features();
    assert_eq!((f.disequilibrium.raw, f.anisotropy.raw, f.breach.raw, f.mean_tension.raw), (2, 25, 0, 7));
}

#[test]
fn breach_wakes_a_reconstructive_stance() {
    let g = Genome::wanderer();
    let mut b = Body::new(&g);
    b.topology.tension[27] = qr(512);
    b.topology.tension[28] = qr(-512);
    b.topology.tension[35] = qr(512);
    b.topology.tension[36] = qr(-512);
    let a = b.step(&g, qr(0), qr(0), qr(0));
    assert_eq!(a, AffectState::Breach);
    assert_eq!(b.stance, PredictiveStance::Reconstructive);
    assert!(!b.forcing_detected);
    assert_eq!((b.valence.raw, b.arousal.raw, b.mu.raw, b.energy.raw), (19, 228, -109, 230));
    assert_eq!((b.trust.raw, b.stability.raw, b.coherence.raw), (146, 186, 185));
    assert_eq!((b.topology.tension[27].raw, b.topology.tension[28].raw, b.topology.tension[36].raw), (393, -392, -392));
}

#[test]
fn surface_load_is_contained() {
    let g = Genome::wanderer();
    let mut b = Body::new(&g);
    for i in 0..64 {
        if ![27usize, 28, 35, 36].contains(&i) {
            b.topology.tension[i] = qr(if i % 2 == 0 { 512 } else { -512 });
        }
    }
    let a = b.step(&g, qr(0), qr(0), qr(0));
    assert_eq!(a, AffectState::Containment);
    assert_eq!(b.stance, PredictiveStance::Defensive);
    assert_eq!((b.valence.raw, b.arousal.raw, b.mu.raw, b.energy.raw), (19, 228, -109, 229));
    assert_eq!((b.trust.raw, b.stability.raw, b.coherence.raw), (192, 146, 177));
    // Load drifts the arousal setpoint up by one step.
    assert_eq!(b.target_arousal.raw, 231);
}

#[test]
fn depletion_and_death_counting() {
    let g = Genome::wanderer();
    let mut b = Body::new(&g);
    b.energy = qr(10);
    let a = b.step(&g, qr(-100), qr(-200), qr(300));
    assert_eq!(a, AffectState::Depletion);
    assert_eq!(b.stance, PredictiveStance::Dormant);
    assert_eq!(b.drive.raw, 128);
    assert_eq!((b.valence.raw, b.arousal.raw, b.mu.raw, b.energy.raw), (20, 235, -63, -1));
    assert_eq!(b.death_accumulator, 0);

    let mut d = Body::new(&g);
    d.energy = qr(0);
    d.step(&g, qr(0), qr(0), qr(0));
    assert_eq!(d.energy.raw, 0);
    assert_eq!(d.death_accumulator, 1);
    d.death_accumulator = 254;
    d.step(&g, qr(0), qr(0), qr(0));
    assert_eq!(d.death_accumulator, 255);
    d.step(&g, qr(0), qr(0), qr(0));
    assert_eq!(d.death_accumulator, 255);
    assert!(d.is_dead());
    d.death_accumulator = 99;
    assert!(!d.is_dead());
    d.death_accumulator = 100;
    assert!(d.is_dead());
}

#[test]
fn a_hundred_starved_ticks_kill_and_food_revives() {
    let g = Genome::wanderer();
    let mut d = Body::new(&g);
    for k in 1..=100u32 {
        d.energy = qr(0);
        d.step(&g, qr(0), qr(0), qr(0));
        assert_eq!(d.death_accumulator as u32, k);
        assert_eq!(d.is_dead(), k >= 100);
    }
    d.step(&g, qr(0), qr(256), qr(0));
    assert!(d.energy.raw > 0);
    assert_eq!(d.death_accumulator, 0);
    assert!(!d.is_dead());
}

#[test]
fn extreme_previous_valence_gives_no_regularity() {
    let g = Genome::blank();
    let mut b = Body::new(&g);
    b.prev_valence = qr(i16::MIN);
    b.step(&g, qr(0), qr(0), qr(0));
    let mut c = Body::new(&g);
    c.prev_valence = qr(-600);
    c.step(&g, qr(0), qr(0), qr(0));
    // Both differ from the new valence by more than 1.0: regularity 0.
    assert_eq!(b.coherence.raw, c.coherence.raw);
    assert_eq!(b.prev_valence.raw, b.valence.raw);
}

#[test]
fn setpoint_wears_up_by_one_step_at_most() {
    let g = Genome::wanderer();
    let mut b = Body::new(&g);
    for i in 0..64 {
        b.topology.tension[i] = qr(if i % 2 == 0 { 512 } else { -512 });
    }
    for _ in 0..30 {
        let before = b.target_arousal.raw;
        b.step(&g, qr(256), qr(0), qr(128));
        let after = b.target_arousal.raw;
        assert!(after == before || after == before + 1);
        assert!(after >= g.target_arousal.raw && after <= 461);
    }
}
