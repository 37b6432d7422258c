use unified_being::dyad::rate_from_gave;
use unified_being::executive::{compute_gap_width, ExecutiveEngine, RepairSignal};

#[test]
fn gap_width_is_one_minus_capped_cost() {
    assert_eq!(compute_gap_width(0), 256);
    assert_eq!(compute_gap_width(-50), 256);
    assert_eq!(compute_gap_width(100), 156);
    assert_eq!(compute_gap_width(256), 0);
    assert_eq!(compute_gap_width(i16::MAX), 0);
    let mut prev = compute_gap_width(i16::MIN);
    for c in (i16::MIN..=i16::MAX).step_by(101) {
        let g = compute_gap_width(c);
        assert!(g <= prev && g >= 0 && g <= 256);
        prev = g;
    }
}

#[test]
fn suggestions_follow_the_alarm() {
    let mut e = ExecutiveEngine::new();
    assert_eq!(e.suggest_and_evaluate(31, 256), RepairSignal::NoRepair);
    assert_eq!(e.suggest_and_evaluate(32, 256), RepairSignal::Reflect);
    assert_eq!(e.suggest_and_evaluate(64, 256), RepairSignal::SignalModerate);
    assert_eq!(e.suggest_and_evaluate(127, 256), RepairSignal::SignalModerate);
    assert_eq!(e.suggest_and_evaluate(128, 256), RepairSignal::SignalHigh);
    assert_eq!(e.last_signal, RepairSignal::SignalHigh);
}

#[test]
fn a_narrow_gap_weakens_the_response() {
    let mut e = ExecutiveEngine::new();
    assert_eq!(e.suggest_and_evaluate(200, 63), RepairSignal::SignalModerate);
    assert_eq!(e.suggest_and_evaluate(100, 10), RepairSignal::Reflect);
    assert_eq!(e.suggest_and_evaluate(40, 0), RepairSignal::Reflect);
    assert_eq!(e.suggest_and_evaluate(0, 0), RepairSignal::NoRepair);
    assert_eq!(e.suggest_and_evaluate(200, 64), RepairSignal::SignalHigh);
    assert_eq!(e.last_signal, RepairSignal::SignalHigh);
    assert_eq!(e.resolve, 256);
    assert_eq!(e.refusal_count, 0);
}

#[test]
fn resolve_recharges_and_caps() {
    let mut e = ExecutiveEngine::new();
    e.resolve = 100;
    e.tick_recharge(192);
    assert_eq!(e.resolve, 101);
    e.tick_recharge(193);
    assert_eq!(e.resolve, 103);
    e.resolve = 255;
    e.tick_recharge(256);
    assert_eq!(e.resolve, 256);
    e.tick_recharge(256);
    assert_eq!(e.resolve, 256);
}

#[test]
fn refusal_needs_every_layer() {
    // calm, extraction, pushed off by divergence, benefit > cost, affordable.
    let mut e = ExecutiveEngine::new();
    assert_eq!(e.evaluate_refusal(true, true, 100, 0, 70), Some(70));
    assert_eq!(e.refusal_count, 1);
    assert_eq!(e.last_exit_cost, 70);
    assert_eq!(e.cumulative_sacrifice, 70);
    assert_eq!(e.resolve, 186);

    let base = ExecutiveEngine::new();
    let cases = [
        (false, true, 100, 0, 70),
        (true, false, 100, 0, 70),
        (true, true, 64, 128, 10),  // not pushed off
        (true, true, 100, 0, 100),  // benefit does not exceed cost
        (true, true, 300, 0, 256),  // cannot afford
    ];
    for (calm, extr, div, alarm, cost) in cases {
        let mut e = base.clone();
        assert_eq!(e.evaluate_refusal(calm, extr, div, alarm, cost), None);
        assert_eq!(e.refusal_count, 0);
        assert_eq!(e.resolve, 256);
        assert_eq!(e.cumulative_sacrifice, 0);
    }
}

#[test]
fn severe_imbalance_alone_can_push_off() {
    let mut e = ExecutiveEngine::new();
    // divergence small, alarm above 1/2; benefit is half the alarm.
    assert_eq!(e.evaluate_refusal(true, true, 0, 200, 99), Some(99));
    assert_eq!(e.resolve, 157);
    let mut f = ExecutiveEngine::new();
    assert_eq!(f.evaluate_refusal(true, true, 0, 200, 100), None);
}

#[test]
fn repeated_refusals_drain_resolve_to_zero_floor() {
    let mut e = ExecutiveEngine::new();
    e.resolve = 80;
    assert_eq!(e.evaluate_refusal(true, true, 300, 0, 79), Some(79));
    assert_eq!(e.resolve, 1);
    assert_eq!(e.evaluate_refusal(true, true, 300, 0, 0), Some(0));
    assert_eq!(e.resolve, 1);
    assert_eq!(e.refusal_count, 2);
    assert_eq!(e.cumulative_sacrifice, 79);
    e.cumulative_sacrifice = i16::MAX - 5;
    e.resolve = 256;
    assert_eq!(e.evaluate_refusal(true, true, 300, 0, 50), Some(50));
    assert_eq!(e.cumulative_sacrifice, i16::MAX);
}

#[test]
fn warmth_read_as_reciprocity() {
    assert_eq!(rate_from_gave(128), 256);
    assert_eq!(rate_from_gave(64), 128);
    assert_eq!(rate_from_gave(32), 64);
    assert_eq!(rate_from_gave(-5), 0);
    assert_eq!(rate_from_gave(i16::MAX), 256);
    assert_eq!(rate_from_gave(i16::MIN), 0);
}
