use arcane_swarm::validity_gate::{EvaluationSample, GateConfig, TierOutcome, ValidityGate};

fn passing_sample() -> EvaluationSample {
    EvaluationSample { p99_latency_ms: 50, error_rate_ppm: 0, entities_current: 1_000 }
}

fn high_latency_sample() -> EvaluationSample {
    EvaluationSample {
        p99_latency_ms: 500, // way above any sensible gate
        error_rate_ppm: 0,
        entities_current: 1_000,
    }
}

#[test]
fn all_gates_passing_marks_tier_pass() {
    // 5% error-rate limit, in parts per million.
    let config = GateConfig::new().with_max_p99_latency(200).with_max_error_rate(50_000).with_min_entities(100);
    let mut gate = ValidityGate::new(config);
    gate.start_tier(0);

    for _ in 0..5 {
        let outcome = gate.evaluate(passing_sample());
        assert_ne!(outcome, TierOutcome::Fail, "gate must not fail on clean samples");
    }

    assert_eq!(gate.consecutive_breaches(), 0, "no breaches should be recorded on a clean tier");

    gate.complete_tier(TierOutcome::Pass);
    assert_eq!(gate.tier_outcomes(), &[TierOutcome::Pass]);
    assert!(!gate.should_short_circuit_subsequent_tiers(), "no failed tiers; subsequent tiers should still run");
}

#[test]
fn gate_failure_marks_tier_fail_and_aborts() {
    let config = GateConfig::new().with_max_p99_latency(200).with_breach_window(3);
    let mut gate = ValidityGate::new(config);
    gate.start_tier(0);

    let r1 = gate.evaluate(high_latency_sample());
    assert_ne!(r1, TierOutcome::Fail, "first breach alone must not fail the tier");

    let r2 = gate.evaluate(high_latency_sample());
    assert_ne!(r2, TierOutcome::Fail, "second breach alone must not fail");

    let r3 = gate.evaluate(high_latency_sample());
    assert_eq!(r3, TierOutcome::Fail, "three consecutive breaches must mark tier Fail");

    assert_eq!(gate.consecutive_breaches(), 3);

    gate.complete_tier(TierOutcome::Fail);
    assert_eq!(gate.tier_outcomes(), &[TierOutcome::Fail]);
}

#[test]
fn intermittent_breaches_do_not_fail_tier() {
    let config = GateConfig::new().with_max_p99_latency(200).with_breach_window(3);
    let mut gate = ValidityGate::new(config);
    gate.start_tier(0);

    let outcomes: Vec<TierOutcome> = [
        passing_sample(),
        high_latency_sample(),
        passing_sample(),
        high_latency_sample(),
        passing_sample(),
        high_latency_sample(),
    ]
    .iter()
    .map(|s| gate.evaluate(*s))
    .collect();

    assert!(
        !outcomes.contains(&TierOutcome::Fail),
        "intermittent (non-consecutive) breaches must not flip the tier; got {:?}",
        outcomes
    );
}

#[test]
fn failed_tier_short_circuits_subsequent_tiers() {
    let config = GateConfig::new().with_max_p99_latency(200).with_breach_window(3);
    let mut gate = ValidityGate::new(config);

    gate.start_tier(0);
    for _ in 0..3 {
        let _ = gate.evaluate(high_latency_sample());
    }
    gate.complete_tier(TierOutcome::Fail);

    assert!(gate.should_short_circuit_subsequent_tiers(), "after a Fail, subsequent tiers should be short-circuited");
    assert_eq!(gate.tier_outcomes().last(), Some(&TierOutcome::Fail));
}

#[test]
fn single_breach_is_pending_and_clean_sample_passes() {
    let config = GateConfig::new().with_max_error_rate(50_000).with_min_entities(100);
    let mut gate = ValidityGate::new(config);
    gate.start_tier(1);
    let errors = EvaluationSample { p99_latency_ms: 10, error_rate_ppm: 50_001, entities_current: 500 };
    assert_eq!(gate.evaluate(errors), TierOutcome::Pending);
    let few_entities = EvaluationSample { p99_latency_ms: 10, error_rate_ppm: 50_000, entities_current: 99 };
    assert_eq!(gate.evaluate(few_entities), TierOutcome::Pending);
    assert_eq!(gate.consecutive_breaches(), 2);
    let clean = EvaluationSample { p99_latency_ms: 10, error_rate_ppm: 50_000, entities_current: 100 };
    assert_eq!(gate.evaluate(clean), TierOutcome::Pass);
    assert_eq!(gate.consecutive_breaches(), 0);
    // A disabled axis is never breached.
    let slow = EvaluationSample { p99_latency_ms: 1_000_000, error_rate_ppm: 0, entities_current: 100 };
    assert_eq!(gate.evaluate(slow), TierOutcome::Pass);
}

#[test]
fn start_tier_restarts_the_breach_count() {
    let config = GateConfig::new().with_max_p99_latency(200).with_breach_window(2);
    let mut gate = ValidityGate::new(config);
    gate.start_tier(0);
    assert_eq!(gate.evaluate(high_latency_sample()), TierOutcome::Pending);
    gate.complete_tier(TierOutcome::Pass);
    gate.start_tier(1);
    assert_eq!(gate.consecutive_breaches(), 0);
    assert_eq!(gate.evaluate(high_latency_sample()), TierOutcome::Pending);
    assert_eq!(gate.evaluate(high_latency_sample()), TierOutcome::Fail);
    assert!(gate.should_short_circuit_subsequent_tiers());
    assert_eq!(gate.tier_outcomes(), &[TierOutcome::Pass]);
}

#[test]
fn default_config_has_no_axes_and_zero_window() {
    let c = GateConfig::default();
    assert_eq!(c.max_p99_latency_ms, None);
    assert_eq!(c.max_error_rate_ppm, None);
    assert_eq!(c.min_entities, None);
    assert_eq!(c.breach_window, 0);
    let n = GateConfig::new();
    assert_eq!(n.breach_window, 3);
}
