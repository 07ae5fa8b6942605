use arcane_swarm::burst::{burst_actions_to_emit, is_zone_event_active, BurstConfig};

#[test]
fn burst_is_deterministic_for_same_time() {
    let cfg = BurstConfig { enabled: true, ..BurstConfig::default() };
    let a = burst_actions_to_emit(7, 30_100, cfg);
    let b = burst_actions_to_emit(7, 30_100, cfg);
    assert_eq!(a, b);
}

#[test]
fn zone_event_window_matches_period() {
    let cfg = BurstConfig { enabled: true, ..BurstConfig::default() };
    assert!(is_zone_event_active(30_100, cfg));
    assert!(!is_zone_event_active(31_000, cfg));
}

#[test]
fn burst_cohort_rotates_with_the_period() {
    let cfg = BurstConfig::default();
    // Period 30 s, window 500 ms, cohort 20%: at t = 30.1 s the burst index
    // is 1, so slots whose (idx + 1) % 100 < 20 burst.
    assert_eq!(burst_actions_to_emit(0, 30_100, cfg), 10);
    assert_eq!(burst_actions_to_emit(18, 30_100, cfg), 10);
    assert_eq!(burst_actions_to_emit(19, 30_100, cfg), 0);
    assert_eq!(burst_actions_to_emit(99, 30_100, cfg), 10);
    // Outside the window nobody bursts.
    assert_eq!(burst_actions_to_emit(0, 30_600, cfg), 0);
}

#[test]
fn disabled_profile_never_bursts() {
    let cfg = BurstConfig { enabled: false, ..BurstConfig::default() };
    assert_eq!(burst_actions_to_emit(0, 0, cfg), 0);
    assert!(!is_zone_event_active(0, cfg));
    let zero_period = BurstConfig { zone_event_period_secs: 0, burst_period_secs: 0, ..BurstConfig::default() };
    assert!(!is_zone_event_active(10, zero_period));
    assert_eq!(burst_actions_to_emit(0, 10, zero_period), 0);
}

#[test]
fn any_hundred_consecutive_players_hold_the_cohort_percent() {
    let cfg = BurstConfig::default();
    // 30_100 ms: inside the first 500 ms of the second 30 s period.
    for start in [0u32, 7, 93, 1_000] {
        let members = (start..start + 100).filter(|p| burst_actions_to_emit(*p, 30_100, cfg) > 0).count();
        assert_eq!(members, 20);
    }
    let all = BurstConfig { burst_cohort_percent: 250, ..cfg };
    assert_eq!((5u32..105).filter(|p| burst_actions_to_emit(*p, 100, all) > 0).count(), 100);
}
