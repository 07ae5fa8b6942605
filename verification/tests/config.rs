use arcane_swarm::config::{join_retry_delay_ms, report_join_failure};
use arcane_swarm::burst::BurstConfig;
use arcane_swarm::config::{
    arcane_endpoint, backend_from_name, backend_name, cluster_ws_url, effective_max_players, effective_tick_rate,
    join_url, mode_from_name, mode_name, resolve_burst, stdb_ws_uri, tick_interval_us, unreachable_ws_url,
    ArcaneEndpoint, Backend, BurstArgs, SwarmMode,
};

#[test]
fn backend_and_mode_names() {
    assert_eq!(backend_from_name("arcane"), Backend::Arcane);
    assert_eq!(backend_from_name("spacetimedb"), Backend::SpacetimeDb);
    assert_eq!(backend_from_name("anything"), Backend::SpacetimeDb);
    assert_eq!(mode_from_name("clustered"), SwarmMode::Clustered);
    assert_eq!(mode_from_name("spread"), SwarmMode::Spread);
    assert_eq!(backend_name(Backend::Arcane), "arcane");
    assert_eq!(backend_name(Backend::SpacetimeDb), "spacetimedb");
    assert_eq!(mode_name(SwarmMode::Clustered), "clustered");
    assert_eq!(mode_name(SwarmMode::Spread), "spread");
}

#[test]
fn derived_defaults() {
    assert_eq!(effective_tick_rate(0), 1);
    assert_eq!(effective_tick_rate(20), 20);
    assert_eq!(effective_max_players(40, 0), 40);
    assert_eq!(effective_max_players(40, 100), 100);
    assert_eq!(tick_interval_us(20), 50_000);
    assert_eq!(tick_interval_us(3), 333_333);
}

#[test]
fn burst_values_override_defaults() {
    let none = BurstArgs {
        burst_enabled: false,
        burst_disabled: false,
        burst_period_secs: None,
        burst_cohort_percent: None,
        burst_actions_per_player: None,
        burst_window_ms: None,
        zone_event_period_secs: None,
        zone_event_window_ms: None,
    };
    let d = BurstConfig::default();
    let r = resolve_burst(none);
    assert!(r.enabled);
    assert_eq!(r.burst_period_secs, d.burst_period_secs);
    assert_eq!(r.zone_event_window_ms, d.zone_event_window_ms);
    let r = resolve_burst(BurstArgs { burst_disabled: true, burst_enabled: true, burst_cohort_percent: Some(5), ..none });
    assert!(!r.enabled);
    assert_eq!(r.burst_cohort_percent, 5);
    assert_eq!(r.burst_actions_per_player, 10);
}

#[test]
fn websocket_urls() {
    assert_eq!(stdb_ws_uri("http://127.0.0.1:3000/"), "ws://127.0.0.1:3000");
    assert_eq!(stdb_ws_uri("https://db.example:443//"), "wss://db.example:443");
    assert_eq!(stdb_ws_uri("ws://already"), "ws://already");
    // Only the first occurrence of each scheme is rewritten.
    assert_eq!(stdb_ws_uri("http://a/http://b"), "ws://a/http://b");
    assert_eq!(join_url("http://mgr:8081/"), "http://mgr:8081/join");
    assert_eq!(join_url("http://mgr:8081"), "http://mgr:8081/join");
    assert_eq!(cluster_ws_url("10.0.0.5", 8090), "ws://10.0.0.5:8090");
    assert_eq!(unreachable_ws_url(), "ws://127.0.0.1:1");
}

#[test]
fn manager_takes_precedence_over_single_url() {
    match arcane_endpoint("ws://x".into(), Some("http://m".into())) {
        ArcaneEndpoint::ManagerJoin { base_url } => assert_eq!(base_url, "http://m"),
        _ => panic!("expected manager join"),
    }
    match arcane_endpoint("ws://x".into(), None) {
        ArcaneEndpoint::SingleUrl(u) => assert_eq!(u, "ws://x"),
        _ => panic!("expected single url"),
    }
}

#[test]
fn manager_join_is_tried_three_times_200_ms_apart() {
    assert_eq!(join_retry_delay_ms(0), Some(200));
    assert_eq!(join_retry_delay_ms(1), Some(200));
    assert_eq!(join_retry_delay_ms(2), None);
    assert!(report_join_failure(0, 2));
    assert!(!report_join_failure(0, 1));
    assert!(!report_join_failure(5, 2));
}
