use arcane_swarm::orchestrator_args::{parse_orchestrator_args, ArgsOutcome};

fn argv(items: &[&str]) -> Vec<String> {
    items.iter().map(|s| s.to_string()).collect()
}

#[test]
fn defaults_without_arguments() {
    match parse_orchestrator_args(&argv(&[])) {
        ArgsOutcome::Run(a) => {
            assert_eq!(a.driver_port, 8088);
            assert_eq!(a.http_port, 8090);
            assert!(a.cluster_stats_urls.is_empty());
            assert_eq!(a.archive_dir, None);
            assert_eq!(a.telemetry_interval_ms, 2000);
            assert_eq!(a.max_drivers, 64);
        }
        other => panic!("unexpected {:?}", other),
    }
}

#[test]
fn every_flag_is_read_and_unknown_ones_skipped() {
    let args = argv(&[
        "--driver-port",
        "9000",
        "--verbose",
        "--http-port",
        "+9001",
        "--cluster-stats-url",
        "http://a/stats",
        "--cluster-stats-url",
        "http://b/stats",
        "--archive-dir",
        "/tmp/arch",
        "--telemetry-interval-ms",
        "500",
        "--max-drivers",
        "8",
    ]);
    match parse_orchestrator_args(&args) {
        ArgsOutcome::Run(a) => {
            assert_eq!(a.driver_port, 9000);
            assert_eq!(a.http_port, 9001);
            assert_eq!(a.cluster_stats_urls, vec!["http://a/stats".to_string(), "http://b/stats".to_string()]);
            assert_eq!(a.archive_dir.as_deref(), Some("/tmp/arch"));
            assert_eq!(a.telemetry_interval_ms, 500);
            assert_eq!(a.max_drivers, 8);
        }
        other => panic!("unexpected {:?}", other),
    }
}

#[test]
fn help_stops_the_scan() {
    assert!(matches!(parse_orchestrator_args(&argv(&["-h", "--driver-port", "x"])), ArgsOutcome::Help));
    assert!(matches!(parse_orchestrator_args(&argv(&["--max-drivers", "3", "--help"])), ArgsOutcome::Help));
}

#[test]
fn bad_and_missing_values_name_their_flag() {
    match parse_orchestrator_args(&argv(&["--driver-port", "70000"])) {
        ArgsOutcome::BadValue(f) => assert_eq!(f, "--driver-port"),
        other => panic!("unexpected {:?}", other),
    }
    match parse_orchestrator_args(&argv(&["--telemetry-interval-ms", "-5"])) {
        ArgsOutcome::BadValue(f) => assert_eq!(f, "--telemetry-interval-ms"),
        other => panic!("unexpected {:?}", other),
    }
    match parse_orchestrator_args(&argv(&["--http-port", "80", "--archive-dir"])) {
        ArgsOutcome::MissingValue(f) => assert_eq!(f, "--archive-dir"),
        other => panic!("unexpected {:?}", other),
    }
    // The value after a flag is consumed even when it looks like a flag.
    match parse_orchestrator_args(&argv(&["--archive-dir", "--help"])) {
        ArgsOutcome::Run(a) => assert_eq!(a.archive_dir.as_deref(), Some("--help")),
        other => panic!("unexpected {:?}", other),
    }
}
