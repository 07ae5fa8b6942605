use arcane_swarm::stats_collector::{record_sample, series_deltas, SeriesDeltas, StatsSample};
use arcane_swarm::telemetry::ClusterStats;

fn sample(at_us: u64, bytes_out: u64, lagged: u64) -> StatsSample {
    StatsSample {
        stats: ClusterStats {
            bytes_in: 0,
            bytes_out,
            last_tick_us: 0,
            broadcast_lagged_events: lagged,
            entities_current: 10,
            sampled_at_us: at_us,
        },
        recorded_at_us: at_us,
    }
}

#[test]
fn time_series_memory_bounded() {
    let mut series = Vec::new();
    let retention = 10_000_000;
    for i in 0..30u64 {
        record_sample(&mut series, sample(i * 1_000_000, i * 100, 0), retention);
    }
    // Readings from 19 s to 29 s are kept: 11 of them.
    assert_eq!(series.len(), 11);
    assert_eq!(series[0].stats.sampled_at_us, 19_000_000);
    assert_eq!(series.last().unwrap().stats.sampled_at_us, 29_000_000);
}

#[test]
fn deltas_between_first_and_last_reading() {
    let mut series = Vec::new();
    assert_eq!(series_deltas(&series), None);
    record_sample(&mut series, sample(1_000_000, 500, 3), 60_000_000);
    assert_eq!(series_deltas(&series), None);
    record_sample(&mut series, sample(3_000_000, 2_500, 5), 60_000_000);
    assert_eq!(series_deltas(&series), Some(SeriesDeltas { bytes_out: 2_000, lagged_events: 2, elapsed_us: 2_000_000 }));
    // A counter that went backwards (cluster restart) counts as zero.
    record_sample(&mut series, sample(4_000_000, 100, 0), 60_000_000);
    assert_eq!(series_deltas(&series), Some(SeriesDeltas { bytes_out: 0, lagged_events: 0, elapsed_us: 3_000_000 }));
}
