use arcane_swarm::metrics::Metrics;
use arcane_swarm::reporter::{cpu_ticks_total, fmt_bytes, parse_proc_cpu_ticks, parse_vm_rss_kb, RunTotals};

fn reference(b: u64) -> String {
    if b >= 1_048_576 {
        format!("{:.1}MB", b as f64 / 1_048_576.0)
    } else if b >= 1024 {
        format!("{:.1}KB", b as f64 / 1024.0)
    } else {
        format!("{}B", b)
    }
}

#[test]
fn byte_counts_with_units() {
    assert_eq!(fmt_bytes(0), "0B");
    assert_eq!(fmt_bytes(1023), "1023B");
    assert_eq!(fmt_bytes(1024), "1.0KB");
    assert_eq!(fmt_bytes(1536), "1.5KB");
    assert_eq!(fmt_bytes(1_048_576), "1.0MB");
    assert_eq!(fmt_bytes(5 * 1_048_576 + 524_288), "5.5MB");
}

#[test]
fn byte_counts_match_float_formatting() {
    let mut samples: Vec<u64> = vec![
        1024 + 51,
        1024 + 52,
        1024 * 3 + 204,
        1024 * 3 + 205,
        1024 * 10 + 1024 / 20,
        1_048_576 * 2 + 1_048_576 / 20,
        1_048_576 * 7 + 3 * 1_048_576 / 20,
        u64::MAX,
        u64::MAX - 1,
        (1u64 << 53) + 1,
        (1u64 << 60) + (1u64 << 7) + 1,
        123_456_789_012_345,
    ];
    let mut x: u64 = 0x1234_5678_9abc_def1;
    for _ in 0..2000 {
        x ^= x << 13;
        x ^= x >> 7;
        x ^= x << 17;
        samples.push(x >> (x % 60));
        samples.push(x % 3_000_000);
    }
    for k in 0..2048u64 {
        // Every exact half-tenth of a KB and of a MB.
        samples.push(1024 * 5 + k * 512 / 10);
        samples.push(1_048_576 * (k + 1) + 1_048_576 / 20);
    }
    for b in samples {
        assert_eq!(fmt_bytes(b), reference(b), "b = {}", b);
    }
}

#[test]
fn proc_stat_and_status_parsing() {
    let stat = "1234 (my (odd) cmd) S 1 2 3 4 5 6 7 8 9 10 111 222 13 14 15";
    assert_eq!(parse_proc_cpu_ticks(stat), Some((111, 222)));
    assert_eq!(parse_proc_cpu_ticks("no paren here 1 2 3"), None);
    assert_eq!(parse_proc_cpu_ticks("1 (x) S 1 2"), None);
    assert_eq!(parse_proc_cpu_ticks("1 (x) S 1 2 3 4 5 6 7 8 9 10 abc 5"), None);
    let status = "Name:\tswarm\nVmPeak:\t  9999 kB\nVmRSS:\t  20480 kB\nThreads: 4\n";
    assert_eq!(parse_vm_rss_kb(status), Some(20480));
    assert_eq!(parse_vm_rss_kb("Name: x\n"), None);
    assert_eq!(parse_vm_rss_kb("VmRSS:\n"), None);
    assert_eq!(cpu_ticks_total(111, 222), 333);
}

#[test]
fn run_totals_accumulate_intervals() {
    let mut t = RunTotals::new();
    let mut m = Metrics::new();
    let mut acts = Metrics::new();
    m.record_ok(1_000);
    m.record_err();
    acts.record_ok_count();
    acts.record_ok_count();
    acts.record_err();
    t.add_interval(&m.snapshot_and_reset(), &acts.snapshot_and_reset());
    m.record_ok(3_000);
    t.add_interval(&m.snapshot_and_reset(), &acts.snapshot_and_reset());
    assert_eq!(t.total_oks, 2);
    assert_eq!(t.total_errs, 1);
    assert_eq!(t.total_calls, 3);
    assert_eq!(t.total_latency_sum_us, 4_000);
    assert_eq!(t.total_latency_samples, 2);
    assert_eq!(t.total_errors.transport, 1);
    assert_eq!(t.total_action_calls, 3);
    assert_eq!(t.total_action_oks, 2);
    assert_eq!(t.action_ops_per_sec(0), 3);
    assert_eq!(t.action_ops_per_sec(2), 1);
}
