//! Rolling per-cluster time series of `/stats` readings.
//!
//! Each poll appends the cluster's reading and drops the readings taken
//! more than the retention window before it, on the readings' own time
//! axis. Rates are derived from the first and last reading of a series.

use crate::telemetry::ClusterStats;
use vstd::prelude::*;

verus! {

/// One stored reading.
#[derive(Debug, Clone, Copy, PartialEq, Eq, Structural)]
pub struct StatsSample {
    pub stats: ClusterStats,
    /// Clock reading (µs) when the collector stored it.
    pub recorded_at_us: u64,
}

/// The oldest sampling time kept after a reading taken at `newest_us`:
/// none when the window reaches back before the clock's origin.
pub open spec fn retention_cutoff(newest_us: u64, retention_us: u64) -> Option<u64> {
    if newest_us >= retention_us {
        Some((newest_us - retention_us) as u64)
    } else {
        None
    }
}

/// The series after appending `sample` and pruning to the window.
pub open spec fn recorded(series: Seq<StatsSample>, sample: StatsSample, retention_us: u64) -> Seq<StatsSample> {
    let s = series.push(sample);
    match retention_cutoff(sample.stats.sampled_at_us, retention_us) {
        Some(cutoff) => s.filter(|x: StatsSample| x.stats.sampled_at_us >= cutoff),
        None => s,
    }
}

/// Appends a reading and drops those sampled before the retention window
/// that ends at it.
pub fn record_sample(series: &mut Vec<StatsSample>, sample: StatsSample, retention_us: u64)
    ensures
        final(series)@ == recorded(old(series)@, sample, retention_us),
{
    series.push(sample);
    if sample.stats.sampled_at_us >= retention_us {
        let cutoff = sample.stats.sampled_at_us - retention_us;
        let ghost pred = |x: StatsSample| x.stats.sampled_at_us >= cutoff;
        let ghost all = series@;
        let mut kept: Vec<StatsSample> = Vec::new();
        let mut i: usize = 0;
        while i < series.len()
            invariant
                series@ == all,
                pred == (|x: StatsSample| x.stats.sampled_at_us >= cutoff),
                i <= all.len(),
                kept@ == all.take(i as int).filter(pred),
            decreases all.len() - i,
        {
            proof {
                crate::seqs::lemma_filter_take_step(all, pred, i as int);
            }
            let x = series[i];
            if x.stats.sampled_at_us >= cutoff {
                kept.push(x);
            }
            i += 1;
        }
        proof {
            assert(all.take(all.len() as int) =~= all);
        }
        *series = kept;
    }
}

/// What the rates of one series are computed from.
#[derive(Debug, Clone, Copy, PartialEq, Eq, Structural)]
pub struct SeriesDeltas {
    /// Bytes sent between the first and the last reading (0 if the
    /// counter went backwards).
    pub bytes_out: u64,
    /// Lagged broadcasts between the first and the last reading.
    pub lagged_events: u64,
    /// Microseconds between the two readings' sampling times (0 if the
    /// last was sampled first).
    pub elapsed_us: u64,
}

pub open spec fn sat_sub(a: u64, b: u64) -> u64 {
    if a >= b { (a - b) as u64 } else { 0 }
}

/// The deltas of a series of at least two readings; `None` otherwise.
pub fn series_deltas(series: &Vec<StatsSample>) -> (d: Option<SeriesDeltas>)
    ensures
        series@.len() < 2 ==> d is None,
        series@.len() >= 2 ==> d == Some(SeriesDeltas {
            bytes_out: sat_sub(series@.last().stats.bytes_out, series@[0].stats.bytes_out),
            lagged_events: sat_sub(
                series@.last().stats.broadcast_lagged_events,
                series@[0].stats.broadcast_lagged_events,
            ),
            elapsed_us: sat_sub(series@.last().stats.sampled_at_us, series@[0].stats.sampled_at_us),
        }),
{
    if series.len() < 2 {
        return None;
    }
    let oldest = series[0].stats;
    let newest = series[series.len() - 1].stats;
    Some(SeriesDeltas {
        bytes_out: newest.bytes_out.saturating_sub(oldest.bytes_out),
        lagged_events: newest.broadcast_lagged_events.saturating_sub(oldest.broadcast_lagged_events),
        elapsed_us: newest.sampled_at_us.saturating_sub(oldest.sampled_at_us),
    })
}

/// After a reading is recorded, every kept reading lies inside the window
/// that ends at it, and the reading itself is kept.
pub proof fn law_recorded_series_within_window(series: Seq<StatsSample>, sample: StatsSample, retention_us: u64)
    ensures
        recorded(series, sample, retention_us).contains(sample),
        forall|i: int| 0 <= i < recorded(series, sample, retention_us).len() ==> (
            retention_cutoff(sample.stats.sampled_at_us, retention_us) matches Some(c)
            ==> #[trigger] recorded(series, sample, retention_us)[i].stats.sampled_at_us >= c),
{
    let s = series.push(sample);
    assert(s[s.len() - 1] == sample);
    match retention_cutoff(sample.stats.sampled_at_us, retention_us) {
        Some(cutoff) => {
            let pred = |x: StatsSample| x.stats.sampled_at_us >= cutoff;
            crate::seqs::lemma_filter_contains_iff(s, pred, sample);
            assert(s.contains(sample));
            assert forall|i: int| 0 <= i < s.filter(pred).len() implies #[trigger] s.filter(pred)[i].stats.sampled_at_us >= cutoff by {
                crate::seqs::lemma_filter_contains_iff(s, pred, s.filter(pred)[i]);
                assert(s.filter(pred).contains(s.filter(pred)[i]));
            }
        },
        None => {
            assert(s.contains(sample));
        },
    }
}

} // verus!
