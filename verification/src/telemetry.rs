//! Telemetry snapshots: the fleet, the most recent commands and the latest
//! per-cluster `/stats` counters, as broadcast to every subscriber.
//!
//! Monotonic times are converted to millisecond ages relative to the
//! snapshot, so subscribers need not share the orchestrator's clock.

use crate::command_dispatcher::CommandLogEntry;
use crate::driver_pool::{DriverEntry, DriverPool, DriverState};
use crate::ids::DriverId;
use crate::protocol::{CommandAck, OrchestratorCommand};
use vstd::prelude::*;

verus! {

/// One `/stats` reading of a cluster, as kept by the stats collector.
#[derive(Debug, Clone, Copy, PartialEq, Eq, Structural)]
pub struct ClusterStats {
    pub bytes_in: u64,
    pub bytes_out: u64,
    pub last_tick_us: u64,
    pub broadcast_lagged_events: u64,
    pub entities_current: u64,
    /// Clock reading (µs) when the collector took the sample.
    pub sampled_at_us: u64,
}

/// The per-cluster counters carried in a snapshot.
#[derive(Debug, Clone, Copy, PartialEq, Eq, Structural)]
pub struct ClusterWireStats {
    pub bytes_in: u64,
    pub bytes_out: u64,
    pub last_tick_us: u64,
    pub broadcast_lagged_events: u64,
    pub entities_current: u64,
}

#[derive(Debug, Clone)]
pub struct DriverWireState {
    pub driver_id: DriverId,
    pub state: String,
    pub last_heartbeat_age_ms: u128,
    /// The capabilities object, as JSON text.
    pub capabilities: String,
}

#[derive(Debug, Clone)]
pub struct CommandWireEntry {
    pub seq: u64,
    pub submitter: String,
    pub command: OrchestratorCommand,
    pub age_ms: u128,
    pub acked_drivers: Vec<DriverId>,
    pub missing_drivers: Vec<DriverId>,
}

/// One telemetry snapshot (the payload of every stream event).
#[derive(Debug, Clone)]
pub struct TelemetrySnapshot {
    /// Wall-clock time of the snapshot, unix milliseconds.
    pub snapshot_at_unix_ms: u128,
    pub fleet: Vec<DriverWireState>,
    /// Most recent command-log entries, newest first.
    pub recent_commands: Vec<CommandWireEntry>,
    /// Latest counters per cluster URL.
    pub clusters: Vec<(String, ClusterWireStats)>,
}

/// Whole milliseconds from `then_us` to `now_us`; zero when `then_us` is
/// later.
pub open spec fn age_ms(now_us: u64, then_us: u64) -> u128 {
    if now_us >= then_us {
        ((now_us - then_us) / 1000) as u128
    } else {
        0
    }
}

pub open spec fn state_text(s: DriverState) -> Seq<char> {
    match s {
        DriverState::Active => "Active"@,
        DriverState::Stale => "Stale"@,
        DriverState::Failed => "Failed"@,
    }
}

pub open spec fn wire_stats(s: ClusterStats) -> ClusterWireStats {
    ClusterWireStats {
        bytes_in: s.bytes_in,
        bytes_out: s.bytes_out,
        last_tick_us: s.last_tick_us,
        broadcast_lagged_events: s.broadcast_lagged_events,
        entities_current: s.entities_current,
    }
}

pub open spec fn ack_drivers(acks: Seq<CommandAck>) -> Seq<DriverId> {
    acks.map_values(|a: CommandAck| a.driver_id)
}

/// `e` rendered for the wire at `now_us`.
pub open spec fn wire_entry_of(w: CommandWireEntry, e: CommandLogEntry, now_us: u64) -> bool {
    &&& w.seq == e.seq
    &&& w.submitter == e.submitter
    &&& w.command == e.command
    &&& w.age_ms == age_ms(now_us, e.submitted_at_us)
    &&& w.acked_drivers@ == ack_drivers(e.acks@)
    &&& w.missing_drivers@ == e.missing@
}

/// `d` rendered for the wire at `now_us`.
pub open spec fn wire_driver_of(w: DriverWireState, d: DriverEntry, now_us: u64) -> bool {
    &&& w.driver_id == d.id
    &&& w.state@ == state_text(d.state)
    &&& w.last_heartbeat_age_ms == age_ms(now_us, d.last_heartbeat_us)
    &&& w.capabilities == d.capabilities
}

/// Number of log entries a snapshot carries.
pub open spec fn recent_count(log_len: nat, window: nat) -> nat {
    if log_len < window { log_len } else { window }
}

pub fn state_name(s: DriverState) -> (name: &'static str)
    ensures
        name@ == state_text(s),
{
    match s {
        DriverState::Active => "Active",
        DriverState::Stale => "Stale",
        DriverState::Failed => "Failed",
    }
}

fn age_millis(now_us: u64, then_us: u64) -> (ms: u128)
    ensures
        ms == age_ms(now_us, then_us),
{
    if now_us >= then_us {
        ((now_us - then_us) / 1000) as u128
    } else {
        0
    }
}

pub fn wire_cluster(s: ClusterStats) -> (w: ClusterWireStats)
    ensures
        w == wire_stats(s),
{
    ClusterWireStats {
        bytes_in: s.bytes_in,
        bytes_out: s.bytes_out,
        last_tick_us: s.last_tick_us,
        broadcast_lagged_events: s.broadcast_lagged_events,
        entities_current: s.entities_current,
    }
}

pub fn wire_entry(e: &CommandLogEntry, now_us: u64) -> (w: CommandWireEntry)
    ensures
        wire_entry_of(w, *e, now_us),
{
    let mut acked: Vec<DriverId> = Vec::new();
    let mut i: usize = 0;
    while i < e.acks.len()
        invariant
            i <= e.acks.len(),
            acked@ == ack_drivers(e.acks@.take(i as int)),
        decreases e.acks.len() - i,
    {
        acked.push(e.acks[i].driver_id);
        proof {
            assert(ack_drivers(e.acks@.take(i + 1)) =~= ack_drivers(e.acks@.take(i as int)).push(
                e.acks@[i as int].driver_id,
            ));
        }
        i += 1;
    }
    proof {
        assert(e.acks@.take(e.acks@.len() as int) =~= e.acks@);
    }
    let missing = e.missing.clone();
    assert(missing@ =~= e.missing@);
    CommandWireEntry {
        seq: e.seq,
        submitter: e.submitter.clone(),
        command: e.command,
        age_ms: age_millis(now_us, e.submitted_at_us),
        acked_drivers: acked,
        missing_drivers: missing,
    }
}

fn wire_driver(d: &DriverEntry, now_us: u64) -> (w: DriverWireState)
    ensures
        wire_driver_of(w, *d, now_us),
{
    let mut state = String::new();
    crate::text::push_str(&mut state, state_name(d.state));
    DriverWireState {
        driver_id: d.id,
        state,
        last_heartbeat_age_ms: age_millis(now_us, d.last_heartbeat_us),
        capabilities: d.capabilities.clone(),
    }
}

/// Builds a snapshot: every driver, the newest `window` log entries
/// newest first, and each cluster's latest counters.
pub fn build_snapshot(
    fleet: &Vec<DriverEntry>,
    log: &Vec<CommandLogEntry>,
    clusters: &Vec<(String, ClusterStats)>,
    now_us: u64,
    snapshot_at_unix_ms: u128,
    window: usize,
) -> (snap: TelemetrySnapshot)
    ensures
        snap.snapshot_at_unix_ms == snapshot_at_unix_ms,
        snap.fleet@.len() == fleet@.len(),
        forall|i: int| 0 <= i < fleet@.len() ==> wire_driver_of(#[trigger] snap.fleet@[i], fleet@[i], now_us),
        snap.recent_commands@.len() == recent_count(log@.len(), window as nat),
        forall|i: int|
            0 <= i < snap.recent_commands@.len() ==> wire_entry_of(
                #[trigger] snap.recent_commands@[i],
                log@[log@.len() - 1 - i],
                now_us,
            ),
        snap.clusters@.len() == clusters@.len(),
        forall|i: int|
            0 <= i < clusters@.len() ==> (#[trigger] snap.clusters@[i]).0 == clusters@[i].0
                && snap.clusters@[i].1 == wire_stats(clusters@[i].1),
{
    let mut drivers: Vec<DriverWireState> = Vec::new();
    let mut i: usize = 0;
    while i < fleet.len()
        invariant
            i <= fleet.len(),
            drivers@.len() == i,
            forall|k: int| 0 <= k < i ==> wire_driver_of(#[trigger] drivers@[k], fleet@[k], now_us),
        decreases fleet.len() - i,
    {
        drivers.push(wire_driver(&fleet[i], now_us));
        i += 1;
    }
    let n = if log.len() < window { log.len() } else { window };
    let mut recent: Vec<CommandWireEntry> = Vec::new();
    let mut j: usize = 0;
    while j < n
        invariant
            n == recent_count(log@.len(), window as nat),
            j <= n,
            recent@.len() == j,
            forall|k: int|
                0 <= k < j ==> wire_entry_of(#[trigger] recent@[k], log@[log@.len() - 1 - k], now_us),
        decreases n - j,
    {
        recent.push(wire_entry(&log[log.len() - 1 - j], now_us));
        j += 1;
    }
    let mut per_cluster: Vec<(String, ClusterWireStats)> = Vec::new();
    let mut c: usize = 0;
    while c < clusters.len()
        invariant
            c <= clusters.len(),
            per_cluster@.len() == c,
            forall|k: int|
                0 <= k < c ==> (#[trigger] per_cluster@[k]).0 == clusters@[k].0 && per_cluster@[k].1
                    == wire_stats(clusters@[k].1),
        decreases clusters.len() - c,
    {
        let url = clusters[c].0.clone();
        per_cluster.push((url, wire_cluster(clusters[c].1)));
        c += 1;
    }
    TelemetrySnapshot {
        snapshot_at_unix_ms,
        fleet: drivers,
        recent_commands: recent,
        clusters: per_cluster,
    }
}

/// Snapshot builder holding the number of recent commands to embed.
pub struct TelemetrySource {
    recent_command_window: usize,
}

impl TelemetrySource {
    pub closed spec fn window(&self) -> nat {
        self.recent_command_window as nat
    }

    /// A source embedding the 32 most recent commands.
    pub fn new() -> (t: Self)
        ensures
            t.window() == 32,
    {
        TelemetrySource { recent_command_window: 32 }
    }

    pub fn with_recent_command_window(self, n: usize) -> (t: Self)
        ensures
            t.window() == n,
    {
        TelemetrySource { recent_command_window: n }
    }

    pub fn recent_command_window(&self) -> (n: usize)
        ensures
            n == self.window(),
    {
        self.recent_command_window
    }

    /// Builds the snapshot of the pool's fleet (registration order), the
    /// dispatcher's newest log entries and the given cluster readings.
    pub fn tick(
        &self,
        pool: &DriverPool,
        dispatcher: &crate::command_dispatcher::CommandDispatcher,
        clusters: &Vec<(String, ClusterStats)>,
        now_us: u64,
        snapshot_at_unix_ms: u128,
    ) -> (snap: TelemetrySnapshot)
        ensures
            snap.snapshot_at_unix_ms == snapshot_at_unix_ms,
            snap.fleet@.len() == pool.entries().len(),
            forall|i: int|
                0 <= i < pool.entries().len() ==> wire_driver_of(
                    #[trigger] snap.fleet@[i],
                    pool.entries()[i],
                    now_us,
                ),
            snap.recent_commands@.len() == recent_count(dispatcher.log().len(), self.window()),
            forall|i: int|
                0 <= i < snap.recent_commands@.len() ==> {
                    let e = dispatcher.log()[dispatcher.log().len() - 1 - i];
                    let w = #[trigger] snap.recent_commands@[i];
                    &&& w.seq == e.seq
                    &&& w.submitter == e.submitter
                    &&& w.command == e.command
                    &&& w.age_ms == age_ms(now_us, e.submitted_at_us)
                    &&& w.acked_drivers@ == ack_drivers(e.acks@)
                    &&& w.missing_drivers@ == e.missing@
                },
            snap.clusters@.len() == clusters@.len(),
            forall|i: int|
                0 <= i < clusters@.len() ==> (#[trigger] snap.clusters@[i]).0 == clusters@[i].0
                    && snap.clusters@[i].1 == wire_stats(clusters@[i].1),
    {
        let fleet = pool.snapshot();
        let log = dispatcher.command_log();
        let snap = build_snapshot(&fleet, &log, clusters, now_us, snapshot_at_unix_ms, self.recent_command_window);
        snap
    }
}

/// A snapshot's cluster entry carries the reading's own counters, field
/// for field: together with the reading's sampling time they give the
/// reading back.
pub proof fn law_cluster_entry_keeps_each_counter(s: ClusterStats)
    ensures
        (ClusterStats {
            bytes_in: wire_stats(s).bytes_in,
            bytes_out: wire_stats(s).bytes_out,
            last_tick_us: wire_stats(s).last_tick_us,
            broadcast_lagged_events: wire_stats(s).broadcast_lagged_events,
            entities_current: wire_stats(s).entities_current,
            sampled_at_us: s.sampled_at_us,
        }) == s,
{
}

} // verus!
