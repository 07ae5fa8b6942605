//! Operation counters and latency statistics of a swarm run.
//!
//! Counters wrap around at 2^64 like the atomic counters they stand for;
//! latencies are in microseconds.

use crate::text::{decimal, push_decimal, push_str};
use vstd::prelude::*;

verus! {

/// `a + b` modulo 2^64.
pub open spec fn wsum(a: u64, b: u64) -> u64 {
    vstd::wrapping::u64_specs::wrapping_add(a, b)
}

pub open spec fn max_u64(a: u64, b: u64) -> u64 {
    if a >= b { a } else { b }
}

/// `sum / n`, or zero when there are no samples.
pub open spec fn average(sum: u64, n: u64) -> u64 {
    if n == 0 { 0 } else { sum / n }
}

/// Benchmark error taxonomy.
#[derive(Clone, Copy, Debug, PartialEq, Eq, Structural)]
pub enum ErrorKind {
    Timeout,
    NotDelivered,
    HttpStatus,
    Transport,
    ConnectionDrop,
}

pub open spec fn error_key(k: ErrorKind) -> Seq<char> {
    match k {
        ErrorKind::Timeout => "timeout"@,
        ErrorKind::NotDelivered => "not_delivered"@,
        ErrorKind::HttpStatus => "http_status"@,
        ErrorKind::Transport => "transport"@,
        ErrorKind::ConnectionDrop => "connection_drop"@,
    }
}

impl ErrorKind {
    /// Every kind, in summary order.
    pub fn all() -> (v: [ErrorKind; 5])
        ensures
            v@ == seq![
                ErrorKind::Timeout,
                ErrorKind::NotDelivered,
                ErrorKind::HttpStatus,
                ErrorKind::Transport,
                ErrorKind::ConnectionDrop,
            ],
    {
        let v = [
            ErrorKind::Timeout,
            ErrorKind::NotDelivered,
            ErrorKind::HttpStatus,
            ErrorKind::Transport,
            ErrorKind::ConnectionDrop,
        ];
        assert(v@ =~= seq![
            ErrorKind::Timeout,
            ErrorKind::NotDelivered,
            ErrorKind::HttpStatus,
            ErrorKind::Transport,
            ErrorKind::ConnectionDrop,
        ]);
        v
    }

    pub fn key(self) -> (k: &'static str)
        ensures
            k@ == error_key(self),
    {
        match self {
            ErrorKind::Timeout => "timeout",
            ErrorKind::NotDelivered => "not_delivered",
            ErrorKind::HttpStatus => "http_status",
            ErrorKind::Transport => "transport",
            ErrorKind::ConnectionDrop => "connection_drop",
        }
    }
}

/// Per-kind error counters.
#[derive(Clone, Copy, Debug, Default, PartialEq, Eq, Structural)]
pub struct ErrorBreakdown {
    pub timeout: u64,
    pub not_delivered: u64,
    pub http_status: u64,
    pub transport: u64,
    pub connection_drop: u64,
}

pub open spec fn breakdown_total(e: ErrorBreakdown) -> int {
    e.timeout + e.not_delivered + e.http_status + e.transport + e.connection_drop
}

/// `{"timeout":N,"not_delivered":N,"http_status":N,"transport":N,"connection_drop":N}`
pub open spec fn breakdown_json(e: ErrorBreakdown) -> Seq<char> {
    "{\"timeout\":"@ + decimal(e.timeout as nat) + ",\"not_delivered\":"@ + decimal(
        e.not_delivered as nat,
    ) + ",\"http_status\":"@ + decimal(e.http_status as nat) + ",\"transport\":"@ + decimal(
        e.transport as nat,
    ) + ",\"connection_drop\":"@ + decimal(e.connection_drop as nat) + "}"@
}

impl ErrorBreakdown {
    pub fn total(&self) -> (t: u64)
        requires
            breakdown_total(*self) <= u64::MAX,
        ensures
            t == breakdown_total(*self),
    {
        self.timeout + self.not_delivered + self.http_status + self.transport + self.connection_drop
    }

    pub fn to_json(self) -> (s: String)
        ensures
            s@ == breakdown_json(self),
    {
        let mut s = String::new();
        push_str(&mut s, "{\"timeout\":");
        push_decimal(&mut s, self.timeout);
        push_str(&mut s, ",\"not_delivered\":");
        push_decimal(&mut s, self.not_delivered);
        push_str(&mut s, ",\"http_status\":");
        push_decimal(&mut s, self.http_status);
        push_str(&mut s, ",\"transport\":");
        push_decimal(&mut s, self.transport);
        push_str(&mut s, ",\"connection_drop\":");
        push_decimal(&mut s, self.connection_drop);
        push_str(&mut s, "}");
        s
    }
}

/// Aggregated stats of one reporting interval.
///
/// `avg_latency_us` is the client-perceived latency; `wire_*` (server
/// stamp minus send) and `drain_*` (match minus frame arrival) decompose it
/// when the backend supplies the timestamps.
#[derive(Clone, Copy, Debug, Default, PartialEq, Eq, Structural)]
pub struct MetricsSnapshot {
    pub ok: u64,
    pub err: u64,
    pub avg_latency_us: u64,
    pub max_latency_us: u64,
    pub latency_sum_us: u64,
    pub latency_samples: u64,
    pub bytes: u64,
    pub errors: ErrorBreakdown,
    pub avg_wire_latency_us: u64,
    pub max_wire_latency_us: u64,
    pub wire_latency_samples: u64,
    pub avg_drain_latency_us: u64,
    pub max_drain_latency_us: u64,
    pub drain_latency_samples: u64,
}

/// The raw counters.
#[derive(Clone, Copy, Debug, PartialEq, Eq, Structural)]
pub struct MetricsState {
    pub ok: u64,
    pub err: u64,
    pub latency_sum_us: u64,
    pub latency_max_us: u64,
    pub latency_samples: u64,
    pub bytes: u64,
    pub err_timeout: u64,
    pub err_not_delivered: u64,
    pub err_http_status: u64,
    pub err_transport: u64,
    pub err_connection_drop: u64,
    pub wire_latency_sum_us: u64,
    pub wire_latency_max_us: u64,
    pub wire_latency_samples: u64,
    pub drain_latency_sum_us: u64,
    pub drain_latency_max_us: u64,
    pub drain_latency_samples: u64,
}

pub open spec fn zero_state() -> MetricsState {
    MetricsState {
        ok: 0,
        err: 0,
        latency_sum_us: 0,
        latency_max_us: 0,
        latency_samples: 0,
        bytes: 0,
        err_timeout: 0,
        err_not_delivered: 0,
        err_http_status: 0,
        err_transport: 0,
        err_connection_drop: 0,
        wire_latency_sum_us: 0,
        wire_latency_max_us: 0,
        wire_latency_samples: 0,
        drain_latency_sum_us: 0,
        drain_latency_max_us: 0,
        drain_latency_samples: 0,
    }
}

/// One successful operation with a latency sample.
pub open spec fn with_ok(s: MetricsState, latency_us: u64) -> MetricsState {
    MetricsState {
        ok: wsum(s.ok, 1),
        latency_sum_us: wsum(s.latency_sum_us, latency_us),
        latency_samples: wsum(s.latency_samples, 1),
        latency_max_us: max_u64(s.latency_max_us, latency_us),
        ..s
    }
}

/// One error of kind `k`.
pub open spec fn with_err(s: MetricsState, k: ErrorKind) -> MetricsState {
    let s2 = MetricsState { err: wsum(s.err, 1), ..s };
    match k {
        ErrorKind::Timeout => MetricsState { err_timeout: wsum(s.err_timeout, 1), ..s2 },
        ErrorKind::NotDelivered => MetricsState { err_not_delivered: wsum(s.err_not_delivered, 1), ..s2 },
        ErrorKind::HttpStatus => MetricsState { err_http_status: wsum(s.err_http_status, 1), ..s2 },
        ErrorKind::Transport => MetricsState { err_transport: wsum(s.err_transport, 1), ..s2 },
        ErrorKind::ConnectionDrop => MetricsState {
            err_connection_drop: wsum(s.err_connection_drop, 1),
            ..s2
        },
    }
}

/// The summary of counters `s`.
pub open spec fn summary(s: MetricsState) -> MetricsSnapshot {
    MetricsSnapshot {
        ok: s.ok,
        err: s.err,
        avg_latency_us: average(s.latency_sum_us, s.latency_samples),
        max_latency_us: s.latency_max_us,
        latency_sum_us: s.latency_sum_us,
        latency_samples: s.latency_samples,
        bytes: s.bytes,
        errors: ErrorBreakdown {
            timeout: s.err_timeout,
            not_delivered: s.err_not_delivered,
            http_status: s.err_http_status,
            transport: s.err_transport,
            connection_drop: s.err_connection_drop,
        },
        avg_wire_latency_us: average(s.wire_latency_sum_us, s.wire_latency_samples),
        max_wire_latency_us: s.wire_latency_max_us,
        wire_latency_samples: s.wire_latency_samples,
        avg_drain_latency_us: average(s.drain_latency_sum_us, s.drain_latency_samples),
        max_drain_latency_us: s.drain_latency_max_us,
        drain_latency_samples: s.drain_latency_samples,
    }
}

/// The error count is the per-kind counts' sum, modulo 2^64.
pub open spec fn errors_consistent(s: MetricsState) -> bool {
    s.err as int == (s.err_timeout + s.err_not_delivered + s.err_http_status + s.err_transport
        + s.err_connection_drop) % 0x1_0000_0000_0000_0000
}

pub struct Metrics {
    st: MetricsState,
}

impl View for Metrics {
    type V = MetricsState;

    closed spec fn view(&self) -> MetricsState {
        self.st
    }
}

fn inc(x: u64) -> (y: u64)
    ensures
        y == wsum(x, 1),
{
    x.wrapping_add(1)
}

fn umax(a: u64, b: u64) -> (m: u64)
    ensures
        m == max_u64(a, b),
{
    if a >= b { a } else { b }
}

fn avg(sum: u64, n: u64) -> (a: u64)
    ensures
        a == average(sum, n),
{
    match sum.checked_div(n) {
        Some(q) => q,
        None => 0,
    }
}

impl Metrics {
    pub closed spec fn wf(&self) -> bool {
        errors_consistent(self.st)
    }

    pub fn new() -> (m: Self)
        ensures
            m@ == zero_state(),
            m.wf(),
    {
        Metrics {
            st: MetricsState {
                ok: 0,
                err: 0,
                latency_sum_us: 0,
                latency_max_us: 0,
                latency_samples: 0,
                bytes: 0,
                err_timeout: 0,
                err_not_delivered: 0,
                err_http_status: 0,
                err_transport: 0,
                err_connection_drop: 0,
                wire_latency_sum_us: 0,
                wire_latency_max_us: 0,
                wire_latency_samples: 0,
                drain_latency_sum_us: 0,
                drain_latency_max_us: 0,
                drain_latency_samples: 0,
            },
        }
    }

    /// A successful operation with client-perceived latency `latency_us`.
    pub fn record_ok(&mut self, latency_us: u64)
        ensures
            final(self)@ == with_ok(old(self)@, latency_us),
            old(self).wf() ==> final(self).wf(),
    {
        self.st.ok = inc(self.st.ok);
        self.st.latency_sum_us = self.st.latency_sum_us.wrapping_add(latency_us);
        self.st.latency_samples = inc(self.st.latency_samples);
        self.st.latency_max_us = umax(self.st.latency_max_us, latency_us);
    }

    /// A successful operation with its latency split into the wire part
    /// (absent when the server stamped no usable time) and the on-driver
    /// drain part. Feeds the same counters as `record_ok` as well.
    pub fn record_ok_decomposed(&mut self, total_latency_us: u64, wire_latency_us: Option<u64>, drain_latency_us: u64)
        ensures
            ({
                let s = with_ok(old(self)@, total_latency_us);
                let d = MetricsState {
                    drain_latency_sum_us: wsum(s.drain_latency_sum_us, drain_latency_us),
                    drain_latency_samples: wsum(s.drain_latency_samples, 1),
                    drain_latency_max_us: max_u64(s.drain_latency_max_us, drain_latency_us),
                    ..s
                };
                final(self)@ == match wire_latency_us {
                    Some(w) => MetricsState {
                        wire_latency_sum_us: wsum(d.wire_latency_sum_us, w),
                        wire_latency_samples: wsum(d.wire_latency_samples, 1),
                        wire_latency_max_us: max_u64(d.wire_latency_max_us, w),
                        ..d
                    },
                    None => d,
                }
            }),
            old(self).wf() ==> final(self).wf(),
    {
        self.record_ok(total_latency_us);
        self.st.drain_latency_sum_us = self.st.drain_latency_sum_us.wrapping_add(drain_latency_us);
        self.st.drain_latency_samples = inc(self.st.drain_latency_samples);
        self.st.drain_latency_max_us = umax(self.st.drain_latency_max_us, drain_latency_us);
        if let Some(w) = wire_latency_us {
            self.st.wire_latency_sum_us = self.st.wire_latency_sum_us.wrapping_add(w);
            self.st.wire_latency_samples = inc(self.st.wire_latency_samples);
            self.st.wire_latency_max_us = umax(self.st.wire_latency_max_us, w);
        }
    }

    /// A successful operation without a latency sample (fire-and-forget
    /// sends whose call-site time means nothing).
    pub fn record_ok_count(&mut self)
        ensures
            final(self)@ == (MetricsState { ok: wsum(old(self)@.ok, 1), ..old(self)@ }),
            old(self).wf() ==> final(self).wf(),
    {
        self.st.ok = inc(self.st.ok);
    }

    pub fn record_ok_bytes(&mut self, latency_us: u64, bytes: u64)
        ensures
            final(self)@ == (MetricsState {
                bytes: wsum(old(self)@.bytes, bytes),
                ..with_ok(old(self)@, latency_us)
            }),
            old(self).wf() ==> final(self).wf(),
    {
        self.record_ok(latency_us);
        self.st.bytes = self.st.bytes.wrapping_add(bytes);
    }

    /// An error of unspecified kind, counted as a transport error.
    pub fn record_err(&mut self)
        ensures
            final(self)@ == with_err(old(self)@, ErrorKind::Transport),
            old(self).wf() ==> final(self).wf(),
    {
        self.record_err_kind(ErrorKind::Transport);
    }

    pub fn record_err_kind(&mut self, kind: ErrorKind)
        ensures
            final(self)@ == with_err(old(self)@, kind),
            old(self).wf() ==> final(self).wf(),
    {
        let ghost o = self.st;
        self.st.err = inc(self.st.err);
        match kind {
            ErrorKind::Timeout => {
                self.st.err_timeout = inc(self.st.err_timeout);
            },
            ErrorKind::NotDelivered => {
                self.st.err_not_delivered = inc(self.st.err_not_delivered);
            },
            ErrorKind::HttpStatus => {
                self.st.err_http_status = inc(self.st.err_http_status);
            },
            ErrorKind::Transport => {
                self.st.err_transport = inc(self.st.err_transport);
            },
            ErrorKind::ConnectionDrop => {
                self.st.err_connection_drop = inc(self.st.err_connection_drop);
            },
        }
        proof {
            let m: int = 0x1_0000_0000_0000_0000;
            let t = o.err_timeout + o.err_not_delivered + o.err_http_status + o.err_transport
                + o.err_connection_drop;
            let t2 = self.st.err_timeout + self.st.err_not_delivered + self.st.err_http_status
                + self.st.err_transport + self.st.err_connection_drop;
            if errors_consistent(o) {
                assert(t2 == t + 1 || t2 == t + 1 - m);
                assert(o.err as int == t % m);
                assert(self.st.err as int == (o.err + 1) % m);
                assert((t + 1) % m == (t % m + 1) % m) by (nonlinear_arith)
                    requires m > 0, t >= 0;
                if t2 == t + 1 - m {
                    assert(t2 >= 0);
                    assert((t + 1 - m) % m == (t + 1) % m) by (nonlinear_arith)
                        requires m > 0, t + 1 - m >= 0;
                }
            }
        }
    }

    /// One inbound message with `payload_bytes` bytes, counted as a
    /// success without a latency sample.
    pub fn record_inbound_ok(&mut self, payload_bytes: u64)
        ensures
            final(self)@ == (MetricsState {
                ok: wsum(old(self)@.ok, 1),
                bytes: wsum(old(self)@.bytes, payload_bytes),
                ..old(self)@
            }),
            old(self).wf() ==> final(self).wf(),
    {
        self.st.ok = inc(self.st.ok);
        self.st.bytes = self.st.bytes.wrapping_add(payload_bytes);
    }

    /// Summarizes the counters and zeroes them.
    pub fn snapshot_and_reset(&mut self) -> (s: MetricsSnapshot)
        ensures
            s == summary(old(self)@),
            final(self)@ == zero_state(),
            final(self).wf(),
    {
        let st = self.st;
        let s = MetricsSnapshot {
            ok: st.ok,
            err: st.err,
            avg_latency_us: avg(st.latency_sum_us, st.latency_samples),
            max_latency_us: st.latency_max_us,
            latency_sum_us: st.latency_sum_us,
            latency_samples: st.latency_samples,
            bytes: st.bytes,
            errors: ErrorBreakdown {
                timeout: st.err_timeout,
                not_delivered: st.err_not_delivered,
                http_status: st.err_http_status,
                transport: st.err_transport,
                connection_drop: st.err_connection_drop,
            },
            avg_wire_latency_us: avg(st.wire_latency_sum_us, st.wire_latency_samples),
            max_wire_latency_us: st.wire_latency_max_us,
            wire_latency_samples: st.wire_latency_samples,
            avg_drain_latency_us: avg(st.drain_latency_sum_us, st.drain_latency_samples),
            max_drain_latency_us: st.drain_latency_max_us,
            drain_latency_samples: st.drain_latency_samples,
        };
        *self = Metrics::new();
        s
    }
}

/// One `record_*` call on a `Metrics`.
#[derive(Clone, Copy, Debug, PartialEq, Eq, Structural)]
pub enum Recorded {
    /// `record_ok(latency_us)`.
    Success(u64),
    /// `record_ok_decomposed(total, wire, drain)`.
    OkDecomposed(u64, Option<u64>, u64),
    /// `record_ok_count()`.
    OkCount,
    /// `record_ok_bytes(latency_us, bytes)`.
    OkBytes(u64, u64),
    /// `record_err_kind(kind)` (`record_err()` is `Transport`).
    Failure(ErrorKind),
    /// `record_inbound_ok(payload_bytes)`.
    InboundOk(u64),
}

/// The counters after one recorded call, as that method's contract states.
pub open spec fn apply_recorded(s: MetricsState, e: Recorded) -> MetricsState {
    match e {
        Recorded::Success(l) => with_ok(s, l),
        Recorded::OkDecomposed(l, w, dr) => {
            let s1 = with_ok(s, l);
            let d = MetricsState {
                drain_latency_sum_us: wsum(s1.drain_latency_sum_us, dr),
                drain_latency_samples: wsum(s1.drain_latency_samples, 1),
                drain_latency_max_us: max_u64(s1.drain_latency_max_us, dr),
                ..s1
            };
            match w {
                Some(x) => MetricsState {
                    wire_latency_sum_us: wsum(d.wire_latency_sum_us, x),
                    wire_latency_samples: wsum(d.wire_latency_samples, 1),
                    wire_latency_max_us: max_u64(d.wire_latency_max_us, x),
                    ..d
                },
                None => d,
            }
        },
        Recorded::OkCount => MetricsState { ok: wsum(s.ok, 1), ..s },
        Recorded::OkBytes(l, b) => MetricsState { bytes: wsum(s.bytes, b), ..with_ok(s, l) },
        Recorded::Failure(k) => with_err(s, k),
        Recorded::InboundOk(b) => MetricsState { ok: wsum(s.ok, 1), bytes: wsum(s.bytes, b), ..s },
    }
}

/// The counters after the calls `es`, in order, starting from `s`.
pub open spec fn apply_all(s: MetricsState, es: Seq<Recorded>) -> MetricsState
    decreases es.len(),
{
    if es.len() == 0 {
        s
    } else {
        apply_recorded(apply_all(s, es.drop_last()), es.last())
    }
}

/// Which latency series a sample belongs to.
pub enum Series {
    Client,
    Wire,
    Drain,
}

/// The sample a call adds to series `k`, if any.
pub open spec fn sample_of(e: Recorded, k: Series) -> Option<u64> {
    match k {
        Series::Client => match e {
            Recorded::Success(l) => Some(l),
            Recorded::OkDecomposed(l, _, _) => Some(l),
            Recorded::OkBytes(l, _) => Some(l),
            _ => None,
        },
        Series::Wire => match e {
            Recorded::OkDecomposed(_, w, _) => w,
            _ => None,
        },
        Series::Drain => match e {
            Recorded::OkDecomposed(_, _, d) => Some(d),
            _ => None,
        },
    }
}

/// Number of samples the calls `es` add to series `k`.
pub open spec fn sample_count(es: Seq<Recorded>, k: Series) -> nat
    decreases es.len(),
{
    if es.len() == 0 {
        0
    } else {
        sample_count(es.drop_last(), k) + if sample_of(es.last(), k) is Some { 1nat } else { 0nat }
    }
}

/// Sum of the samples the calls `es` add to series `k`.
pub open spec fn sample_sum(es: Seq<Recorded>, k: Series) -> nat
    decreases es.len(),
{
    if es.len() == 0 {
        0
    } else {
        sample_sum(es.drop_last(), k) + match sample_of(es.last(), k) {
            Some(v) => v as nat,
            None => 0nat,
        }
    }
}

/// Largest sample the calls `es` add to series `k` (zero with none).
pub open spec fn sample_max(es: Seq<Recorded>, k: Series) -> u64
    decreases es.len(),
{
    if es.len() == 0 {
        0
    } else {
        match sample_of(es.last(), k) {
            Some(v) => max_u64(sample_max(es.drop_last(), k), v),
            None => sample_max(es.drop_last(), k),
        }
    }
}

/// Series `k`'s (samples, sum, max) counters in state `s`.
pub open spec fn series_counters(s: MetricsState, k: Series) -> (u64, u64, u64) {
    match k {
        Series::Client => (s.latency_samples, s.latency_sum_us, s.latency_max_us),
        Series::Wire => (s.wire_latency_samples, s.wire_latency_sum_us, s.wire_latency_max_us),
        Series::Drain => (s.drain_latency_samples, s.drain_latency_sum_us, s.drain_latency_max_us),
    }
}

proof fn lemma_series_accumulates(es: Seq<Recorded>, k: Series)
    requires
        sample_count(es, k) <= u64::MAX,
        sample_sum(es, k) <= u64::MAX,
    ensures
        series_counters(apply_all(zero_state(), es), k) == (
            sample_count(es, k) as u64,
            sample_sum(es, k) as u64,
            sample_max(es, k),
        ),
    decreases es.len(),
{
    if es.len() > 0 {
        lemma_series_accumulates(es.drop_last(), k);
    }
}

/// Since the counters were last zeroed (by `new` or `snapshot_and_reset`),
/// the calls `es` leave a snapshot whose client, wire and drain series
/// each hold exactly the samples those calls added: their number, their
/// sum, their maximum, and the sum over the number as the average. It
/// holds while the number and the sum of each series stay below 2^64,
/// where the counters would wrap.
pub proof fn law_snapshot_accumulates_samples(es: Seq<Recorded>)
    requires
        sample_count(es, Series::Client) <= u64::MAX,
        sample_sum(es, Series::Client) <= u64::MAX,
        sample_count(es, Series::Wire) <= u64::MAX,
        sample_sum(es, Series::Wire) <= u64::MAX,
        sample_count(es, Series::Drain) <= u64::MAX,
        sample_sum(es, Series::Drain) <= u64::MAX,
    ensures
        ({
            let snap = summary(apply_all(zero_state(), es));
            let (n, sum, mx) = (
                sample_count(es, Series::Client),
                sample_sum(es, Series::Client),
                sample_max(es, Series::Client),
            );
            let (wn, wsum_, wmx) = (
                sample_count(es, Series::Wire),
                sample_sum(es, Series::Wire),
                sample_max(es, Series::Wire),
            );
            let (dn, dsum, dmx) = (
                sample_count(es, Series::Drain),
                sample_sum(es, Series::Drain),
                sample_max(es, Series::Drain),
            );
            &&& snap.latency_samples == n && snap.latency_sum_us == sum && snap.max_latency_us == mx
            &&& snap.avg_latency_us == (if n > 0 { sum / n } else { 0 })
            &&& snap.wire_latency_samples == wn && snap.max_wire_latency_us == wmx
            &&& snap.avg_wire_latency_us == (if wn > 0 { wsum_ / wn } else { 0 })
            &&& snap.drain_latency_samples == dn && snap.max_drain_latency_us == dmx
            &&& snap.avg_drain_latency_us == (if dn > 0 { dsum / dn } else { 0 })
        }),
{
    lemma_series_accumulates(es, Series::Client);
    lemma_series_accumulates(es, Series::Wire);
    lemma_series_accumulates(es, Series::Drain);
}

/// After a reset the next snapshot reports nothing: every count, sum,
/// average and maximum is zero.
pub proof fn law_snapshot_after_reset_is_zero()
    ensures
        summary(zero_state()) == (MetricsSnapshot {
            ok: 0,
            err: 0,
            avg_latency_us: 0,
            max_latency_us: 0,
            latency_sum_us: 0,
            latency_samples: 0,
            bytes: 0,
            errors: ErrorBreakdown { timeout: 0, not_delivered: 0, http_status: 0, transport: 0, connection_drop: 0 },
            avg_wire_latency_us: 0,
            max_wire_latency_us: 0,
            wire_latency_samples: 0,
            avg_drain_latency_us: 0,
            max_drain_latency_us: 0,
            drain_latency_samples: 0,
        }),
{
}

/// The per-kind error counts of a snapshot add up to its error count
/// (modulo 2^64, as the counters wrap).
pub proof fn law_breakdown_adds_up_to_errors(m: Metrics)
    requires
        m.wf(),
    ensures
        breakdown_total(summary(m@).errors) % 0x1_0000_0000_0000_0000 == summary(m@).err as int,
{
}

} // verus!
