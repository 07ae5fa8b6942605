//! Byte counts as the periodic reporter prints them.

use crate::metrics::{wsum, ErrorBreakdown, MetricsSnapshot};
use crate::text::{chars_of, decimal, digit_char, push_decimal, push_str, string_push};
use crate::words::{parse_u64, parse_unsigned, split_words, words};
use vstd::prelude::*;

verus! {

/// `2^k`.
pub open spec fn two_pow(k: nat) -> nat
    decreases k,
{
    if k == 0 {
        1
    } else {
        2 * two_pow((k - 1) as nat)
    }
}

/// The power of two by which a 64-bit count is scaled down to 53
/// significant bits, searching from `2^k` upwards.
pub open spec fn f64_scale_from(b: nat, k: nat) -> nat
    decreases 12 - k,
{
    if k >= 12 || b / two_pow(k) < two_pow(53) {
        two_pow(k)
    } else {
        f64_scale_from(b, k + 1)
    }
}

/// The value of `b as f64`: `b` rounded to 53 significant bits, ties to
/// even.
pub open spec fn as_f64_value(b: nat) -> nat {
    let s = f64_scale_from(b, 0);
    let q = b / s;
    let r = b % s;
    let up = s > 1 && (2 * r > s || (2 * r == s && q % 2 == 1));
    (if up { q + 1 } else { q }) * s
}

/// `v / unit` rounded to tenths, ties to even, in tenths.
pub open spec fn tenths(v: nat, unit: nat) -> nat {
    let t = v * 10 / unit;
    let r = v * 10 % unit;
    if 2 * r > unit || (2 * r == unit && t % 2 == 1) {
        t + 1
    } else {
        t
    }
}

/// One-decimal text of a count of tenths.
pub open spec fn one_decimal(t: nat) -> Seq<char> {
    decimal(t / 10) + seq!['.', digit_char(t % 10)]
}

/// Bytes with a binary unit: `MB` from 1 MiB (one decimal), `KB` from
/// 1 KiB (one decimal), plain `B` below, the decimal place rounded from
/// the count's double-precision value, ties to even.
pub open spec fn bytes_text(b: u64) -> Seq<char> {
    if b >= 1_048_576 {
        one_decimal(tenths(as_f64_value(b as nat), 1_048_576)) + "MB"@
    } else if b >= 1024 {
        one_decimal(tenths(b as nat, 1024)) + "KB"@
    } else {
        decimal(b as nat) + "B"@
    }
}

proof fn lemma_two_pow_step(k: nat)
    ensures
        two_pow(k + 1) == 2 * two_pow(k),
        two_pow(k) >= 1,
    decreases k,
{
    if k > 0 {
        lemma_two_pow_step((k - 1) as nat);
    }
}

proof fn lemma_two_pow_monotone(k: nat, j: nat)
    requires
        k <= j,
    ensures
        two_pow(k) <= two_pow(j),
    decreases j,
{
    lemma_two_pow_step(k);
    if k < j {
        lemma_two_pow_monotone(k, (j - 1) as nat);
        lemma_two_pow_step((j - 1) as nat);
    }
}

/// `b as f64` as an exact integer (at most `2^64`).
fn as_f64_exact(b: u64) -> (v: u128)
    ensures
        v == as_f64_value(b as nat),
        v <= 0x1_0000_0000_0000_0000,
{
    let mut s: u128 = 1;
    let mut k: u32 = 0;
    proof {
        reveal_with_fuel(two_pow, 54);
        assert(two_pow(53) == 0x20_0000_0000_0000);
        assert(two_pow(11) == 2048);
        assert(two_pow(0) == 1);
    }
    while k < 12 && (b as u128) / s >= 0x20_0000_0000_0000
        invariant
            k <= 12,
            s == two_pow(k as nat),
            1 <= s <= 4096,
            f64_scale_from(b as nat, k as nat) == f64_scale_from(b as nat, 0),
            two_pow(53) == 0x20_0000_0000_0000,
            two_pow(11) == 2048,
            k > 0 ==> (b as nat) / two_pow((k - 1) as nat) >= two_pow(53),
        decreases 12 - k,
    {
        proof {
            lemma_two_pow_step(k as nat);
            lemma_two_pow_monotone(k as nat + 1, 12);
            reveal_with_fuel(two_pow, 13);
        }
        s = s * 2;
        k = k + 1;
    }
    proof {
        if k == 12 {
            assert((b as nat) / 2048 < 0x20_0000_0000_0000) by (nonlinear_arith)
                requires b < 0x1_0000_0000_0000_0000;
            assert(false);
        }
        assert(f64_scale_from(b as nat, k as nat) == two_pow(k as nat));
        lemma_two_pow_monotone(k as nat, 11);
    }
    let q = (b as u128) / s;
    let r = (b as u128) % s;
    let up = s > 1 && (2 * r > s || (2 * r == s && q % 2 == 1));
    let q2 = if up { q + 1 } else { q };
    proof {
        assert(q2 <= q + 1);
        assert(q < 0x20_0000_0000_0000);
        assert(q2 * s <= 0x20_0000_0000_0000 * 2048) by (nonlinear_arith)
            requires q2 <= q + 1, q < 0x20_0000_0000_0000, 1 <= s <= 2048;
    }
    q2 * s
}

/// Appends `v / unit` with one decimal, rounded ties to even.
fn push_one_decimal(out: &mut String, v: u128, unit: u128)
    requires
        1024 <= unit <= 1_048_576,
        v <= 0x1_0000_0000_0000_0000,
    ensures
        final(out)@ == old(out)@ + one_decimal(tenths(v as nat, unit as nat)),
{
    let t = v * 10 / unit;
    let r = v * 10 % unit;
    let n = if 2 * r > unit || (2 * r == unit && t % 2 == 1) { t + 1 } else { t };
    proof {
        assert(t <= 0x1_0000_0000_0000_0000 * 10 / 1024) by (nonlinear_arith)
            requires t == (v * 10) / (unit as int), unit >= 1024, v <= 0x1_0000_0000_0000_0000;
        assert(n == tenths(v as nat, unit as nat));
    }
    let ghost before = out@;
    push_decimal(out, (n / 10) as u64);
    string_push(out, '.');
    let d: u8 = 48u8 + (n % 10) as u8;
    let c = d as char;
    string_push(out, c);
    proof {
        assert(c == digit_char((n % 10) as nat));
        assert(out@ =~= before + one_decimal(n as nat));
    }
}

/// Formats a byte count for the reporter.
pub fn fmt_bytes(b: u64) -> (s: String)
    ensures
        s@ == bytes_text(b),
{
    let mut s = String::new();
    if b >= 1_048_576 {
        let v = as_f64_exact(b);
        push_one_decimal(&mut s, v, 1_048_576);
        push_str(&mut s, "MB");
    } else if b >= 1024 {
        push_one_decimal(&mut s, b as u128, 1024);
        push_str(&mut s, "KB");
    } else {
        push_decimal(&mut s, b);
        push_str(&mut s, "B");
    }
    s
}

/// Position of the last `c` in `s`, if any.
pub open spec fn last_index_of(s: Seq<char>, c: char) -> Option<int>
    decreases s.len(),
{
    if s.len() == 0 {
        None
    } else if s.last() == c {
        Some(s.len() - 1)
    } else {
        last_index_of(s.drop_last(), c)
    }
}

/// `utime` and `stime` of a `/proc/<pid>/stat` line: the twelfth and
/// thirteenth words after the last `)` (the command name before it may
/// hold spaces and parentheses).
pub open spec fn stat_cpu_ticks(stat: Seq<char>) -> Option<(u64, u64)> {
    match last_index_of(stat, ')') {
        None => None,
        Some(i) => {
            let w = words(stat.skip(i + 1));
            if w.len() >= 13 && parse_unsigned(w[11], u64::MAX as nat) is Some
                && parse_unsigned(w[12], u64::MAX as nat) is Some {
                Some((
                    parse_unsigned(w[11], u64::MAX as nat)->0 as u64,
                    parse_unsigned(w[12], u64::MAX as nat)->0 as u64,
                ))
            } else {
                None
            }
        },
    }
}

/// The lines of `s`, split at each line feed (the last one possibly empty).
pub open spec fn line_segments(s: Seq<char>) -> Seq<Seq<char>>
    decreases s.len(),
{
    if s.len() == 0 {
        seq![Seq::empty()]
    } else {
        let prev = line_segments(s.drop_last());
        if s.last() == '\n' {
            prev.push(Seq::empty())
        } else {
            prev.update(prev.len() - 1, prev.last().push(s.last()))
        }
    }
}

pub open spec fn has_prefix(s: Seq<char>, p: Seq<char>) -> bool {
    p.len() <= s.len() && s.subrange(0, p.len() as int) == p
}

/// The resident set size in kB of a `/proc/<pid>/status` text: the second
/// word of the first line that starts with `VmRSS:`.
pub open spec fn status_rss_kb(status: Seq<char>) -> Option<u64> {
    let ls = line_segments(status);
    if exists|k: int| 0 <= k < ls.len() && has_prefix(ls[k], "VmRSS:"@) {
        let k = choose|k: int| 0 <= k < ls.len() && has_prefix(ls[k], "VmRSS:"@)
            && forall|j: int| 0 <= j < k ==> !has_prefix(ls[j], "VmRSS:"@);
        let w = words(ls[k]);
        if w.len() >= 2 && parse_unsigned(w[1], u64::MAX as nat) is Some {
            Some(parse_unsigned(w[1], u64::MAX as nat)->0 as u64)
        } else {
            None
        }
    } else {
        None
    }
}

proof fn lemma_line_segments_nonempty(s: Seq<char>)
    ensures
        line_segments(s).len() >= 1,
    decreases s.len(),
{
    if s.len() > 0 {
        lemma_line_segments_nonempty(s.drop_last());
    }
}

/// The process's user and system CPU ticks from its `stat` line.
pub fn parse_proc_cpu_ticks(stat: &str) -> (r: Option<(u64, u64)>)
    ensures
        r == stat_cpu_ticks(stat@),
{
    let chars = chars_of(stat);
    let mut i: usize = chars.len();
    assert(chars@.take(chars@.len() as int) =~= chars@);
    while i > 0 && chars[i - 1] != ')'
        invariant
            i <= chars@.len(),
            last_index_of(chars@, ')') == last_index_of(chars@.take(i as int), ')'),
        decreases i,
    {
        proof {
            assert(chars@.take(i as int).drop_last() =~= chars@.take(i as int - 1));
        }
        i -= 1;
    }
    if i == 0 {
        proof {
            assert(chars@.take(0) =~= Seq::<char>::empty());
        }
        return None;
    }
    proof {
        assert(last_index_of(chars@.take(i as int), ')') == Some(i as int - 1));
    }
    let mut after: Vec<char> = Vec::new();
    let mut k: usize = i;
    while k < chars.len()
        invariant
            i <= k <= chars@.len(),
            after@ == chars@.subrange(i as int, k as int),
        decreases chars@.len() - k,
    {
        after.push(chars[k]);
        proof {
            assert(chars@.subrange(i as int, k as int + 1) =~= chars@.subrange(i as int, k as int).push(chars@[k as int]));
        }
        k += 1;
    }
    proof {
        assert(after@ =~= chars@.skip(i as int));
    }
    let w = split_words(&after);
    if w.len() < 13 {
        return None;
    }
    let u = parse_u64(&w[11]);
    let st = parse_u64(&w[12]);
    match (u, st) {
        (Some(a), Some(b)) => Some((a, b)),
        _ => None,
    }
}

pub(crate) fn has_prefix_vec(s: &Vec<char>, p: &Vec<char>) -> (b: bool)
    ensures
        b == has_prefix(s@, p@),
{
    if p.len() > s.len() {
        return false;
    }
    let mut i: usize = 0;
    while i < p.len()
        invariant
            p@.len() <= s@.len(),
            i <= p@.len(),
            forall|k: int| 0 <= k < i ==> s@[k] == p@[k],
        decreases p@.len() - i,
    {
        if s[i] != p[i] {
            proof {
                assert(s@.subrange(0, p@.len() as int)[i as int] != p@[i as int]);
            }
            return false;
        }
        i += 1;
    }
    assert(s@.subrange(0, p@.len() as int) =~= p@);
    true
}

/// The lines of `chars`, split at each line feed.
pub(crate) fn split_lines(chars: &Vec<char>) -> (lines: Vec<Vec<char>>)
    ensures
        lines@.len() == line_segments(chars@).len(),
        forall|k: int| 0 <= k < lines@.len() ==> (#[trigger] lines@[k])@ == line_segments(chars@)[k],
{
    let mut lines: Vec<Vec<char>> = Vec::new();
    lines.push(Vec::new());
    let mut i: usize = 0;
    proof {
        assert(chars@.take(0) =~= Seq::<char>::empty());
    }
    while i < chars.len()
        invariant
            i <= chars@.len(),
            lines@.len() == line_segments(chars@.take(i as int)).len(),
            lines@.len() >= 1,
            forall|k: int| 0 <= k < lines@.len() ==> (#[trigger] lines@[k])@ == line_segments(chars@.take(i as int))[k],
        decreases chars@.len() - i,
    {
        let c = chars[i];
        let ghost t = chars@.take(i as int + 1);
        proof {
            assert(t.drop_last() =~= chars@.take(i as int));
            assert(t.last() == c);
            lemma_line_segments_nonempty(chars@.take(i as int));
        }
        if c == '\n' {
            lines.push(Vec::new());
        } else {
            let last = lines.len() - 1;
            let mut cur = lines.remove(last);
            cur.push(c);
            lines.push(cur);
        }
        i += 1;
        proof {
            assert forall|k: int| 0 <= k < lines@.len() implies (#[trigger] lines@[k])@ == line_segments(t)[k] by {}
        }
    }
    proof {
        assert(chars@.take(chars@.len() as int) =~= chars@);
    }
    lines
}

/// The resident set size in kB from the process's `status` text.
pub fn parse_vm_rss_kb(status: &str) -> (r: Option<u64>)
    ensures
        r == status_rss_kb(status@),
{
    let chars = chars_of(status);
    let lines = split_lines(&chars);
    let ghost ls = line_segments(status@);
    let prefix = chars_of("VmRSS:");
    let mut k: usize = 0;
    while k < lines.len()
        invariant
            k <= lines@.len(),
            ls == line_segments(status@),
            lines@.len() == ls.len(),
            forall|j: int| 0 <= j < lines@.len() ==> (#[trigger] lines@[j])@ == ls[j],
            prefix@ == "VmRSS:"@,
            forall|j: int| 0 <= j < k ==> !has_prefix(ls[j], "VmRSS:"@),
        decreases lines@.len() - k,
    {
        if has_prefix_vec(&lines[k], &prefix) {
            let ghost line = ls[k as int];
            proof {
                assert(has_prefix(ls[k as int], "VmRSS:"@));
                assert(exists|c: int| 0 <= c < ls.len() && has_prefix(ls[c], "VmRSS:"@));
                let c = choose|c: int| 0 <= c < ls.len() && has_prefix(ls[c], "VmRSS:"@)
                    && forall|j: int| 0 <= j < c ==> !has_prefix(ls[j], "VmRSS:"@);
                if c < k {
                } else if c > k {
                    assert(!has_prefix(ls[k as int], "VmRSS:"@));
                }
                assert(c == k);
            }
            let w = split_words(&lines[k]);
            assert(lines@[k as int]@ == line);
            if w.len() < 2 {
                return None;
            }
            let r = parse_u64(&w[1]);
            assert(w@[1]@ == words(line)[1]);
            return r;
        }
        k += 1;
    }
    None
}

/// CPU ticks used so far: user plus system time.
pub fn cpu_ticks_total(utime: u64, stime: u64) -> (t: u64)
    requires
        utime + stime <= u64::MAX,
    ensures
        t == utime + stime,
{
    utime + stime
}

/// Run-long totals the reporter accumulates from its per-second
/// snapshots (wrapping at 2^64 like the counters they sum).
#[derive(Debug, Clone, Copy, Default, PartialEq, Eq, Structural)]
pub struct RunTotals {
    pub total_oks: u64,
    pub total_errs: u64,
    pub total_calls: u64,
    pub total_latency_sum_us: u64,
    pub total_latency_samples: u64,
    pub total_errors: ErrorBreakdown,
    pub total_action_calls: u64,
    pub total_action_oks: u64,
    pub total_action_errs: u64,
}

/// The totals after one interval with write snapshot `s` and action
/// snapshot `a`.
pub open spec fn totals_after(t: RunTotals, s: MetricsSnapshot, a: MetricsSnapshot) -> RunTotals {
    RunTotals {
        total_oks: wsum(t.total_oks, s.ok),
        total_errs: wsum(t.total_errs, s.err),
        total_calls: wsum(t.total_calls, wsum(s.ok, s.err)),
        total_latency_sum_us: wsum(t.total_latency_sum_us, s.latency_sum_us),
        total_latency_samples: wsum(t.total_latency_samples, s.latency_samples),
        total_errors: ErrorBreakdown {
            timeout: wsum(t.total_errors.timeout, s.errors.timeout),
            not_delivered: wsum(t.total_errors.not_delivered, s.errors.not_delivered),
            http_status: wsum(t.total_errors.http_status, s.errors.http_status),
            transport: wsum(t.total_errors.transport, s.errors.transport),
            connection_drop: wsum(t.total_errors.connection_drop, s.errors.connection_drop),
        },
        total_action_calls: wsum(t.total_action_calls, wsum(a.ok, a.err)),
        total_action_oks: wsum(t.total_action_oks, a.ok),
        total_action_errs: wsum(t.total_action_errs, a.err),
    }
}

impl RunTotals {
    pub fn new() -> (t: Self)
        ensures
            t == (RunTotals {
                total_oks: 0,
                total_errs: 0,
                total_calls: 0,
                total_latency_sum_us: 0,
                total_latency_samples: 0,
                total_errors: ErrorBreakdown { timeout: 0, not_delivered: 0, http_status: 0, transport: 0, connection_drop: 0 },
                total_action_calls: 0,
                total_action_oks: 0,
                total_action_errs: 0,
            }),
    {
        RunTotals {
            total_oks: 0,
            total_errs: 0,
            total_calls: 0,
            total_latency_sum_us: 0,
            total_latency_samples: 0,
            total_errors: ErrorBreakdown { timeout: 0, not_delivered: 0, http_status: 0, transport: 0, connection_drop: 0 },
            total_action_calls: 0,
            total_action_oks: 0,
            total_action_errs: 0,
        }
    }

    /// Adds one interval's write and action snapshots.
    pub fn add_interval(&mut self, s: &MetricsSnapshot, a: &MetricsSnapshot)
        ensures
            *final(self) == totals_after(*old(self), *s, *a),
    {
        self.total_oks = self.total_oks.wrapping_add(s.ok);
        self.total_errs = self.total_errs.wrapping_add(s.err);
        self.total_calls = self.total_calls.wrapping_add(s.ok.wrapping_add(s.err));
        self.total_latency_sum_us = self.total_latency_sum_us.wrapping_add(s.latency_sum_us);
        self.total_latency_samples = self.total_latency_samples.wrapping_add(s.latency_samples);
        self.total_errors.timeout = self.total_errors.timeout.wrapping_add(s.errors.timeout);
        self.total_errors.not_delivered = self.total_errors.not_delivered.wrapping_add(s.errors.not_delivered);
        self.total_errors.http_status = self.total_errors.http_status.wrapping_add(s.errors.http_status);
        self.total_errors.transport = self.total_errors.transport.wrapping_add(s.errors.transport);
        self.total_errors.connection_drop = self.total_errors.connection_drop.wrapping_add(s.errors.connection_drop);
        self.total_action_calls = self.total_action_calls.wrapping_add(a.ok.wrapping_add(a.err));
        self.total_action_oks = self.total_action_oks.wrapping_add(a.ok);
        self.total_action_errs = self.total_action_errs.wrapping_add(a.err);
    }

    /// Actions per second over a run of `elapsed_secs` (at least one).
    pub fn action_ops_per_sec(&self, elapsed_secs: u64) -> (r: u64)
        ensures
            r == self.total_action_calls / (if elapsed_secs == 0 { 1 } else { elapsed_secs }),
    {
        let secs = if elapsed_secs == 0 { 1 } else { elapsed_secs };
        self.total_action_calls / secs
    }
}

/// The run totals after the intervals `iv` (each a write snapshot and an
/// action snapshot, oldest first), starting from `t`.
pub open spec fn totals_over(t: RunTotals, iv: Seq<(MetricsSnapshot, MetricsSnapshot)>) -> RunTotals
    decreases iv.len(),
{
    if iv.len() == 0 {
        t
    } else {
        totals_after(totals_over(t, iv.drop_last()), iv.last().0, iv.last().1)
    }
}

/// The sum of `f` over the intervals `iv`.
pub open spec fn interval_sum(iv: Seq<(MetricsSnapshot, MetricsSnapshot)>, f: spec_fn((MetricsSnapshot, MetricsSnapshot)) -> int) -> int
    decreases iv.len(),
{
    if iv.len() == 0 {
        0
    } else {
        interval_sum(iv.drop_last(), f) + f(iv.last())
    }
}

proof fn lemma_interval_sum_nonneg(iv: Seq<(MetricsSnapshot, MetricsSnapshot)>, f: spec_fn((MetricsSnapshot, MetricsSnapshot)) -> int)
    requires
        forall|x: (MetricsSnapshot, MetricsSnapshot)| #[trigger] f(x) >= 0,
    ensures
        interval_sum(iv, f) >= 0,
    decreases iv.len(),
{
    if iv.len() > 0 {
        lemma_interval_sum_nonneg(iv.drop_last(), f);
        assert(f(iv.last()) >= 0);
    }
}

/// Adding two counters modulo 2^64 adds the totals they stand for.
proof fn lemma_wsum_mod(x: u64, acc: int, y: u64, w: int)
    requires
        acc >= 0,
        w >= 0,
        x as int == acc % 0x1_0000_0000_0000_0000,
        y as int == w % 0x1_0000_0000_0000_0000,
    ensures
        wsum(x, y) as int == (acc + w) % 0x1_0000_0000_0000_0000,
{
    let m: int = 0x1_0000_0000_0000_0000;
    assert(wsum(x, y) as int == (x + y) % m);
    vstd::arithmetic::div_mod::lemma_add_mod_noop(acc, w, m);
}

/// Over any run of intervals, each total is its starting value plus the
/// sum of its own column, modulo 2^64: write oks and errors come only
/// from the write snapshots, action calls, oks and errors only from the
/// action snapshots.
pub proof fn law_run_totals_sum_their_own_column(t: RunTotals, iv: Seq<(MetricsSnapshot, MetricsSnapshot)>)
    ensures
        ({
            let r = totals_over(t, iv);
            let m: int = 0x1_0000_0000_0000_0000;
            &&& r.total_oks as int == (t.total_oks + interval_sum(iv, |x: (MetricsSnapshot, MetricsSnapshot)| x.0.ok as int)) % m
            &&& r.total_errs as int == (t.total_errs + interval_sum(iv, |x: (MetricsSnapshot, MetricsSnapshot)| x.0.err as int)) % m
            &&& r.total_calls as int == (t.total_calls + interval_sum(
                iv,
                |x: (MetricsSnapshot, MetricsSnapshot)| x.0.ok + x.0.err,
            )) % m
            &&& r.total_action_calls as int == (t.total_action_calls + interval_sum(
                iv,
                |x: (MetricsSnapshot, MetricsSnapshot)| x.1.ok + x.1.err,
            )) % m
            &&& r.total_action_oks as int == (t.total_action_oks + interval_sum(
                iv,
                |x: (MetricsSnapshot, MetricsSnapshot)| x.1.ok as int,
            )) % m
            &&& r.total_action_errs as int == (t.total_action_errs + interval_sum(
                iv,
                |x: (MetricsSnapshot, MetricsSnapshot)| x.1.err as int,
            )) % m
        }),
    decreases iv.len(),
{
    let m: int = 0x1_0000_0000_0000_0000;
    let f_ok = |x: (MetricsSnapshot, MetricsSnapshot)| x.0.ok as int;
    let f_err = |x: (MetricsSnapshot, MetricsSnapshot)| x.0.err as int;
    let f_calls = |x: (MetricsSnapshot, MetricsSnapshot)| x.0.ok + x.0.err;
    let f_acalls = |x: (MetricsSnapshot, MetricsSnapshot)| x.1.ok + x.1.err;
    let f_aok = |x: (MetricsSnapshot, MetricsSnapshot)| x.1.ok as int;
    let f_aerr = |x: (MetricsSnapshot, MetricsSnapshot)| x.1.err as int;
    if iv.len() == 0 {
        assert(t.total_oks as int % m == t.total_oks as int);
    } else {
        let p = iv.drop_last();
        let (s, a) = iv.last();
        law_run_totals_sum_their_own_column(t, p);
        let r0 = totals_over(t, p);
        lemma_interval_sum_nonneg(p, f_ok);
        lemma_interval_sum_nonneg(p, f_err);
        lemma_interval_sum_nonneg(p, f_calls);
        lemma_interval_sum_nonneg(p, f_acalls);
        lemma_interval_sum_nonneg(p, f_aok);
        lemma_interval_sum_nonneg(p, f_aerr);
        lemma_wsum_mod(r0.total_oks, t.total_oks + interval_sum(p, f_ok), s.ok, s.ok as int);
        lemma_wsum_mod(r0.total_errs, t.total_errs + interval_sum(p, f_err), s.err, s.err as int);
        lemma_wsum_mod(s.ok, s.ok as int, s.err, s.err as int);
        lemma_wsum_mod(r0.total_calls, t.total_calls + interval_sum(p, f_calls), wsum(s.ok, s.err), s.ok + s.err);
        lemma_wsum_mod(a.ok, a.ok as int, a.err, a.err as int);
        lemma_wsum_mod(
            r0.total_action_calls,
            t.total_action_calls + interval_sum(p, f_acalls),
            wsum(a.ok, a.err),
            a.ok + a.err,
        );
        lemma_wsum_mod(r0.total_action_oks, t.total_action_oks + interval_sum(p, f_aok), a.ok, a.ok as int);
        lemma_wsum_mod(r0.total_action_errs, t.total_action_errs + interval_sum(p, f_aerr), a.err, a.err as int);
        assert(interval_sum(iv, f_ok) == interval_sum(p, f_ok) + s.ok);
        assert(interval_sum(iv, f_err) == interval_sum(p, f_err) + s.err);
        assert(interval_sum(iv, f_calls) == interval_sum(p, f_calls) + s.ok + s.err);
        assert(interval_sum(iv, f_acalls) == interval_sum(p, f_acalls) + a.ok + a.err);
        assert(interval_sum(iv, f_aok) == interval_sum(p, f_aok) + a.ok);
        assert(interval_sum(iv, f_aerr) == interval_sum(p, f_aerr) + a.err);
    }
}

} // verus!
