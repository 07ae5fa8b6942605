//! Deterministic burst-pattern helpers shared across backends.

use vstd::prelude::*;

verus! {

/// Burst and zone-event schedule of a run.
#[derive(Clone, Copy, Debug)]
pub struct BurstConfig {
    pub enabled: bool,
    pub burst_period_secs: u64,
    pub burst_cohort_percent: u32,
    pub burst_actions_per_player: u32,
    pub burst_window_ms: u64,
    pub zone_event_period_secs: u64,
    pub zone_event_window_ms: u64,
}

impl Default for BurstConfig {
    fn default() -> (cfg: Self)
        ensures
            cfg.enabled,
            cfg.burst_period_secs == 30,
            cfg.burst_cohort_percent == 20,
            cfg.burst_actions_per_player == 10,
            cfg.burst_window_ms == 500,
            cfg.zone_event_period_secs == 30,
            cfg.zone_event_window_ms == 500,
    {
        BurstConfig {
            enabled: true,
            burst_period_secs: 30,
            burst_cohort_percent: 20,
            burst_actions_per_player: 10,
            burst_window_ms: 500,
            zone_event_period_secs: 30,
            zone_event_window_ms: 500,
        }
    }
}

/// `secs * 1000`, clamped at `u64::MAX`.
pub open spec fn secs_to_ms(secs: u64) -> u64 {
    if secs * 1000 > u64::MAX {
        u64::MAX
    } else {
        (secs * 1000) as u64
    }
}

fn saturating_secs_to_ms(secs: u64) -> (ms: u64)
    ensures
        ms == secs_to_ms(secs),
{
    if secs > u64::MAX / 1000 {
        u64::MAX
    } else {
        secs * 1000
    }
}

/// A zone event is active during the first `zone_event_window_ms` of every
/// zone-event period.
pub open spec fn zone_event_active(now_ms: u64, cfg: BurstConfig) -> bool {
    &&& cfg.enabled
    &&& cfg.zone_event_period_secs != 0
    &&& cfg.zone_event_window_ms != 0
    &&& now_ms % secs_to_ms(cfg.zone_event_period_secs) < cfg.zone_event_window_ms
}

/// Number of extra actions player `player_idx` emits at `now_ms`: inside a
/// burst window, the cohort of `burst_cohort_percent` out of every hundred
/// player slots (rotating by one slot per burst period) emits
/// `burst_actions_per_player`; everyone else emits nothing.
pub open spec fn burst_actions(player_idx: u32, now_ms: u64, cfg: BurstConfig) -> u32 {
    let period_ms = secs_to_ms(cfg.burst_period_secs);
    let cohort = if cfg.burst_cohort_percent < 100 { cfg.burst_cohort_percent } else { 100u32 };
    if !cfg.enabled || cfg.burst_period_secs == 0 || cfg.burst_window_ms == 0
        || cfg.burst_actions_per_player == 0 {
        0
    } else if now_ms % period_ms >= cfg.burst_window_ms {
        0
    } else if cohort == 0 {
        0
    } else if (player_idx + now_ms / period_ms) % 100 < cohort {
        cfg.burst_actions_per_player
    } else {
        0
    }
}

pub fn is_zone_event_active(now_ms: u64, cfg: BurstConfig) -> (active: bool)
    ensures
        active == zone_event_active(now_ms, cfg),
{
    if !cfg.enabled || cfg.zone_event_period_secs == 0 || cfg.zone_event_window_ms == 0 {
        return false;
    }
    let period_ms = saturating_secs_to_ms(cfg.zone_event_period_secs);
    now_ms % period_ms < cfg.zone_event_window_ms
}

pub fn burst_actions_to_emit(player_idx: u32, now_ms: u64, cfg: BurstConfig) -> (n: u32)
    ensures
        n == burst_actions(player_idx, now_ms, cfg),
{
    if !cfg.enabled || cfg.burst_period_secs == 0 || cfg.burst_window_ms == 0
        || cfg.burst_actions_per_player == 0 {
        return 0;
    }
    let period_ms = saturating_secs_to_ms(cfg.burst_period_secs);
    if now_ms % period_ms >= cfg.burst_window_ms {
        return 0;
    }
    let cohort = if cfg.burst_cohort_percent < 100 { cfg.burst_cohort_percent } else { 100 };
    if cohort == 0 {
        return 0;
    }
    let burst_index = now_ms / period_ms;
    let selector = ((player_idx as u64 % 100) + burst_index % 100) % 100;
    assert(selector == (player_idx + burst_index) % 100) by (nonlinear_arith)
        requires selector == ((player_idx as u64 % 100) + burst_index % 100) % 100;
    if selector < cohort as u64 {
        cfg.burst_actions_per_player
    } else {
        0
    }
}

/// How many integers `i` in `lo..hi` satisfy `pred`.
pub open spec fn count_range(pred: spec_fn(int) -> bool, lo: int, hi: int) -> nat
    decreases hi - lo,
{
    if hi <= lo {
        0
    } else {
        count_range(pred, lo, hi - 1) + if pred(hi - 1) { 1nat } else { 0nat }
    }
}

proof fn lemma_count_split(pred: spec_fn(int) -> bool, lo: int, m: int, hi: int)
    requires
        lo <= m <= hi,
    ensures
        count_range(pred, lo, hi) == count_range(pred, lo, m) + count_range(pred, m, hi),
    decreases hi - m,
{
    if hi > m {
        lemma_count_split(pred, lo, m, hi - 1);
    }
}

proof fn lemma_count_const(pred: spec_fn(int) -> bool, lo: int, hi: int, v: bool)
    requires
        lo <= hi,
        forall|i: int| lo <= i < hi ==> #[trigger] pred(i) == v,
    ensures
        count_range(pred, lo, hi) == if v { (hi - lo) as nat } else { 0 },
    decreases hi - lo,
{
    if hi > lo {
        lemma_count_const(pred, lo, hi - 1, v);
    }
}

proof fn lemma_count_ext(p: spec_fn(int) -> bool, q: spec_fn(int) -> bool, lo: int, hi: int)
    requires
        forall|i: int| lo <= i < hi ==> #[trigger] p(i) == q(i),
    ensures
        count_range(p, lo, hi) == count_range(q, lo, hi),
    decreases hi - lo,
{
    if hi > lo {
        lemma_count_ext(p, q, lo, hi - 1);
    }
}

/// Among 100 consecutive residues starting at `j0`, exactly `c` are below `c`.
proof fn lemma_residues_below(j0: int, c: int)
    requires
        0 <= j0 < 100,
        0 <= c <= 100,
    ensures
        count_range(|i: int| (j0 + i) % 100 < c, 0, 100) == c,
{
    let pred = |i: int| (j0 + i) % 100 < c;
    let m = 100 - j0;
    lemma_count_split(pred, 0, m, 100);
    assert forall|i: int| 0 <= i < m implies #[trigger] pred(i) == (j0 + i < c) by {
        assert((j0 + i) % 100 == j0 + i);
    }
    assert forall|i: int| m <= i < 100 implies #[trigger] pred(i) == (j0 + i - 100 < c) by {
        assert((j0 + i) % 100 == j0 + i - 100);
    }
    if c <= j0 {
        lemma_count_const(pred, 0, m, false);
        lemma_count_split(pred, m, m + c, 100);
        lemma_count_const(pred, m, m + c, true);
        lemma_count_const(pred, m + c, 100, false);
    } else {
        lemma_count_split(pred, 0, c - j0, m);
        lemma_count_const(pred, 0, c - j0, true);
        lemma_count_const(pred, c - j0, m, false);
        lemma_count_const(pred, m, 100, true);
    }
}

/// How many of the 100 player slots `k..k+100` are in the burst cohort at
/// `now_ms`.
pub open spec fn burst_members(k: u32, now_ms: u64, cfg: BurstConfig) -> nat {
    count_range(|i: int| burst_actions((k + i) as u32, now_ms, cfg) > 0, 0, 100)
}

/// Inside a burst window, any 100 consecutive player slots hold exactly
/// `burst_cohort_percent` (at most 100) members of the burst cohort.
pub proof fn law_burst_cohort_is_its_percent(k: u32, now_ms: u64, cfg: BurstConfig)
    requires
        cfg.enabled,
        cfg.burst_period_secs > 0,
        cfg.burst_window_ms > 0,
        cfg.burst_actions_per_player > 0,
        now_ms % secs_to_ms(cfg.burst_period_secs) < cfg.burst_window_ms,
        k + 99 <= u32::MAX,
    ensures
        burst_members(k, now_ms, cfg) == if cfg.burst_cohort_percent < 100 {
            cfg.burst_cohort_percent as nat
        } else {
            100
        },
{
    let period_ms = secs_to_ms(cfg.burst_period_secs);
    let cohort: int = if cfg.burst_cohort_percent < 100 { cfg.burst_cohort_percent as int } else { 100 };
    let b: int = (now_ms / period_ms) as int;
    let j0 = (k + b) % 100;
    let member = |i: int| burst_actions((k + i) as u32, now_ms, cfg) > 0;
    let res = |i: int| (j0 + i) % 100 < cohort;
    assert forall|i: int| 0 <= i < 100 implies #[trigger] member(i) == res(i) by {
        assert(((k + i) as u32) as int == k + i);
        assert((k + i + b) % 100 == (j0 + i) % 100) by (nonlinear_arith)
            requires j0 == (k + b) % 100;
    }
    lemma_count_ext(member, res, 0, 100);
    lemma_residues_below(j0, cohort);
}

/// Whether a zone event is on depends only on the zone-event settings:
/// two configurations that agree on `enabled`, the zone period and the
/// zone window agree at every time, whatever their burst settings.
pub proof fn law_zone_event_ignores_burst_settings(now_ms: u64, a: BurstConfig, b: BurstConfig)
    requires
        a.enabled == b.enabled,
        a.zone_event_period_secs == b.zone_event_period_secs,
        a.zone_event_window_ms == b.zone_event_window_ms,
    ensures
        zone_event_active(now_ms, a) == zone_event_active(now_ms, b),
{
}

/// With zone events enabled, a zone period of `p` seconds and a window of
/// `w` milliseconds, a zone event is on exactly during the first `w`
/// milliseconds of every `p * 1000` milliseconds.
pub proof fn law_zone_event_is_the_window_of_each_period(now_ms: u64, cfg: BurstConfig)
    requires
        cfg.enabled,
        cfg.zone_event_period_secs > 0,
        cfg.zone_event_period_secs * 1000 <= u64::MAX,
    ensures
        zone_event_active(now_ms, cfg) <==> (now_ms as int) % (cfg.zone_event_period_secs * 1000) < cfg.zone_event_window_ms,
{
}

} // verus!
