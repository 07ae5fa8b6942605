//! Real-time validity gate.
//!
//! Per-tier acceptance criteria are evaluated periodically during a tier.
//! When the criteria are breached for `breach_window` consecutive evaluations the
//! tier is `Fail` and the ramp must abort; once any tier has failed, the
//! subsequent tiers must not run.
//!
//! Error rates are carried in parts per million (1_000_000 = 100%), so that
//! every threshold comparison is an exact integer comparison.

use vstd::prelude::*;

verus! {

/// Per-axis acceptance thresholds. An axis that is `None` is ignored.
#[derive(Debug, Clone, Copy)]
pub struct GateConfig {
    /// Maximum p99 latency, in milliseconds.
    pub max_p99_latency_ms: Option<u32>,
    /// Maximum error rate, in parts per million.
    pub max_error_rate_ppm: Option<u32>,
    /// Minimum number of entities the cluster must report.
    pub min_entities: Option<u64>,
    /// Consecutive breaching evaluations that fail the tier.
    pub breach_window: u32,
}

impl Default for GateConfig {
    /// Every axis off and a breach window of zero.
    fn default() -> (c: Self)
        ensures
            c.max_p99_latency_ms is None,
            c.max_error_rate_ppm is None,
            c.min_entities is None,
            c.breach_window == 0,
    {
        GateConfig { max_p99_latency_ms: None, max_error_rate_ppm: None, min_entities: None, breach_window: 0 }
    }
}

impl GateConfig {
    /// No axis enabled, breach window 3.
    pub fn new() -> (c: Self)
        ensures
            c.max_p99_latency_ms is None,
            c.max_error_rate_ppm is None,
            c.min_entities is None,
            c.breach_window == 3,
    {
        GateConfig { max_p99_latency_ms: None, max_error_rate_ppm: None, min_entities: None, breach_window: 3 }
    }

    pub fn with_max_p99_latency(self, ms: u32) -> (c: Self)
        ensures
            c == (GateConfig { max_p99_latency_ms: Some(ms), ..self }),
    {
        GateConfig { max_p99_latency_ms: Some(ms), ..self }
    }

    /// Enables the error-rate axis with a limit in parts per million.
    pub fn with_max_error_rate(self, rate_ppm: u32) -> (c: Self)
        ensures
            c == (GateConfig { max_error_rate_ppm: Some(rate_ppm), ..self }),
    {
        GateConfig { max_error_rate_ppm: Some(rate_ppm), ..self }
    }

    pub fn with_min_entities(self, n: u64) -> (c: Self)
        ensures
            c == (GateConfig { min_entities: Some(n), ..self }),
    {
        GateConfig { min_entities: Some(n), ..self }
    }

    pub fn with_breach_window(self, n: u32) -> (c: Self)
        ensures
            c == (GateConfig { breach_window: n, ..self }),
    {
        GateConfig { breach_window: n, ..self }
    }
}

/// One evaluation sample to judge against the thresholds.
#[derive(Debug, Clone, Copy)]
pub struct EvaluationSample {
    pub p99_latency_ms: u32,
    /// Error rate in parts per million.
    pub error_rate_ppm: u32,
    pub entities_current: u64,
}

/// Per-tier outcome as judged so far.
#[derive(Debug, Clone, Copy, PartialEq, Eq, Structural)]
pub enum TierOutcome {
    /// The last evaluation breached, but not yet for a full window.
    Pending,
    /// The last evaluation passed every enabled axis.
    Pass,
    /// `breach_window` consecutive evaluations breached.
    Fail,
}

/// Whether `s` breaches any enabled axis of `cfg`: latency above the
/// maximum, error rate above the maximum, or entities below the minimum.
pub open spec fn breaches(cfg: GateConfig, s: EvaluationSample) -> bool {
    ||| (cfg.max_p99_latency_ms matches Some(m) && s.p99_latency_ms > m)
    ||| (cfg.max_error_rate_ppm matches Some(m) && s.error_rate_ppm > m)
    ||| (cfg.min_entities matches Some(m) && s.entities_current < m)
}

/// Length of the run of breaching evaluations at the end of `h`.
pub open spec fn trailing_breaches(h: Seq<bool>) -> nat
    decreases h.len(),
{
    if h.len() == 0 || !h.last() {
        0
    } else {
        1 + trailing_breaches(h.drop_last())
    }
}

/// The breach counter as kept in a `u32`: the trailing run, saturated.
pub open spec fn counter_of(h: Seq<bool>) -> u32 {
    if trailing_breaches(h) > u32::MAX {
        u32::MAX
    } else {
        trailing_breaches(h) as u32
    }
}

/// The outcome reported after an evaluation that left the breach counter
/// at `count` and did (`breached`) or did not breach.
pub open spec fn outcome_for(count: u32, window: u32, breached: bool) -> TierOutcome {
    if count >= window {
        TierOutcome::Fail
    } else if !breached {
        TierOutcome::Pass
    } else {
        TierOutcome::Pending
    }
}

/// Gate state: the configuration, the tier being evaluated, the outcomes
/// of completed tiers and the breach flags of the current tier's samples.
pub struct ValidityGate {
    config: GateConfig,
    current_tier: Option<u32>,
    tier_outcomes: Vec<TierOutcome>,
    consecutive_breaches: u32,
    any_tier_failed: bool,
    history: Ghost<Seq<bool>>,
}

impl ValidityGate {
    pub closed spec fn config(&self) -> GateConfig {
        self.config
    }

    pub closed spec fn current_tier(&self) -> Option<u32> {
        self.current_tier
    }

    /// Outcomes of the completed tiers, in completion order.
    pub closed spec fn outcomes(&self) -> Seq<TierOutcome> {
        self.tier_outcomes@
    }

    /// Whether an evaluation has returned `Fail` or a tier was completed
    /// as `Fail`.
    pub closed spec fn any_failed(&self) -> bool {
        self.any_tier_failed
    }

    /// Breach flags of the evaluations since the current tier started.
    pub closed spec fn history(&self) -> Seq<bool> {
        self.history@
    }

    pub closed spec fn breach_count(&self) -> u32 {
        self.consecutive_breaches
    }

    /// The breach counter is the saturated length of the trailing run of
    /// breaches in the current tier, and a completed `Fail` is remembered.
    pub closed spec fn wf(&self) -> bool {
        &&& self.consecutive_breaches == counter_of(self.history@)
        &&& self.tier_outcomes@.contains(TierOutcome::Fail) ==> self.any_tier_failed
    }

    pub fn new(config: GateConfig) -> (g: Self)
        ensures
            g.wf(),
            g.config() == config,
            g.current_tier() is None,
            g.outcomes() == Seq::<TierOutcome>::empty(),
            g.history() == Seq::<bool>::empty(),
            g.breach_count() == 0,
            !g.any_failed(),
    {
        let g = ValidityGate {
            config,
            current_tier: None,
            tier_outcomes: Vec::new(),
            consecutive_breaches: 0,
            any_tier_failed: false,
            history: Ghost(Seq::empty()),
        };
        assert(!g.tier_outcomes@.contains(TierOutcome::Fail));
        g
    }

    /// Starts evaluating tier `tier_index`; the breach counter restarts.
    pub fn start_tier(&mut self, tier_index: u32)
        requires
            old(self).wf(),
        ensures
            final(self).wf(),
            final(self).current_tier() == Some(tier_index),
            final(self).history() == Seq::<bool>::empty(),
            final(self).breach_count() == 0,
            final(self).config() == old(self).config(),
            final(self).outcomes() == old(self).outcomes(),
            final(self).any_failed() == old(self).any_failed(),
    {
        self.current_tier = Some(tier_index);
        self.consecutive_breaches = 0;
        self.history = Ghost(Seq::empty());
    }

    /// Whether `sample` breaches an enabled axis of this gate.
    fn sample_breaches(&self, sample: &EvaluationSample) -> (b: bool)
        ensures
            b == breaches(self.config, *sample),
    {
        let lat = match self.config.max_p99_latency_ms {
            Some(m) => sample.p99_latency_ms > m,
            None => false,
        };
        let err = match self.config.max_error_rate_ppm {
            Some(m) => sample.error_rate_ppm > m,
            None => false,
        };
        let ent = match self.config.min_entities {
            Some(m) => sample.entities_current < m,
            None => false,
        };
        lat || err || ent
    }

    /// Feeds one evaluation sample. A breach extends the run of consecutive
    /// breaches, a clean sample ends it; the tier fails once the run reaches
    /// the breach window.
    pub fn evaluate(&mut self, sample: EvaluationSample) -> (outcome: TierOutcome)
        requires
            old(self).wf(),
        ensures
            final(self).wf(),
            final(self).history() == old(self).history().push(breaches(old(self).config(), sample)),
            final(self).breach_count() == (if breaches(old(self).config(), sample) {
                if old(self).breach_count() == u32::MAX { u32::MAX } else { (old(self).breach_count() + 1) as u32 }
            } else {
                0u32
            }),
            outcome == outcome_for(
                final(self).breach_count(),
                old(self).config().breach_window,
                breaches(old(self).config(), sample),
            ),
            final(self).any_failed() == (old(self).any_failed() || outcome == TierOutcome::Fail),
            final(self).config() == old(self).config(),
            final(self).current_tier() == old(self).current_tier(),
            final(self).outcomes() == old(self).outcomes(),
    {
        let breached = self.sample_breaches(&sample);
        let ghost h = self.history@.push(breached);
        proof {
            assert(h.drop_last() =~= self.history@);
        }
        if breached {
            self.consecutive_breaches = self.consecutive_breaches.saturating_add(1);
        } else {
            self.consecutive_breaches = 0;
        }
        self.history = Ghost(h);
        if self.consecutive_breaches >= self.config.breach_window {
            self.any_tier_failed = true;
            TierOutcome::Fail
        } else if !breached {
            TierOutcome::Pass
        } else {
            TierOutcome::Pending
        }
    }

    /// Records the final outcome of the current tier; no tier is current
    /// afterwards.
    pub fn complete_tier(&mut self, outcome: TierOutcome)
        requires
            old(self).wf(),
        ensures
            final(self).wf(),
            final(self).outcomes() == old(self).outcomes().push(outcome),
            final(self).any_failed() == (old(self).any_failed() || outcome == TierOutcome::Fail),
            final(self).current_tier() is None,
            final(self).config() == old(self).config(),
            final(self).history() == old(self).history(),
            final(self).breach_count() == old(self).breach_count(),
    {
        let ghost before = self.tier_outcomes@;
        self.tier_outcomes.push(outcome);
        if outcome == TierOutcome::Fail {
            self.any_tier_failed = true;
        }
        self.current_tier = None;
        proof {
            if self.tier_outcomes@.contains(TierOutcome::Fail) && outcome != TierOutcome::Fail {
                let i = choose|i: int| 0 <= i < self.tier_outcomes@.len() && self.tier_outcomes@[i] == TierOutcome::Fail;
                assert(before[i] == TierOutcome::Fail);
                assert(before.contains(TierOutcome::Fail));
            }
        }
    }

    /// True once any tier has failed; the subsequent tiers must not run.
    pub fn should_short_circuit_subsequent_tiers(&self) -> (b: bool)
        ensures
            b == self.any_failed(),
    {
        self.any_tier_failed
    }

    /// The outcomes of the completed tiers, in completion order.
    pub fn tier_outcomes(&self) -> (r: &[TierOutcome])
        ensures
            r@ == self.outcomes(),
    {
        self.tier_outcomes.as_slice()
    }

    /// Consecutive breaching evaluations at the end of the current tier.
    pub fn consecutive_breaches(&self) -> (n: u32)
        ensures
            n == self.breach_count(),
    {
        self.consecutive_breaches
    }
}

/// The run of trailing breaches reaches `w` exactly when the last `w`
/// evaluations all breached.
pub proof fn lemma_trailing_breaches_window(h: Seq<bool>, w: nat)
    ensures
        trailing_breaches(h) >= w <==> (w <= h.len() && forall|i: int|
            h.len() - w <= i < h.len() ==> #[trigger] h[i]),
    decreases h.len(),
{
    if w == 0 {
    } else if h.len() == 0 {
    } else if !h.last() {
        assert(!h[h.len() - 1]);
    } else {
        lemma_trailing_breaches_window(h.drop_last(), (w - 1) as nat);
        if w <= h.len() && (forall|i: int| h.len() - w <= i < h.len() ==> #[trigger] h[i]) {
            assert forall|i: int| h.drop_last().len() - (w - 1) <= i < h.drop_last().len()
                implies #[trigger] h.drop_last()[i] by {
                assert(h[i]);
            }
        }
        if trailing_breaches(h) >= w {
            assert forall|i: int| h.len() - w <= i < h.len() implies #[trigger] h[i] by {
                if i < h.len() - 1 {
                    assert(h.drop_last()[i]);
                }
            }
        }
    }
}

/// The breach counter reaches the breach window (so that `evaluate`
/// reports `Fail`) exactly when the last `breach_window` evaluations of the
/// current tier all breached: intermittent breaches never fail a tier.
pub proof fn law_fail_iff_window_of_breaches(g: ValidityGate)
    requires
        g.wf(),
    ensures
        g.breach_count() >= g.config().breach_window <==> (
            g.config().breach_window <= g.history().len()
            && forall|i: int| g.history().len() - g.config().breach_window <= i < g.history().len()
                ==> #[trigger] g.history()[i]),
{
    lemma_trailing_breaches_window(g.history(), g.config().breach_window as nat);
}

} // verus!
