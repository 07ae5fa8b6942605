//! Tier ramp: drives every `Active` driver through a test plan of tiers
//! `[(player_count, hold_seconds), ...]`, in order, and reports progress as
//! a stream of `TierEvent`s.
//!
//! The decisions of the ramp live in `RampMachine`, a state machine from
//! the current step and what the outside world reported (abort requested,
//! a driver not `Active`, the fan-out result, the hold elapsed, the
//! validity gate failing) to the next step, the events to publish and the
//! action to perform. Sending the commands, sleeping and publishing are
//! done by the networking layer, which feeds the outcomes back in.

use crate::driver_pool::{DriverEntry, DriverPool, DriverState};
use crate::ids::DriverId;
use crate::protocol::{OrchestratorCommand, SetPlayersCommand, StartTierCommand};
use crate::seqs::lemma_filter_take_step;
use vstd::prelude::*;

verus! {

/// One tier of a test plan: a steady-state load held for a duration.
#[derive(Debug, Clone, Copy, PartialEq, Eq, Structural)]
pub struct Tier {
    pub player_count: u32,
    pub hold_seconds: u32,
}

/// An ordered sequence of tiers.
#[derive(Debug, Clone)]
pub struct TestPlan {
    pub tiers: Vec<Tier>,
}

impl TestPlan {
    pub fn new(tiers: Vec<Tier>) -> (p: Self)
        ensures
            p.tiers@ == tiers@,
    {
        TestPlan { tiers }
    }

    pub fn len(&self) -> (n: usize)
        ensures
            n == self.tiers@.len(),
    {
        self.tiers.len()
    }

    pub fn is_empty(&self) -> (b: bool)
        ensures
            b == (self.tiers@.len() == 0),
    {
        self.tiers.len() == 0
    }
}

/// Per-tier state.
#[derive(Debug, Clone, Copy, PartialEq, Eq, Structural)]
pub enum TierState {
    Pending,
    Running,
    Pass,
    Fail,
    Invalid,
}

/// Why a ramp stopped before completing all tiers.
#[derive(Debug, Clone, Copy, PartialEq, Eq, Structural)]
pub enum AbortReason {
    Manual,
    DriverStale(DriverId),
    TierFailed(u32),
}

/// Events published while a ramp runs.
#[derive(Debug, Clone, Copy, PartialEq, Eq, Structural)]
pub enum TierEvent {
    TierStarted { index: u32, tier: Tier },
    /// `state` is the tier's outcome: `Pass`, `Fail` or `Invalid`.
    TierEnded { index: u32, state: TierState },
    /// The ramp stopped; no later tier runs.
    RampAborted { reason: AbortReason },
    /// Every tier ended `Pass`.
    RampCompleted,
}

/// Ramp state visible to observers.
#[derive(Debug, Clone)]
pub struct RampStatus {
    pub current_tier_index: Option<u32>,
    pub tier_states: Vec<TierState>,
    pub aborted: bool,
}

/// The `StartTier` command for tier `index`.
pub fn start_tier_command(index: u32, tier: Tier) -> (c: OrchestratorCommand)
    ensures
        c == OrchestratorCommand::StartTier(
            StartTierCommand { tier_index: index, player_count: tier.player_count, hold_seconds: tier.hold_seconds },
        ),
{
    OrchestratorCommand::StartTier(
        StartTierCommand { tier_index: index, player_count: tier.player_count, hold_seconds: tier.hold_seconds },
    )
}

/// Ids of the `Active` entries, in registration order: the recipients of
/// a tier's fan-out.
pub open spec fn active_ids(s: Seq<DriverEntry>) -> Seq<DriverId> {
    s.filter(|e: DriverEntry| e.state == DriverState::Active).map_values(|e: DriverEntry| e.id)
}

/// The first id of `s` that is not in `reached`.
pub open spec fn first_missing(s: Seq<DriverId>, reached: Seq<DriverId>) -> Option<DriverId>
    decreases s.len(),
{
    if s.len() == 0 {
        None
    } else if !reached.contains(s[0]) {
        Some(s[0])
    } else {
        first_missing(s.drop_first(), reached)
    }
}

/// The first entry of `s` that is not `Active`.
pub open spec fn first_inactive(s: Seq<DriverEntry>) -> Option<DriverId>
    decreases s.len(),
{
    if s.len() == 0 {
        None
    } else if s[0].state != DriverState::Active {
        Some(s[0].id)
    } else {
        first_inactive(s.drop_first())
    }
}

/// The drivers a tier's commands go to.
pub fn active_drivers(pool: &DriverPool) -> (v: Vec<DriverId>)
    ensures
        v@ == active_ids(pool.entries()),
{
    let entries = pool.snapshot();
    let ghost pred = |e: DriverEntry| e.state == DriverState::Active;
    let ghost f = |e: DriverEntry| e.id;
    let mut v: Vec<DriverId> = Vec::new();
    let mut i: usize = 0;
    while i < entries.len()
        invariant
            pred == (|e: DriverEntry| e.state == DriverState::Active),
            f == (|e: DriverEntry| e.id),
            i <= entries.len(),
            v@ == entries@.take(i as int).filter(pred).map_values(f),
        decreases entries.len() - i,
    {
        proof {
            lemma_filter_take_step(entries@, pred, i as int);
        }
        if entries[i].state == DriverState::Active {
            let ghost before = entries@.take(i as int).filter(pred);
            v.push(entries[i].id);
            proof {
                assert(before.push(entries@[i as int]).map_values(f) =~= before.map_values(f).push(entries@[i as int].id));
            }
        }
        i += 1;
    }
    proof {
        assert(entries@.take(entries@.len() as int) =~= entries@);
    }
    v
}

/// The first pool driver that is not `Active`, if any: a tier must not
/// begin while one is.
pub fn first_inactive_driver(pool: &DriverPool) -> (r: Option<DriverId>)
    ensures
        r == first_inactive(pool.entries()),
{
    let entries = pool.snapshot();
    let mut i: usize = 0;
    assert(entries@.skip(0) =~= entries@);
    while i < entries.len()
        invariant
            i <= entries.len(),
            entries@ == pool.entries(),
            first_inactive(entries@) == first_inactive(entries@.skip(i as int)),
        decreases entries.len() - i,
    {
        assert(entries@.skip(i as int).drop_first() =~= entries@.skip(i as int + 1));
        assert(entries@.skip(i as int)[0] == entries@[i as int]);
        if entries[i].state != DriverState::Active {
            return Some(entries[i].id);
        }
        i += 1;
    }
    None
}

/// The first of the `active` recipients that is not among the `reached`
/// ones, if any: a fan-out that did not reach every recipient invalidates
/// the tier.
pub fn first_unreached(active: &Vec<DriverId>, reached: &Vec<DriverId>) -> (r: Option<DriverId>)
    ensures
        r == first_missing(active@, reached@),
{
    let mut i: usize = 0;
    assert(active@.skip(0) =~= active@);
    while i < active.len()
        invariant
            i <= active.len(),
            first_missing(active@, reached@) == first_missing(active@.skip(i as int), reached@),
        decreases active.len() - i,
    {
        assert(active@.skip(i as int).drop_first() =~= active@.skip(i as int + 1));
        assert(active@.skip(i as int)[0] == active@[i as int]);
        let id = active[i];
        let mut found = false;
        let mut j: usize = 0;
        while j < reached.len()
            invariant
                j <= reached.len(),
                found <==> exists|k: int| 0 <= k < j && reached@[k] == id,
            decreases reached.len() - j,
        {
            if reached[j] == id {
                found = true;
            }
            j += 1;
        }
        if !found {
            return Some(id);
        }
        i += 1;
    }
    None
}

/// Where a ramp is.
#[derive(Debug, Clone, Copy, PartialEq, Eq, Structural)]
pub enum RampPhase {
    /// About to begin the tier at the machine's index.
    Ready,
    /// The tier's commands are being sent to the drivers.
    FanningOut,
    /// The tier is holding its load.
    Holding,
    /// Completed or aborted; nothing more happens.
    Finished,
}

/// What the outside world reports to the ramp.
#[derive(Debug, Clone, Copy, PartialEq, Eq, Structural)]
pub enum RampInput {
    /// Ready to begin the next tier: whether an abort was requested, and
    /// the first pool driver that is not `Active`, if any.
    Begin { abort_requested: bool, stale_driver: Option<DriverId> },
    /// The tier's commands were sent; the first `Active` driver that could
    /// not be reached, if any.
    FannedOut { unreached: Option<DriverId> },
    /// A manual abort during the hold.
    Abort,
    /// A driver stopped being `Active` during the hold.
    DriverStale(DriverId),
    /// The validity gate failed the tier during the hold.
    GateFailed,
    /// The hold duration elapsed.
    HoldElapsed,
}

/// What the networking layer must do next.
#[derive(Debug, Clone, Copy, PartialEq, Eq, Structural)]
pub enum RampAction {
    /// Send both commands, in order, to every `Active` driver, then report
    /// `FannedOut`.
    FanOut(OrchestratorCommand, OrchestratorCommand),
    /// Hold for this many seconds, then report `HoldElapsed` (or what
    /// interrupted the hold).
    Hold(u32),
    /// Report `Begin` for the next tier.
    BeginNext,
    /// The ramp is over.
    Stop,
    /// The input did not fit the current phase and was ignored.
    Ignored,
}

/// Abstract state of a ramp.
pub struct RampModel {
    /// The tier being run, or the next one to run.
    pub index: nat,
    pub phase: RampPhase,
    pub states: Seq<TierState>,
    pub current: Option<u32>,
    pub aborted: bool,
}

/// The state after the tier at `m.index` ends in `state` and the ramp
/// aborts.
pub open spec fn aborted_at(m: RampModel, state: TierState) -> RampModel {
    RampModel {
        index: m.index,
        phase: RampPhase::Finished,
        states: m.states.update(m.index as int, state),
        current: Some(m.index as u32),
        aborted: true,
    }
}

/// One step of the ramp over the plan `plan`: the next state, the events
/// to publish and the action to perform.
pub open spec fn ramp_step(m: RampModel, plan: Seq<Tier>, input: RampInput) -> (RampModel, Seq<TierEvent>, RampAction) {
    let i = m.index;
    match (m.phase, input) {
        (RampPhase::Ready, RampInput::Begin { abort_requested, stale_driver }) => {
            if i >= plan.len() {
                (RampModel { phase: RampPhase::Finished, current: None, ..m }, seq![TierEvent::RampCompleted], RampAction::Stop)
            } else if abort_requested {
                (aborted_at(m, TierState::Invalid), seq![TierEvent::RampAborted { reason: AbortReason::Manual }], RampAction::Stop)
            } else if stale_driver is Some {
                (
                    aborted_at(m, TierState::Invalid),
                    seq![TierEvent::RampAborted { reason: AbortReason::DriverStale(stale_driver->0) }],
                    RampAction::Stop,
                )
            } else {
                (
                    RampModel {
                        phase: RampPhase::FanningOut,
                        states: m.states.update(i as int, TierState::Running),
                        current: Some(i as u32),
                        ..m
                    },
                    seq![TierEvent::TierStarted { index: i as u32, tier: plan[i as int] }],
                    RampAction::FanOut(
                        OrchestratorCommand::SetPlayers(SetPlayersCommand { player_count: plan[i as int].player_count }),
                        OrchestratorCommand::StartTier(StartTierCommand {
                            tier_index: i as u32,
                            player_count: plan[i as int].player_count,
                            hold_seconds: plan[i as int].hold_seconds,
                        }),
                    ),
                )
            }
        },
        (RampPhase::FanningOut, RampInput::FannedOut { unreached }) => {
            if unreached is Some {
                (
                    aborted_at(m, TierState::Invalid),
                    seq![
                        TierEvent::TierEnded { index: i as u32, state: TierState::Invalid },
                        TierEvent::RampAborted { reason: AbortReason::DriverStale(unreached->0) },
                    ],
                    RampAction::Stop,
                )
            } else {
                (RampModel { phase: RampPhase::Holding, ..m }, Seq::empty(), RampAction::Hold(plan[i as int].hold_seconds))
            }
        },
        (RampPhase::Holding, RampInput::Abort) => (
            aborted_at(m, TierState::Invalid),
            seq![
                TierEvent::TierEnded { index: i as u32, state: TierState::Invalid },
                TierEvent::RampAborted { reason: AbortReason::Manual },
            ],
            RampAction::Stop,
        ),
        (RampPhase::Holding, RampInput::DriverStale(d)) => (
            aborted_at(m, TierState::Invalid),
            seq![
                TierEvent::TierEnded { index: i as u32, state: TierState::Invalid },
                TierEvent::RampAborted { reason: AbortReason::DriverStale(d) },
            ],
            RampAction::Stop,
        ),
        (RampPhase::Holding, RampInput::GateFailed) => (
            aborted_at(m, TierState::Fail),
            seq![
                TierEvent::TierEnded { index: i as u32, state: TierState::Fail },
                TierEvent::RampAborted { reason: AbortReason::TierFailed(i as u32) },
            ],
            RampAction::Stop,
        ),
        (RampPhase::Holding, RampInput::HoldElapsed) => {
            let states = m.states.update(i as int, TierState::Pass);
            if i + 1 >= plan.len() {
                (
                    RampModel { index: i + 1, phase: RampPhase::Finished, states, current: None, aborted: false },
                    seq![TierEvent::TierEnded { index: i as u32, state: TierState::Pass }, TierEvent::RampCompleted],
                    RampAction::Stop,
                )
            } else {
                (
                    RampModel { index: i + 1, phase: RampPhase::Ready, states, current: None, aborted: false },
                    seq![TierEvent::TierEnded { index: i as u32, state: TierState::Pass }],
                    RampAction::BeginNext,
                )
            }
        },
        _ => (m, Seq::empty(), RampAction::Ignored),
    }
}

/// Tiers before `index` passed and tiers after it are still pending.
pub open spec fn progress_ok(m: RampModel, n: nat) -> bool {
    &&& m.states.len() == n
    &&& m.index <= n
    &&& forall|j: int| 0 <= j < m.index && j < n ==> m.states[j] == TierState::Pass
    &&& forall|j: int| m.index < j < n ==> m.states[j] == TierState::Pending
    &&& match m.phase {
        RampPhase::Ready => m.index < n ==> m.states[m.index as int] == TierState::Pending,
        RampPhase::FanningOut | RampPhase::Holding => {
            &&& m.index < n
            &&& m.states[m.index as int] == TierState::Running
            &&& m.current == Some(m.index as u32)
        },
        RampPhase::Finished => if m.aborted {
            &&& m.index < n
            &&& (m.states[m.index as int] == TierState::Invalid || m.states[m.index as int] == TierState::Fail)
        } else {
            m.index == n
        },
    }
}

/// A ramp over one test plan.
pub struct RampMachine {
    plan: TestPlan,
    index: usize,
    phase: RampPhase,
    status: RampStatus,
}

impl RampMachine {
    pub closed spec fn plan(&self) -> Seq<Tier> {
        self.plan.tiers@
    }

    pub closed spec fn model(&self) -> RampModel {
        RampModel {
            index: self.index as nat,
            phase: self.phase,
            states: self.status.tier_states@,
            current: self.status.current_tier_index,
            aborted: self.status.aborted,
        }
    }

    pub closed spec fn wf(&self) -> bool {
        &&& self.plan.tiers@.len() <= u32::MAX
        &&& progress_ok(self.model(), self.plan.tiers@.len())
        &&& self.status.aborted <==> (self.phase == RampPhase::Finished && self.index < self.plan.tiers@.len())
    }

    /// A ramp about to begin the first tier of `plan`, every tier pending.
    pub fn new(plan: TestPlan) -> (m: Self)
        requires
            plan.tiers@.len() <= u32::MAX,
        ensures
            m.wf(),
            m.plan() == plan.tiers@,
            m.model().index == 0,
            m.model().phase == RampPhase::Ready,
            m.model().current is None,
            !m.model().aborted,
            m.model().states == Seq::new(plan.tiers@.len(), |j: int| TierState::Pending),
    {
        let n = plan.tiers.len();
        let mut states: Vec<TierState> = Vec::new();
        let mut j: usize = 0;
        while j < n
            invariant
                j <= n,
                states@ == Seq::new(j as nat, |k: int| TierState::Pending),
            decreases n - j,
        {
            states.push(TierState::Pending);
            j = j + 1;
            proof {
                assert(states@ =~= Seq::new(j as nat, |k: int| TierState::Pending));
            }
        }
        RampMachine {
            plan,
            index: 0,
            phase: RampPhase::Ready,
            status: RampStatus { current_tier_index: None, tier_states: states, aborted: false },
        }
    }

    /// The observable status.
    pub fn status(&self) -> (s: RampStatus)
        ensures
            s.current_tier_index == self.model().current,
            s.tier_states@ == self.model().states,
            s.aborted == self.model().aborted,
    {
        RampStatus {
            current_tier_index: self.status.current_tier_index,
            tier_states: self.status.tier_states.clone(),
            aborted: self.status.aborted,
        }
    }

    pub fn phase(&self) -> (p: RampPhase)
        ensures
            p == self.model().phase,
    {
        self.phase
    }

    fn abort_here(&mut self, state: TierState)
        requires
            old(self).wf(),
            old(self).index < old(self).plan.tiers@.len(),
            old(self).phase != RampPhase::Finished,
            state == TierState::Invalid || state == TierState::Fail,
        ensures
            final(self).wf(),
            final(self).model() == aborted_at(old(self).model(), state),
            final(self).plan == old(self).plan,
            final(self).index == old(self).index,
    {
        let i = self.index;
        self.status.tier_states.set(i, state);
        self.status.current_tier_index = Some(i as u32);
        self.status.aborted = true;
        self.phase = RampPhase::Finished;
    }

    /// Advances the ramp by one report from the outside world.
    pub fn step(&mut self, input: RampInput) -> (r: (Vec<TierEvent>, RampAction))
        requires
            old(self).wf(),
        ensures
            final(self).wf(),
            final(self).plan() == old(self).plan(),
            (final(self).model(), r.0@, r.1) == ramp_step(old(self).model(), old(self).plan(), input),
    {
        let n = self.plan.tiers.len();
        let i = self.index;
        let ghost m = self.model();
        match (self.phase, input) {
            (RampPhase::Ready, RampInput::Begin { abort_requested, stale_driver }) => {
                if i >= n {
                    self.phase = RampPhase::Finished;
                    self.status.current_tier_index = None;
                    (vec![TierEvent::RampCompleted], RampAction::Stop)
                } else if abort_requested {
                    self.abort_here(TierState::Invalid);
                    (vec![TierEvent::RampAborted { reason: AbortReason::Manual }], RampAction::Stop)
                } else if let Some(d) = stale_driver {
                    self.abort_here(TierState::Invalid);
                    (vec![TierEvent::RampAborted { reason: AbortReason::DriverStale(d) }], RampAction::Stop)
                } else {
                    let tier = self.plan.tiers[i];
                    self.status.tier_states.set(i, TierState::Running);
                    self.status.current_tier_index = Some(i as u32);
                    self.phase = RampPhase::FanningOut;
                    let set_players = OrchestratorCommand::SetPlayers(SetPlayersCommand { player_count: tier.player_count });
                    let start = start_tier_command(i as u32, tier);
                    proof {
                        assert(self.model().states =~= m.states.update(i as int, TierState::Running));
                    }
                    (vec![TierEvent::TierStarted { index: i as u32, tier }], RampAction::FanOut(set_players, start))
                }
            },
            (RampPhase::FanningOut, RampInput::FannedOut { unreached }) => {
                match unreached {
                    Some(d) => {
                        self.abort_here(TierState::Invalid);
                        (
                            vec![
                                TierEvent::TierEnded { index: i as u32, state: TierState::Invalid },
                                TierEvent::RampAborted { reason: AbortReason::DriverStale(d) },
                            ],
                            RampAction::Stop,
                        )
                    },
                    None => {
                        self.phase = RampPhase::Holding;
                        (Vec::new(), RampAction::Hold(self.plan.tiers[i].hold_seconds))
                    },
                }
            },
            (RampPhase::Holding, RampInput::Abort) => {
                self.abort_here(TierState::Invalid);
                (
                    vec![
                        TierEvent::TierEnded { index: i as u32, state: TierState::Invalid },
                        TierEvent::RampAborted { reason: AbortReason::Manual },
                    ],
                    RampAction::Stop,
                )
            },
            (RampPhase::Holding, RampInput::DriverStale(d)) => {
                self.abort_here(TierState::Invalid);
                (
                    vec![
                        TierEvent::TierEnded { index: i as u32, state: TierState::Invalid },
                        TierEvent::RampAborted { reason: AbortReason::DriverStale(d) },
                    ],
                    RampAction::Stop,
                )
            },
            (RampPhase::Holding, RampInput::GateFailed) => {
                self.abort_here(TierState::Fail);
                (
                    vec![
                        TierEvent::TierEnded { index: i as u32, state: TierState::Fail },
                        TierEvent::RampAborted { reason: AbortReason::TierFailed(i as u32) },
                    ],
                    RampAction::Stop,
                )
            },
            (RampPhase::Holding, RampInput::HoldElapsed) => {
                self.status.tier_states.set(i, TierState::Pass);
                self.status.current_tier_index = None;
                self.index = i + 1;
                proof {
                    assert(self.model().states =~= m.states.update(i as int, TierState::Pass));
                }
                if i + 1 >= n {
                    self.phase = RampPhase::Finished;
                    (
                        vec![TierEvent::TierEnded { index: i as u32, state: TierState::Pass }, TierEvent::RampCompleted],
                        RampAction::Stop,
                    )
                } else {
                    self.phase = RampPhase::Ready;
                    (vec![TierEvent::TierEnded { index: i as u32, state: TierState::Pass }], RampAction::BeginNext)
                }
            },
            _ => (Vec::new(), RampAction::Ignored),
        }
    }
}

/// A ramp that completed without aborting ran every tier of its plan to
/// `Pass`.
pub proof fn law_completed_ramp_passed_every_tier(m: RampMachine)
    requires
        m.wf(),
        m.model().phase == RampPhase::Finished,
        !m.model().aborted,
    ensures
        forall|j: int| 0 <= j < m.plan().len() ==> m.model().states[j] == TierState::Pass,
{
}

/// Once a ramp has finished (completed or aborted) no input starts another
/// tier or publishes another event.
pub proof fn law_nothing_after_finish(m: RampModel, plan: Seq<Tier>, input: RampInput)
    requires
        m.phase == RampPhase::Finished,
    ensures
        ramp_step(m, plan, input).0 == m,
        ramp_step(m, plan, input).1 == Seq::<TierEvent>::empty(),
{
}

/// Tiers start in plan order: a step that starts a tier starts the one at
/// the ramp's index, after all earlier tiers passed, and a step only moves
/// the index on by ending the current tier with `Pass`.
pub proof fn law_tiers_start_in_order(m: RampMachine, input: RampInput)
    requires
        m.wf(),
    ensures
        ({
            let (post, events, _) = ramp_step(m.model(), m.plan(), input);
            &&& forall|k: int| 0 <= k < events.len() ==> (#[trigger] events[k] matches TierEvent::TierStarted { index, .. } ==> {
                &&& index == m.model().index
                &&& forall|j: int| 0 <= j < m.model().index ==> m.model().states[j] == TierState::Pass
            })
            &&& post.index == m.model().index || (post.index == m.model().index + 1
                && post.states[m.model().index as int] == TierState::Pass)
        }),
{
}

/// Whether `input` reports driver `d` as not `Active` or unreachable.
pub open spec fn reports_stale(input: RampInput, d: DriverId) -> bool {
    match input {
        RampInput::DriverStale(x) => x == d,
        RampInput::Begin { stale_driver: Some(x), .. } => x == d,
        RampInput::FannedOut { unreached: Some(x) } => x == d,
        _ => false,
    }
}

/// Whether `input` carries a manual abort request.
pub open spec fn requests_abort(input: RampInput) -> bool {
    match input {
        RampInput::Abort => true,
        RampInput::Begin { abort_requested, .. } => abort_requested,
        _ => false,
    }
}

/// Every abort names its cause. A `Manual` abort comes only from a manual
/// abort request; a `DriverStale(d)` abort only from driver `d` being
/// reported not `Active` or unreachable; a `TierFailed(j)` abort only from
/// the validity gate failing the tier `j` being held. And a driver going
/// stale, a manual abort or a gate failure during a hold always ends the
/// tier and aborts the ramp with that cause.
pub proof fn law_abort_reason_names_its_cause(m: RampModel, plan: Seq<Tier>, input: RampInput)
    ensures
        ({
            let (post, events, action) = ramp_step(m, plan, input);
            &&& events.contains(TierEvent::RampAborted { reason: AbortReason::Manual }) ==> requests_abort(input)
            &&& forall|d: DriverId|
                #[trigger] events.contains(TierEvent::RampAborted { reason: AbortReason::DriverStale(d) }) ==> reports_stale(input, d)
            &&& forall|j: u32|
                #[trigger] events.contains(TierEvent::RampAborted { reason: AbortReason::TierFailed(j) }) ==> (
                input == RampInput::GateFailed && m.phase == RampPhase::Holding && j == m.index as u32)
            &&& m.phase == RampPhase::Holding ==> match input {
                RampInput::DriverStale(d) => events == seq![
                    TierEvent::TierEnded { index: m.index as u32, state: TierState::Invalid },
                    TierEvent::RampAborted { reason: AbortReason::DriverStale(d) },
                ] && post.aborted && action == RampAction::Stop,
                RampInput::Abort => events == seq![
                    TierEvent::TierEnded { index: m.index as u32, state: TierState::Invalid },
                    TierEvent::RampAborted { reason: AbortReason::Manual },
                ] && post.aborted && action == RampAction::Stop,
                RampInput::GateFailed => events == seq![
                    TierEvent::TierEnded { index: m.index as u32, state: TierState::Fail },
                    TierEvent::RampAborted { reason: AbortReason::TierFailed(m.index as u32) },
                ] && post.aborted && action == RampAction::Stop,
                _ => true,
            }
        }),
{
    let (post, events, action) = ramp_step(m, plan, input);
    assert forall|d: DriverId|
        #[trigger] events.contains(TierEvent::RampAborted { reason: AbortReason::DriverStale(d) }) implies reports_stale(input, d) by {
        let k = choose|k: int| 0 <= k < events.len() && events[k] == TierEvent::RampAborted {
            reason: AbortReason::DriverStale(d),
        };
    }
    assert forall|j: u32|
        #[trigger] events.contains(TierEvent::RampAborted { reason: AbortReason::TierFailed(j) }) implies (
        input == RampInput::GateFailed && m.phase == RampPhase::Holding && j == m.index as u32) by {
        let k = choose|k: int| 0 <= k < events.len() && events[k] == TierEvent::RampAborted {
            reason: AbortReason::TierFailed(j),
        };
    }
    if events.contains(TierEvent::RampAborted { reason: AbortReason::Manual }) {
        let k = choose|k: int| 0 <= k < events.len() && events[k] == TierEvent::RampAborted {
            reason: AbortReason::Manual,
        };
    }
}

} // verus!
