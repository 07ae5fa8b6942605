use arcane_swarm::driver_pool::DriverPool;
use arcane_swarm::protocol::{OrchestratorCommand, SetPlayersCommand, StartTierCommand};
use arcane_swarm::tier_ramp_coordinator::{
    active_drivers, first_inactive_driver, first_unreached, start_tier_command, AbortReason, RampAction,
    RampInput, RampMachine, RampPhase, TestPlan, Tier, TierEvent, TierState,
};

fn plan(tiers: &[(u32, u32)]) -> TestPlan {
    TestPlan::new(tiers.iter().map(|&(p, h)| Tier { player_count: p, hold_seconds: h }).collect())
}

fn begin() -> RampInput {
    RampInput::Begin { abort_requested: false, stale_driver: None }
}

/// Drives a ramp the way the networking layer does when every send and
/// hold succeeds, collecting the events.
fn run_clean(m: &mut RampMachine) -> Vec<TierEvent> {
    let mut events = Vec::new();
    let mut input = begin();
    loop {
        let (evs, action) = m.step(input);
        events.extend(evs);
        input = match action {
            RampAction::FanOut(_, _) => RampInput::FannedOut { unreached: None },
            RampAction::Hold(_) => RampInput::HoldElapsed,
            RampAction::BeginNext => begin(),
            RampAction::Stop | RampAction::Ignored => break,
        };
    }
    events
}

#[test]
fn all_drivers_receive_commands_simultaneously() {
    let mut pool = DriverPool::new(50_000, 150_000, 24);
    let mut ids = Vec::new();
    for i in 0..12 {
        ids.push(pool.register(format!(r#"{{"platform":"test","idx":{}}}"#, i), 0).unwrap());
    }
    let recipients = active_drivers(&pool);
    assert_eq!(recipients.len(), 12, "all 12 active drivers should have been recipients");
    for id in &recipients {
        assert!(ids.contains(id), "unexpected driver_id in fan-out");
    }
    // Every recipient acknowledged: the fan-out reached everyone.
    assert_eq!(first_unreached(&recipients, &recipients), None);

    let mut m = RampMachine::new(plan(&[(125, 1)]));
    let (_, action) = m.step(begin());
    let cmd = OrchestratorCommand::SetPlayers(SetPlayersCommand { player_count: 125 });
    match action {
        RampAction::FanOut(first, second) => {
            assert_eq!(first, cmd, "command payload preserved");
            assert_eq!(second, start_tier_command(0, Tier { player_count: 125, hold_seconds: 1 }));
        }
        other => panic!("expected a fan-out, got {:?}", other),
    }
}

#[test]
fn tier_ramp_progresses_through_sequence() {
    let mut m = RampMachine::new(plan(&[(10, 0), (50, 0), (100, 0)]));
    let events = run_clean(&mut m);

    let started_indices: Vec<u32> = events
        .iter()
        .filter_map(|e| match e {
            TierEvent::TierStarted { index, .. } => Some(*index),
            _ => None,
        })
        .collect();
    assert_eq!(started_indices, vec![0, 1, 2], "tiers must start in order 0, 1, 2");

    let ended: Vec<(u32, TierState)> = events
        .iter()
        .filter_map(|e| match e {
            TierEvent::TierEnded { index, state } => Some((*index, *state)),
            _ => None,
        })
        .collect();
    assert_eq!(ended.len(), 3, "all three tiers must end");
    for (_idx, state) in &ended {
        assert!(matches!(state, TierState::Pass), "all-clean tiers must end as Pass, got {:?}", state);
    }

    let completed = events.iter().any(|e| matches!(e, TierEvent::RampCompleted));
    assert!(completed, "RampCompleted must be emitted at end");
}

#[test]
fn stale_driver_marks_tier_invalid() {
    let mut pool = DriverPool::new(50_000, 150_000, 6);
    let mut ids = Vec::new();
    for _ in 0..3 {
        ids.push(pool.register("{}".to_string(), 0).unwrap());
    }
    let recipients = active_drivers(&pool);
    // The second driver's send fails: it is the one not reached.
    let reached: Vec<u128> = recipients.iter().copied().filter(|d| *d != ids[1]).collect();
    let unreached = first_unreached(&recipients, &reached);
    assert_eq!(unreached, Some(ids[1]));

    let mut m = RampMachine::new(plan(&[(10, 1), (50, 1)]));
    let mut events = Vec::new();
    let (evs, _) = m.step(begin());
    events.extend(evs);
    let (evs, action) = m.step(RampInput::FannedOut { unreached });
    events.extend(evs);
    assert_eq!(action, RampAction::Stop);
    let (evs, _) = m.step(begin());
    events.extend(evs);

    let first_tier_invalid =
        events.iter().any(|e| matches!(e, TierEvent::TierEnded { index: 0, state: TierState::Invalid }));
    assert!(first_tier_invalid, "tier 0 must be marked Invalid when a driver goes Stale during fan-out");

    let aborted = events.iter().find_map(|e| match e {
        TierEvent::RampAborted { reason } => Some(*reason),
        _ => None,
    });
    assert!(matches!(aborted, Some(AbortReason::DriverStale(_))), "ramp must abort with DriverStale reason; got {:?}", aborted);

    let tier_one_started = events.iter().any(|e| matches!(e, TierEvent::TierStarted { index: 1, .. }));
    assert!(!tier_one_started, "tier 1 must not start after abort");
}

#[test]
fn manual_abort_stops_tier_cleanly() {
    let mut m = RampMachine::new(plan(&[(10, 30), (50, 30)]));
    let (evs, action) = m.step(begin());
    assert!(matches!(evs[0], TierEvent::TierStarted { index: 0, .. }), "tier 0 should start");
    assert!(matches!(action, RampAction::FanOut(_, _)));
    let (_, action) = m.step(RampInput::FannedOut { unreached: None });
    assert_eq!(action, RampAction::Hold(30));

    let (mut events, _) = m.step(RampInput::Abort);
    let (later, _) = m.step(begin());
    events.extend(later);

    let tier_zero_invalid =
        events.iter().any(|e| matches!(e, TierEvent::TierEnded { index: 0, state: TierState::Invalid }));
    assert!(tier_zero_invalid, "tier 0 must be marked Invalid on manual abort");

    let aborted = events.iter().find_map(|e| match e {
        TierEvent::RampAborted { reason } => Some(*reason),
        _ => None,
    });
    assert_eq!(aborted, Some(AbortReason::Manual), "ramp must abort with Manual reason; got {:?}", aborted);

    let tier_one_started = events.iter().any(|e| matches!(e, TierEvent::TierStarted { index: 1, .. }));
    assert!(!tier_one_started, "tier 1 must not start after manual abort");
}

#[test]
fn gate_failure_fails_the_tier_and_aborts() {
    let mut m = RampMachine::new(plan(&[(10, 5), (20, 5)]));
    m.step(begin());
    m.step(RampInput::FannedOut { unreached: None });
    let (events, action) = m.step(RampInput::GateFailed);
    assert_eq!(
        events,
        vec![
            TierEvent::TierEnded { index: 0, state: TierState::Fail },
            TierEvent::RampAborted { reason: AbortReason::TierFailed(0) },
        ]
    );
    assert_eq!(action, RampAction::Stop);
    let status = m.status();
    assert!(status.aborted);
    assert_eq!(status.current_tier_index, Some(0));
    assert_eq!(status.tier_states, vec![TierState::Fail, TierState::Pending]);
    assert_eq!(m.phase(), RampPhase::Finished);
}

#[test]
fn abort_before_a_tier_marks_it_invalid() {
    let mut m = RampMachine::new(plan(&[(10, 5)]));
    let (events, action) = m.step(RampInput::Begin { abort_requested: true, stale_driver: None });
    assert_eq!(events, vec![TierEvent::RampAborted { reason: AbortReason::Manual }]);
    assert_eq!(action, RampAction::Stop);
    assert_eq!(m.status().tier_states, vec![TierState::Invalid]);
    let mut pool = DriverPool::new(1, 1, 4);
    let id = pool.register("{}".to_string(), 0).unwrap();
    assert_eq!(first_inactive_driver(&pool), None);
    pool.mark_stale_drivers(10);
    assert_eq!(first_inactive_driver(&pool), Some(id));
    assert!(active_drivers(&pool).is_empty());
}

#[test]
fn empty_plan_completes_at_once_and_status_tracks_progress() {
    let mut m = RampMachine::new(plan(&[]));
    let (events, action) = m.step(begin());
    assert_eq!(events, vec![TierEvent::RampCompleted]);
    assert_eq!(action, RampAction::Stop);

    let mut m = RampMachine::new(plan(&[(1, 2), (3, 4)]));
    assert_eq!(m.status().tier_states, vec![TierState::Pending, TierState::Pending]);
    m.step(begin());
    assert_eq!(m.status().tier_states, vec![TierState::Running, TierState::Pending]);
    assert_eq!(m.status().current_tier_index, Some(0));
    // An input that does not fit the phase is ignored.
    let (events, action) = m.step(RampInput::HoldElapsed);
    assert!(events.is_empty());
    assert_eq!(action, RampAction::Ignored);
    m.step(RampInput::FannedOut { unreached: None });
    let (events, action) = m.step(RampInput::HoldElapsed);
    assert_eq!(events, vec![TierEvent::TierEnded { index: 0, state: TierState::Pass }]);
    assert_eq!(action, RampAction::BeginNext);
    assert_eq!(m.status().tier_states, vec![TierState::Pass, TierState::Pending]);
    let p = plan(&[(1, 2)]);
    assert_eq!(p.len(), 1);
    assert!(!p.is_empty());
    assert_eq!(
        start_tier_command(4, Tier { player_count: 9, hold_seconds: 8 }),
        OrchestratorCommand::StartTier(StartTierCommand { tier_index: 4, player_count: 9, hold_seconds: 8 })
    );
}
