//! Backend-agnostic scaling of the control-mode player fleet.

use vstd::prelude::*;

verus! {

/// One call a reconcile makes on its backend.
#[derive(Debug, Clone, Copy, PartialEq, Eq, Structural)]
pub enum BackendCall {
    /// `spawn_player(idx, desired_total)`.
    Spawn(usize, u32),
    /// `stop_player(idx)`.
    Stop(usize),
}

/// The history of calls made on a backend, oldest first.
pub type BackendCallLog = Seq<BackendCall>;

/// What the scaling logic needs from a backend. An implementation keeps
/// the history of calls made on it, which each call extends by itself.
/// The history is a specification: code built without the verifier never
/// calls `calls`, and an implementation there gives it a body that is
/// never run.
pub trait OrchestrationBackend {
    /// The calls made on this backend so far, oldest first.
    spec fn calls(&self) -> BackendCallLog;

    fn spawn_player(&mut self, idx: usize, desired_total: u32)
        ensures
            final(self).calls() == old(self).calls().push(BackendCall::Spawn(idx, desired_total)),
    ;

    fn stop_player(&mut self, idx: usize)
        ensures
            final(self).calls() == old(self).calls().push(BackendCall::Stop(idx)),
    ;
}

/// The player count to reach: the desired count, capped at the maximum.
pub open spec fn target_count(desired_players: u32, max_players: u32) -> usize {
    (if desired_players < max_players { desired_players } else { max_players }) as usize
}

/// Slots to spawn when scaling from `current` players: each new slot
/// `current..target`, in order.
pub open spec fn slots_to_spawn(current: usize, desired_players: u32, max_players: u32) -> Seq<usize> {
    let target = target_count(desired_players, max_players);
    if target > current {
        Seq::new((target - current) as nat, |i: int| (current + i) as usize)
    } else {
        Seq::empty()
    }
}

/// Slots to stop when scaling from `current` players: each excess slot
/// `target..current`, in order.
pub open spec fn slots_to_stop(current: usize, desired_players: u32, max_players: u32) -> Seq<usize> {
    let target = target_count(desired_players, max_players);
    if target < current {
        Seq::new((current - target) as nat, |i: int| (target + i) as usize)
    } else {
        Seq::empty()
    }
}

/// The backend calls of a reconcile: `spawn_player(i, desired_players)`
/// for each slot to spawn, then `stop_player(i)` for each slot to stop
/// (at most one of the two lists is non-empty).
pub open spec fn reconcile_calls(current: usize, desired_players: u32, max_players: u32) -> Seq<BackendCall> {
    slots_to_spawn(current, desired_players, max_players).map_values(|i: usize| BackendCall::Spawn(i, desired_players))
        + slots_to_stop(current, desired_players, max_players).map_values(|i: usize| BackendCall::Stop(i))
}

/// The calls a reconcile makes and the count it leaves.
pub struct ReconcilePlan {
    pub spawn: Vec<usize>,
    pub stop: Vec<usize>,
    pub new_count: usize,
}

pub fn reconcile_plan(current_spawned: usize, desired_players: u32, max_players: u32) -> (p: ReconcilePlan)
    ensures
        p.spawn@ == slots_to_spawn(current_spawned, desired_players, max_players),
        p.stop@ == slots_to_stop(current_spawned, desired_players, max_players),
        p.new_count == target_count(desired_players, max_players),
{
    let target = (if desired_players < max_players { desired_players } else { max_players }) as usize;
    let mut spawn: Vec<usize> = Vec::new();
    let mut stop: Vec<usize> = Vec::new();
    if target > current_spawned {
        let mut idx = current_spawned;
        while idx < target
            invariant
                current_spawned <= idx <= target,
                target == target_count(desired_players, max_players),
                spawn@ =~= Seq::new((idx - current_spawned) as nat, |i: int| (current_spawned + i) as usize),
            decreases target - idx,
        {
            spawn.push(idx);
            idx += 1;
        }
    } else if target < current_spawned {
        let mut idx = target;
        while idx < current_spawned
            invariant
                target <= idx <= current_spawned,
                target == target_count(desired_players, max_players),
                stop@ =~= Seq::new((idx - target) as nat, |i: int| (target + i) as usize),
            decreases current_spawned - idx,
        {
            stop.push(idx);
            idx += 1;
        }
    }
    ReconcilePlan { spawn, stop, new_count: target }
}

/// Scales the fleet to `min(desired_players, max_players)`: spawns the new
/// slots `current_spawned..target` (each told the desired total) or stops
/// the excess slots `target..current_spawned`, and returns the new count.
pub fn reconcile_target_players<B: OrchestrationBackend>(
    backend: &mut B,
    current_spawned: usize,
    desired_players: u32,
    max_players: u32,
) -> (n: usize)
    ensures
        n == target_count(desired_players, max_players),
        final(backend).calls() == old(backend).calls() + reconcile_calls(current_spawned, desired_players, max_players),
{
    let plan = reconcile_plan(current_spawned, desired_players, max_players);
    let ghost start = backend.calls();
    let ghost spawns = plan.spawn@.map_values(|i: usize| BackendCall::Spawn(i, desired_players));
    let ghost stops = plan.stop@.map_values(|i: usize| BackendCall::Stop(i));
    let mut i: usize = 0;
    while i < plan.spawn.len()
        invariant
            i <= plan.spawn@.len(),
            spawns == plan.spawn@.map_values(|i: usize| BackendCall::Spawn(i, desired_players)),
            backend.calls() == start + spawns.take(i as int),
        decreases plan.spawn.len() - i,
    {
        backend.spawn_player(plan.spawn[i], desired_players);
        proof {
            assert(spawns.take(i as int + 1) =~= spawns.take(i as int).push(spawns[i as int]));
        }
        i += 1;
    }
    proof {
        assert(spawns.take(spawns.len() as int) =~= spawns);
    }
    let mut j: usize = 0;
    while j < plan.stop.len()
        invariant
            j <= plan.stop@.len(),
            spawns.len() == plan.spawn@.len(),
            stops == plan.stop@.map_values(|i: usize| BackendCall::Stop(i)),
            backend.calls() == start + spawns + stops.take(j as int),
        decreases plan.stop.len() - j,
    {
        backend.stop_player(plan.stop[j]);
        proof {
            assert(stops.take(j as int + 1) =~= stops.take(j as int).push(stops[j as int]));
        }
        j += 1;
    }
    proof {
        assert(stops.take(stops.len() as int) =~= stops);
        assert(start + spawns + stops =~= start + (spawns + stops));
    }
    plan.new_count
}

/// The slots running after a reconcile that found slots `0..current`
/// running: those kept, plus those spawned, minus those stopped.
pub open spec fn running_after(current: usize, desired_players: u32, max_players: u32) -> Set<usize> {
    Set::new(|i: usize| i < current).union(slots_to_spawn(current, desired_players, max_players).to_set()).difference(
        slots_to_stop(current, desired_players, max_players).to_set(),
    )
}

/// Control mode's scaling: whatever count was running, a reconcile leaves
/// exactly the slots `0..min(desired_players, max_players)` running, every
/// slot it spawns is below `max_players` (so within the per-slot tables of
/// that size), and from nothing it spawns `0..target` in order.
pub proof fn law_reconcile_runs_exactly_target(current: usize, desired_players: u32, max_players: u32)
    ensures
        running_after(current, desired_players, max_players) == Set::new(
            |i: usize| i < target_count(desired_players, max_players),
        ),
        forall|k: int|
            0 <= k < slots_to_spawn(current, desired_players, max_players).len() ==> #[trigger] slots_to_spawn(
                current,
                desired_players,
                max_players,
            )[k] < max_players,
        slots_to_spawn(0, desired_players, max_players) == Seq::new(
            target_count(desired_players, max_players) as nat,
            |i: int| i as usize,
        ),
{
    let t = target_count(desired_players, max_players);
    let sp = slots_to_spawn(current, desired_players, max_players);
    let st = slots_to_stop(current, desired_players, max_players);
    assert forall|i: usize| running_after(current, desired_players, max_players).contains(i) <==> i < t by {
        if t > current {
            if current <= i < t {
                assert(sp[(i - current) as int] == i);
            }
            if sp.to_set().contains(i) {
                let k = choose|k: int| 0 <= k < sp.len() && sp[k] == i;
            }
        } else if t < current {
            if t <= i < current {
                assert(st[(i - t) as int] == i);
            }
            if st.to_set().contains(i) {
                let k = choose|k: int| 0 <= k < st.len() && st[k] == i;
            }
        }
    }
    assert(running_after(current, desired_players, max_players) =~= Set::new(|i: usize| i < t));
    assert(slots_to_spawn(0, desired_players, max_players) =~= Seq::new(t as nat, |i: int| i as usize));
}

} // verus!
