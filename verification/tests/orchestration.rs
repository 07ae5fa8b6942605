use arcane_swarm::orchestration::{reconcile_plan, reconcile_target_players, BackendCallLog, OrchestrationBackend};

#[derive(Default)]
struct FakeBackend {
    spawned: Vec<(usize, u32)>,
    stopped: Vec<usize>,
}

impl OrchestrationBackend for FakeBackend {
    fn calls(&self) -> BackendCallLog {
        unreachable!("the call history exists only for the verifier")
    }

    fn spawn_player(&mut self, idx: usize, desired_total: u32) {
        self.spawned.push((idx, desired_total));
    }

    fn stop_player(&mut self, idx: usize) {
        self.stopped.push(idx);
    }
}

#[test]
fn scales_up_spawning_new_indices_only() {
    let mut backend = FakeBackend::default();
    let new_count = reconcile_target_players(&mut backend, 2, 5, 10);

    assert_eq!(new_count, 5);
    assert_eq!(backend.spawned, vec![(2, 5), (3, 5), (4, 5)]);
    assert!(backend.stopped.is_empty());
}

#[test]
fn scales_down_stopping_excess_indices_only() {
    let mut backend = FakeBackend::default();
    let new_count = reconcile_target_players(&mut backend, 5, 2, 10);

    assert_eq!(new_count, 2);
    assert_eq!(backend.stopped, vec![2, 3, 4]);
    assert!(backend.spawned.is_empty());
}

#[test]
fn clamps_to_max_players_before_scaling() {
    let mut backend = FakeBackend::default();
    let new_count = reconcile_target_players(&mut backend, 1, 50, 3);

    assert_eq!(new_count, 3);
    assert_eq!(backend.spawned, vec![(1, 50), (2, 50)]);
}

#[test]
fn no_ops_when_already_at_target() {
    let mut backend = FakeBackend::default();
    let new_count = reconcile_target_players(&mut backend, 4, 4, 10);

    assert_eq!(new_count, 4);
    assert!(backend.spawned.is_empty());
    assert!(backend.stopped.is_empty());
}

#[test]
fn plan_lists_the_slots_in_order() {
    let up = reconcile_plan(1, 4, 100);
    assert_eq!(up.spawn, vec![1, 2, 3]);
    assert!(up.stop.is_empty());
    assert_eq!(up.new_count, 4);
    let down = reconcile_plan(6, 9, 3);
    assert!(down.spawn.is_empty());
    assert_eq!(down.stop, vec![3, 4, 5]);
    assert_eq!(down.new_count, 3);
}
