use arcane_swarm::actions::{interact_json, pickup_item_json, random_action, random_arcane_action, use_item_json, GameAction};

#[test]
fn random_action_handles_zero_players_without_panic() {
    for tick in 0..20 {
        match random_action(0, 0, tick) {
            GameAction::Interact { target_idx, event_type } => {
                assert_eq!(target_idx, 0);
                assert!(event_type < 4);
            }
            GameAction::PickupItem { item_type, quantity } => {
                assert!(item_type < 20);
                assert!((1..=5).contains(&quantity));
            }
            GameAction::UseItem { item_type } => {
                assert!(item_type < 20);
            }
        }
    }
}

#[test]
fn random_action_follows_the_seed() {
    // player 1, tick 0: seed 31, 31 % 5 == 1 -> use item 31 % 20 == 11.
    assert_eq!(random_action(1, 10, 0), GameAction::UseItem { item_type: 11 });
    // player 0, tick 5: seed 35, 35 % 5 == 0 -> pickup of 1 + 0 items of type 15.
    assert_eq!(random_action(0, 10, 5), GameAction::PickupItem { item_type: 15, quantity: 1 });
    // player 2, tick 1: seed 62 ^ 7 == 57, 57 % 5 == 2 -> interact with
    // (2 + 1 + 57 % 10) % 10 == 0, event 57 % 4 == 1.
    assert_eq!(random_action(2, 10, 1), GameAction::Interact { target_idx: 0, event_type: 1 });
}

#[test]
fn arcane_actions_carry_json_payloads() {
    let (name, payload) = random_arcane_action(1, 0);
    assert_eq!(name, "use_item");
    assert_eq!(payload, r#"{"item_type":11}"#);
    let (name, payload) = random_arcane_action(0, 5);
    assert_eq!(name, "pickup_item");
    assert_eq!(payload, r#"{"item_type":15,"quantity":1}"#);
    let (name, payload) = random_arcane_action(2, 1);
    assert_eq!(name, "interact");
    assert_eq!(payload, r#"{"target_id":"00000000-0000-0000-0000-000000000000","event_type":1}"#);
    let v: serde_json::Value = serde_json::from_str(&payload).unwrap();
    assert_eq!(v["event_type"], 1);
}

#[test]
fn reducer_argument_json() {
    assert_eq!(pickup_item_json(5, 3, 2), r#"[{"__uuid__":5},3,2]"#);
    assert_eq!(use_item_json(u128::MAX, 0), format!(r#"[{{"__uuid__":{}}},0]"#, u128::MAX));
    assert_eq!(interact_json(1, 2, 3), r#"[{"__uuid__":1},{"__uuid__":2},3]"#);
}
