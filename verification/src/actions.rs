//! Deterministic per-tick game actions of simulated players, and their
//! reducer-argument and cluster-payload JSON.
//!
//! A player's action at a tick is a function of its index and the tick
//! alone, so every run issues the same action stream.

use crate::ids::{driver_id_text, uuid_text};
use crate::text::{decimal, push_decimal, push_decimal_u128, push_str};
use vstd::prelude::*;

verus! {

/// One game action of a simulated player.
#[derive(Debug, Clone, Copy, PartialEq, Eq, Structural)]
pub enum GameAction {
    PickupItem { item_type: u32, quantity: u32 },
    UseItem { item_type: u32 },
    Interact { target_idx: u32, event_type: u32 },
}

/// The action seed of player `player_idx` at `tick`.
pub open spec fn action_seed(player_idx: u32, tick: u64) -> u64 {
    (player_idx as u64).wrapping_mul(31) ^ tick.wrapping_mul(7)
}

/// `max(n, lo)`.
pub open spec fn at_least(n: u32, lo: u32) -> u32 {
    if n < lo { lo } else { n }
}

/// Whether the interaction target of `player_idx` fits a `u32` before the
/// final modulo (it always does when `player_idx` and `total_players` are
/// below half of `u32::MAX`).
pub open spec fn target_fits(player_idx: u32, total_players: u32, tick: u64) -> bool {
    player_idx + 1 + action_seed(player_idx, tick) % (at_least(total_players, 2) as u64) <= u32::MAX
}

/// The action of player `player_idx` among `total_players` at `tick`:
/// by the seed modulo 5, a pickup of 1 to 5 items of one of 20 types, a use
/// of one of 20 types, or (three times in five) an interaction of one of 4
/// kinds with a player a seed-dependent distance ahead. With no players the
/// target is player 0.
pub open spec fn game_action(player_idx: u32, total_players: u32, tick: u64) -> GameAction {
    let seed = action_seed(player_idx, tick);
    if seed % 5 == 0 {
        GameAction::PickupItem { item_type: (seed % 20) as u32, quantity: (1 + seed % 5) as u32 }
    } else if seed % 5 == 1 {
        GameAction::UseItem { item_type: (seed % 20) as u32 }
    } else {
        GameAction::Interact {
            target_idx: ((player_idx + 1 + seed % (at_least(total_players, 2) as u64)) % (at_least(total_players, 1) as int)) as u32,
            event_type: (seed % 4) as u32,
        }
    }
}

fn seed_of(player_idx: u32, tick: u64) -> (s: u64)
    ensures
        s == action_seed(player_idx, tick),
{
    (player_idx as u64).wrapping_mul(31) ^ tick.wrapping_mul(7)
}

/// Picks the action of player `player_idx` among `total_players` at `tick`.
pub fn random_action(player_idx: u32, total_players: u32, tick: u64) -> (a: GameAction)
    requires
        target_fits(player_idx, total_players, tick),
    ensures
        a == game_action(player_idx, total_players, tick),
{
    let seed = seed_of(player_idx, tick);
    if seed % 5 == 0 {
        GameAction::PickupItem { item_type: (seed % 20) as u32, quantity: 1 + (seed % 5) as u32 }
    } else if seed % 5 == 1 {
        GameAction::UseItem { item_type: (seed % 20) as u32 }
    } else {
        let span: u32 = if total_players < 2 { 2 } else { total_players };
        let modulus: u32 = if total_players < 1 { 1 } else { total_players };
        let step = (seed % span as u64) as u32;
        GameAction::Interact { target_idx: (player_idx + 1 + step) % modulus, event_type: (seed % 4) as u32 }
    }
}

/// The cluster action name and JSON payload of an action: `pickup_item`
/// with `{"item_type":T,"quantity":Q}`, `use_item` with
/// `{"item_type":T}`, `interact` with
/// `{"target_id":"<nil uuid>","event_type":E}`.
pub open spec fn arcane_action_text(a: GameAction) -> (Seq<char>, Seq<char>) {
    match a {
        GameAction::PickupItem { item_type, quantity } => (
            "pickup_item"@,
            "{\"item_type\":"@ + decimal(item_type as nat) + ",\"quantity\":"@ + decimal(quantity as nat) + "}"@,
        ),
        GameAction::UseItem { item_type } => ("use_item"@, "{\"item_type\":"@ + decimal(item_type as nat) + "}"@),
        GameAction::Interact { event_type, .. } => (
            "interact"@,
            "{\"target_id\":\""@ + uuid_text(0) + "\",\"event_type\":"@ + decimal(event_type as nat) + "}"@,
        ),
    }
}

/// The action of an Arcane player at `tick`, as cluster action name and
/// JSON payload. Interactions name no particular target.
pub fn random_arcane_action(player_idx: u32, tick: u64) -> (r: (&'static str, String))
    ensures
        (r.0@, r.1@) == arcane_action_text(game_action(player_idx, 0, tick)),
{
    let seed = seed_of(player_idx, tick);
    if seed % 5 == 0 {
        let item_type = (seed % 20) as u32;
        let quantity = 1 + (seed % 5) as u32;
        let mut s = String::new();
        push_str(&mut s, "{\"item_type\":");
        push_decimal(&mut s, item_type as u64);
        push_str(&mut s, ",\"quantity\":");
        push_decimal(&mut s, quantity as u64);
        push_str(&mut s, "}");
        let name = "pickup_item";
        proof {
            reveal_strlit("pickup_item");
        }
        (name, s)
    } else if seed % 5 == 1 {
        let item_type = (seed % 20) as u32;
        let mut s = String::new();
        push_str(&mut s, "{\"item_type\":");
        push_decimal(&mut s, item_type as u64);
        push_str(&mut s, "}");
        let name = "use_item";
        proof {
            reveal_strlit("use_item");
        }
        (name, s)
    } else {
        let event_type = (seed % 4) as u32;
        let mut s = String::new();
        push_str(&mut s, "{\"target_id\":\"");
        let nil = driver_id_text(0);
        push_str(&mut s, nil.as_str());
        push_str(&mut s, "\",\"event_type\":");
        push_decimal(&mut s, event_type as u64);
        push_str(&mut s, "}");
        let name = "interact";
        proof {
            reveal_strlit("interact");
        }
        (name, s)
    }
}

/// `{"__uuid__":N}`, the JSON form of a SpacetimeDB UUID argument.
pub open spec fn uuid_arg_text(id: u128) -> Seq<char> {
    "{\"__uuid__\":"@ + decimal(id as nat) + "}"@
}

fn push_uuid_arg(s: &mut String, id: u128)
    ensures
        final(s)@ == old(s)@ + uuid_arg_text(id),
{
    push_str(s, "{\"__uuid__\":");
    push_decimal_u128(s, id);
    push_str(s, "}");
}

/// Reducer arguments of `pickup_item`: `[owner, item_type, quantity]`.
pub fn pickup_item_json(owner_id: u128, item_type: u32, quantity: u32) -> (s: String)
    ensures
        s@ == "["@ + uuid_arg_text(owner_id) + ","@ + decimal(item_type as nat) + ","@ + decimal(quantity as nat) + "]"@,
{
    let mut s = String::new();
    push_str(&mut s, "[");
    push_uuid_arg(&mut s, owner_id);
    push_str(&mut s, ",");
    push_decimal(&mut s, item_type as u64);
    push_str(&mut s, ",");
    push_decimal(&mut s, quantity as u64);
    push_str(&mut s, "]");
    s
}

/// Reducer arguments of `use_item`: `[owner, item_type]`.
pub fn use_item_json(owner_id: u128, item_type: u32) -> (s: String)
    ensures
        s@ == "["@ + uuid_arg_text(owner_id) + ","@ + decimal(item_type as nat) + "]"@,
{
    let mut s = String::new();
    push_str(&mut s, "[");
    push_uuid_arg(&mut s, owner_id);
    push_str(&mut s, ",");
    push_decimal(&mut s, item_type as u64);
    push_str(&mut s, "]");
    s
}

/// Reducer arguments of `player_interact`: `[actor, target, event_type]`.
pub fn interact_json(actor_id: u128, target_id: u128, event_type: u32) -> (s: String)
    ensures
        s@ == "["@ + uuid_arg_text(actor_id) + ","@ + uuid_arg_text(target_id) + ","@ + decimal(event_type as nat) + "]"@,
{
    let mut s = String::new();
    push_str(&mut s, "[");
    push_uuid_arg(&mut s, actor_id);
    push_str(&mut s, ",");
    push_uuid_arg(&mut s, target_id);
    push_str(&mut s, ",");
    push_decimal(&mut s, event_type as u64);
    push_str(&mut s, "]");
    s
}

} // verus!
