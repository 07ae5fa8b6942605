//! Per-player bookkeeping of the swarm's player loops: the in-flight table
//! that turns echoed sequence numbers into round-trip latencies, the
//! latency of a subscribed row update, the area-of-interest subscription
//! queries, and the small per-tick decisions of the action loop.

use crate::ids::uuid_hex;
use crate::text::{decimal, push_decimal, push_str, string_push};
use std::collections::BTreeMap;
use vstd::prelude::*;

verus! {

broadcast use vstd::std_specs::btree::group_btree_axioms;

/// At most this many sends are remembered; the oldest is forgotten first.
pub const FLIGHT_TABLE_CAPACITY: usize = 1024;

/// Whether `k` is the smallest key of `m`.
pub open spec fn is_min_key(m: Map<u64, u64>, k: u64) -> bool {
    m.contains_key(k) && forall|j: u64| #[trigger] m.contains_key(j) ==> k <= j
}

/// The entries of `m` with keys strictly above `k`.
pub open spec fn above(m: Map<u64, u64>, k: u64) -> Map<u64, u64> {
    m.restrict(Set::new(|j: u64| j > k))
}

/// `BTreeMap::pop_first`: removes and returns the entry with the smallest
/// key, or `None` when the map is empty.
#[verifier::external_body]
fn btree_pop_first(m: &mut BTreeMap<u64, u64>) -> (r: Option<(u64, u64)>)
    ensures
        old(m)@.dom().len() == 0 ==> r is None && final(m)@ == old(m)@,
        old(m)@.dom().len() > 0 ==> (r matches Some((k, v)) && is_min_key(old(m)@, k) && v == old(m)@[k]
            && final(m)@ == old(m)@.remove(k)),
{
    m.pop_first()
}

/// `BTreeMap::split_off`: the entries with keys at least `k` move to the
/// returned map; the others stay.
#[verifier::external_body]
fn btree_split_off(m: &mut BTreeMap<u64, u64>, k: u64) -> (r: BTreeMap<u64, u64>)
    ensures
        r@ == old(m)@.restrict(Set::new(|j: u64| j >= k)),
        final(m)@ == old(m)@.restrict(Set::new(|j: u64| j < k)),
{
    m.split_off(&k)
}

/// Send times (µs) of the player-state frames still waiting for their echo,
/// by sequence number.
pub struct FlightTable {
    table: BTreeMap<u64, u64>,
}

impl FlightTable {
    pub closed spec fn entries(&self) -> Map<u64, u64> {
        self.table@
    }

    pub closed spec fn wf(&self) -> bool {
        &&& self.table@.dom().finite()
        &&& self.table@.dom().len() <= FLIGHT_TABLE_CAPACITY
    }

    pub fn new() -> (t: Self)
        ensures
            t.wf(),
            t.entries() == Map::<u64, u64>::empty(),
    {
        FlightTable { table: BTreeMap::new() }
    }

    pub fn len(&self) -> (n: usize)
        requires
            self.wf(),
        ensures
            n == self.entries().dom().len(),
    {
        self.table.len()
    }

    /// Remembers that frame `seq` was sent at `now_us`; beyond the capacity
    /// the entry with the smallest sequence number is forgotten.
    pub fn record_sent(&mut self, seq: u64, now_us: u64)
        requires
            old(self).wf(),
        ensures
            final(self).wf(),
            ({
                let m = old(self).entries().insert(seq, now_us);
                if m.dom().len() > FLIGHT_TABLE_CAPACITY {
                    exists|k: u64| is_min_key(m, k) && final(self).entries() == m.remove(k)
                } else {
                    final(self).entries() == m
                }
            }),
    {
        self.table.insert(seq, now_us);
        if self.table.len() > FLIGHT_TABLE_CAPACITY {
            let _ = btree_pop_first(&mut self.table);
        }
    }

    /// The echo of frame `seq` arrived at `now_us`: its round-trip time (µs,
    /// zero if the clock reads earlier than the send), and every frame up to
    /// `seq` is forgotten, since a later echo supersedes earlier ones. A zero
    /// or unknown sequence number changes nothing.
    pub fn on_echo(&mut self, seq: u64, now_us: u64) -> (rtt: Option<u64>)
        requires
            old(self).wf(),
        ensures
            final(self).wf(),
            seq > 0 && old(self).entries().contains_key(seq) ==> {
                &&& rtt == Some((if now_us >= old(self).entries()[seq] {
                    now_us - old(self).entries()[seq]
                } else {
                    0
                }) as u64)
                &&& final(self).entries() == above(old(self).entries(), seq)
            },
            !(seq > 0 && old(self).entries().contains_key(seq)) ==> rtt is None && final(self).entries()
                == old(self).entries(),
    {
        if seq == 0 {
            return None;
        }
        match self.table.remove(&seq) {
            Some(sent) => {
                let ghost removed = self.table@;
                let rtt = if now_us >= sent { now_us - sent } else { 0 };
                if seq == u64::MAX {
                    self.table.clear();
                    proof {
                        assert(self.table@ =~= above(old(self).table@, seq));
                    }
                } else {
                    let kept = btree_split_off(&mut self.table, seq + 1);
                    self.table = kept;
                    proof {
                        assert(self.table@ =~= above(old(self).table@, seq));
                    }
                }
                proof {
                    assert(self.table@.dom() =~= old(self).table@.dom().filter(|j: u64| j > seq));
                    old(self).table@.dom().lemma_len_filter(|j: u64| j > seq);
                }
                Some(rtt)
            },
            None => None,
        }
    }
}

/// The seed of a player's pseudo user data: the two halves of its id
/// xor-ed together.
pub fn user_data_seed(id: u128) -> (s: u64)
    ensures
        s == (id as u64) ^ ((id >> 64u128) as u64),
{
    (id as u64) ^ ((id >> 64u128) as u64)
}

/// The movement reducer a SpacetimeDB player calls on a tick.
#[derive(Debug, Clone, Copy, PartialEq, Eq, Structural)]
pub enum MovementCall {
    /// `update_player`: the full entity row with its position.
    UpdatePlayer,
    /// `update_player_input`: only the direction; server physics moves it.
    UpdatePlayerInput,
}

/// With server physics the first tick places the entity and later ticks
/// send only the direction; without it every tick sends the position.
pub fn movement_call(first_tick: bool, server_physics: bool) -> (c: MovementCall)
    ensures
        c == (if server_physics && !first_tick {
            MovementCall::UpdatePlayerInput
        } else {
            MovementCall::UpdatePlayer
        }),
{
    if server_physics && !first_tick {
        MovementCall::UpdatePlayerInput
    } else {
        MovementCall::UpdatePlayer
    }
}

/// Latency (µs) of a subscribed update of the player's own row, measured
/// from the last send; `None` before the first send (marked by a negative
/// time). Negative differences count as zero.
pub fn update_latency_us(now_us: i64, last_send_us: i64) -> (r: Option<u64>)
    requires
        now_us >= 0,
    ensures
        last_send_us < 0 ==> r is None,
        last_send_us >= 0 ==> r == Some((if now_us >= last_send_us { now_us - last_send_us } else { 0 }) as u64),
{
    if last_send_us < 0 {
        None
    } else if now_us >= last_send_us {
        Some((now_us - last_send_us) as u64)
    } else {
        Some(0)
    }
}

/// Signed decimal text.
pub open spec fn signed_decimal(n: int) -> Seq<char> {
    if n < 0 {
        seq!['-'] + decimal((-n) as nat)
    } else {
        decimal(n as nat)
    }
}

fn push_signed_decimal(s: &mut String, n: i64)
    ensures
        final(s)@ == old(s)@ + signed_decimal(n as int),
{
    if n < 0 {
        string_push(s, '-');
        let m: u64 = if n == i64::MIN { 0x8000_0000_0000_0000u64 } else { (-n) as u64 };
        push_decimal(s, m);
        assert(final(s)@ =~= old(s)@ + signed_decimal(n as int));
    } else {
        push_decimal(s, n as u64);
    }
}

/// The area-of-interest query of a player starting at `(x0, z0)`: the
/// entities inside the square of half-side `r` around it.
pub open spec fn aoi_query_text(x0: i64, z0: i64, r: i64) -> Seq<char> {
    "SELECT * FROM entity WHERE x >= "@ + signed_decimal(x0 - r) + " AND x <= "@ + signed_decimal(x0 + r)
        + " AND z >= "@ + signed_decimal(z0 - r) + " AND z <= "@ + signed_decimal(z0 + r)
}

pub fn aoi_query(x0: i64, z0: i64, r: i64) -> (q: String)
    requires
        i64::MIN <= x0 - r <= i64::MAX,
        i64::MIN <= x0 + r <= i64::MAX,
        i64::MIN <= z0 - r <= i64::MAX,
        i64::MIN <= z0 + r <= i64::MAX,
    ensures
        q@ == aoi_query_text(x0, z0, r),
{
    let mut q = String::new();
    push_str(&mut q, "SELECT * FROM entity WHERE x >= ");
    push_signed_decimal(&mut q, x0 - r);
    push_str(&mut q, " AND x <= ");
    push_signed_decimal(&mut q, x0 + r);
    push_str(&mut q, " AND z >= ");
    push_signed_decimal(&mut q, z0 - r);
    push_str(&mut q, " AND z <= ");
    push_signed_decimal(&mut q, z0 + r);
    q
}

/// The query that subscribes to a player's own row by its 128-bit id.
pub open spec fn self_query_text(id: u128) -> Seq<char> {
    "SELECT * FROM entity WHERE entity_id = 0x"@ + uuid_hex(id)
}

pub fn self_query(id: u128) -> (q: String)
    ensures
        q@ == self_query_text(id),
{
    let mut q = String::new();
    push_str(&mut q, "SELECT * FROM entity WHERE entity_id = 0x");
    let text = crate::ids::driver_id_text(id);
    let chars = crate::text::chars_of(text.as_str());
    let mut i: usize = 0;
    let ghost start = q@;
    while i < chars.len()
        invariant
            chars@ == crate::ids::uuid_text(id),
            i <= chars@.len(),
            q@ == start + chars@.take(i as int).filter(|c: char| c != '-'),
        decreases chars@.len() - i,
    {
        proof {
            crate::seqs::lemma_filter_take_step(chars@, |c: char| c != '-', i as int);
        }
        if chars[i] != '-' {
            string_push(&mut q, chars[i]);
        }
        i += 1;
    }
    proof {
        assert(chars@.take(chars@.len() as int) =~= chars@);
        crate::ids::lemma_uuid_text_without_hyphens(id);
    }
    q
}

/// How many times the action of a tick is sent: the burst count, or once
/// outside bursts.
pub fn action_repeats(burst_actions: u32) -> (n: u32)
    ensures
        n == (if burst_actions == 0 { 1 } else { burst_actions }),
{
    if burst_actions == 0 {
        1
    } else {
        burst_actions
    }
}

/// The id an interaction targets: the player at `target_idx`, or the
/// acting player itself when there is none at that index.
pub fn interaction_target(all_ids: &Vec<u128>, target_idx: u32, own_id: u128) -> (t: u128)
    ensures
        t == (if (target_idx as int) < all_ids@.len() { all_ids@[target_idx as int] } else { own_id }),
{
    if (target_idx as usize) < all_ids.len() {
        all_ids[target_idx as usize]
    } else {
        own_id
    }
}

} // verus!
