//! Registry of the load drivers connected to the orchestrator.
//!
//! Drivers register (bounded by the pool capacity), heartbeat, and
//! deregister; a periodic sweep marks `Active` drivers whose last heartbeat
//! is older than the stale threshold as `Stale`. Times are microsecond
//! readings of one monotonic clock, supplied by the caller.

use crate::ids::{driver_id_text, is_v4_uuid, new_driver_id, uuid_text, DriverId};
use crate::text::{decimal, push_decimal, push_str};
use vstd::prelude::*;

verus! {

#[derive(Debug, Clone, Copy, PartialEq, Eq, Structural)]
pub enum DriverState {
    Active,
    Stale,
    Failed,
}

/// One registered driver.
#[derive(Debug)]
pub struct DriverEntry {
    pub id: DriverId,
    pub state: DriverState,
    /// Clock reading (µs) of the last register or heartbeat.
    pub last_heartbeat_us: u64,
    /// The capabilities object the driver sent on register, as JSON text.
    pub capabilities: String,
}

impl Clone for DriverEntry {
    fn clone(&self) -> (e: Self)
        ensures
            e == *self,
    {
        DriverEntry {
            id: self.id,
            state: self.state,
            last_heartbeat_us: self.last_heartbeat_us,
            capabilities: self.capabilities.clone(),
        }
    }
}

pub struct DriverPool {
    drivers: Vec<DriverEntry>,
    heartbeat_interval_us: u64,
    stale_threshold_us: u64,
    max_drivers: usize,
}

/// Index of the entry with id `id` in `s`, if any.
pub open spec fn has_id(s: Seq<DriverEntry>, id: DriverId) -> bool {
    exists|i: int| 0 <= i < s.len() && s[i].id == id
}

/// No id occurs twice.
pub open spec fn unique_ids(s: Seq<DriverEntry>) -> bool {
    forall|i: int, j: int| 0 <= i < s.len() && 0 <= j < s.len() && i != j ==> s[i].id != s[j].id
}

/// The state of driver `id` in `s`, `None` when it is not registered.
pub open spec fn state_in(s: Seq<DriverEntry>, id: DriverId) -> Option<DriverState> {
    if has_id(s, id) {
        Some(s[choose|i: int| 0 <= i < s.len() && s[i].id == id].state)
    } else {
        None
    }
}

/// What a sweep at `now_us` makes of one entry: an `Active` driver silent
/// for longer than `threshold_us` becomes `Stale`; nothing else changes.
pub open spec fn swept(e: DriverEntry, now_us: u64, threshold_us: u64) -> DriverEntry {
    if e.state == DriverState::Active && now_us - e.last_heartbeat_us > threshold_us {
        DriverEntry { state: DriverState::Stale, ..e }
    } else {
        e
    }
}

/// Text of the capacity rejection.
pub open spec fn capacity_message(len: nat, max: nat) -> Seq<char> {
    "Pool at capacity: "@ + decimal(len) + " drivers (max: "@ + decimal(max) + ")"@
}

/// Text of the unknown-driver error.
pub open spec fn not_found_message(id: DriverId) -> Seq<char> {
    "Driver "@ + uuid_text(id) + " not found"@
}

/// `s` with the entry for `e.id` replaced by `e`, or `e` appended when the
/// id is new.
pub open spec fn upsert(s: Seq<DriverEntry>, e: DriverEntry) -> Seq<DriverEntry> {
    if has_id(s, e.id) {
        s.update(choose|i: int| 0 <= i < s.len() && s[i].id == e.id, e)
    } else {
        s.push(e)
    }
}

/// Position of driver `id` in `s` (meaningful when `has_id(s, id)`).
pub open spec fn index_in(s: Seq<DriverEntry>, id: DriverId) -> int {
    choose|i: int| 0 <= i < s.len() && s[i].id == id
}

/// `s` after a heartbeat from `id` at `now_us`: the entry is `Active` again
/// and its heartbeat time is `now_us`.
pub open spec fn heartbeat_applied(s: Seq<DriverEntry>, id: DriverId, now_us: u64) -> Seq<DriverEntry> {
    let i = index_in(s, id);
    s.update(i, DriverEntry { state: DriverState::Active, last_heartbeat_us: now_us, ..s[i] })
}

pub proof fn lemma_index_of_unique(s: Seq<DriverEntry>, id: DriverId, i: int)
    requires
        unique_ids(s),
        0 <= i < s.len(),
        s[i].id == id,
    ensures
        (choose|k: int| 0 <= k < s.len() && s[k].id == id) == i,
{
}

fn capacity_error(len: usize, max: usize) -> (m: String)
    ensures
        m@ == capacity_message(len as nat, max as nat),
{
    let mut m = String::new();
    push_str(&mut m, "Pool at capacity: ");
    push_decimal(&mut m, len as u64);
    push_str(&mut m, " drivers (max: ");
    push_decimal(&mut m, max as u64);
    push_str(&mut m, ")");
    m
}

fn not_found_error(id: DriverId) -> (m: String)
    ensures
        m@ == not_found_message(id),
{
    let mut m = String::new();
    push_str(&mut m, "Driver ");
    let t = driver_id_text(id);
    push_str(&mut m, t.as_str());
    push_str(&mut m, " not found");
    m
}

impl DriverPool {
    /// The registered drivers, in registration order.
    pub closed spec fn entries(&self) -> Seq<DriverEntry> {
        self.drivers@
    }

    pub closed spec fn max_drivers(&self) -> nat {
        self.max_drivers as nat
    }

    pub closed spec fn stale_threshold_us(&self) -> u64 {
        self.stale_threshold_us
    }

    pub closed spec fn heartbeat_interval_us(&self) -> u64 {
        self.heartbeat_interval_us
    }

    /// Ids are unique and the pool holds at most `max_drivers` entries.
    pub closed spec fn wf(&self) -> bool {
        &&& unique_ids(self.drivers@)
        &&& self.drivers@.len() <= self.max_drivers
    }

    /// A well-formed pool holds each id at most once.
    pub proof fn lemma_unique_ids(&self)
        requires
            self.wf(),
        ensures
            unique_ids(self.entries()),
            self.entries().len() <= self.max_drivers(),
    {
    }

    pub fn new(heartbeat_interval_us: u64, stale_threshold_us: u64, max_drivers: usize) -> (p: Self)
        ensures
            p.wf(),
            p.entries() == Seq::<DriverEntry>::empty(),
            p.max_drivers() == max_drivers,
            p.stale_threshold_us() == stale_threshold_us,
            p.heartbeat_interval_us() == heartbeat_interval_us,
    {
        DriverPool { drivers: Vec::new(), heartbeat_interval_us, stale_threshold_us, max_drivers }
    }

    fn index_of(&self, id: DriverId) -> (r: Option<usize>)
        requires
            self.wf(),
        ensures
            r is None <==> !has_id(self.entries(), id),
            r matches Some(i) ==> i < self.entries().len() && self.entries()[i as int].id == id
                && (choose|k: int| 0 <= k < self.entries().len() && self.entries()[k].id == id)
                == i,
    {
        let mut i: usize = 0;
        while i < self.drivers.len()
            invariant
                self.wf(),
                i <= self.drivers.len(),
                forall|k: int| 0 <= k < i ==> self.drivers@[k].id != id,
            decreases self.drivers.len() - i,
        {
            if self.drivers[i].id == id {
                proof {
                    lemma_index_of_unique(self.drivers@, id, i as int);
                }
                return Some(i);
            }
            i += 1;
        }
        None
    }

    /// Adds a driver under a given id, replacing any entry with that id.
    /// Refused when the pool already holds `max_drivers` entries.
    pub fn register_with_id(&mut self, id: DriverId, capabilities: String, now_us: u64) -> (r: Result<DriverId, String>)
        requires
            old(self).wf(),
        ensures
            final(self).wf(),
            unique_ids(final(self).entries()),
            r is Ok ==> state_in(final(self).entries(), id) == Some(DriverState::Active),
            final(self).max_drivers() == old(self).max_drivers(),
            final(self).stale_threshold_us() == old(self).stale_threshold_us(),
            final(self).heartbeat_interval_us() == old(self).heartbeat_interval_us(),
            old(self).entries().len() >= old(self).max_drivers() ==> {
                &&& r is Err
                &&& r->Err_0@ == capacity_message(old(self).entries().len(), old(self).max_drivers())
                &&& final(self).entries() == old(self).entries()
            },
            old(self).entries().len() < old(self).max_drivers() ==> {
                &&& r == Ok::<DriverId, String>(id)
                &&& final(self).entries() == upsert(
                    old(self).entries(),
                    DriverEntry { id, state: DriverState::Active, last_heartbeat_us: now_us, capabilities },
                )
            },
    {
        if self.drivers.len() >= self.max_drivers {
            return Err(capacity_error(self.drivers.len(), self.max_drivers));
        }
        let entry = DriverEntry { id, state: DriverState::Active, last_heartbeat_us: now_us, capabilities };
        let ghost e = entry;
        proof {
            law_registered_driver_is_active(old(self).drivers@, e);
        }
        match self.index_of(id) {
            Some(i) => {
                self.drivers.set(i, entry);
                proof {
                    assert(has_id(old(self).drivers@, id));
                }
            },
            None => {
                self.drivers.push(entry);
                proof {
                    assert forall|a: int, b: int|
                        0 <= a < self.drivers@.len() && 0 <= b < self.drivers@.len() && a != b
                        implies self.drivers@[a].id != self.drivers@[b].id by {
                        if a < old(self).drivers@.len() && b < old(self).drivers@.len() {
                        } else if a < old(self).drivers@.len() {
                            assert(!has_id(old(self).drivers@, id));
                            assert(old(self).drivers@[a].id != id);
                        } else {
                            assert(!has_id(old(self).drivers@, id));
                            assert(old(self).drivers@[b].id != id);
                        }
                    }
                }
            },
        }
        Ok(id)
    }

    /// Adds a driver under a fresh random id. Refused when the pool
    /// already holds `max_drivers` entries.
    pub fn register(&mut self, capabilities: String, now_us: u64) -> (r: Result<DriverId, String>)
        requires
            old(self).wf(),
        ensures
            final(self).wf(),
            unique_ids(final(self).entries()),
            r matches Ok(id) ==> state_in(final(self).entries(), id) == Some(DriverState::Active),
            final(self).max_drivers() == old(self).max_drivers(),
            final(self).stale_threshold_us() == old(self).stale_threshold_us(),
            final(self).heartbeat_interval_us() == old(self).heartbeat_interval_us(),
            old(self).entries().len() >= old(self).max_drivers() ==> {
                &&& r is Err
                &&& r->Err_0@ == capacity_message(old(self).entries().len(), old(self).max_drivers())
                &&& final(self).entries() == old(self).entries()
            },
            old(self).entries().len() < old(self).max_drivers() ==> {
                &&& r is Ok
                &&& is_v4_uuid(r->Ok_0)
                &&& final(self).entries() == upsert(
                    old(self).entries(),
                    DriverEntry {
                        id: r->Ok_0,
                        state: DriverState::Active,
                        last_heartbeat_us: now_us,
                        capabilities,
                    },
                )
            },
    {
        if self.drivers.len() >= self.max_drivers {
            return Err(capacity_error(self.drivers.len(), self.max_drivers));
        }
        let id = new_driver_id();
        self.register_with_id(id, capabilities, now_us)
    }

    /// Records a heartbeat: the driver becomes `Active` with heartbeat
    /// time `now_us`. Unknown ids are an error and change nothing.
    pub fn heartbeat(&mut self, driver_id: DriverId, now_us: u64) -> (r: Result<(), String>)
        requires
            old(self).wf(),
        ensures
            final(self).wf(),
            final(self).max_drivers() == old(self).max_drivers(),
            final(self).stale_threshold_us() == old(self).stale_threshold_us(),
            final(self).heartbeat_interval_us() == old(self).heartbeat_interval_us(),
            unique_ids(final(self).entries()),
            has_id(old(self).entries(), driver_id) ==> r is Ok && final(self).entries()
                == heartbeat_applied(old(self).entries(), driver_id, now_us),
            has_id(old(self).entries(), driver_id) ==> state_in(final(self).entries(), driver_id) == Some(
                DriverState::Active,
            ) && final(self).entries()[index_in(old(self).entries(), driver_id)].last_heartbeat_us == now_us
                && final(self).entries().len() == old(self).entries().len(),
            !has_id(old(self).entries(), driver_id) ==> r is Err && r->Err_0@ == not_found_message(
                driver_id,
            ) && final(self).entries() == old(self).entries(),
    {
        match self.index_of(driver_id) {
            Some(i) => {
                self.drivers[i].last_heartbeat_us = now_us;
                self.drivers[i].state = DriverState::Active;
                proof {
                    assert(self.drivers@ =~= heartbeat_applied(old(self).drivers@, driver_id, now_us));
                    law_heartbeat_reactivates(old(self).drivers@, driver_id, now_us);
                }
                Ok(())
            },
            None => Err(not_found_error(driver_id)),
        }
    }

    /// Removes a driver. Unknown ids are an error and change nothing.
    pub fn deregister(&mut self, driver_id: DriverId) -> (r: Result<(), String>)
        requires
            old(self).wf(),
        ensures
            final(self).wf(),
            final(self).max_drivers() == old(self).max_drivers(),
            final(self).stale_threshold_us() == old(self).stale_threshold_us(),
            final(self).heartbeat_interval_us() == old(self).heartbeat_interval_us(),
            unique_ids(final(self).entries()),
            !has_id(final(self).entries(), driver_id),
            has_id(old(self).entries(), driver_id) ==> r is Ok && final(self).entries()
                == old(self).entries().remove(index_in(old(self).entries(), driver_id))
                && final(self).entries().len() + 1 == old(self).entries().len(),
            !has_id(old(self).entries(), driver_id) ==> r is Err && r->Err_0@ == not_found_message(
                driver_id,
            ) && final(self).entries() == old(self).entries(),
    {
        match self.index_of(driver_id) {
            Some(i) => {
                let _ = self.drivers.remove(i);
                proof {
                    law_deregistered_driver_is_gone(old(self).drivers@, driver_id);
                    let o = old(self).drivers@;
                    assert forall|a: int, b: int|
                        0 <= a < self.drivers@.len() && 0 <= b < self.drivers@.len() && a != b
                        implies self.drivers@[a].id != self.drivers@[b].id by {
                        let oa = if a < i { a } else { a + 1 };
                        let ob = if b < i { b } else { b + 1 };
                        assert(self.drivers@[a] == o[oa]);
                        assert(self.drivers@[b] == o[ob]);
                    }
                }
                Ok(())
            },
            None => Err(not_found_error(driver_id)),
        }
    }

    /// Marks every `Active` driver whose last heartbeat is more than the
    /// stale threshold before `now_us` as `Stale`.
    pub fn mark_stale_drivers(&mut self, now_us: u64)
        requires
            old(self).wf(),
        ensures
            final(self).wf(),
            final(self).max_drivers() == old(self).max_drivers(),
            final(self).stale_threshold_us() == old(self).stale_threshold_us(),
            final(self).heartbeat_interval_us() == old(self).heartbeat_interval_us(),
            final(self).entries().len() == old(self).entries().len(),
            forall|i: int|
                0 <= i < old(self).entries().len() ==> #[trigger] final(self).entries()[i] == swept(
                    old(self).entries()[i],
                    now_us,
                    old(self).stale_threshold_us(),
                ),
    {
        let n = self.drivers.len();
        let mut i: usize = 0;
        while i < n
            invariant
                n == self.drivers.len(),
                n == old(self).drivers@.len(),
                i <= n,
                self.stale_threshold_us == old(self).stale_threshold_us,
                self.max_drivers == old(self).max_drivers,
                self.heartbeat_interval_us == old(self).heartbeat_interval_us,
                forall|k: int| 0 <= k < i ==> #[trigger] self.drivers@[k] == swept(
                    old(self).drivers@[k],
                    now_us,
                    self.stale_threshold_us,
                ),
                forall|k: int| i <= k < n ==> #[trigger] self.drivers@[k] == old(self).drivers@[k],
            decreases n - i,
        {
            if self.drivers[i].state == DriverState::Active {
                let last = self.drivers[i].last_heartbeat_us;
                let elapsed = if now_us >= last { now_us - last } else { 0 };
                if elapsed > self.stale_threshold_us {
                    self.drivers[i].state = DriverState::Stale;
                }
            }
            i += 1;
        }
        proof {
            assert forall|a: int, b: int|
                0 <= a < self.drivers@.len() && 0 <= b < self.drivers@.len() && a != b
                implies self.drivers@[a].id != self.drivers@[b].id by {
                assert(self.drivers@[a].id == old(self).drivers@[a].id);
                assert(self.drivers@[b].id == old(self).drivers@[b].id);
            }
        }
    }

    pub fn len(&self) -> (n: usize)
        ensures
            n == self.entries().len(),
    {
        self.drivers.len()
    }

    pub fn is_empty(&self) -> (b: bool)
        ensures
            b == (self.entries().len() == 0),
    {
        self.drivers.len() == 0
    }

    pub fn contains(&self, driver_id: DriverId) -> (b: bool)
        requires
            self.wf(),
        ensures
            b == has_id(self.entries(), driver_id),
    {
        self.index_of(driver_id).is_some()
    }

    pub fn get_state(&self, driver_id: DriverId) -> (st: Option<DriverState>)
        requires
            self.wf(),
        ensures
            st == state_in(self.entries(), driver_id),
    {
        match self.index_of(driver_id) {
            Some(i) => Some(self.drivers[i].state),
            None => None,
        }
    }

    /// Copy of every entry, in registration order.
    pub fn snapshot(&self) -> (v: Vec<DriverEntry>)
        ensures
            v@ == self.entries(),
    {
        let mut v: Vec<DriverEntry> = Vec::new();
        let mut i: usize = 0;
        while i < self.drivers.len()
            invariant
                i <= self.drivers.len(),
                v@ == self.drivers@.subrange(0, i as int),
            decreases self.drivers.len() - i,
        {
            v.push(self.drivers[i].clone());
            i += 1;
        }
        proof {
            assert(self.drivers@.subrange(0, self.drivers@.len() as int) =~= self.drivers@);
        }
        v
    }
}

/// A driver registered into a pool with room is in the pool, `Active`,
/// and still the only entry with its id, whatever the pool held before.
pub proof fn law_registered_driver_is_active(s: Seq<DriverEntry>, e: DriverEntry)
    requires
        unique_ids(s),
        e.state == DriverState::Active,
    ensures
        unique_ids(upsert(s, e)),
        has_id(upsert(s, e), e.id),
        state_in(upsert(s, e), e.id) == Some(DriverState::Active),
{
    let u = upsert(s, e);
    let i = if has_id(s, e.id) { index_in(s, e.id) } else { s.len() as int };
    assert(u[i] == e);
    assert(has_id(u, e.id));
    assert forall|a: int, b: int| 0 <= a < u.len() && 0 <= b < u.len() && a != b implies u[a].id != u[b].id by {
        if a != i && b != i {
            assert(u[a] == s[a] && u[b] == s[b]);
        } else if a == i {
            assert(u[b] == s[b]);
            if has_id(s, e.id) {
                assert(s[i].id == e.id);
            } else {
                assert(s[b].id != e.id);
            }
        } else {
            assert(u[a] == s[a]);
            if has_id(s, e.id) {
                assert(s[i].id == e.id);
            } else {
                assert(s[a].id != e.id);
            }
        }
    }
    lemma_index_of_unique(u, e.id, i);
}

/// A deregistered driver is no longer in the pool.
pub proof fn law_deregistered_driver_is_gone(s: Seq<DriverEntry>, id: DriverId)
    requires
        unique_ids(s),
        has_id(s, id),
    ensures
        !has_id(s.remove(index_in(s, id)), id),
{
    let i = index_in(s, id);
    let d = s.remove(i);
    if has_id(d, id) {
        let k = choose|k: int| 0 <= k < d.len() && d[k].id == id;
        let ok = if k < i { k } else { k + 1 };
        assert(d[k] == s[ok]);
    }
}

/// A heartbeat leaves its driver `Active` with the heartbeat's time.
pub proof fn law_heartbeat_reactivates(s: Seq<DriverEntry>, id: DriverId, now_us: u64)
    requires
        unique_ids(s),
        has_id(s, id),
    ensures
        state_in(heartbeat_applied(s, id, now_us), id) == Some(DriverState::Active),
        heartbeat_applied(s, id, now_us)[index_in(s, id)].last_heartbeat_us == now_us,
{
    let i = index_in(s, id);
    let h = heartbeat_applied(s, id, now_us);
    assert(h[i].id == id);
    assert(has_id(h, id));
    assert forall|a: int, b: int| 0 <= a < h.len() && 0 <= b < h.len() && a != b implies h[a].id != h[b].id by {
        assert(h[a].id == s[a].id && h[b].id == s[b].id);
    }
    lemma_index_of_unique(h, id, i);
}

/// Deregistering a driver that registered under a new id gives back the
/// pool as it was before the registration.
pub proof fn law_deregister_undoes_register(s: Seq<DriverEntry>, e: DriverEntry)
    requires
        unique_ids(s),
        !has_id(s, e.id),
    ensures
        has_id(upsert(s, e), e.id),
        upsert(s, e).remove(index_in(upsert(s, e), e.id)) == s,
        upsert(s, e).len() == s.len() + 1,
{
    let u = upsert(s, e);
    assert(u == s.push(e));
    assert(u[s.len() as int].id == e.id);
    assert(has_id(u, e.id));
    assert(unique_ids(u)) by {
        assert forall|a: int, b: int| 0 <= a < u.len() && 0 <= b < u.len() && a != b implies u[a].id != u[b].id by {
            if a == s.len() {
                assert(s[b].id != e.id);
            } else if b == s.len() {
                assert(s[a].id != e.id);
            }
        }
    }
    lemma_index_of_unique(u, e.id, s.len() as int);
    assert(u.remove(s.len() as int) =~= s);
}

/// The stale sweep changes nothing but the state, and only from `Active`
/// to `Stale`.
pub proof fn law_sweep_only_stales_active(e: DriverEntry, now_us: u64, threshold_us: u64)
    ensures
        swept(e, now_us, threshold_us).id == e.id,
        swept(e, now_us, threshold_us).last_heartbeat_us == e.last_heartbeat_us,
        swept(e, now_us, threshold_us).capabilities == e.capabilities,
        swept(e, now_us, threshold_us).state == e.state || (e.state == DriverState::Active && swept(
            e,
            now_us,
            threshold_us,
        ).state == DriverState::Stale),
{
}

} // verus!
