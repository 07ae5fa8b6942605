//! Bookkeeping of real-time command dispatch.
//!
//! A controller's command is relayed to every driver that has a command
//! channel and is `Active` in the pool at submit time. The fan-out itself
//! (sending on each channel and waiting for acks until the deadline) is
//! asynchronous work done by the networking layer; this module assigns the
//! sequence number, decides who the recipients are, and turns the acks
//! that arrived in time into the per-command result and the append-only
//! command log.

use crate::driver_pool::{state_in, DriverPool, DriverState};
use crate::ids::DriverId;
use crate::protocol::{CommandAck, OrchestratorCommand};
use crate::seqs::lemma_filter_take_step;
use vstd::prelude::*;

verus! {

/// Identity of the controller that submitted a command.
pub type SubmitterId = String;

/// One entry of the append-only command log.
#[derive(Debug)]
pub struct CommandLogEntry {
    pub seq: u64,
    pub submitter: SubmitterId,
    pub command: OrchestratorCommand,
    /// Clock reading (µs) at submit.
    pub submitted_at_us: u64,
    pub acks: Vec<CommandAck>,
    /// Drivers that were recipients but did not ack within the deadline.
    pub missing: Vec<DriverId>,
}

impl Clone for CommandLogEntry {
    fn clone(&self) -> (e: Self)
        ensures
            e.seq == self.seq,
            e.submitter == self.submitter,
            e.command == self.command,
            e.submitted_at_us == self.submitted_at_us,
            e.acks@ == self.acks@,
            e.missing@ == self.missing@,
    {
        let acks = self.acks.clone();
        let missing = self.missing.clone();
        assert(acks@ =~= self.acks@);
        assert(missing@ =~= self.missing@);
        CommandLogEntry {
            seq: self.seq,
            submitter: self.submitter.clone(),
            command: self.command,
            submitted_at_us: self.submitted_at_us,
            acks,
            missing,
        }
    }
}

/// Result of a submit that reached at least one driver.
#[derive(Debug, Clone)]
pub struct DispatchResult {
    pub seq: u64,
    pub acks: Vec<CommandAck>,
    pub missing: Vec<DriverId>,
}

/// Why a submit was not broadcast.
#[derive(Debug, Clone, Copy, PartialEq, Eq, Structural)]
pub enum DispatchError {
    /// No driver with a channel was `Active` at submit time.
    NoActiveDrivers,
}

/// Whether `id` is `Active` in the pool entries `entries`.
pub open spec fn is_active(entries: Seq<crate::driver_pool::DriverEntry>, id: DriverId) -> bool {
    state_in(entries, id) == Some(DriverState::Active)
}

/// The recipients of a submit: the drivers with a channel, in channel
/// registration order, that are `Active` in the pool.
pub open spec fn recipients(channels: Seq<DriverId>, entries: Seq<crate::driver_pool::DriverEntry>) -> Seq<DriverId> {
    channels.filter(|id: DriverId| is_active(entries, id))
}

/// Whether `id` delivered an ack among `delivered`.
pub open spec fn delivered_by(delivered: Seq<(DriverId, CommandAck)>, id: DriverId) -> bool {
    exists|j: int| 0 <= j < delivered.len() && delivered[j].0 == id
}

/// Recipients that did not deliver, in recipient order.
pub open spec fn missing_of(active: Seq<DriverId>, delivered: Seq<(DriverId, CommandAck)>) -> Seq<DriverId> {
    active.filter(|id: DriverId| !delivered_by(delivered, id))
}

/// The acks, in arrival order.
pub open spec fn acks_of(delivered: Seq<(DriverId, CommandAck)>) -> Seq<CommandAck> {
    delivered.map_values(|p: (DriverId, CommandAck)| p.1)
}

pub struct CommandDispatcher {
    channels: Vec<DriverId>,
    next_seq: u64,
    log: Vec<CommandLogEntry>,
    fan_out_deadline_us: u64,
}

impl CommandDispatcher {
    /// Drivers with a registered command channel, in registration order.
    pub closed spec fn channel_ids(&self) -> Seq<DriverId> {
        self.channels@
    }

    /// Sequence number the next submit will take.
    pub closed spec fn next_seq(&self) -> u64 {
        self.next_seq
    }

    pub closed spec fn log(&self) -> Seq<CommandLogEntry> {
        self.log@
    }

    pub closed spec fn fan_out_deadline_us(&self) -> u64 {
        self.fan_out_deadline_us
    }

    /// No driver has two channels.
    pub closed spec fn wf(&self) -> bool {
        self.channels@.no_duplicates()
    }

    /// An empty dispatcher with a 100 ms fan-out deadline.
    pub fn new() -> (d: Self)
        ensures
            d.wf(),
            d.channel_ids() == Seq::<DriverId>::empty(),
            d.next_seq() == 0,
            d.log() == Seq::<CommandLogEntry>::empty(),
            d.fan_out_deadline_us() == 100_000,
    {
        CommandDispatcher { channels: Vec::new(), next_seq: 0, log: Vec::new(), fan_out_deadline_us: 100_000 }
    }

    pub fn with_fan_out_deadline(self, deadline_us: u64) -> (d: Self)
        ensures
            d.fan_out_deadline_us() == deadline_us,
            d.channel_ids() == self.channel_ids(),
            d.next_seq() == self.next_seq(),
            d.log() == self.log(),
            d.wf() == self.wf(),
    {
        CommandDispatcher { fan_out_deadline_us: deadline_us, ..self }
    }

    pub fn fan_out_deadline(&self) -> (us: u64)
        ensures
            us == self.fan_out_deadline_us(),
    {
        self.fan_out_deadline_us
    }

    fn position(&self, driver_id: DriverId) -> (r: Option<usize>)
        ensures
            r is None <==> !self.channel_ids().contains(driver_id),
            r matches Some(i) ==> i < self.channel_ids().len() && self.channel_ids()[i as int]
                == driver_id,
    {
        let mut i: usize = 0;
        while i < self.channels.len()
            invariant
                i <= self.channels.len(),
                forall|k: int| 0 <= k < i ==> self.channels@[k] != driver_id,
            decreases self.channels.len() - i,
        {
            if self.channels[i] == driver_id {
                return Some(i);
            }
            i += 1;
        }
        None
    }

    /// Gives a driver a command channel (a second registration keeps the
    /// driver's place).
    pub fn register_channel(&mut self, driver_id: DriverId)
        requires
            old(self).wf(),
        ensures
            final(self).wf(),
            final(self).channel_ids() == if old(self).channel_ids().contains(driver_id) {
                old(self).channel_ids()
            } else {
                old(self).channel_ids().push(driver_id)
            },
            final(self).next_seq() == old(self).next_seq(),
            final(self).log() == old(self).log(),
            final(self).fan_out_deadline_us() == old(self).fan_out_deadline_us(),
    {
        if self.position(driver_id).is_none() {
            self.channels.push(driver_id);
            proof {
                assert forall|a: int, b: int|
                    0 <= a < self.channels@.len() && 0 <= b < self.channels@.len() && a != b
                    implies self.channels@[a] != self.channels@[b] by {
                    if a == old(self).channels@.len() as int {
                        assert(old(self).channels@[b] != driver_id);
                    } else if b == old(self).channels@.len() as int {
                        assert(old(self).channels@[a] != driver_id);
                    }
                }
            }
        }
    }

    /// Drops a driver's command channel, if it has one.
    pub fn deregister_channel(&mut self, driver_id: DriverId)
        requires
            old(self).wf(),
        ensures
            final(self).wf(),
            !final(self).channel_ids().contains(driver_id),
            final(self).channel_ids() == old(self).channel_ids().filter(|id: DriverId| id != driver_id),
            final(self).next_seq() == old(self).next_seq(),
            final(self).log() == old(self).log(),
            final(self).fan_out_deadline_us() == old(self).fan_out_deadline_us(),
    {
        let ghost pred = |id: DriverId| id != driver_id;
        match self.position(driver_id) {
            Some(i) => {
                let ghost o = self.channels@;
                self.channels.remove(i);
                proof {
                    assert forall|a: int, b: int|
                        0 <= a < self.channels@.len() && 0 <= b < self.channels@.len() && a != b
                        implies self.channels@[a] != self.channels@[b] by {
                        let oa = if a < i { a } else { a + 1 };
                        let ob = if b < i { b } else { b + 1 };
                        assert(self.channels@[a] == o[oa]);
                        assert(self.channels@[b] == o[ob]);
                    }
                    lemma_filter_removes_unique(o, driver_id, i as int);
                    assert(!self.channels@.contains(driver_id)) by {
                        if self.channels@.contains(driver_id) {
                            let k = choose|k: int| 0 <= k < self.channels@.len() && self.channels@[k] == driver_id;
                            let ok = if k < i { k } else { k + 1 };
                            assert(self.channels@[k] == o[ok]);
                        }
                    }
                }
            },
            None => {
                proof {
                    lemma_filter_keeps_all(self.channels@, driver_id);
                }
            },
        }
    }

    /// The drivers a command submitted now would go to.
    pub fn active_recipients(&self, pool: &DriverPool) -> (v: Vec<DriverId>)
        requires
            pool.wf(),
        ensures
            v@ == recipients(self.channel_ids(), pool.entries()),
    {
        let ghost pred = |id: DriverId| is_active(pool.entries(), id);
        let mut v: Vec<DriverId> = Vec::new();
        let mut i: usize = 0;
        while i < self.channels.len()
            invariant
                pool.wf(),
                pred == (|id: DriverId| is_active(pool.entries(), id)),
                i <= self.channels.len(),
                v@ == self.channels@.take(i as int).filter(pred),
            decreases self.channels.len() - i,
        {
            let id = self.channels[i];
            proof {
                lemma_filter_take_step(self.channels@, pred, i as int);
            }
            let st = pool.get_state(id);
            let active = match st {
                Some(DriverState::Active) => true,
                _ => false,
            };
            assert(active == pred(self.channels@[i as int]));
            if active {
                v.push(id);
            }
            i += 1;
        }
        proof {
            assert(self.channels@.take(self.channels@.len() as int) =~= self.channels@);
        }
        v
    }

    /// First half of a submit: takes the next sequence number (a
    /// submit always consumes one, even when it is refused) and picks the
    /// recipients. Refused when there are none.
    pub fn begin_submit(&mut self, pool: &DriverPool) -> (r: (u64, Result<Vec<DriverId>, DispatchError>))
        requires
            old(self).wf(),
            pool.wf(),
        ensures
            final(self).wf(),
            r.0 == old(self).next_seq(),
            final(self).next_seq() == old(self).next_seq().wrapping_add(1),
            final(self).channel_ids() == old(self).channel_ids(),
            final(self).log() == old(self).log(),
            final(self).fan_out_deadline_us() == old(self).fan_out_deadline_us(),
            recipients(old(self).channel_ids(), pool.entries()).len() == 0 ==> r.1 == Err::<
                Vec<DriverId>,
                DispatchError,
            >(DispatchError::NoActiveDrivers),
            recipients(old(self).channel_ids(), pool.entries()).len() > 0 ==> r.1 is Ok
                && r.1->Ok_0@ == recipients(old(self).channel_ids(), pool.entries()),
    {
        let seq = self.next_seq;
        self.next_seq = self.next_seq.wrapping_add(1);
        let active = self.active_recipients(pool);
        if active.len() == 0 {
            (seq, Err(DispatchError::NoActiveDrivers))
        } else {
            (seq, Ok(active))
        }
    }

    /// Second half of a submit: given the recipients and the
    /// `(driver, ack)` pairs that arrived before the deadline (in arrival
    /// order), logs the command and returns the acks and the recipients
    /// that did not deliver.
    pub fn record_submit(
        &mut self,
        seq: u64,
        submitter: SubmitterId,
        command: OrchestratorCommand,
        submitted_at_us: u64,
        active: Vec<DriverId>,
        delivered: Vec<(DriverId, CommandAck)>,
    ) -> (res: DispatchResult)
        requires
            old(self).wf(),
        ensures
            final(self).wf(),
            res.seq == seq,
            res.acks@ == acks_of(delivered@),
            res.missing@ == missing_of(active@, delivered@),
            final(self).log().len() == old(self).log().len() + 1,
            final(self).log().take(old(self).log().len() as int) == old(self).log(),
            ({
                let e = final(self).log().last();
                &&& e.seq == seq
                &&& e.submitter == submitter
                &&& e.command == command
                &&& e.submitted_at_us == submitted_at_us
                &&& e.acks@ == res.acks@
                &&& e.missing@ == res.missing@
            }),
            final(self).channel_ids() == old(self).channel_ids(),
            final(self).next_seq() == old(self).next_seq(),
            final(self).fan_out_deadline_us() == old(self).fan_out_deadline_us(),
    {
        let mut acks: Vec<CommandAck> = Vec::new();
        let mut j: usize = 0;
        while j < delivered.len()
            invariant
                j <= delivered.len(),
                acks@ == acks_of(delivered@.take(j as int)),
            decreases delivered.len() - j,
        {
            acks.push(delivered[j].1);
            proof {
                assert(acks_of(delivered@.take(j + 1)) =~= acks_of(delivered@.take(j as int)).push(
                    delivered@[j as int].1,
                ));
            }
            j += 1;
        }
        proof {
            assert(delivered@.take(delivered@.len() as int) =~= delivered@);
        }
        let ghost pred = |id: DriverId| !delivered_by(delivered@, id);
        let mut missing: Vec<DriverId> = Vec::new();
        let mut i: usize = 0;
        while i < active.len()
            invariant
                pred == (|id: DriverId| !delivered_by(delivered@, id)),
                i <= active.len(),
                missing@ == active@.take(i as int).filter(pred),
            decreases active.len() - i,
        {
            let id = active[i];
            let mut found = false;
            let mut k: usize = 0;
            while k < delivered.len()
                invariant
                    k <= delivered.len(),
                    found <==> exists|m: int| 0 <= m < k && delivered@[m].0 == id,
                decreases delivered.len() - k,
            {
                if delivered[k].0 == id {
                    found = true;
                }
                k += 1;
            }
            proof {
                lemma_filter_take_step(active@, pred, i as int);
                assert(found == delivered_by(delivered@, id));
                assert(pred(active@[i as int]) == !found);
            }
            if !found {
                missing.push(id);
            }
            i += 1;
        }
        proof {
            assert(active@.take(active@.len() as int) =~= active@);
        }
        let entry = CommandLogEntry {
            seq,
            submitter,
            command,
            submitted_at_us,
            acks: acks.clone(),
            missing: missing.clone(),
        };
        proof {
            assert(entry.acks@ =~= acks@);
            assert(entry.missing@ =~= missing@);
        }
        self.log.push(entry);
        proof {
            assert(self.log@.take(old(self).log@.len() as int) =~= old(self).log@);
        }
        DispatchResult { seq, acks, missing }
    }

    /// Copy of the command log, oldest first.
    pub fn command_log(&self) -> (v: Vec<CommandLogEntry>)
        ensures
            v@.len() == self.log().len(),
            forall|i: int|
                0 <= i < v@.len() ==> {
                    let (a, b) = (#[trigger] v@[i], self.log()[i]);
                    &&& a.seq == b.seq
                    &&& a.submitter == b.submitter
                    &&& a.command == b.command
                    &&& a.submitted_at_us == b.submitted_at_us
                    &&& a.acks@ == b.acks@
                    &&& a.missing@ == b.missing@
                },
    {
        let mut v: Vec<CommandLogEntry> = Vec::new();
        let mut i: usize = 0;
        while i < self.log.len()
            invariant
                i <= self.log.len(),
                v@.len() == i,
                forall|k: int|
                    0 <= k < i ==> {
                        let (a, b) = (#[trigger] v@[k], self.log@[k]);
                        &&& a.seq == b.seq
                        &&& a.submitter == b.submitter
                        &&& a.command == b.command
                        &&& a.submitted_at_us == b.submitted_at_us
                        &&& a.acks@ == b.acks@
                        &&& a.missing@ == b.missing@
                    },
            decreases self.log.len() - i,
        {
            v.push(self.log[i].clone());
            i += 1;
        }
        v
    }
}

/// Removing the only occurrence of `x` is filtering `x` out.
pub proof fn lemma_filter_removes_unique(s: Seq<DriverId>, x: DriverId, i: int)
    requires
        s.no_duplicates(),
        0 <= i < s.len(),
        s[i] == x,
    ensures
        s.remove(i) == s.filter(|id: DriverId| id != x),
    decreases s.len(),
{
    reveal(Seq::filter);
    let pred = |id: DriverId| id != x;
    if i == s.len() - 1 {
        assert(s.remove(i) =~= s.drop_last());
        lemma_filter_keeps_all(s.drop_last(), x);
    } else {
        lemma_filter_removes_unique(s.drop_last(), x, i);
        assert(s.last() != x);
        assert(s.remove(i) =~= s.drop_last().remove(i).push(s.last()));
    }
}

/// Filtering out an absent element changes nothing.
pub proof fn lemma_filter_keeps_all(s: Seq<DriverId>, x: DriverId)
    requires
        !s.contains(x),
    ensures
        s.filter(|id: DriverId| id != x) == s,
    decreases s.len(),
{
    reveal(Seq::filter);
    if s.len() > 0 {
        assert(!s.drop_last().contains(x)) by {
            if s.drop_last().contains(x) {
                let k = choose|k: int| 0 <= k < s.drop_last().len() && s.drop_last()[k] == x;
                assert(s[k] == x);
            }
        }
        lemma_filter_keeps_all(s.drop_last(), x);
        assert(s[s.len() - 1] != x);
        assert(s.drop_last().push(s.last()) =~= s);
    }
}

/// Every recipient of a command is accounted for exactly once: it either
/// acked in time or is listed as missing, and only recipients are listed
/// as missing.
pub proof fn law_recipients_acked_or_missing(active: Seq<DriverId>, delivered: Seq<(DriverId, CommandAck)>, id: DriverId)
    ensures
        missing_of(active, delivered).contains(id) <==> (active.contains(id) && !delivered_by(delivered, id)),
{
    crate::seqs::lemma_filter_contains_iff(active, |x: DriverId| !delivered_by(delivered, x), id);
}

} // verus!
