//! Per-backend runtime state of the swarm binary: which backend a runtime
//! drives, the connection parameters it was built with, its frame decode
//! cache, and the table of player positions shared with the read loops.

use crate::config::{backend_name, backend_text, ArcaneEndpoint, Backend};
use crate::delta_cache::DeltaCache;
use vstd::prelude::*;

verus! {

/// What the swarm needs to open one SpacetimeDB connection per player.
#[derive(Debug, Clone)]
pub struct SpacetimeConnectParams {
    /// The host as a WebSocket URL.
    pub ws_uri: String,
    /// The published module's database name.
    pub database_name: String,
}

/// Runtime of the SpacetimeDB backend.
#[derive(Debug, Clone)]
pub struct SpacetimeRuntime {
    pub connect_params: SpacetimeConnectParams,
    /// Move through `update_player_input` and server physics instead of
    /// sending positions.
    pub server_physics: bool,
}

impl SpacetimeRuntime {
    pub fn new(ws_uri: String, database_name: String, server_physics: bool) -> (r: Self)
        ensures
            r.connect_params.ws_uri@ == ws_uri@,
            r.connect_params.database_name@ == database_name@,
            r.server_physics == server_physics,
    {
        SpacetimeRuntime { connect_params: SpacetimeConnectParams { ws_uri, database_name }, server_physics }
    }

    pub fn name(&self) -> (s: &'static str)
        ensures
            s@ == backend_text(Backend::SpacetimeDb),
    {
        backend_name(Backend::SpacetimeDb)
    }

    /// This backend has no decode cache: always `(0, 0)`.
    pub fn snapshot_cache_counters(&self) -> (r: (u64, u64))
        ensures
            r == (0u64, 0u64),
    {
        (0, 0)
    }
}

/// Runtime of the Arcane backend.
pub struct ArcaneRuntime {
    pub endpoint: ArcaneEndpoint,
    /// Decode cache shared by this driver's players.
    pub delta_cache: DeltaCache,
    /// Bytes of pseudo user data per player-state frame (0: none).
    pub user_data_bytes: usize,
}

impl ArcaneRuntime {
    pub fn new(endpoint: ArcaneEndpoint, user_data_bytes: usize) -> (r: Self)
        ensures
            r.endpoint == endpoint,
            r.delta_cache.wf(),
            r.delta_cache.entries() == Map::<u64, std::sync::Arc<crate::delta_cache::CachedDelta>>::empty(),
            r.delta_cache.hits() == 0,
            r.delta_cache.misses() == 0,
            r.delta_cache.max_entries() == 1000,
            r.user_data_bytes == user_data_bytes,
    {
        ArcaneRuntime { endpoint, delta_cache: DeltaCache::new(1000), user_data_bytes }
    }

    pub fn name(&self) -> (s: &'static str)
        ensures
            s@ == backend_text(Backend::Arcane),
    {
        backend_name(Backend::Arcane)
    }

    /// The decode cache's hit and miss counts since the last call.
    pub fn snapshot_cache_counters(&mut self) -> (r: (u64, u64))
        requires
            old(self).delta_cache.wf(),
        ensures
            final(self).delta_cache.wf(),
            r == (old(self).delta_cache.hits(), old(self).delta_cache.misses()),
            final(self).delta_cache.hits() == 0,
            final(self).delta_cache.misses() == 0,
            final(self).delta_cache.entries() == old(self).delta_cache.entries(),
            final(self).endpoint == old(self).endpoint,
            final(self).user_data_bytes == old(self).user_data_bytes,
    {
        self.delta_cache.snapshot_and_reset_counters()
    }
}

/// Last known integer positions `(x, z)` of every player, for the read
/// loops' area-of-interest queries.
pub struct SharedPositions {
    xs: Vec<i64>,
    zs: Vec<i64>,
}

impl SharedPositions {
    pub closed spec fn view_positions(&self) -> Seq<(i64, i64)> {
        Seq::new(self.xs@.len(), |i: int| (self.xs@[i], self.zs@[i]))
    }

    pub closed spec fn wf(&self) -> bool {
        self.xs@.len() == self.zs@.len()
    }

    /// `count` players, all at the origin.
    pub fn new(count: u32) -> (p: Self)
        ensures
            p.wf(),
            p.view_positions() == Seq::new(count as nat, |i: int| (0i64, 0i64)),
    {
        let mut xs: Vec<i64> = Vec::new();
        let mut zs: Vec<i64> = Vec::new();
        let mut i: u32 = 0;
        while i < count
            invariant
                i <= count,
                xs@ == Seq::new(i as nat, |k: int| 0i64),
                zs@ == Seq::new(i as nat, |k: int| 0i64),
            decreases count - i,
        {
            xs.push(0);
            zs.push(0);
            i += 1;
            proof {
                assert(xs@ =~= Seq::new(i as nat, |k: int| 0i64));
                assert(zs@ =~= Seq::new(i as nat, |k: int| 0i64));
            }
        }
        let p = SharedPositions { xs, zs };
        assert(p.view_positions() =~= Seq::new(count as nat, |k: int| (0i64, 0i64)));
        p
    }

    pub fn len(&self) -> (n: usize)
        requires
            self.wf(),
        ensures
            n == self.view_positions().len(),
    {
        self.xs.len()
    }

    /// Records player `idx` at `(x, z)`.
    pub fn set(&mut self, idx: u32, x: i64, z: i64)
        requires
            old(self).wf(),
            idx < old(self).view_positions().len(),
        ensures
            final(self).wf(),
            final(self).view_positions() == old(self).view_positions().update(idx as int, (x, z)),
    {
        self.xs.set(idx as usize, x);
        self.zs.set(idx as usize, z);
        assert(self.view_positions() =~= old(self).view_positions().update(idx as int, (x, z)));
    }

    /// Last recorded position of player `idx`.
    pub fn get(&self, idx: u32) -> (p: (i64, i64))
        requires
            self.wf(),
            idx < self.view_positions().len(),
        ensures
            p == self.view_positions()[idx as int],
    {
        (self.xs[idx as usize], self.zs[idx as usize])
    }
}

} // verus!
