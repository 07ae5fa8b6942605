//! How command-line values become the swarm's run configuration: the
//! backend and distribution names, the defaults that depend on other
//! values, the burst profile merged over its defaults, and the URLs the
//! players connect to.
//!
//! Reading the command line and the environment is the binary's job; it
//! hands the raw values to these functions.

use crate::burst::BurstConfig;
use crate::text::{chars_of, push_decimal, push_str, str_equals, string_of, decimal};
use vstd::prelude::*;

verus! {

/// How each player finds the Arcane cluster WebSocket URL.
#[derive(Debug, Clone)]
pub enum ArcaneEndpoint {
    /// Every player connects to this one URL.
    SingleUrl(String),
    /// Each player asks the manager's `/join` for a cluster (round-robin).
    ManagerJoin { base_url: String },
}

/// Where simulated players move.
#[derive(Debug, Clone, Copy, PartialEq, Eq, Structural)]
pub enum SwarmMode {
    Spread,
    Clustered,
}

/// The system under load.
#[derive(Debug, Clone, Copy, PartialEq, Eq, Structural)]
pub enum Backend {
    SpacetimeDb,
    Arcane,
}

/// Name of a backend on the command line and in logs.
pub open spec fn backend_text(b: Backend) -> Seq<char> {
    match b {
        Backend::SpacetimeDb => "spacetimedb"@,
        Backend::Arcane => "arcane"@,
    }
}

/// Name of a distribution mode on the command line and in logs.
pub open spec fn mode_text(m: SwarmMode) -> Seq<char> {
    match m {
        SwarmMode::Spread => "spread"@,
        SwarmMode::Clustered => "clustered"@,
    }
}

/// `--backend`: `arcane` selects Arcane, anything else SpacetimeDB.
pub fn backend_from_name(name: &str) -> (b: Backend)
    ensures
        b == (if name@ == "arcane"@ { Backend::Arcane } else { Backend::SpacetimeDb }),
{
    if str_equals(name, "arcane") {
        Backend::Arcane
    } else {
        Backend::SpacetimeDb
    }
}

/// `--mode`: `clustered` selects clustered movement, anything else spread.
pub fn mode_from_name(name: &str) -> (m: SwarmMode)
    ensures
        m == (if name@ == "clustered"@ { SwarmMode::Clustered } else { SwarmMode::Spread }),
{
    if str_equals(name, "clustered") {
        SwarmMode::Clustered
    } else {
        SwarmMode::Spread
    }
}

pub fn backend_name(b: Backend) -> (s: &'static str)
    ensures
        s@ == backend_text(b),
{
    match b {
        Backend::SpacetimeDb => {
            let s = "spacetimedb";
            proof {
                reveal_strlit("spacetimedb");
            }
            s
        },
        Backend::Arcane => {
            let s = "arcane";
            proof {
                reveal_strlit("arcane");
            }
            s
        },
    }
}

pub fn mode_name(m: SwarmMode) -> (s: &'static str)
    ensures
        s@ == mode_text(m),
{
    match m {
        SwarmMode::Spread => {
            let s = "spread";
            proof {
                reveal_strlit("spread");
            }
            s
        },
        SwarmMode::Clustered => {
            let s = "clustered";
            proof {
                reveal_strlit("clustered");
            }
            s
        },
    }
}

/// Ticks per second, at least one.
pub fn effective_tick_rate(tick_rate: u32) -> (r: u32)
    ensures
        r == (if tick_rate == 0 { 1 } else { tick_rate }),
{
    if tick_rate == 0 {
        1
    } else {
        tick_rate
    }
}

/// Microseconds between two ticks of one player.
pub fn tick_interval_us(tick_rate: u32) -> (us: u64)
    requires
        tick_rate >= 1,
    ensures
        us == 1_000_000int / tick_rate as int,
{
    1_000_000u64 / tick_rate as u64
}

/// `--max-players`: zero means "as many as `--players`".
pub fn effective_max_players(players: u32, max_players: u32) -> (r: u32)
    ensures
        r == (if max_players == 0 { players } else { max_players }),
{
    if max_players == 0 {
        players
    } else {
        max_players
    }
}

/// The burst-related command-line values; `None` keeps the default.
#[derive(Debug, Clone, Copy)]
pub struct BurstArgs {
    pub burst_enabled: bool,
    pub burst_disabled: bool,
    pub burst_period_secs: Option<u64>,
    pub burst_cohort_percent: Option<u32>,
    pub burst_actions_per_player: Option<u32>,
    pub burst_window_ms: Option<u64>,
    pub zone_event_period_secs: Option<u64>,
    pub zone_event_window_ms: Option<u64>,
}

/// The value of an option, or its default.
pub open spec fn or_default<T>(o: Option<T>, d: T) -> T {
    match o {
        Some(v) => v,
        None => d,
    }
}

/// The burst profile: each given value overrides the default; the profile
/// is on unless `--burst-disabled` is given (`--burst-enabled` cannot turn
/// off the default, which is on).
pub fn resolve_burst(args: BurstArgs) -> (cfg: BurstConfig)
    ensures
        cfg.enabled == !args.burst_disabled,
        cfg.burst_period_secs == or_default(args.burst_period_secs, 30),
        cfg.burst_cohort_percent == or_default(args.burst_cohort_percent, 20),
        cfg.burst_actions_per_player == or_default(args.burst_actions_per_player, 10),
        cfg.burst_window_ms == or_default(args.burst_window_ms, 500),
        cfg.zone_event_period_secs == or_default(args.zone_event_period_secs, 30),
        cfg.zone_event_window_ms == or_default(args.zone_event_window_ms, 500),
{
    let d = BurstConfig::default();
    BurstConfig {
        enabled: if args.burst_disabled { false } else { args.burst_enabled || d.enabled },
        burst_period_secs: match args.burst_period_secs { Some(v) => v, None => d.burst_period_secs },
        burst_cohort_percent: match args.burst_cohort_percent { Some(v) => v, None => d.burst_cohort_percent },
        burst_actions_per_player: match args.burst_actions_per_player {
            Some(v) => v,
            None => d.burst_actions_per_player,
        },
        burst_window_ms: match args.burst_window_ms { Some(v) => v, None => d.burst_window_ms },
        zone_event_period_secs: match args.zone_event_period_secs {
            Some(v) => v,
            None => d.zone_event_period_secs,
        },
        zone_event_window_ms: match args.zone_event_window_ms { Some(v) => v, None => d.zone_event_window_ms },
    }
}

/// `--arcane-manager` takes precedence over `--arcane-ws`.
pub fn arcane_endpoint(arcane_ws: String, arcane_manager: Option<String>) -> (e: ArcaneEndpoint)
    ensures
        match arcane_manager {
            Some(base) => e matches ArcaneEndpoint::ManagerJoin { base_url } && base_url@ == base@,
            None => e matches ArcaneEndpoint::SingleUrl(url) && url@ == arcane_ws@,
        },
{
    match arcane_manager {
        Some(base_url) => ArcaneEndpoint::ManagerJoin { base_url },
        None => ArcaneEndpoint::SingleUrl(arcane_ws),
    }
}

/// `s` without its trailing `c` characters.
pub open spec fn trim_end(s: Seq<char>, c: char) -> Seq<char>
    decreases s.len(),
{
    if s.len() > 0 && s.last() == c {
        trim_end(s.drop_last(), c)
    } else {
        s
    }
}

/// Whether `pat` occurs in `s` at position `i`.
pub open spec fn occurs_at(s: Seq<char>, pat: Seq<char>, i: int) -> bool {
    0 <= i && i + pat.len() <= s.len() && s.subrange(i, i + pat.len()) == pat
}

/// `s` with the first occurrence of `pat` replaced by `to`.
pub open spec fn replace_first(s: Seq<char>, pat: Seq<char>, to: Seq<char>) -> Seq<char> {
    if exists|i: int| occurs_at(s, pat, i) {
        let i = choose|i: int| occurs_at(s, pat, i) && forall|j: int| 0 <= j < i ==> !occurs_at(s, pat, j);
        s.subrange(0, i) + to + s.subrange(i + pat.len(), s.len() as int)
    } else {
        s
    }
}

/// The SpacetimeDB WebSocket URL of an HTTP base URL: trailing slashes
/// dropped, then the first `https://` made `wss://` and the first
/// `http://` made `ws://`.
pub open spec fn stdb_ws_text(uri: Seq<char>) -> Seq<char> {
    replace_first(replace_first(trim_end(uri, '/'), "https://"@, "wss://"@), "http://"@, "ws://"@)
}

/// The manager's join endpoint: trailing slashes dropped, then `/join`.
pub open spec fn join_url_text(base: Seq<char>) -> Seq<char> {
    trim_end(base, '/') + "/join"@
}

/// The cluster URL a manager join answers with.
pub open spec fn cluster_ws_text(host: Seq<char>, port: u16) -> Seq<char> {
    "ws://"@ + host + ":"@ + decimal(port as nat)
}

/// Drops the trailing `c` characters of `v`.
fn trim_end_vec(v: &mut Vec<char>, c: char)
    ensures
        final(v)@ == trim_end(old(v)@, c),
{
    while v.len() > 0 && v[v.len() - 1] == c
        invariant
            trim_end(v@, c) == trim_end(old(v)@, c),
        decreases v.len(),
    {
        v.pop();
    }
}

/// Whether `pat` occurs in `v` at `i`.
fn matches_at(v: &Vec<char>, pat: &Vec<char>, i: usize) -> (b: bool)
    ensures
        b == occurs_at(v@, pat@, i as int),
{
    if i > v.len() || pat.len() > v.len() - i {
        return false;
    }
    let mut k: usize = 0;
    while k < pat.len()
        invariant
            i + pat.len() <= v.len(),
            k <= pat.len(),
            forall|j: int| 0 <= j < k ==> v@[i + j] == pat@[j],
        decreases pat.len() - k,
    {
        if v[i + k] != pat[k] {
            proof {
                assert(v@.subrange(i as int, i + pat.len())[k as int] != pat@[k as int]);
            }
            return false;
        }
        k += 1;
    }
    assert(v@.subrange(i as int, i + pat.len()) =~= pat@);
    true
}

/// Replaces the first occurrence of `pat` in `v` by `to`.
fn replace_first_vec(v: &Vec<char>, pat: &Vec<char>, to: &Vec<char>) -> (r: Vec<char>)
    ensures
        r@ == replace_first(v@, pat@, to@),
{
    let mut i: usize = 0;
    loop
        invariant
            i <= v.len(),
            forall|j: int| 0 <= j < i ==> !occurs_at(v@, pat@, j),
        ensures
            i == v.len(),
            forall|j: int| 0 <= j <= i ==> !occurs_at(v@, pat@, j),
        decreases v.len() - i,
    {
        if matches_at(v, pat, i) {
            let mut r: Vec<char> = Vec::new();
            let mut k: usize = 0;
            while k < i
                invariant
                    k <= i,
                    i <= v.len(),
                    r@ == v@.subrange(0, k as int),
                decreases i - k,
            {
                r.push(v[k]);
                assert(v@.subrange(0, k as int + 1) =~= v@.subrange(0, k as int).push(v@[k as int]));
                k += 1;
            }
            let mut k: usize = 0;
            while k < to.len()
                invariant
                    k <= to.len(),
                    i <= v.len(),
                    r@ == v@.subrange(0, i as int) + to@.subrange(0, k as int),
                decreases to.len() - k,
            {
                r.push(to[k]);
                assert(to@.subrange(0, k as int + 1) =~= to@.subrange(0, k as int).push(to@[k as int]));
                k += 1;
            }
            let mut k: usize = i + pat.len();
            while k < v.len()
                invariant
                    i + pat.len() <= k <= v.len(),
                    r@ == v@.subrange(0, i as int) + to@ + v@.subrange(i + pat.len(), k as int),
                decreases v.len() - k,
            {
                r.push(v[k]);
                assert(v@.subrange(i + pat.len(), k as int + 1) =~= v@.subrange(i + pat.len(), k as int).push(v@[k as int]));
                k += 1;
            }
            proof {
                assert(to@.subrange(0, to@.len() as int) =~= to@);
                let c = choose|c: int| occurs_at(v@, pat@, c) && forall|j: int| 0 <= j < c ==> !occurs_at(v@, pat@, j);
                assert(occurs_at(v@, pat@, i as int));
                if c < i {
                } else if c > i {
                    assert(!occurs_at(v@, pat@, i as int));
                }
            }
            return r;
        }
        if i == v.len() {
            break;
        }
        i += 1;
    }
    proof {
        assert forall|j: int| !occurs_at(v@, pat@, j) by {
            if 0 <= j <= i {
            } else if j > i {
                assert(j + pat@.len() > v@.len());
            }
        }
    }
    v.clone()
}

/// The SpacetimeDB WebSocket URL for `--uri`.
pub fn stdb_ws_uri(uri: &str) -> (s: String)
    ensures
        s@ == stdb_ws_text(uri@),
{
    let mut v = chars_of(uri);
    trim_end_vec(&mut v, '/');
    let https = chars_of("https://");
    let wss = chars_of("wss://");
    let http = chars_of("http://");
    let ws = chars_of("ws://");
    let a = replace_first_vec(&v, &https, &wss);
    let b = replace_first_vec(&a, &http, &ws);
    string_of(&b)
}

/// The manager join URL for `--arcane-manager`.
pub fn join_url(base_url: &str) -> (s: String)
    ensures
        s@ == join_url_text(base_url@),
{
    let mut v = chars_of(base_url);
    trim_end_vec(&mut v, '/');
    let mut s = string_of(&v);
    push_str(&mut s, "/join");
    s
}

/// The WebSocket URL of the cluster a manager join assigned.
pub fn cluster_ws_url(server_host: &str, server_port: u16) -> (s: String)
    ensures
        s@ == cluster_ws_text(server_host@, server_port),
{
    let mut s = String::new();
    push_str(&mut s, "ws://");
    push_str(&mut s, server_host);
    push_str(&mut s, ":");
    push_decimal(&mut s, server_port as u64);
    s
}

/// Attempts a player makes at the manager's `/join`.
pub const JOIN_ATTEMPTS: u32 = 3;

/// Pause between two join attempts, in milliseconds.
pub const JOIN_RETRY_DELAY_MS: u64 = 200;

/// After join attempt `attempt` (counted from 0) failed: the pause before
/// the next attempt, or `None` when that was the last one.
pub fn join_retry_delay_ms(attempt: u32) -> (d: Option<u64>)
    ensures
        d == (if attempt + 1 < JOIN_ATTEMPTS { Some(JOIN_RETRY_DELAY_MS) } else { None::<u64> }),
{
    if attempt < JOIN_ATTEMPTS - 1 {
        Some(JOIN_RETRY_DELAY_MS)
    } else {
        None
    }
}

/// Whether a failed join attempt is reported: only player 0 reports, and
/// only its last attempt.
pub fn report_join_failure(player_idx: u32, attempt: u32) -> (b: bool)
    ensures
        b == (player_idx == 0 && attempt + 1 == JOIN_ATTEMPTS),
{
    player_idx == 0 && attempt == JOIN_ATTEMPTS - 1
}

/// Where a player whose manager join failed is sent: an address nothing
/// listens on, so that the player fails visibly instead of loading the
/// wrong cluster.
pub fn unreachable_ws_url() -> (s: String)
    ensures
        s@ == "ws://127.0.0.1:1"@,
{
    let mut s = String::new();
    push_str(&mut s, "ws://127.0.0.1:1");
    s
}

} // verus!
