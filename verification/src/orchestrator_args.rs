//! Command-line options of the orchestrator.
//!
//! The arguments are read left to right. A flag that takes a value uses the
//! next argument, unknown arguments are skipped, and `-h`/`--help` stops
//! the scan to show usage. A value flag with nothing after it, or a number
//! that does not parse, ends the scan with that flag.

use crate::text::{chars_of, str_equals};
use crate::words::{parse_u64, parse_unsigned};
use vstd::prelude::*;

verus! {

/// The orchestrator's settings.
#[derive(Debug, Clone)]
pub struct OrchestratorArgs {
    pub driver_port: u16,
    pub http_port: u16,
    pub cluster_stats_urls: Vec<String>,
    pub archive_dir: Option<String>,
    pub telemetry_interval_ms: u64,
    pub max_drivers: usize,
}

/// How reading the arguments ended.
#[derive(Debug, Clone)]
pub enum ArgsOutcome {
    Run(OrchestratorArgs),
    /// `-h` or `--help`: show usage and exit.
    Help,
    /// This value flag was the last argument.
    MissingValue(String),
    /// This flag's value is not a number of its type.
    BadValue(String),
}

/// The settings as mathematical values.
pub struct ArgsModel {
    pub driver_port: u16,
    pub http_port: u16,
    pub cluster_stats_urls: Seq<Seq<char>>,
    pub archive_dir: Option<Seq<char>>,
    pub telemetry_interval_ms: u64,
    pub max_drivers: usize,
}

pub enum OutcomeModel {
    Run(ArgsModel),
    Help,
    MissingValue(Seq<char>),
    BadValue(Seq<char>),
}

/// Driver port 8088, HTTP port 8090, no clusters, no archive, a telemetry
/// tick every 2000 ms, at most 64 drivers.
pub open spec fn default_args() -> ArgsModel {
    ArgsModel {
        driver_port: 8088,
        http_port: 8090,
        cluster_stats_urls: Seq::empty(),
        archive_dir: None,
        telemetry_interval_ms: 2000,
        max_drivers: 64,
    }
}

/// How the scan from position `i`, with settings `a` so far, ends.
pub open spec fn scan_args(argv: Seq<Seq<char>>, i: nat, a: ArgsModel) -> OutcomeModel
    decreases argv.len() - i,
{
    if i >= argv.len() {
        OutcomeModel::Run(a)
    } else {
        let f = argv[i as int];
        let has_value = i + 1 < argv.len();
        let v = argv[i + 1int];
        if f == "--driver-port"@ {
            if !has_value {
                OutcomeModel::MissingValue(f)
            } else {
                match parse_unsigned(v, u16::MAX as nat) {
                    Some(n) => scan_args(argv, i + 2, ArgsModel { driver_port: n as u16, ..a }),
                    None => OutcomeModel::BadValue(f),
                }
            }
        } else if f == "--http-port"@ {
            if !has_value {
                OutcomeModel::MissingValue(f)
            } else {
                match parse_unsigned(v, u16::MAX as nat) {
                    Some(n) => scan_args(argv, i + 2, ArgsModel { http_port: n as u16, ..a }),
                    None => OutcomeModel::BadValue(f),
                }
            }
        } else if f == "--cluster-stats-url"@ {
            if !has_value {
                OutcomeModel::MissingValue(f)
            } else {
                scan_args(argv, i + 2, ArgsModel { cluster_stats_urls: a.cluster_stats_urls.push(v), ..a })
            }
        } else if f == "--archive-dir"@ {
            if !has_value {
                OutcomeModel::MissingValue(f)
            } else {
                scan_args(argv, i + 2, ArgsModel { archive_dir: Some(v), ..a })
            }
        } else if f == "--telemetry-interval-ms"@ {
            if !has_value {
                OutcomeModel::MissingValue(f)
            } else {
                match parse_unsigned(v, u64::MAX as nat) {
                    Some(n) => scan_args(argv, i + 2, ArgsModel { telemetry_interval_ms: n as u64, ..a }),
                    None => OutcomeModel::BadValue(f),
                }
            }
        } else if f == "--max-drivers"@ {
            if !has_value {
                OutcomeModel::MissingValue(f)
            } else {
                match parse_unsigned(v, usize::MAX as nat) {
                    Some(n) => scan_args(argv, i + 2, ArgsModel { max_drivers: n as usize, ..a }),
                    None => OutcomeModel::BadValue(f),
                }
            }
        } else if f == "-h"@ || f == "--help"@ {
            OutcomeModel::Help
        } else {
            scan_args(argv, i + 1, a)
        }
    }
}

pub open spec fn strings_view(v: Seq<String>) -> Seq<Seq<char>> {
    v.map_values(|s: String| s@)
}

pub open spec fn args_model(a: OrchestratorArgs) -> ArgsModel {
    ArgsModel {
        driver_port: a.driver_port,
        http_port: a.http_port,
        cluster_stats_urls: strings_view(a.cluster_stats_urls@),
        archive_dir: match a.archive_dir {
            Some(d) => Some(d@),
            None => None,
        },
        telemetry_interval_ms: a.telemetry_interval_ms,
        max_drivers: a.max_drivers,
    }
}

pub open spec fn outcome_model(o: ArgsOutcome) -> OutcomeModel {
    match o {
        ArgsOutcome::Run(a) => OutcomeModel::Run(args_model(a)),
        ArgsOutcome::Help => OutcomeModel::Help,
        ArgsOutcome::MissingValue(f) => OutcomeModel::MissingValue(f@),
        ArgsOutcome::BadValue(f) => OutcomeModel::BadValue(f@),
    }
}

/// The value of unsigned decimal text, if it is at most `max`.
fn parse_at_most(t: &str, max: u64) -> (r: Option<u64>)
    ensures
        r matches Some(v) ==> parse_unsigned(t@, max as nat) == Some(v as nat),
        r is None ==> parse_unsigned(t@, max as nat) is None,
{
    let chars = chars_of(t);
    match parse_u64(&chars) {
        Some(v) => {
            if v <= max {
                Some(v)
            } else {
                None
            }
        },
        None => None,
    }
}

fn copy_string(s: &String) -> (c: String)
    ensures
        c@ == s@,
{
    let mut c = String::new();
    c.append(s.as_str());
    c
}

/// Reads the orchestrator's arguments (those after the program name).
pub fn parse_orchestrator_args(argv: &Vec<String>) -> (r: ArgsOutcome)
    ensures
        outcome_model(r) == scan_args(strings_view(argv@), 0, default_args()),
{
    let ghost av = strings_view(argv@);
    let mut a = OrchestratorArgs {
        driver_port: 8088,
        http_port: 8090,
        cluster_stats_urls: Vec::new(),
        archive_dir: None,
        telemetry_interval_ms: 2000,
        max_drivers: 64,
    };
    proof {
        assert(strings_view(a.cluster_stats_urls@) =~= Seq::<Seq<char>>::empty());
        assert(args_model(a) == default_args());
    }
    let n = argv.len();
    let mut i: usize = 0;
    while i < n
        invariant
            n == argv@.len(),
            av == strings_view(argv@),
            av.len() == n,
            i <= n,
            scan_args(av, i as nat, args_model(a)) == scan_args(av, 0, default_args()),
        decreases n - i,
    {
        let f = argv[i].as_str();
        let has_value = i + 1 < n;
        proof {
            assert(av[i as int] == f@);
            if has_value {
                assert(av[i + 1] == argv@[i + 1]@);
            }
        }
        if str_equals(f, "--driver-port") {
            if !has_value {
                return ArgsOutcome::MissingValue(copy_string(&argv[i]));
            }
            match parse_at_most(argv[i + 1].as_str(), 65535) {
                Some(v) => {
                    a.driver_port = v as u16;
                },
                None => {
                    return ArgsOutcome::BadValue(copy_string(&argv[i]));
                },
            }
            i += 2;
        } else if str_equals(f, "--http-port") {
            if !has_value {
                return ArgsOutcome::MissingValue(copy_string(&argv[i]));
            }
            match parse_at_most(argv[i + 1].as_str(), 65535) {
                Some(v) => {
                    a.http_port = v as u16;
                },
                None => {
                    return ArgsOutcome::BadValue(copy_string(&argv[i]));
                },
            }
            i += 2;
        } else if str_equals(f, "--cluster-stats-url") {
            if !has_value {
                return ArgsOutcome::MissingValue(copy_string(&argv[i]));
            }
            let ghost before = a.cluster_stats_urls@;
            a.cluster_stats_urls.push(copy_string(&argv[i + 1]));
            proof {
                assert(strings_view(a.cluster_stats_urls@) =~= strings_view(before).push(av[i + 1]));
            }
            i += 2;
        } else if str_equals(f, "--archive-dir") {
            if !has_value {
                return ArgsOutcome::MissingValue(copy_string(&argv[i]));
            }
            a.archive_dir = Some(copy_string(&argv[i + 1]));
            i += 2;
        } else if str_equals(f, "--telemetry-interval-ms") {
            if !has_value {
                return ArgsOutcome::MissingValue(copy_string(&argv[i]));
            }
            match parse_at_most(argv[i + 1].as_str(), u64::MAX) {
                Some(v) => {
                    a.telemetry_interval_ms = v;
                },
                None => {
                    return ArgsOutcome::BadValue(copy_string(&argv[i]));
                },
            }
            i += 2;
        } else if str_equals(f, "--max-drivers") {
            if !has_value {
                return ArgsOutcome::MissingValue(copy_string(&argv[i]));
            }
            match parse_at_most(argv[i + 1].as_str(), usize::MAX as u64) {
                Some(v) => {
                    a.max_drivers = v as usize;
                },
                None => {
                    return ArgsOutcome::BadValue(copy_string(&argv[i]));
                },
            }
            i += 2;
        } else if str_equals(f, "-h") || str_equals(f, "--help") {
            return ArgsOutcome::Help;
        } else {
            i += 1;
        }
    }
    ArgsOutcome::Run(a)
}

} // verus!
