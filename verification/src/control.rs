//! The swarm's TCP control protocol: one command per line.
//!
//! `SET_PLAYERS N` sets the desired player count (clamped to the
//! per-driver cap when there is one), `RESET` clears the metrics, `REPORT`
//! prints the final summary and `QUIT` stops every player. Blank lines,
//! unknown commands and malformed counts are ignored.

use crate::text::chars_of;
use crate::words::{parse_u64, parse_unsigned, split_words, words};
use vstd::prelude::*;

verus! {

/// One control-protocol command.
#[derive(Debug, Clone, Copy, PartialEq, Eq, Structural)]
pub enum ControlCommand {
    SetPlayers(u32),
    Reset,
    Report,
    Quit,
    /// Blank, unknown or malformed: nothing to do.
    Ignore,
}

/// The command a line carries: its first word names it, and
/// `SET_PLAYERS` takes its count from the second word.
pub open spec fn control_command(line: Seq<char>) -> ControlCommand {
    let w = words(line);
    if w.len() == 0 {
        ControlCommand::Ignore
    } else if w[0] == "SET_PLAYERS"@ {
        if w.len() >= 2 && parse_unsigned(w[1], u32::MAX as nat) is Some {
            ControlCommand::SetPlayers(parse_unsigned(w[1], u32::MAX as nat)->0 as u32)
        } else {
            ControlCommand::Ignore
        }
    } else if w[0] == "RESET"@ {
        ControlCommand::Reset
    } else if w[0] == "REPORT"@ {
        ControlCommand::Report
    } else if w[0] == "QUIT"@ {
        ControlCommand::Quit
    } else {
        ControlCommand::Ignore
    }
}

fn chars_equal(a: &Vec<char>, b: &str) -> (r: bool)
    ensures
        r == (a@ == b@),
{
    let bv = chars_of(b);
    if a.len() != bv.len() {
        return false;
    }
    let mut i: usize = 0;
    while i < a.len()
        invariant
            a@.len() == bv@.len(),
            bv@ == b@,
            i <= a@.len(),
            forall|k: int| 0 <= k < i ==> a@[k] == bv@[k],
        decreases a@.len() - i,
    {
        if a[i] != bv[i] {
            return false;
        }
        i += 1;
    }
    assert(a@ =~= bv@);
    true
}

/// Reads one control line.
pub fn parse_control_line(line: &str) -> (c: ControlCommand)
    ensures
        c == control_command(line@),
{
    let chars = chars_of(line);
    let w = split_words(&chars);
    if w.len() == 0 {
        return ControlCommand::Ignore;
    }
    if chars_equal(&w[0], "SET_PLAYERS") {
        if w.len() >= 2 {
            match parse_u64(&w[1]) {
                Some(v) => {
                    if v <= u32::MAX as u64 {
                        return ControlCommand::SetPlayers(v as u32);
                    }
                },
                None => {},
            }
        }
        ControlCommand::Ignore
    } else if chars_equal(&w[0], "RESET") {
        ControlCommand::Reset
    } else if chars_equal(&w[0], "REPORT") {
        ControlCommand::Report
    } else if chars_equal(&w[0], "QUIT") {
        ControlCommand::Quit
    } else {
        ControlCommand::Ignore
    }
}

/// The player count a `SET_PLAYERS requested` leaves desired: the request,
/// clamped to `cap` when a cap is set (non-zero). The flag tells whether
/// the request was refused beyond the cap.
pub fn capped_target(requested: u32, cap: u32) -> (r: (u32, bool))
    ensures
        r.1 == (cap > 0 && requested > cap),
        r.0 == (if r.1 { cap } else { requested }),
{
    if cap > 0 && requested > cap {
        (cap, true)
    } else {
        (requested, false)
    }
}

/// The initial desired player count of control mode: `--players`, at most
/// `max_players`.
pub fn initial_desired_players(players: u32, max_players: u32) -> (n: u32)
    ensures
        n == (if players < max_players { players } else { max_players }),
{
    if players < max_players {
        players
    } else {
        max_players
    }
}

} // verus!
