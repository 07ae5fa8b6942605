//! The orchestrator's HTTP API: `GET /telemetry/stream` streams telemetry
//! snapshots as server-sent events, `POST /commands/submit` submits a
//! command to the fleet. This module routes a request line, reads the
//! body length from the request head, and decides the status and body of a
//! refused submission.

use crate::command_dispatcher::DispatchError;
use crate::reporter::{has_prefix, has_prefix_vec, line_segments, split_lines};
use crate::text::{chars_of, push_str};
use crate::words::{parse_u64, parse_unsigned, split_words, words};
use vstd::prelude::*;

verus! {

/// Where a request goes.
#[derive(Debug, Clone, Copy, PartialEq, Eq, Structural)]
pub enum HttpRoute {
    TelemetryStream,
    SubmitCommand,
    NotFound,
}

/// The route of a request line: by its method and path prefix.
pub open spec fn route_of(request_line: Seq<char>) -> HttpRoute {
    if has_prefix(request_line, "GET /telemetry/stream"@) {
        HttpRoute::TelemetryStream
    } else if has_prefix(request_line, "POST /commands/submit"@) {
        HttpRoute::SubmitCommand
    } else {
        HttpRoute::NotFound
    }
}

pub fn route_request(request_line: &str) -> (r: HttpRoute)
    ensures
        r == route_of(request_line@),
{
    let line = chars_of(request_line);
    let stream = chars_of("GET /telemetry/stream");
    if has_prefix_vec(&line, &stream) {
        return HttpRoute::TelemetryStream;
    }
    let submit = chars_of("POST /commands/submit");
    if has_prefix_vec(&line, &submit) {
        HttpRoute::SubmitCommand
    } else {
        HttpRoute::NotFound
    }
}

/// Why a submission was not carried out.
#[derive(Debug, Clone, Copy, PartialEq, Eq, Structural)]
pub enum SubmitRefusal {
    /// The server runs without a command dispatcher.
    NoDispatcher,
    /// The dispatcher refused the command.
    Dispatch(DispatchError),
    /// The body was not a submit request.
    BadRequest,
}

/// Status code and JSON body answering a refused submission: 503 without
/// a dispatcher, 400 for no active driver or a malformed body.
pub open spec fn refusal_answer(r: SubmitRefusal) -> (u16, Seq<char>) {
    match r {
        SubmitRefusal::NoDispatcher => (503u16, "{\"error\":\"no_dispatcher\"}"@),
        SubmitRefusal::Dispatch(DispatchError::NoActiveDrivers) => (400u16, "{\"error\":\"no_active_drivers\"}"@),
        SubmitRefusal::BadRequest => (400u16, "{\"error\":\"bad_request\"}"@),
    }
}

pub fn refusal_response(r: SubmitRefusal) -> (a: (u16, String))
    ensures
        (a.0, a.1@) == refusal_answer(r),
{
    let mut body = String::new();
    match r {
        SubmitRefusal::NoDispatcher => {
            push_str(&mut body, "{\"error\":\"no_dispatcher\"}");
            (503, body)
        },
        SubmitRefusal::Dispatch(DispatchError::NoActiveDrivers) => {
            push_str(&mut body, "{\"error\":\"no_active_drivers\"}");
            (400, body)
        },
        SubmitRefusal::BadRequest => {
            push_str(&mut body, "{\"error\":\"bad_request\"}");
            (400, body)
        },
    }
}

/// `s` with ASCII upper-case letters lowered.
pub open spec fn ascii_lower(s: Seq<char>) -> Seq<char> {
    s.map_values(|c: char| if 'A' <= c <= 'Z' { ((c as u32) + 32) as char } else { c })
}

/// Position of the first `c` in `s`, if any.
pub open spec fn first_index_of(s: Seq<char>, c: char) -> Option<int> {
    if exists|i: int| 0 <= i < s.len() && s[i] == c {
        Some(choose|i: int| 0 <= i < s.len() && s[i] == c && forall|j: int| 0 <= j < i ==> s[j] != c)
    } else {
        None
    }
}

/// The body length a header line declares: the line is
/// `Content-Length: N`, the name compared without regard to ASCII case,
/// name and value trimmed, and `N` a `usize`.
pub open spec fn declared_length(line: Seq<char>) -> Option<nat> {
    match first_index_of(line, ':') {
        None => None,
        Some(p) => {
            let name = words(line.take(p));
            let value = words(line.skip(p + 1));
            if name.len() == 1 && ascii_lower(name[0]) == "content-length"@ && value.len() == 1 {
                parse_unsigned(value[0], usize::MAX as nat)
            } else {
                None
            }
        },
    }
}

/// The body length of a request head: that of its first line declaring
/// one, zero when none does.
pub open spec fn content_length_of(head: Seq<char>) -> nat {
    let ls = line_segments(head);
    if exists|k: int| 0 <= k < ls.len() && declared_length(ls[k]) is Some {
        let k = choose|k: int|
            0 <= k < ls.len() && declared_length(ls[k]) is Some && forall|j: int|
                0 <= j < k ==> declared_length(ls[j]) is None;
        declared_length(ls[k])->0
    } else {
        0
    }
}

fn sub_chars(v: &Vec<char>, lo: usize, hi: usize) -> (r: Vec<char>)
    requires
        lo <= hi <= v@.len(),
    ensures
        r@ == v@.subrange(lo as int, hi as int),
{
    let mut r: Vec<char> = Vec::new();
    let mut i = lo;
    while i < hi
        invariant
            lo <= i <= hi <= v@.len(),
            r@ == v@.subrange(lo as int, i as int),
        decreases hi - i,
    {
        r.push(v[i]);
        i += 1;
        proof {
            assert(r@ =~= v@.subrange(lo as int, i as int));
        }
    }
    r
}

fn lower_equals(a: &Vec<char>, b: &Vec<char>) -> (r: bool)
    ensures
        r == (ascii_lower(a@) == b@),
{
    if a.len() != b.len() {
        proof {
            assert(ascii_lower(a@).len() != b@.len());
        }
        return false;
    }
    let mut i: usize = 0;
    while i < a.len()
        invariant
            a@.len() == b@.len(),
            i <= a@.len(),
            forall|j: int| 0 <= j < i ==> ascii_lower(a@)[j] == b@[j],
        decreases a@.len() - i,
    {
        let c = a[i];
        let l = if 'A' <= c && c <= 'Z' { ((c as u8) + 32u8) as char } else { c };
        proof {
            assert(ascii_lower(a@)[i as int] == (if 'A' <= c <= 'Z' { ((c as u32) + 32) as char } else { c }));
        }
        if l != b[i] {
            return false;
        }
        i += 1;
    }
    assert(ascii_lower(a@) =~= b@);
    true
}

/// The body length `line` declares, if any.
fn line_length(line: &Vec<char>) -> (r: Option<usize>)
    ensures
        r matches Some(n) ==> declared_length(line@) == Some(n as nat),
        r is None ==> declared_length(line@) is None,
{
    let mut p: usize = 0;
    while p < line.len() && line[p] != ':'
        invariant
            p <= line@.len(),
            forall|j: int| 0 <= j < p ==> line@[j] != ':',
        decreases line@.len() - p,
    {
        p += 1;
    }
    if p == line.len() {
        return None;
    }
    proof {
        assert(exists|i: int| 0 <= i < line@.len() && line@[i] == ':');
        let c = choose|i: int|
            0 <= i < line@.len() && line@[i] == ':' && forall|j: int| 0 <= j < i ==> line@[j] != ':';
        assert(0 <= p < line@.len() && line@[p as int] == ':' && forall|j: int| 0 <= j < p ==> line@[j] != ':');
        if c < p {
        } else if c > p {
            assert(line@[p as int] != ':');
        }
        assert(first_index_of(line@, ':') == Some(p as int));
    }
    let name_chars = sub_chars(line, 0, p);
    let value_chars = sub_chars(line, p + 1, line.len());
    proof {
        assert(name_chars@ =~= line@.take(p as int));
        assert(value_chars@ =~= line@.skip(p as int + 1));
    }
    let name = split_words(&name_chars);
    let value = split_words(&value_chars);
    let key = chars_of("content-length");
    if name.len() != 1 || value.len() != 1 {
        return None;
    }
    if !lower_equals(&name[0], &key) {
        return None;
    }
    match parse_u64(&value[0]) {
        Some(v) => {
            if v <= usize::MAX as u64 {
                Some(v as usize)
            } else {
                None
            }
        },
        None => None,
    }
}

/// The body length of a request head (`Content-Length`, zero when absent).
pub fn content_length(head: &str) -> (n: usize)
    ensures
        n == content_length_of(head@),
{
    let chars = chars_of(head);
    let lines = split_lines(&chars);
    let ghost ls = line_segments(head@);
    let mut k: usize = 0;
    while k < lines.len()
        invariant
            k <= lines@.len(),
            ls == line_segments(head@),
            lines@.len() == ls.len(),
            forall|j: int| 0 <= j < lines@.len() ==> (#[trigger] lines@[j])@ == ls[j],
            forall|j: int| 0 <= j < k ==> declared_length(ls[j]) is None,
        decreases lines@.len() - k,
    {
        let r = line_length(&lines[k]);
        proof {
            assert(lines@[k as int]@ == ls[k as int]);
        }
        match r {
            Some(n) => {
                proof {
                    let c = choose|c: int|
                        0 <= c < ls.len() && declared_length(ls[c]) is Some && forall|j: int|
                            0 <= j < c ==> declared_length(ls[j]) is None;
                    assert(0 <= k < ls.len() && declared_length(ls[k as int]) is Some);
                    if c < k {
                    } else if c > k {
                        assert(declared_length(ls[k as int]) is None);
                    }
                    assert(c == k);
                }
                return n;
            },
            None => {},
        }
        k += 1;
    }
    0
}

} // verus!
