//! Names of the telemetry archive's snapshot files.
//!
//! Every broadcast snapshot is kept as `snapshot_<unix_ms>_<seq>.json`,
//! `seq` being the archive's own counter written with at least six digits.
//! The directory is written and listed by the orchestrator's I/O layer;
//! this module decides the names, and proves that two snapshots with a
//! different time or counter never share a file, so a restarted archive
//! does not overwrite what an earlier one wrote.

use crate::reporter::{has_prefix, has_prefix_vec};
use crate::text::{chars_of, decimal, digit_char, push_decimal_u128, push_str, string_push, decimal_string};
use crate::words::{all_digits, digits_value};
use vstd::prelude::*;

verus! {

/// `n` in decimal, left-padded with zeros to six digits.
pub open spec fn padded6(n: nat) -> Seq<char> {
    let d = decimal(n);
    if d.len() < 6 {
        Seq::new((6 - d.len()) as nat, |i: int| '0') + d
    } else {
        d
    }
}

/// The file name of the snapshot taken at `unix_ms` with counter `seq`.
pub open spec fn snapshot_name_text(unix_ms: u128, seq: u64) -> Seq<char> {
    "snapshot_"@ + decimal(unix_ms as nat) + "_"@ + padded6(seq as nat) + ".json"@
}

pub open spec fn has_suffix(s: Seq<char>, p: Seq<char>) -> bool {
    p.len() <= s.len() && s.subrange(s.len() - p.len(), s.len() as int) == p
}

/// Whether a directory entry is one of the archive's snapshot files.
pub open spec fn is_snapshot_name(name: Seq<char>) -> bool {
    has_prefix(name, "snapshot_"@) && has_suffix(name, ".json"@)
}

pub fn snapshot_file_name(unix_ms: u128, seq: u64) -> (s: String)
    ensures
        s@ == snapshot_name_text(unix_ms, seq),
{
    let mut s = String::new();
    push_str(&mut s, "snapshot_");
    push_decimal_u128(&mut s, unix_ms);
    push_str(&mut s, "_");
    let digits = decimal_string(seq);
    let n = chars_of(digits.as_str()).len();
    let ghost before = s@;
    let mut k: usize = n;
    while k < 6
        invariant
            n == decimal(seq as nat).len(),
            n <= k,
            k <= 6 || k == n,
            s@ == before + Seq::new((k - n) as nat, |i: int| '0'),
        decreases 6 - k,
    {
        string_push(&mut s, '0');
        k += 1;
        proof {
            assert(s@ =~= before + Seq::new((k - n) as nat, |i: int| '0'));
        }
    }
    push_str(&mut s, digits.as_str());
    push_str(&mut s, ".json");
    proof {
        if n >= 6 {
            assert(Seq::new((k - n) as nat, |i: int| '0') =~= Seq::<char>::empty());
        }
        assert(s@ =~= snapshot_name_text(unix_ms, seq));
    }
    s
}

fn has_suffix_chars(s: &Vec<char>, p: &Vec<char>) -> (b: bool)
    ensures
        b == has_suffix(s@, p@),
{
    if p.len() > s.len() {
        return false;
    }
    let off = s.len() - p.len();
    let mut i: usize = 0;
    while i < p.len()
        invariant
            p.len() <= s.len(),
            off == s.len() - p.len(),
            i <= p.len(),
            forall|j: int| 0 <= j < i ==> s@[off + j] == p@[j],
        decreases p.len() - i,
    {
        if s[off + i] != p[i] {
            assert(s@.subrange(off as int, s@.len() as int)[i as int] != p@[i as int]);
            return false;
        }
        i += 1;
    }
    assert(s@.subrange(off as int, s@.len() as int) =~= p@);
    true
}

/// Whether `name` is a snapshot file: it starts with `snapshot_` and ends
/// with `.json`.
pub fn is_snapshot_file_name(name: &str) -> (b: bool)
    ensures
        b == is_snapshot_name(name@),
{
    let s = chars_of(name);
    let p = chars_of("snapshot_");
    let q = chars_of(".json");
    has_prefix_vec(&s, &p) && has_suffix_chars(&s, &q)
}

proof fn lemma_decimal_value(n: nat)
    ensures
        all_digits(decimal(n)),
        digits_value(decimal(n)) == n,
    decreases n,
{
    let d = decimal(n);
    if n >= 10 {
        lemma_decimal_value(n / 10);
        assert(d.drop_last() =~= decimal(n / 10));
        assert(d.last() == digit_char(n % 10));
        assert((digit_char(n % 10) as u32) == n % 10 + 48);
        assert(digits_value(d) == digits_value(decimal(n / 10)) * 10 + n % 10);
        assert((n / 10) * 10 + n % 10 == n);
    } else {
        assert(d.drop_last() =~= Seq::<char>::empty());
        assert((digit_char(n) as u32) == n + 48);
        assert(digits_value(d) == digits_value(d.drop_last()) * 10 + n);
        assert(digits_value(Seq::<char>::empty()) == 0);
    }
}

proof fn lemma_zeros_value(z: nat, d: Seq<char>)
    ensures
        digits_value(Seq::new(z, |i: int| '0') + d) == digits_value(d),
    decreases d.len() + z,
{
    let zs = Seq::new(z, |i: int| '0');
    if d.len() > 0 {
        lemma_zeros_value(z, d.drop_last());
        assert((zs + d).drop_last() =~= zs + d.drop_last());
    } else if z > 0 {
        lemma_zeros_value((z - 1) as nat, d);
        assert((zs + d).drop_last() =~= Seq::new((z - 1) as nat, |i: int| '0') + d);
    } else {
        assert(zs + d =~= d);
    }
}

proof fn lemma_padded_value(n: nat)
    ensures
        all_digits(padded6(n)),
        digits_value(padded6(n)) == n,
{
    lemma_decimal_value(n);
    let d = decimal(n);
    if d.len() < 6 {
        lemma_zeros_value((6 - d.len()) as nat, d);
        let p = padded6(n);
        assert forall|i: int| 0 <= i < p.len() implies '0' <= #[trigger] p[i] <= '9' by {
            if i >= 6 - d.len() {
                assert(p[i] == d[i - (6 - d.len())]);
            }
        }
    }
}

/// Snapshots taken at different times, or with different counters, are
/// written to different files.
pub proof fn law_snapshot_names_distinct(a_ms: u128, a_seq: u64, b_ms: u128, b_seq: u64)
    requires
        a_ms != b_ms || a_seq != b_seq,
    ensures
        snapshot_name_text(a_ms, a_seq) != snapshot_name_text(b_ms, b_seq),
{
    reveal_strlit("snapshot_");
    reveal_strlit("_");
    reveal_strlit(".json");
    let na = snapshot_name_text(a_ms, a_seq);
    let nb = snapshot_name_text(b_ms, b_seq);
    let da = decimal(a_ms as nat);
    let db = decimal(b_ms as nat);
    let pa = padded6(a_seq as nat);
    let pb = padded6(b_seq as nat);
    lemma_decimal_value(a_ms as nat);
    lemma_decimal_value(b_ms as nat);
    lemma_padded_value(a_seq as nat);
    lemma_padded_value(b_seq as nat);
    if na == nb {
        let la: int = da.len() as int;
        let lb: int = db.len() as int;
        // Past the prefix, the first `_` ends the time's digits.
        assert forall|i: int| 0 <= i < la implies na[9 + i] == da[i] by {}
        assert forall|i: int| 0 <= i < lb implies nb[9 + i] == db[i] by {}
        assert(na[9 + la] == '_');
        assert(nb[9 + lb] == '_');
        if la < lb {
            assert(nb[9 + la] == db[la]);
            assert('0' <= db[la] <= '9');
            assert(false);
        }
        if lb < la {
            assert(na[9 + lb] == da[lb]);
            assert('0' <= da[lb] <= '9');
            assert(false);
        }
        assert(da =~= na.subrange(9, 9 + la));
        assert(db =~= nb.subrange(9, 9 + lb));
        assert(da == db);
        assert(a_ms == b_ms);
        let start: int = 9 + la + 1;
        let lp: int = pa.len() as int;
        assert(na.len() == 9 + la + 1 + pa.len() + 5);
        assert(nb.len() == 9 + lb + 1 + pb.len() + 5);
        assert(pa.len() == pb.len());
        assert(pa =~= na.subrange(start, start + lp));
        assert(pb =~= nb.subrange(start, start + lp));
        assert(pa == pb);
        assert(a_seq == b_seq);
    }
}

/// Every file the archive writes is one that listing the archive
/// directory picks up.
pub proof fn law_written_names_are_listed(unix_ms: u128, seq: u64)
    ensures
        is_snapshot_name(snapshot_name_text(unix_ms, seq)),
{
    reveal_strlit("snapshot_");
    reveal_strlit(".json");
    let n = snapshot_name_text(unix_ms, seq);
    let rest = decimal(unix_ms as nat) + "_"@ + padded6(seq as nat);
    assert(n =~= "snapshot_"@ + (rest + ".json"@));
    assert(n.subrange(0, 9) =~= "snapshot_"@);
    assert(n =~= ("snapshot_"@ + rest) + ".json"@);
    assert(n.subrange(n.len() as int - 5, n.len() as int) =~= ".json"@);
}

} // verus!
