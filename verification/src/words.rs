//! Whitespace-separated words and unsigned decimal numbers, as std's
//! `split_whitespace`, `trim` and `parse` read them.

use vstd::prelude::*;

verus! {

/// Unicode `White_Space`, the characters `char::is_whitespace` accepts.
pub open spec fn is_ws(c: char) -> bool {
    let u = c as u32;
    ||| 0x09 <= u <= 0x0d
    ||| u == 0x20
    ||| u == 0x85
    ||| u == 0xa0
    ||| u == 0x1680
    ||| 0x2000 <= u <= 0x200a
    ||| u == 0x2028
    ||| u == 0x2029
    ||| u == 0x202f
    ||| u == 0x205f
    ||| u == 0x3000
}

/// The maximal runs of non-whitespace characters of `s`, in order.
pub open spec fn words(s: Seq<char>) -> Seq<Seq<char>>
    decreases s.len(),
{
    if s.len() == 0 {
        Seq::empty()
    } else {
        let prev = words(s.drop_last());
        let c = s.last();
        if is_ws(c) {
            prev
        } else if s.len() >= 2 && !is_ws(s[s.len() - 2]) {
            prev.update(prev.len() - 1, prev.last().push(c))
        } else {
            prev.push(seq![c])
        }
    }
}

/// The value of a run of ASCII decimal digits.
pub open spec fn digits_value(d: Seq<char>) -> nat
    decreases d.len(),
{
    if d.len() == 0 {
        0
    } else {
        digits_value(d.drop_last()) * 10 + ((d.last() as u32) - 48) as nat
    }
}

pub open spec fn all_digits(d: Seq<char>) -> bool {
    forall|i: int| 0 <= i < d.len() ==> '0' <= #[trigger] d[i] <= '9'
}

/// Unsigned decimal text as `str::parse` reads it: an optional `+`, then
/// at least one ASCII digit and nothing else, with a value at most `max`.
pub open spec fn parse_unsigned(t: Seq<char>, max: nat) -> Option<nat> {
    let d = if t.len() > 0 && t[0] == '+' { t.drop_first() } else { t };
    if d.len() > 0 && all_digits(d) && digits_value(d) <= max {
        Some(digits_value(d))
    } else {
        None
    }
}

pub fn is_whitespace(c: char) -> (b: bool)
    ensures
        b == is_ws(c),
{
    let u = c as u32;
    (0x09 <= u && u <= 0x0d) || u == 0x20 || u == 0x85 || u == 0xa0 || u == 0x1680 || (0x2000 <= u && u
        <= 0x200a) || u == 0x2028 || u == 0x2029 || u == 0x202f || u == 0x205f || u == 0x3000
}

proof fn lemma_words_nonempty(s: Seq<char>)
    requires
        s.len() > 0,
        !is_ws(s.last()),
    ensures
        words(s).len() > 0,
    decreases s.len(),
{
    if s.len() >= 2 && !is_ws(s[s.len() - 2]) {
        assert(s.drop_last().last() == s[s.len() - 2]);
        lemma_words_nonempty(s.drop_last());
    }
}

/// The words of `s`.
pub fn split_words(s: &Vec<char>) -> (w: Vec<Vec<char>>)
    ensures
        w@.len() == words(s@).len(),
        forall|i: int| 0 <= i < w@.len() ==> (#[trigger] w@[i])@ == words(s@)[i],
{
    let mut w: Vec<Vec<char>> = Vec::new();
    let mut i: usize = 0;
    while i < s.len()
        invariant
            i <= s@.len(),
            w@.len() == words(s@.take(i as int)).len(),
            forall|k: int| 0 <= k < w@.len() ==> (#[trigger] w@[k])@ == words(s@.take(i as int))[k],
        decreases s@.len() - i,
    {
        let c = s[i];
        let ghost t = s@.take(i as int + 1);
        proof {
            assert(t.drop_last() =~= s@.take(i as int));
            assert(t.last() == c);
        }
        if !is_whitespace(c) {
            if i > 0 && !is_whitespace(s[i - 1]) {
                proof {
                    assert(t[t.len() - 2] == s@[i - 1]);
                    let p = s@.take(i as int);
                    assert(p.last() == s@[i - 1]);
                    lemma_words_nonempty(p);
                }
                let last = w.len() - 1;
                let mut cur = w.remove(last);
                cur.push(c);
                w.push(cur);
            } else {
                let mut cur: Vec<char> = Vec::new();
                cur.push(c);
                w.push(cur);
                proof {
                    assert(cur@ =~= seq![c]);
                }
            }
        }
        i += 1;
        proof {
            assert forall|k: int| 0 <= k < w@.len() implies (#[trigger] w@[k])@ == words(t)[k] by {}
        }
    }
    proof {
        assert(s@.take(s@.len() as int) =~= s@);
    }
    w
}

/// Parses unsigned decimal text of value at most `u64::MAX`.
pub fn parse_u64(t: &Vec<char>) -> (r: Option<u64>)
    ensures
        r matches Some(v) ==> parse_unsigned(t@, u64::MAX as nat) == Some(v as nat),
        r is None ==> parse_unsigned(t@, u64::MAX as nat) is None,
{
    let start: usize = if t.len() > 0 && t[0] == '+' { 1 } else { 0 };
    let ghost d = if t@.len() > 0 && t@[0] == '+' { t@.drop_first() } else { t@ };
    proof {
        assert(d =~= t@.skip(start as int));
    }
    if start >= t.len() {
        return None;
    }
    let mut v: u64 = 0;
    let mut i: usize = start;
    while i < t.len()
        invariant
            start <= i <= t@.len(),
            d == t@.skip(start as int),
            d == (if t@.len() > 0 && t@[0] == '+' { t@.drop_first() } else { t@ }),
            all_digits(d.take(i - start)),
            v == digits_value(d.take(i - start)),
        decreases t@.len() - i,
    {
        let c = t[i];
        let ghost p = d.take(i - start + 1);
        proof {
            assert(p.drop_last() =~= d.take(i - start));
            assert(p.last() == c);
        }
        if !('0' <= c && c <= '9') {
            proof {
                assert(!all_digits(d)) by {
                    assert(d[i - start] == c);
                }
            }
            return None;
        }
        let digit = (c as u32 - 48) as u64;
        if v > (u64::MAX - digit) / 10 {
            proof {
                assert(v * 10 + digit > u64::MAX) by (nonlinear_arith)
                    requires v > (u64::MAX - digit) / 10, digit <= 9;
                if all_digits(d) {
                    lemma_digits_value_prefix_le(d, (i - start + 1) as nat);
                    assert(digits_value(d) >= digits_value(p));
                }
            }
            return None;
        }
        proof {
            assert(v * 10 + digit <= u64::MAX) by (nonlinear_arith)
                requires v <= (u64::MAX - digit) / 10, digit <= 9;
        }
        v = v * 10 + digit;
        i += 1;
    }
    proof {
        assert(d.take(t@.len() - start) =~= d);
    }
    Some(v)
}

/// Over digit text, a prefix never has a larger value than the whole.
pub proof fn lemma_digits_value_prefix_le(d: Seq<char>, n: nat)
    requires
        n <= d.len(),
        all_digits(d),
    ensures
        digits_value(d.take(n as int)) <= digits_value(d),
    decreases d.len(),
{
    if n < d.len() {
        assert(all_digits(d.drop_last()));
        lemma_digits_value_prefix_le(d.drop_last(), n);
        assert(d.drop_last().take(n as int) =~= d.take(n as int));
        assert(d.last() >= '0');
    } else {
        assert(d.take(n as int) =~= d);
    }
}

} // verus!
