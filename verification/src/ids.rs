//! Driver identifiers: 128-bit UUIDs, minted and rendered by the `uuid`
//! crate.

use crate::seqs::{lemma_filter_all, lemma_filter_none};
use crate::text::hex_char;
use vstd::arithmetic::power::pow;
use vstd::prelude::*;

verus! {

/// A driver's identity, the 128-bit value of a UUID.
pub type DriverId = u128;

/// Hex digit `i` (0 = most significant) of the 32-digit form of `id`.
pub open spec fn uuid_nibble(id: u128, i: int) -> nat {
    ((id as nat / pow(16, (31 - i) as nat) as nat) % 16) as nat
}

/// The 32 lower-case hex digits of `id`, most significant first.
pub open spec fn uuid_hex(id: u128) -> Seq<char> {
    Seq::new(32, |i: int| hex_char(uuid_nibble(id, i)))
}

/// Hyphenated lower-case UUID text: 8-4-4-4-12 hex digits.
pub open spec fn uuid_text(id: u128) -> Seq<char> {
    let h = uuid_hex(id);
    h.subrange(0, 8) + seq!['-'] + h.subrange(8, 12) + seq!['-'] + h.subrange(12, 16)
        + seq!['-'] + h.subrange(16, 20) + seq!['-'] + h.subrange(20, 32)
}

/// A random (version 4, RFC 4122 variant) UUID value: version nibble 4 and
/// variant bits `10`.
pub open spec fn is_v4_uuid(id: u128) -> bool {
    &&& (id as nat / pow(2, 76) as nat) % 16 == 4
    &&& (id as nat / pow(2, 62) as nat) % 4 == 2
}

/// A fresh random driver id: `uuid::Uuid::new_v4()` taken as its `u128`
/// value. The value is random; the only claim is that it carries the
/// version-4 and variant bits that `new_v4` sets.
#[verifier::external_body]
pub(crate) fn new_driver_id() -> (id: DriverId)
    ensures
        is_v4_uuid(id),
{
    uuid::Uuid::new_v4().as_u128()
}

/// Hyphenated text of an id: `uuid::Uuid::from_u128(id).to_string()`, the
/// crate's lower-case 8-4-4-4-12 rendering of the id's big-endian bytes.
#[verifier::external_body]
pub(crate) fn driver_id_text(id: DriverId) -> (s: String)
    ensures
        s@ == uuid_text(id),
{
    uuid::Uuid::from_u128(id).to_string()
}

/// The hyphenated text with its hyphens removed is the 32-digit hex form.
pub proof fn lemma_uuid_text_without_hyphens(id: u128)
    ensures
        uuid_text(id).filter(|c: char| c != '-') == uuid_hex(id),
{
    let p = |c: char| c != '-';
    let h = uuid_hex(id);
    assert forall|i: int| 0 <= i < h.len() implies p(#[trigger] h[i]) by {
        let d = uuid_nibble(id, i);
        assert(h[i] == hex_char(d));
    }
    let dash = seq!['-'];
    lemma_filter_none(dash, p);
    let parts = seq![h.subrange(0, 8), h.subrange(8, 12), h.subrange(12, 16), h.subrange(16, 20), h.subrange(20, 32)];
    assert forall|k: int| 0 <= k < 5 implies (#[trigger] parts[k]).filter(p) == parts[k] by {
        let q = parts[k];
        assert forall|i: int| 0 <= i < q.len() implies p(#[trigger] q[i]) by {
            let lo: int = if k == 0 { 0 } else if k == 1 { 8 } else if k == 2 { 12 } else if k == 3 { 16 } else { 20 };
            assert(q[i] == h[lo + i]);
        }
        lemma_filter_all(q, p);
    }
    broadcast use Seq::filter_distributes_over_add;
    let t = uuid_text(id);
    assert(t == parts[0] + dash + parts[1] + dash + parts[2] + dash + parts[3] + dash + parts[4]);
    assert(t.filter(p) =~= parts[0] + parts[1] + parts[2] + parts[3] + parts[4]);
    assert(parts[0] + parts[1] + parts[2] + parts[3] + parts[4] =~= h);
}

} // verus!
