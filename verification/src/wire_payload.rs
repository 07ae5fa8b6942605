//! Pseudo user data carried in player-state frames.
//!
//! The payload is deterministic in `(player_seed, tick)` but varied, so
//! that compression on the wire is measured on realistic bytes: xorshift64*
//! output bytes, hex-encoded, inside a one-key JSON object `{"d":"<hex>"}`
//! that the cluster parses as JSON.

use crate::text::{hex_byte, hex_bytes, hex_char, lemma_hex_bytes_len, push_hex_byte};
use vstd::prelude::*;

verus! {

/// Whether serde_json writes `s` inside a string literal verbatim: printable
/// ASCII other than `"` and `\`.
pub open spec fn json_plain(s: Seq<char>) -> bool {
    forall|i: int| 0 <= i < s.len() ==> {
        &&& 0x20 <= (#[trigger] s[i]) as u32 <= 0x7e
        &&& s[i] != '"'
        &&& s[i] != '\\'
    }
}

/// The bytes of ASCII text.
pub open spec fn ascii_bytes(s: Seq<char>) -> Seq<u8> {
    s.map_values(|c: char| c as u8)
}

/// Compact JSON text of the object with the single entry `key: value`.
pub open spec fn one_entry_object(key: Seq<char>, value: Seq<char>) -> Seq<char> {
    "{\""@ + key + "\":\""@ + value + "\"}"@
}

/// `serde_json::to_vec` of a `serde_json::Value::Object` holding the one
/// entry `key: Value::String(value)`. Its compact formatter writes `{`, the
/// key as a string literal, `:`, the value as a string literal and `}`; a
/// string literal is the text between double quotes, where only control
/// characters, `"` and `\` are escaped, so text made of the remaining
/// printable ASCII characters comes out byte for byte. Serializing a map
/// with a string key into a `Vec` cannot fail.
#[verifier::external_body]
fn json_object_bytes(key: String, value: String) -> (b: Vec<u8>)
    requires
        json_plain(key@),
        json_plain(value@),
    ensures
        b@ == ascii_bytes(one_entry_object(key@, value@)),
{
    let mut map = serde_json::Map::new();
    map.insert(key, serde_json::Value::String(value));
    serde_json::to_vec(&serde_json::Value::Object(map)).unwrap()
}

pub open spec fn xs_init(player_seed: u64, tick: u64) -> u64 {
    let s = player_seed.wrapping_mul(0x9E37_79B9_7F4A_7C15) ^ tick.wrapping_mul(0xBF58_476D_1CE4_E5B9);
    if s == 0 {
        0xDEAD_BEEF_CAFE_BABE
    } else {
        s
    }
}

/// One xorshift64 step.
pub open spec fn xs_step(s: u64) -> u64 {
    let a = s ^ (s >> 12u64);
    let b = a ^ (a << 25u64);
    b ^ (b >> 27u64)
}

/// The generator state after `n` steps from `init`.
pub open spec fn xs_state(init: u64, n: nat) -> u64
    decreases n,
{
    if n == 0 {
        init
    } else {
        xs_step(xs_state(init, (n - 1) as nat))
    }
}

/// The xorshift64* output of a state.
pub open spec fn xs_out(s: u64) -> u64 {
    s.wrapping_mul(0x2545_F491_4F6C_DD1D)
}

/// Byte `k` (0 = least significant) of `x`.
pub open spec fn le_byte(x: u64, k: nat) -> u8 {
    ((x >> ((8 * k) as u64)) & 0xffu64) as u8
}

/// The first `n` generator bytes: each step's output, little-endian.
pub open spec fn pseudo_raw(init: u64, n: nat) -> Seq<u8> {
    Seq::new(n, |j: int| le_byte(xs_out(xs_state(init, (j / 8 + 1) as nat)), (j % 8) as nat))
}

/// How many raw bytes a payload of about `len` bytes carries: the
/// envelope takes 8 bytes, each raw byte two hex digits, and `len` counts
/// at least 10.
pub open spec fn raw_len_for(len: nat) -> nat {
    let target = if len < 10 { 10 } else { len };
    ((target - 8) / 2) as nat
}

/// The payload for `(player_seed, tick)` of about `len` bytes: empty for
/// `len == 0`, else `{"d":"<hex of the generator bytes>"}`.
pub open spec fn user_data_bytes(len: nat, player_seed: u64, tick: u64) -> Seq<u8> {
    if len == 0 {
        Seq::empty()
    } else {
        ascii_bytes(one_entry_object("d"@, hex_bytes(pseudo_raw(xs_init(player_seed, tick), raw_len_for(len)))))
    }
}

proof fn lemma_hex_bytes_plain(bytes: Seq<u8>)
    ensures
        json_plain(hex_bytes(bytes)),
    decreases bytes.len(),
{
    if bytes.len() > 0 {
        lemma_hex_bytes_plain(bytes.drop_last());
        let h = hex_bytes(bytes);
        let p = hex_bytes(bytes.drop_last());
        let l = hex_byte(bytes.last());
        assert(h == p + l);
        assert forall|i: int| 0 <= i < h.len() implies {
            &&& 0x20 <= (#[trigger] h[i]) as u32 <= 0x7e
            &&& h[i] != '"'
            &&& h[i] != '\\'
        } by {
            if i >= p.len() {
                let d: nat = if i == p.len() { (bytes.last() / 16) as nat } else { (bytes.last() % 16) as nat };
                assert(h[i] == hex_char(d));
            }
        }
    }
}

fn step(s: u64) -> (r: u64)
    ensures
        r == xs_step(s),
{
    let mut x = s;
    x = x ^ (x >> 12u64);
    x = x ^ (x << 25u64);
    x = x ^ (x >> 27u64);
    x
}

/// Replaces `buf` with the pseudo user data of `(player_seed, tick)`,
/// `len` bytes long when `len - 8` is even and at least 2 (one byte
/// shorter when it is odd, 10 bytes when `len` is below 10).
pub fn fill_pseudo_user_data(buf: &mut Vec<u8>, len: usize, player_seed: u64, tick: u64)
    ensures
        final(buf)@ == user_data_bytes(len as nat, player_seed, tick),
{
    buf.clear();
    if len == 0 {
        return;
    }
    let target = if len < 10 { 10 } else { len };
    let raw_len = (target - 8) / 2;
    let mut state = player_seed.wrapping_mul(0x9E37_79B9_7F4A_7C15) ^ tick.wrapping_mul(0xBF58_476D_1CE4_E5B9);
    if state == 0 {
        state = 0xDEAD_BEEF_CAFE_BABE;
    }
    let ghost init = state;
    let ghost mut blocks: nat = 0;
    let mut raw: Vec<u8> = Vec::new();
    while raw.len() < raw_len
        invariant
            init == xs_init(player_seed, tick),
            raw@.len() <= raw_len,
            raw@.len() == raw_len || raw@.len() == 8 * blocks,
            raw@.len() <= 8 * blocks,
            state == xs_state(init, blocks),
            raw@ == pseudo_raw(init, raw@.len()),
        decreases raw_len - raw@.len(),
    {
        state = step(state);
        proof {
            blocks = blocks + 1;
        }
        let out = state.wrapping_mul(0x2545_F491_4F6C_DD1D);
        let base = raw.len();
        let take = if raw_len - base < 8 { raw_len - base } else { 8 };
        let mut k: usize = 0;
        while k < take
            invariant
                init == xs_init(player_seed, tick),
                k <= take <= 8,
                base + take <= raw_len,
                base == 8 * (blocks - 1),
                blocks >= 1,
                out == xs_out(xs_state(init, blocks)),
                raw@.len() == base + k,
                raw@ == pseudo_raw(init, raw@.len()),
            decreases take - k,
        {
            let byte = ((out >> (8 * k as u64)) & 0xff) as u8;
            proof {
                let j = (base + k) as int;
                assert(j / 8 == blocks - 1 && j % 8 == k) by (nonlinear_arith)
                    requires j == 8 * (blocks - 1) + k, 0 <= k < 8, blocks >= 1;
                assert(byte == le_byte(out, k as nat));
            }
            let ghost before = raw@;
            raw.push(byte);
            proof {
                assert(raw@ =~= pseudo_raw(init, raw@.len()));
            }
            k += 1;
        }
    }
    let mut hex = String::new();
    let mut i: usize = 0;
    while i < raw.len()
        invariant
            i <= raw@.len(),
            hex@ == hex_bytes(raw@.take(i as int)),
        decreases raw@.len() - i,
    {
        push_hex_byte(&mut hex, raw[i]);
        proof {
            assert(raw@.take(i as int + 1).drop_last() =~= raw@.take(i as int));
        }
        i += 1;
    }
    proof {
        assert(raw@.take(raw@.len() as int) =~= raw@);
        lemma_hex_bytes_plain(raw@);
    }
    let mut key = String::new();
    crate::text::string_push(&mut key, 'd');
    proof {
        reveal_strlit("d");
        assert(key@ =~= "d"@);
    }
    let mut bytes = json_object_bytes(key, hex);
    buf.append(&mut bytes);
    proof {
        assert(buf@ =~= user_data_bytes(len as nat, player_seed, tick));
    }
}

/// Payload length: empty for `len == 0`, exactly 10 bytes for `len`
/// below 10, and otherwise `len` or `len - 1` bytes (`len` exactly when
/// `len` is even).
pub proof fn law_user_data_length(len: nat, player_seed: u64, tick: u64)
    ensures
        len == 0 ==> user_data_bytes(len, player_seed, tick).len() == 0,
        1 <= len < 10 ==> user_data_bytes(len, player_seed, tick).len() == 10,
        len >= 10 ==> user_data_bytes(len, player_seed, tick).len() == len - (len % 2),
{
    if len > 0 {
        let raw = pseudo_raw(xs_init(player_seed, tick), raw_len_for(len));
        lemma_hex_bytes_len(raw);
        let text = one_entry_object("d"@, hex_bytes(raw));
        reveal_strlit("d");
        reveal_strlit("{\"");
        reveal_strlit("\":\"");
        reveal_strlit("\"}");
        assert(text.len() == 8 + 2 * raw_len_for(len));
        assert(ascii_bytes(text).len() == text.len());
    }
}

} // verus!
