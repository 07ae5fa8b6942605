use arcane_swarm::wire_payload::fill_pseudo_user_data;

#[test]
fn fill_pseudo_user_data_is_deterministic_per_seed_tick() {
    let mut a = Vec::new();
    let mut b = Vec::new();
    fill_pseudo_user_data(&mut a, 100, 42, 1000);
    fill_pseudo_user_data(&mut b, 100, 42, 1000);
    assert_eq!(a, b, "same (seed, tick) must produce identical bytes");
    assert_eq!(a.len(), 100);
}

#[test]
fn fill_pseudo_user_data_varies_across_ticks() {
    let mut a = Vec::new();
    let mut b = Vec::new();
    fill_pseudo_user_data(&mut a, 64, 42, 1000);
    fill_pseudo_user_data(&mut b, 64, 42, 1001);
    assert_ne!(a, b, "consecutive ticks must produce different bytes");
}

#[test]
fn fill_pseudo_user_data_varies_across_players() {
    let mut a = Vec::new();
    let mut b = Vec::new();
    fill_pseudo_user_data(&mut a, 64, 42, 1000);
    fill_pseudo_user_data(&mut b, 64, 43, 1000);
    assert_ne!(a, b, "different player seeds must produce different bytes");
}

#[test]
fn fill_pseudo_user_data_zero_length_is_empty() {
    let mut buf = vec![0xFFu8; 16];
    fill_pseudo_user_data(&mut buf, 0, 1, 1);
    assert!(buf.is_empty(), "len=0 must clear the buffer");
}

#[test]
fn fill_pseudo_user_data_output_is_valid_json() {
    for len in [10usize, 50, 100, 500] {
        let mut buf = Vec::new();
        fill_pseudo_user_data(&mut buf, len, 42, 7);
        let parsed: serde_json::Value = serde_json::from_slice(&buf).expect("output must parse as JSON");
        assert!(
            parsed.get("d").and_then(|v| v.as_str()).is_some(),
            "envelope must carry the hex payload under key `d`"
        );
    }
}

#[test]
fn fill_pseudo_user_data_clamps_small_len_to_minimum_envelope() {
    for len in [1usize, 5, 9] {
        let mut buf = Vec::new();
        fill_pseudo_user_data(&mut buf, len, 1, 1);
        assert_eq!(buf.len(), 10, "len={} must clamp to 10-byte minimum", len);
        let _: serde_json::Value = serde_json::from_slice(&buf).expect("clamped output must still be valid JSON");
    }
}

/// The generator written out independently, to compare byte for byte.
fn reference(len: usize, seed: u64, tick: u64) -> Vec<u8> {
    if len == 0 {
        return Vec::new();
    }
    let target = len.max(10);
    let raw_len = (target - 8) / 2;
    let mut state = seed.wrapping_mul(0x9E37_79B9_7F4A_7C15) ^ tick.wrapping_mul(0xBF58_476D_1CE4_E5B9);
    if state == 0 {
        state = 0xDEAD_BEEF_CAFE_BABE;
    }
    let mut raw = Vec::new();
    while raw.len() < raw_len {
        state ^= state >> 12;
        state ^= state << 25;
        state ^= state >> 27;
        let out = state.wrapping_mul(0x2545_F491_4F6C_DD1D);
        let take = (raw_len - raw.len()).min(8);
        raw.extend_from_slice(&out.to_le_bytes()[..take]);
    }
    let hex: String = raw.iter().map(|b| format!("{:02x}", b)).collect();
    format!("{{\"d\":\"{}\"}}", hex).into_bytes()
}

#[test]
fn payload_matches_the_generator_byte_for_byte() {
    for (len, seed, tick) in [(10usize, 0u64, 0u64), (11, 1, 2), (37, 42, 7), (100, 42, 1000), (257, 9, 9)] {
        let mut buf = Vec::new();
        fill_pseudo_user_data(&mut buf, len, seed, tick);
        assert_eq!(buf, reference(len, seed, tick), "len={} seed={} tick={}", len, seed, tick);
    }
    let mut odd = Vec::new();
    fill_pseudo_user_data(&mut odd, 11, 3, 4);
    assert_eq!(odd.len(), 10);
    assert_eq!(&odd[..6], b"{\"d\":\"");
}
