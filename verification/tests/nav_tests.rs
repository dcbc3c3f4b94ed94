use gnss_test::bits::getbitu;
use gnss_test::channel::{Channel, Sv};
use gnss_test::navigation::SyncState;
use gnss_test::state::GnssState;

const MASKS: [u32; 6] = [0x2EC7CD2, 0x1763E69, 0x2BB1F34, 0x15D8F9A, 0x1AEC7CD, 0x22DEA27];
const PREAMBLE: [u8; 8] = [1, 0, 0, 0, 1, 0, 1, 1];

fn parity1(v: u32) -> u32 {
    v.count_ones() & 1
}

/// Encodes ten 24-bit data words into the 300 transmitted symbols of one
/// subframe, computing the six parity bits of each word so that every
/// parity equation holds.
fn encode_subframe(data24: &[u32; 10]) -> Vec<u8> {
    let mut out = Vec::new();
    let mut d29 = 0u32;
    let mut d30 = 0u32;
    for k in 0..10 {
        let desired = data24[k] & 0xFFFFFF;
        let tdata = if d30 == 1 { desired ^ 0xFFFFFF } else { desired };
        let hi = (d29 << 25) | (d30 << 24) | desired;
        let mut p = [0u32; 6];
        for j in 0..6 {
            p[j] = parity1(hi & MASKS[j]);
        }
        for b in (0..24).rev() {
            out.push(((tdata >> b) & 1) as u8);
        }
        for j in 0..6 {
            out.push(p[j] as u8);
        }
        d29 = p[4];
        d30 = p[5];
    }
    out
}

/// Reads a field from the decoded layout: 24 data bits left-aligned per
/// 30-bit slot, parity slots zero.  Independent arithmetic used to check
/// the library's decoders.
fn read_field(data24: &[u32; 10], pos: usize, len: usize) -> u32 {
    let mut v = 0u32;
    for i in pos..pos + len {
        let word = i / 30;
        let off = i % 30;
        let bit = if off < 24 { (data24[word] >> (23 - off)) & 1 } else { 0 };
        v = (v << 1) | bit;
    }
    v
}

fn subframe1_words(tow_raw: u32, week_raw: u32, iodc: u32, tgd: u32, toc_raw: u32, af2: u32, af1: u32, af0: u32) -> [u32; 10] {
    let mut w = [0u32; 10];
    w[0] = (0x8B << 16) | (0x1234 << 2);
    w[1] = (tow_raw & 0x1FFFF) << 7 | (1 << 2); // subframe id 1
    w[2] = (week_raw & 0x3FF) << 14 | (2 << 12) | (3 << 8) | (0 << 2) | ((iodc >> 8) & 0x3);
    w[6] = tgd & 0xFF;
    w[7] = (iodc & 0xFF) << 16 | (toc_raw & 0xFFFF);
    w[8] = (af2 & 0xFF) << 16 | (af1 & 0xFFFF);
    w[9] = (af0 & 0x3FFFFF) << 2;
    w
}

fn fresh_state_with_channel(prn: u8) -> GnssState {
    let mut st = GnssState::new();
    st.apply_acquisition_round(&vec![prn]);
    st
}

#[test]
fn test_parity_accepts_valid_subframe() {
    let words = subframe1_words(1000, 123, 0x155, 0x80, 5000, 0x01, 0x1234, 0x2ABCDE);
    let bits = encode_subframe(&words);
    assert_eq!(bits.len(), 300);
    let mut nav_data = vec![0u8; 300];
    assert!(Channel::nav_test_lnav_parity(&bits, &mut nav_data));
    // each word's 24 data bits sit left-aligned in its 30-bit slot,
    // parity slots zero
    for k in 0..10 {
        assert_eq!(getbitu(&nav_data, 30 * k, 24), words[k] & 0xFFFFFF);
        assert_eq!(getbitu(&nav_data, 30 * k + 24, 6), 0);
    }
}

#[test]
fn test_parity_rejects_any_single_flipped_bit() {
    let words = subframe1_words(1000, 123, 0x155, 0x80, 5000, 0x01, 0x1234, 0x2ABCDE);
    let bits = encode_subframe(&words);
    for i in 0..300 {
        let mut bad = bits.clone();
        bad[i] ^= 1;
        let mut nav_data = vec![0u8; 300];
        assert!(!Channel::nav_test_lnav_parity(&bad, &mut nav_data), "flip at {} accepted", i);
    }
}

#[test]
fn test_frame_sync_detector() {
    let mut ch = Channel::new(Sv { prn: 5 });
    let l = ch.nav.bits.len();
    // both windows equal the preamble
    for i in 0..8 {
        ch.nav.bits[l - 308 + i] = PREAMBLE[i];
        ch.nav.bits[l - 8 + i] = PREAMBLE[i];
    }
    assert_eq!(ch.nav_get_frame_sync_state(&PREAMBLE), SyncState::Normal);
    // both windows inverted
    for i in 0..8 {
        ch.nav.bits[l - 308 + i] = PREAMBLE[i] ^ 1;
        ch.nav.bits[l - 8 + i] = PREAMBLE[i] ^ 1;
    }
    assert_eq!(ch.nav_get_frame_sync_state(&PREAMBLE), SyncState::Reversed);
    // mixed polarity is no synchronization
    for i in 0..8 {
        ch.nav.bits[l - 308 + i] = PREAMBLE[i];
        ch.nav.bits[l - 8 + i] = PREAMBLE[i] ^ 1;
    }
    assert_eq!(ch.nav_get_frame_sync_state(&PREAMBLE), SyncState::NoSync);
    // garbage in one window
    for i in 0..8 {
        ch.nav.bits[l - 308 + i] = PREAMBLE[i];
        ch.nav.bits[l - 8 + i] = 0;
    }
    assert_eq!(ch.nav_get_frame_sync_state(&PREAMBLE), SyncState::NoSync);
}

#[test]
fn test_bit_sync_locks_and_symbols_alternate() {
    let scale = 1_000_000i32;
    let mut ch = Channel::new(Sv { prn: 7 });
    let mut st = fresh_state_with_channel(7);
    // +1 for 20 ms then -1 for 20 ms, repeated: 100 bit pairs
    for step in 0..4000usize {
        let ip = if (step / 20) % 2 == 0 { scale } else { -scale };
        ch.record_prompt(ip);
        ch.nav_decode(&mut st);
        if step < 38 {
            assert_eq!(ch.nav.bit_sync, 0, "locked too early at {}", step);
        }
    }
    // locks within two bit periods of the start
    assert_eq!(ch.nav.bit_sync, 20);
    // emitted symbols alternate 0,1,0,1,... (sign of each 20 ms mean)
    let l = ch.nav.bits.len();
    let emitted = (4000 - 20) / 20;
    assert!(emitted > 100);
    for k in 0..100 {
        let sym = ch.nav.bits[l - 1 - k];
        let expect = if k % 2 == 0 { 0 } else { 1 };
        assert_eq!(sym, expect, "symbol {} from the end", k);
    }
}

#[test]
fn test_subframe1_decode_and_af0_scaling() {
    // af0 raw: a negative 22-bit value
    let af0_raw_u = 0x3FFFFF & (-54321i32 as u32);
    let words = subframe1_words(16800, 0, 0x155, 0x80, 5000, 0xFE, 0x1234, af0_raw_u);
    let bits = encode_subframe(&words);
    let mut nav_data = vec![0u8; 300];
    assert!(Channel::nav_test_lnav_parity(&bits, &mut nav_data));
    let mut ch = Channel::new(Sv { prn: 9 });
    ch.num_trk_samples = 1;
    let mut st = fresh_state_with_channel(9);
    let id = ch.nav_decode_lnav_subframe(&nav_data, &mut st);
    assert_eq!(id, 1);
    let e = &ch.nav.eph;
    assert_eq!(e.tlm, 0x1234);
    assert_eq!(e.tow, 16800 * 6);
    assert_eq!(e.week, 2048);
    assert_eq!(e.code_on_l2, 2);
    assert_eq!(e.sva, 3);
    assert_eq!(e.svh, 0);
    assert_eq!(e.iodc, 0x155);
    assert_eq!(e.tgd, -128);
    assert_eq!(e.toc, 5000 * 16);
    assert_eq!(e.af2, -2);
    assert_eq!(e.af1, 0x1234);
    assert_eq!(e.af0, -54321);
    assert!(e.got_sf1);
    // IS-GPS-200 scaling: af0 is the raw signed 22-bit value times 2^-31
    let af0_sec = (e.af0 as f64) * 2f64.powi(-31);
    let expect = -54321f64 * 2f64.powi(-31);
    assert!((af0_sec - expect).abs() <= f64::EPSILON * expect.abs());
}

#[test]
fn test_tow_gpst_epoch_arithmetic() {
    // week 2048 with tow_raw 100800 gives GPST 2048 weeks + 604800 s
    let words = subframe1_words(100800, 0, 0, 0, 0, 0, 0, 0);
    let bits = encode_subframe(&words);
    let mut nav_data = vec![0u8; 300];
    assert!(Channel::nav_test_lnav_parity(&bits, &mut nav_data));
    let mut ch = Channel::new(Sv { prn: 3 });
    ch.num_trk_samples = 1;
    let mut st = fresh_state_with_channel(3);
    ch.nav_decode_lnav_subframe(&nav_data, &mut st);
    assert_eq!(ch.nav.eph.week, 2048);
    assert_eq!(ch.nav.eph.tow, 604800);
    assert_eq!(ch.nav.eph.tow_gpst_sec, 2048u64 * 604800 + 604800);
    assert_eq!(st.tow_gpst_sec, 2048u64 * 604800 + 604800);
    assert_eq!(st.updates, 1);
}

#[test]
fn test_subframe4_page18_sets_iono_utc_flags() {
    let mut w = [0u32; 10];
    w[0] = 0x8B << 16;
    w[1] = (100 & 0x1FFFF) << 7 | (4 << 2); // subframe id 4
    w[2] = (1 << 22) | (56 << 16); // data id 1, svid 56: the iono/UTC page
    let bits = encode_subframe(&w);
    let mut nav_data = vec![0u8; 300];
    assert!(Channel::nav_test_lnav_parity(&bits, &mut nav_data));
    let mut ch = Channel::new(Sv { prn: 1 });
    ch.num_trk_samples = 1;
    let mut st = fresh_state_with_channel(1);
    assert!(!st.ion_adj && !st.utc_adj);
    let id = ch.nav_decode_lnav_subframe(&nav_data, &mut st);
    assert_eq!(id, 4);
    assert!(st.ion_adj);
    assert!(st.utc_adj);
}

#[test]
fn test_subframe5_almanac_page_decode() {
    let mut w = [0u32; 10];
    w[0] = 0x8B << 16;
    w[1] = (200 & 0x1FFFF) << 7 | (5 << 2); // subframe id 5
    // data id 1, svid 3, then a recognizable bit pattern in the payload
    w[2] = (1 << 22) | (3 << 16) | 0xABCD;
    w[3] = 0x123456;
    w[4] = 0x654321;
    w[5] = 0x0F0F0F;
    w[6] = 0xF0F0F0;
    w[7] = 0x5A5A5A;
    w[8] = 0xC3C3C3;
    w[9] = 0x7E7E00;
    let bits = encode_subframe(&w);
    let mut nav_data = vec![0u8; 300];
    assert!(Channel::nav_test_lnav_parity(&bits, &mut nav_data));
    let mut ch = Channel::new(Sv { prn: 11 });
    ch.num_trk_samples = 1;
    let mut st = fresh_state_with_channel(11);
    let id = ch.nav_decode_lnav_subframe(&nav_data, &mut st);
    assert_eq!(id, 5);
    let a = &st.almanac[2]; // slot of PRN 3
    assert_eq!(a.e, read_field(&w, 68, 16));
    assert_eq!(a.toa, read_field(&w, 90, 8) * 4096);
    assert_eq!(a.svh, read_field(&w, 136, 8));
    assert_eq!(a.sqrta, read_field(&w, 150, 24));
    // signed 16-bit inclination offset
    let deltai_raw = read_field(&w, 98, 16);
    let deltai = if deltai_raw >= 0x8000 { deltai_raw as i32 - 0x10000 } else { deltai_raw as i32 };
    assert_eq!(a.deltai, deltai);
}

#[test]
fn test_subframe5_page25_health_week_toa() {
    let mut w = [0u32; 10];
    w[0] = 0x8B << 16;
    w[1] = (300 & 0x1FFFF) << 7 | (5 << 2);
    // data id 1, svid 51 (page 25), toa 0x7D, week 0x30
    w[2] = (1 << 22) | (51 << 16) | (0x7D << 8) | 0x30;
    w[3] = 0x3F << 18; // health of PRN 1 = 0x3F (bits 90..96)
    let bits = encode_subframe(&w);
    let mut nav_data = vec![0u8; 300];
    assert!(Channel::nav_test_lnav_parity(&bits, &mut nav_data));
    let mut ch = Channel::new(Sv { prn: 12 });
    ch.num_trk_samples = 1;
    let mut st = fresh_state_with_channel(12);
    ch.nav_decode_lnav_subframe(&nav_data, &mut st);
    for v in 0..32 {
        assert_eq!(st.almanac[v].week, 0x30 + 2048);
        assert_eq!(st.almanac[v].toas, 0x7D * 4096);
    }
    assert_eq!(st.almanac[0].svh, 0x3F);
    assert_eq!(st.almanac[1].svh, read_field(&w, 96, 6));
    assert_eq!(st.almanac[24].svh, 0); // PRN 25 health untouched on page 25 of subframe 5
}

#[test]
fn test_full_frame_decode_through_nav_decode() {
    let words = subframe1_words(7000, 50, 0x99, 0x10, 400, 0x05, 0x222, 0x1111);
    let bits = encode_subframe(&words);
    let scale = 1_000_000i32;
    let mut ch = Channel::new(Sv { prn: 21 });
    let mut st = fresh_state_with_channel(21);
    let l = ch.nav.bits.len();
    // FIFO tail: the 300 subframe symbols then seven of the eight preamble
    // symbols; the symbol emitted by this step completes the preamble
    for i in 0..300 {
        ch.nav.bits[l - 307 + i] = bits[i];
    }
    for i in 0..7 {
        ch.nav.bits[l - 7 + i] = PREAMBLE[i];
    }
    // a strong positive prompt history emits the final preamble bit 1
    for i in 0..40 {
        ch.hist.corr_p[i] = scale;
    }
    ch.num_trk_samples = 7199;
    ch.nav.bit_sync = 20;
    ch.record_prompt(scale);
    ch.nav_decode(&mut st);
    assert_eq!(ch.nav.nav_sync, 7200);
    assert_eq!(ch.nav.sync_state, SyncState::Normal);
    assert_eq!(ch.nav.count_parity_err, 0);
    assert_eq!(ch.nav.eph.tow, 7000 * 6);
    assert_eq!(ch.nav.eph.week, 50 + 2048);
    assert_eq!(ch.nav.eph.iodc, 0x99);
    assert_eq!(ch.nav.eph.af0, 0x1111);
}

#[test]
fn test_parity_error_resets_frame_sync() {
    let words = subframe1_words(7000, 50, 0x99, 0x10, 400, 0x05, 0x222, 0x1111);
    let mut bits = encode_subframe(&words);
    bits[100] ^= 1; // corrupt one symbol in the middle
    let scale = 1_000_000i32;
    let mut ch = Channel::new(Sv { prn: 22 });
    let mut st = fresh_state_with_channel(22);
    let l = ch.nav.bits.len();
    for i in 0..300 {
        ch.nav.bits[l - 307 + i] = bits[i];
    }
    for i in 0..7 {
        ch.nav.bits[l - 7 + i] = PREAMBLE[i];
    }
    for i in 0..40 {
        ch.hist.corr_p[i] = scale;
    }
    ch.num_trk_samples = 7199;
    ch.nav.bit_sync = 20;
    ch.record_prompt(scale);
    ch.nav_decode(&mut st);
    assert_eq!(ch.nav.count_parity_err, 1);
    assert_eq!(ch.nav.nav_sync, 0);
    assert_eq!(ch.nav.sync_state, SyncState::Normal);
    assert_eq!(st.updates, 0);
}

#[test]
fn test_sbas_prns_are_skipped() {
    let mut ch = Channel::new(Sv { prn: 130 });
    let mut st = GnssState::new();
    ch.record_prompt(500_000);
    let bit_sync_before = ch.nav.bit_sync;
    ch.nav_decode(&mut st);
    assert_eq!(ch.nav.bit_sync, bit_sync_before);
    assert_eq!(st.updates, 0);
}

#[test]
fn test_navigation_init_resets() {
    let mut ch = Channel::new(Sv { prn: 4 });
    ch.nav.bit_sync = 7;
    ch.nav.nav_sync = 9;
    let l = ch.nav.bits.len();
    ch.nav.bits[l - 1] = 1;
    ch.nav.init();
    assert_eq!(ch.nav.bit_sync, 0);
    assert_eq!(ch.nav.nav_sync, 0);
    assert_eq!(ch.nav.sync_state, SyncState::Normal);
    assert!(ch.nav.bits.iter().all(|&b| b == 0));
}

fn s_ext(v: u32, len: u32) -> i32 {
    if (v >> (len - 1)) & 1 == 1 {
        (v as i64 - (1i64 << len)) as i32
    } else {
        v as i32
    }
}

fn read_signed_split(w: &[u32; 10], p1: usize, l1: usize, p2: usize, l2: usize) -> i32 {
    let hi = s_ext(read_field(w, p1, l1), l1 as u32) as i64;
    let lo = read_field(w, p2, l2) as i64;
    (hi * (1i64 << l2) + lo) as i32
}

#[test]
fn test_subframes_1_2_3_complete_the_ephemeris() {
    let iode = 0x42u32;
    let mut ch = Channel::new(Sv { prn: 14 });
    ch.num_trk_samples = 1;
    let mut st = fresh_state_with_channel(14);

    // subframe 1 with IODC whose low byte matches the IODE
    let w1 = subframe1_words(600, 10, 0x142, 0x01, 100, 0, 0, 0x100);
    let bits = encode_subframe(&w1);
    let mut nav_data = vec![0u8; 300];
    assert!(Channel::nav_test_lnav_parity(&bits, &mut nav_data));
    ch.nav_decode_lnav_subframe(&nav_data, &mut st);
    assert!(!st.channels[13].unwrap().has_eph);

    // subframe 2
    let mut w2 = [0u32; 10];
    w2[0] = 0x8B << 16;
    w2[1] = (601 & 0x1FFFF) << 7 | (2 << 2);
    w2[2] = (iode << 16) | 0x8123; // IODE then Crs high bits
    w2[3] = 0x7FF123;
    w2[4] = 0xABCDEF;
    w2[5] = 0x991234;
    w2[6] = 0x567890;
    w2[7] = 0x13579B;
    w2[8] = 0x2468AC;
    w2[9] = (3000 << 8) | (1 << 7);
    let bits = encode_subframe(&w2);
    let mut nav_data = vec![0u8; 300];
    assert!(Channel::nav_test_lnav_parity(&bits, &mut nav_data));
    let id = ch.nav_decode_lnav_subframe(&nav_data, &mut st);
    assert_eq!(id, 2);
    let e = &ch.nav.eph;
    assert_eq!(e.iode, iode);
    assert_eq!(e.crs, s_ext(read_field(&w2, 68, 16), 16));
    assert_eq!(e.deltan, s_ext(read_field(&w2, 90, 16), 16));
    assert_eq!(e.m0, read_signed_split(&w2, 106, 8, 120, 24));
    assert_eq!(e.cuc, s_ext(read_field(&w2, 150, 16), 16));
    assert_eq!(
        e.e as u64,
        read_field(&w2, 166, 8) as u64 * (1u64 << 24) + read_field(&w2, 180, 24) as u64
    );
    assert_eq!(e.cus, s_ext(read_field(&w2, 210, 16), 16));
    assert_eq!(
        e.sqrta as u64,
        read_field(&w2, 226, 8) as u64 * (1u64 << 24) + read_field(&w2, 240, 24) as u64
    );
    assert_eq!(e.toes, 3000 * 16);
    assert_eq!(e.fit, 1);
    assert!(e.got_sf2 && !e.got_sf3);
    assert!(!st.channels[13].unwrap().has_eph);

    // subframe 3 carrying the same IODE completes the set
    let mut w3 = [0u32; 10];
    w3[0] = 0x8B << 16;
    w3[1] = (602 & 0x1FFFF) << 7 | (3 << 2);
    w3[2] = 0x8001F0;
    w3[3] = 0x7F0001;
    w3[4] = 0x123456;
    w3[5] = 0x818181;
    w3[6] = 0x424242;
    w3[7] = 0xC0FFEE;
    w3[8] = 0x800001;
    w3[9] = (iode << 16) | (0x1FFF << 2);
    let bits = encode_subframe(&w3);
    let mut nav_data = vec![0u8; 300];
    assert!(Channel::nav_test_lnav_parity(&bits, &mut nav_data));
    let id = ch.nav_decode_lnav_subframe(&nav_data, &mut st);
    assert_eq!(id, 3);
    let e = &ch.nav.eph;
    assert_eq!(e.cic, s_ext(read_field(&w3, 60, 16), 16));
    assert_eq!(e.omg0, read_signed_split(&w3, 76, 8, 90, 24));
    assert_eq!(e.cis, s_ext(read_field(&w3, 120, 16), 16));
    assert_eq!(e.i0, read_signed_split(&w3, 136, 8, 150, 24));
    assert_eq!(e.crc, s_ext(read_field(&w3, 180, 16), 16));
    assert_eq!(e.omg, read_signed_split(&w3, 196, 8, 210, 24));
    assert_eq!(e.omgd, s_ext(read_field(&w3, 240, 24), 24));
    assert_eq!(e.iode_sf3, iode);
    assert_eq!(e.idot, s_ext(read_field(&w3, 278, 14), 14));
    assert!(e.got_sf1 && e.got_sf2 && e.got_sf3);
    // SF1, SF2 and SF3 agree on the issue of data: the channel is flagged
    assert!(st.channels[13].unwrap().has_eph);
}

#[test]
fn test_subframe4_almanac_page_for_high_prn() {
    let mut w = [0u32; 10];
    w[0] = 0x8B << 16;
    w[1] = (700 & 0x1FFFF) << 7 | (4 << 2);
    w[2] = (1 << 22) | (28 << 16) | 0x1111; // data id 1, svid 28
    w[3] = 0x334455;
    w[5] = 0x667788;
    let bits = encode_subframe(&w);
    let mut nav_data = vec![0u8; 300];
    assert!(Channel::nav_test_lnav_parity(&bits, &mut nav_data));
    let mut ch = Channel::new(Sv { prn: 2 });
    ch.num_trk_samples = 1;
    let mut st = fresh_state_with_channel(2);
    ch.nav_decode_lnav_subframe(&nav_data, &mut st);
    let a = &st.almanac[27]; // slot of PRN 28
    assert_eq!(a.e, read_field(&w, 68, 16));
    assert_eq!(a.toa, read_field(&w, 90, 8) * 4096);
    assert_eq!(a.sqrta, read_field(&w, 150, 24));
    assert_eq!(st.almanac[0].e, 0); // other slots untouched
}

#[test]
fn test_subframe4_page25_svconf_and_health() {
    let mut w = [0u32; 10];
    w[0] = 0x8B << 16;
    w[1] = (800 & 0x1FFFF) << 7 | (4 << 2);
    w[2] = (1 << 22) | (63 << 16) | 0xDEAD; // data id 1, svid 63: page 25
    w[3] = 0xCAFE12;
    w[4] = 0x345678;
    w[5] = 0x9ABCDE;
    w[6] = 0xF01234;
    w[7] = 0x56789A;
    w[8] = 0xBCDEF0;
    w[9] = 0x0F1E2D;
    let bits = encode_subframe(&w);
    let mut nav_data = vec![0u8; 300];
    assert!(Channel::nav_test_lnav_parity(&bits, &mut nav_data));
    let mut ch = Channel::new(Sv { prn: 6 });
    ch.num_trk_samples = 1;
    let mut st = fresh_state_with_channel(6);
    ch.nav_decode_lnav_subframe(&nav_data, &mut st);
    let svconf_pos: [usize; 32] = [
        68, 72, 76, 80, 90, 94, 98, 102, 106, 110, 120, 124, 128, 132, 136, 140, 150, 154, 158,
        162, 166, 170, 180, 184, 188, 192, 196, 200, 210, 214, 218, 222,
    ];
    for sv in 1..=32usize {
        assert_eq!(
            st.almanac[sv - 1].svconf,
            read_field(&w, svconf_pos[sv - 1], 4),
            "svconf of PRN {}",
            sv
        );
    }
    let svh_pos: [usize; 8] = [228, 240, 246, 252, 258, 270, 276, 282];
    for sv in 25..=32usize {
        assert_eq!(st.almanac[sv - 1].svh, read_field(&w, svh_pos[sv - 25], 6));
    }
    assert_eq!(st.almanac[0].svh, 0); // low PRN health untouched by this page
}
