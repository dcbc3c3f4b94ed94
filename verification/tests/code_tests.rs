use gnss_test::code::Code;
use gnss_test::util::get_num_samples_per_msec;

#[test]
fn test_gold_code_prn1_first_chips() {
    // IS-GPS-200 gives the first ten chips of PRN 1 as octal 1440, binary
    // 1100100000; +1 carries a one bit in the generator's convention.
    let g = Code::gen_code("L1CA", 1).unwrap();
    assert_eq!(&g[0..10], &[1, 1, -1, -1, 1, -1, -1, -1, -1, -1]);
}

#[test]
fn test_gold_code_prn2_first_chips() {
    // PRN 2 begins with octal 1620, binary 1110010000.
    let g = Code::gen_code("L1CA", 2).unwrap();
    assert_eq!(&g[0..10], &[1, 1, 1, -1, -1, 1, -1, -1, -1, -1]);
}

#[test]
fn test_gold_code_length_and_bipolar() {
    for prn in 1..=32u8 {
        let g = Code::gen_code("L1CA", prn).unwrap();
        assert_eq!(g.len(), 1023);
        for &c in &g {
            assert!(c == 1 || c == -1);
        }
    }
}

#[test]
fn test_gold_code_zero_shift_autocorrelation() {
    for prn in 1..=32u8 {
        let g = Code::gen_code("L1CA", prn).unwrap();
        let r0: i32 = g.iter().map(|&c| (c as i32) * (c as i32)).sum();
        assert_eq!(r0, 1023);
    }
}

#[test]
fn test_gold_code_offpeak_autocorrelation_levels() {
    // A Gold code's cyclic autocorrelation off the peak takes only the
    // three values -65, -1 and 63.
    let g = Code::gen_code("L1CA", 1).unwrap();
    for shift in 1..1023usize {
        let mut r: i32 = 0;
        for i in 0..1023usize {
            r += (g[i] as i32) * (g[(i + shift) % 1023] as i32);
        }
        assert!(r == -65 || r == -1 || r == 63, "shift {} gave {}", shift, r);
    }
}

#[test]
fn test_gold_codes_differ_between_prns() {
    let a = Code::gen_code("L1CA", 1).unwrap();
    let b = Code::gen_code("L1CA", 2).unwrap();
    assert_ne!(a, b);
}

#[test]
fn test_gen_code_rejects_unknown_signal() {
    assert!(Code::gen_code("L5", 1).is_none());
    assert!(Code::gen_code("", 1).is_none());
    assert!(Code::gen_code("l1ca", 1).is_none());
}

#[test]
fn test_num_samples_per_msec() {
    assert_eq!(get_num_samples_per_msec(), 2046);
}
