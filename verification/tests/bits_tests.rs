use gnss_test::bits::{bits_equal, bits_opposed, getbits, getbits2, getbitu, getbitu2, setbitu, xor_bits};

#[test]
fn test_getbitu_reads_msb_first() {
    let buf = [0x8Bu8, 0x12, 0xF0];
    assert_eq!(getbitu(&buf, 0, 8), 0x8B);
    assert_eq!(getbitu(&buf, 0, 4), 0x8);
    assert_eq!(getbitu(&buf, 4, 4), 0xB);
    assert_eq!(getbitu(&buf, 8, 8), 0x12);
    assert_eq!(getbitu(&buf, 4, 8), 0xB1);
    assert_eq!(getbitu(&buf, 0, 0), 0);
}

#[test]
fn test_getbits_sign_extends() {
    let buf = [0xFFu8, 0x00, 0x80];
    assert_eq!(getbits(&buf, 0, 8), -1);
    assert_eq!(getbits(&buf, 0, 4), -1);
    assert_eq!(getbits(&buf, 8, 8), 0);
    assert_eq!(getbits(&buf, 16, 8), -128);
    assert_eq!(getbits(&buf, 16, 2), -2);
}

#[test]
fn test_getbits2_combines_split_field() {
    // high part -1 (4 bits), low part 0x5 (4 bits): -1 * 16 + 5 = -11
    let buf = [0xF5u8];
    assert_eq!(getbits2(&buf, 0, 4, 4, 4), -11);
}

#[test]
fn test_getbitu2_combines_split_field() {
    let buf = [0xABu8, 0xCD];
    assert_eq!(getbitu2(&buf, 0, 8, 8, 8), 0xABCD);
}

#[test]
fn test_setbitu_roundtrip_and_frame() {
    let mut buf = vec![0u8; 4];
    setbitu(&mut buf, 5, 11, 0x5A5);
    assert_eq!(getbitu(&buf, 5, 11), 0x5A5);
    assert_eq!(getbitu(&buf, 0, 5), 0);
    assert_eq!(getbitu(&buf, 16, 16), 0);
    setbitu(&mut buf, 5, 11, 0);
    assert_eq!(getbitu(&buf, 0, 32), 0);
}

#[test]
fn test_xor_bits_parity() {
    assert_eq!(xor_bits(0), 0);
    assert_eq!(xor_bits(1), 1);
    assert_eq!(xor_bits(3), 0);
    assert_eq!(xor_bits(7), 1);
    assert_eq!(xor_bits(0xFFFF_FFFF), 0);
    assert_eq!(xor_bits(0x8000_0001), 0);
    assert_eq!(xor_bits(0x8000_0000), 1);
}

#[test]
fn test_bits_equal_and_opposed() {
    let a = [1u8, 0, 1, 1];
    let b = [1u8, 0, 1, 1];
    let c = [0u8, 1, 0, 0];
    let d = [1u8, 1, 0, 0];
    assert!(bits_equal(&a, &b));
    assert!(!bits_equal(&a, &c));
    assert!(bits_opposed(&a, &c));
    assert!(!bits_opposed(&a, &d));
    assert!(!bits_opposed(&a, &b));
}
