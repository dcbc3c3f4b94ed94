use gnss_test::recording::{decode_pair_i16, decode_pair_i8, decode_real_i8, IQFileType, IQRecording};

#[test]
fn test_file_type_names_parse() {
    assert_eq!(IQFileType::from_str("2xf32"), Some(IQFileType::TypePairFloat32));
    assert_eq!(IQFileType::from_str("2xi16"), Some(IQFileType::TypePairInt16));
    assert_eq!(IQFileType::from_str("2xi8"), Some(IQFileType::TypePairInt8));
    assert_eq!(IQFileType::from_str("i8"), Some(IQFileType::TypeOneInt8));
    assert_eq!(IQFileType::from_str("2xf64"), None);
    assert_eq!(IQFileType::from_str(""), None);
}

#[test]
fn test_sample_sizes() {
    assert_eq!(IQRecording::get_sample_size_bytes(&IQFileType::TypePairFloat32), 8);
    assert_eq!(IQRecording::get_sample_size_bytes(&IQFileType::TypePairInt16), 4);
    assert_eq!(IQRecording::get_sample_size_bytes(&IQFileType::TypePairInt8), 2);
    assert_eq!(IQRecording::get_sample_size_bytes(&IQFileType::TypeOneInt8), 1);
}

#[test]
fn test_recording_constructor_keeps_fields() {
    let r = IQRecording::new(String::from("capture.bin"), 2046000, IQFileType::TypePairInt16);
    assert_eq!(r.file_path, "capture.bin");
    assert_eq!(r.sample_rate, 2046000);
    assert_eq!(r.file_type, IQFileType::TypePairInt16);
}

#[test]
fn test_decode_pair_i8_samples() {
    let bytes = [0x01u8, 0xFF, 0x7F, 0x80, 0x55];
    let v = decode_pair_i8(&bytes);
    assert_eq!(v.len(), 2); // the trailing odd byte is dropped
    assert_eq!(v[0], (1, -1));
    assert_eq!(v[1], (127, -128));
}

#[test]
fn test_decode_real_i8_samples() {
    let bytes = [0x00u8, 0xFE, 0x7F];
    let v = decode_real_i8(&bytes);
    assert_eq!(v, vec![(0, 0), (-2, 0), (127, 0)]);
}

#[test]
fn test_decode_pair_i16_little_endian() {
    let bytes = [0x34u8, 0x12, 0xFF, 0xFF, 0x00, 0x80, 0x01, 0x00, 0xAA];
    let v = decode_pair_i16(&bytes);
    assert_eq!(v.len(), 2);
    assert_eq!(v[0], (0x1234, -1));
    assert_eq!(v[1], (i16::MIN, 1));
}
