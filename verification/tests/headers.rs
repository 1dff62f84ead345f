use msu1_reverse::header::{encode_header, parse_header};
use msu1_reverse::PcmError;

#[test]
fn parse_header_no_loop() {
    let h = [77u8, 83, 85, 49, 0, 0, 0, 0];
    assert_eq!(parse_header(&h), Ok(None));
}

#[test]
fn parse_header_with_loop() {
    let h = [77u8, 83, 85, 49, 5, 0, 0, 0];
    assert_eq!(parse_header(&h), Ok(Some(5)));
}

#[test]
fn parse_header_large_loop_point() {
    // 0x00C0FFEE little-endian in the field.
    let h = [77u8, 83, 85, 49, 0xEE, 0xFF, 0xC0, 0x00];
    assert_eq!(parse_header(&h), Ok(Some(0x00C0FFEE)));
}

#[test]
fn parse_header_bad_magic() {
    let h = [77u8, 83, 85, 50, 0, 0, 0, 0];
    assert_eq!(parse_header(&h), Err(PcmError::BadMagic));
}

#[test]
fn parse_header_truncated() {
    let h = [77u8, 83, 85];
    assert_eq!(parse_header(&h), Err(PcmError::TruncatedHeader));
}

#[test]
fn encode_header_concrete() {
    // 44100 == 0xAC44.
    assert_eq!(encode_header(44100), vec![77u8, 83, 85, 49, 0x44, 0xAC, 0, 0]);
}

#[test]
fn header_field_round_trip() {
    for field in [1u32, 255, 256, 44100, 0xFFFF_FFFF] {
        let bytes = encode_header(field);
        assert_eq!(parse_header(&bytes), Ok(Some(field)));
    }
    assert_eq!(parse_header(&encode_header(0)), Ok(None));
}
