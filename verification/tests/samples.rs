use msu1_reverse::sample::{decode_sample, encode_sample, scale_sample};

#[test]
fn decode_sample_exact_values() {
    assert_eq!(decode_sample(0, 0), 0);
    assert_eq!(decode_sample(1, 0), 1);
    assert_eq!(decode_sample(0, 64), 16384);
    assert_eq!(decode_sample(255, 127), 32767);
    assert_eq!(decode_sample(255, 255), -1);
    assert_eq!(decode_sample(0, 128), -32768);
}

#[test]
fn encode_sample_exact_values() {
    assert_eq!(encode_sample(0), (0, 0));
    assert_eq!(encode_sample(1), (1, 0));
    assert_eq!(encode_sample(16384), (0, 64));
    assert_eq!(encode_sample(32767), (255, 127));
    assert_eq!(encode_sample(-1), (255, 255));
    assert_eq!(encode_sample(-32768), (0, 128));
}

#[test]
fn sample_codec_round_trip() {
    for v in [-32768i32, -32767, -1, 0, 1, 255, 256, 32767] {
        let (lo, hi) = encode_sample(v);
        assert_eq!(decode_sample(lo, hi), v);
    }
}

#[test]
fn scale_sample_exact_values() {
    // Unity minus one step: 32767 * 65535 / 65536 rounds down to 32766.
    assert_eq!(scale_sample(32767, 65535, 0), 32766);
    // Half gain on 16384 lands exactly on 8192.
    assert_eq!(scale_sample(16384, 32768, 0), 8192);
    // The shift floors toward negative infinity, so a bare negative
    // dither at zero gain gives -1, not 0.
    assert_eq!(scale_sample(100, 0, -1), -1);
    assert_eq!(scale_sample(100, 0, 0), 0);
    // The extreme corner stays inside 16 bits.
    assert_eq!(scale_sample(-32768, 65535, -32768), -32768);
    assert_eq!(scale_sample(-32768, 65535, 32768), -32767);
}
