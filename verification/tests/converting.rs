use msu1_reverse::{convert, PcmError};

fn envelope_gains(fade_samples: usize) -> Vec<i32> {
    let mut gains = Vec::with_capacity(fade_samples);
    let mut fade_rem = fade_samples;
    while fade_rem >= 1 {
        let gain = ((-6.0f32 * (fade_rem as f32) / (fade_samples as f32)).exp() * 65536.0) as i32;
        gains.push(gain);
        fade_rem -= 1;
    }
    gains
}

fn file_image(field: u32, payload: &[u8]) -> Vec<u8> {
    let mut image = vec![77u8, 83, 85, 49];
    image.extend_from_slice(&field.to_le_bytes());
    image.extend_from_slice(payload);
    image
}

#[test]
fn convert_no_loop_is_exact_reversal() {
    // Without a loop point the output is deterministic: header field
    // zero and the payload reversed frame by frame, no dither at all.
    let input = file_image(0, &[1, 2, 3, 4, 5, 6, 7, 8, 9, 10, 11, 12]);
    let mut rng = rand::thread_rng();
    let out = convert(&input, &[], &mut rng).unwrap();
    let expected = file_image(0, &[9, 10, 11, 12, 5, 6, 7, 8, 1, 2, 3, 4]);
    assert_eq!(out, expected);
}

#[test]
fn convert_no_loop_ignores_gains() {
    // A zero loop-point field bypasses the fade: the gain table is
    // not applied and the output field stays zero.
    let input = file_image(0, &[1, 2, 3, 4]);
    let gains = envelope_gains(44100);
    let mut rng = rand::thread_rng();
    let out = convert(&input, &gains, &mut rng).unwrap();
    assert_eq!(out, file_image(0, &[1, 2, 3, 4]));
}

#[test]
fn convert_loop_drops_intro() {
    // Loop point at frame 2 of 4: the two intro frames vanish and the
    // rest comes out reversed (no fade: the gain table is empty).
    let input = file_image(2, &[1, 2, 3, 4, 5, 6, 7, 8, 9, 10, 11, 12, 13, 14, 15, 16]);
    let mut rng = rand::thread_rng();
    let out = convert(&input, &[], &mut rng).unwrap();
    assert_eq!(out, file_image(0, &[13, 14, 15, 16, 9, 10, 11, 12]));
}

#[test]
fn convert_empty_payload() {
    let input = file_image(0, &[]);
    let mut rng = rand::thread_rng();
    let out = convert(&input, &[], &mut rng).unwrap();
    assert_eq!(out, file_image(0, &[]));
}

#[test]
fn convert_unaligned_payload_rejected() {
    // Six payload bytes are not a whole number of frames.
    let input = file_image(0, &[1, 2, 3, 4, 5, 6]);
    let mut rng = rand::thread_rng();
    assert_eq!(convert(&input, &[], &mut rng), Err(PcmError::UnalignedPayload));
}

#[test]
fn convert_bad_magic_rejected() {
    let mut input = file_image(0, &[1, 2, 3, 4]);
    input[3] = 50;
    let mut rng = rand::thread_rng();
    assert_eq!(convert(&input, &[], &mut rng), Err(PcmError::BadMagic));
}

#[test]
fn convert_truncated_rejected() {
    let input = [77u8, 83, 85, 49, 0];
    let mut rng = rand::thread_rng();
    assert_eq!(convert(&input, &[], &mut rng), Err(PcmError::TruncatedHeader));
}

#[test]
fn convert_loop_past_end_rejected() {
    // Loop point 3 in a 2-frame payload.
    let input = file_image(3, &[1, 2, 3, 4, 5, 6, 7, 8]);
    let mut rng = rand::thread_rng();
    assert_eq!(convert(&input, &[], &mut rng), Err(PcmError::LoopPastEnd));
}

#[test]
fn header_round_trip_scenario() {
    // Loop point at frame 5 of a 20-frame payload, one second of
    // fade: 44100 fade frames.  The output header carries the fade
    // length in the repurposed field and the payload shrinks by the
    // five dropped frames.
    let mut payload = Vec::new();
    for i in 0..80u32 {
        payload.push((i % 256) as u8);
    }
    let input = file_image(5, &payload);
    let fade_samples = (1.0f32 * 44100.0 + 0.5).floor() as usize;
    assert_eq!(fade_samples, 44100);
    let gains = envelope_gains(fade_samples);
    let mut rng = rand::thread_rng();
    let out = convert(&input, &gains, &mut rng).unwrap();
    assert_eq!(&out[0..4], &[77u8, 83, 85, 49]);
    assert_eq!(&out[4..8], &44100u32.to_le_bytes());
    assert_eq!(out.len() - 8, (20 - 5) * 4);
}
