use ui24_session::{
    pad_to_block_size, validate_parameters, AudioConversionError, DecodedPcm, FlacEncoder,
    FlacEncodingError, DEFAULT_BLOCK_SIZE,
};

#[test]
fn encodes_mono_pcm_as_flac() {
    let samples = [0_i32, 100, -100, 500, -500];

    let result = FlacEncoder.encode_pcm(&samples, 48_000, 1, 16);

    assert!(result.is_ok(), "conversion failed: {result:?}");
    assert!(result.unwrap().starts_with(b"fLaC"));
}

#[test]
fn rejects_incomplete_interleaved_frame() {
    let result = FlacEncoder.encode_pcm(&[0, 1, 2], 48_000, 2, 16);

    assert!(matches!(
        result,
        Err(FlacEncodingError::InvalidParameters(_))
    ));
}

#[test]
fn rejects_zero_sample_rate() {
    let result = FlacEncoder.encode_pcm(&[0], 0, 1, 16);

    assert!(matches!(
        result,
        Err(FlacEncodingError::InvalidParameters(_))
    ));
}

#[test]
fn rejects_samples_outside_declared_bit_depth() {
    let result = FlacEncoder.encode_pcm(&[128], 48_000, 1, 8);

    assert!(matches!(
        result,
        Err(FlacEncodingError::InvalidParameters(_))
    ));
}

#[test]
fn encodes_stereo_24_bit_pcm() {
    let samples: Vec<i32> = (0..2000).map(|index| (index % 700) * 1000 - 350_000).collect();

    let encoded = FlacEncoder
        .encode_pcm(&samples, 44_100, 2, 24)
        .expect("24-bit stereo should encode");

    assert!(encoded.starts_with(b"fLaC"));
}

#[test]
fn parameter_messages() {
    let message = |result: Result<(), FlacEncodingError>| match result {
        Err(FlacEncodingError::InvalidParameters(text)) => text,
        other => panic!("unexpected result: {other:?}"),
    };
    assert_eq!(message(validate_parameters(&[0], 0, 1, 16)), "The sample rate must be greater than zero.");
    assert_eq!(message(validate_parameters(&[0], 8_000, 0, 16)), "The channel count must be greater than zero.");
    assert_eq!(message(validate_parameters(&[0], 8_000, 1, 3)), "The bit depth must be between 4 and 32 bits per sample.");
    assert_eq!(message(validate_parameters(&[0], 8_000, 1, 33)), "The bit depth must be between 4 and 32 bits per sample.");
    assert_eq!(message(validate_parameters(&[0, 1, 2], 8_000, 2, 16)), "The sample buffer must contain complete interleaved frames.");
    assert_eq!(message(validate_parameters(&[-129], 8_000, 1, 8)), "A PCM sample exceeds the declared bit depth.");
    assert!(validate_parameters(&[-128, 127], 8_000, 1, 8).is_ok());
    assert!(validate_parameters(&[i32::MIN, i32::MAX], 8_000, 1, 32).is_ok());
    assert!(validate_parameters(&[-8, 7], 8_000, 1, 4).is_ok());
    assert_eq!(message(validate_parameters(&[8], 8_000, 1, 4)), "A PCM sample exceeds the declared bit depth.");
}

#[test]
fn padding_fills_whole_blocks_with_silence() {
    let samples = vec![1_i32, 2, 3, 4, 5, 6];

    let padded = pad_to_block_size(&samples, 2);

    assert_eq!(padded.len(), DEFAULT_BLOCK_SIZE * 2);
    assert_eq!(&padded[..6], &samples[..]);
    assert!(padded[6..].iter().all(|sample| *sample == 0));
    let whole = vec![7_i32; DEFAULT_BLOCK_SIZE];
    assert_eq!(pad_to_block_size(&whole, 1), whole);
}

#[test]
fn decoded_pcm_errors_become_encoding_errors() {
    let decoded = DecodedPcm { samples: vec![0, 1, 2], sample_rate: 48_000, channels: 2, bits_per_sample: 16 };

    let result = FlacEncoder.encode_decoded(&decoded);

    assert_eq!(
        result,
        Err(AudioConversionError::Encoding(
            "The sample buffer must contain complete interleaved frames.".to_owned()
        ))
    );
}

fn stream_info(bytes: &[u8]) -> (u64, u64, u64, u64) {
    let rate = (u64::from(bytes[18]) << 12) | (u64::from(bytes[19]) << 4) | (u64::from(bytes[20]) >> 4);
    let channels = ((u64::from(bytes[20]) >> 1) & 0x7) + 1;
    let bits = ((u64::from(bytes[20]) & 1) << 4 | (u64::from(bytes[21]) >> 4)) + 1;
    let total = (u64::from(bytes[21]) & 0xf) << 32
        | u64::from(bytes[22]) << 24
        | u64::from(bytes[23]) << 16
        | u64::from(bytes[24]) << 8
        | u64::from(bytes[25]);
    (rate, channels, bits, total)
}

#[test]
fn stream_info_declares_parameters_and_unpadded_frames() {
    let mono = FlacEncoder.encode_pcm(&[0, 100, -100, 500, -500], 48_000, 1, 16).expect("mono encodes");
    assert_eq!(stream_info(&mono), (48_000, 1, 16, 5));

    let samples: Vec<i32> = (0..9000).map(|index| (index % 700) * 1000 - 350_000).collect();
    let stereo = FlacEncoder.encode_pcm(&samples, 44_100, 2, 24).expect("stereo encodes");
    assert_eq!(stream_info(&stereo), (44_100, 2, 24, 4500));
}

#[test]
fn encoding_is_repeatable() {
    let samples: Vec<i32> = (0..10_000).map(|index| (index % 300) - 150).collect();
    let first = FlacEncoder.encode_pcm(&samples, 48_000, 2, 16).expect("encodes");
    let second = FlacEncoder.encode_pcm(&samples, 48_000, 2, 16).expect("encodes");
    assert_eq!(first, second);
}
