use ui24_session::{encode_pcm_as_wav, AudioConversionError, DecodedPcm, WavEncoder};

fn u16_at(bytes: &[u8], at: usize) -> u16 {
    u16::from_le_bytes([bytes[at], bytes[at + 1]])
}

fn u32_at(bytes: &[u8], at: usize) -> u32 {
    u32::from_le_bytes([bytes[at], bytes[at + 1], bytes[at + 2], bytes[at + 3]])
}

#[test]
fn encodes_canonical_16_bit_header_and_samples() {
    let samples = [0_i32, 100, -100, 32_767];

    let wav = encode_pcm_as_wav(&samples, 48_000, 2, 16).expect("valid PCM");

    assert_eq!(wav.len(), 44 + 8);
    assert_eq!(&wav[0..4], b"RIFF");
    assert_eq!(u32_at(&wav, 4), 36 + 8);
    assert_eq!(&wav[8..12], b"WAVE");
    assert_eq!(&wav[12..16], b"fmt ");
    assert_eq!(u32_at(&wav, 16), 16);
    assert_eq!(u16_at(&wav, 20), 1);
    assert_eq!(u16_at(&wav, 22), 2);
    assert_eq!(u32_at(&wav, 24), 48_000);
    assert_eq!(u32_at(&wav, 28), 192_000);
    assert_eq!(u16_at(&wav, 32), 4);
    assert_eq!(u16_at(&wav, 34), 16);
    assert_eq!(&wav[36..40], b"data");
    assert_eq!(u32_at(&wav, 40), 8);
    assert_eq!(&wav[44..], &[0, 0, 100, 0, 0x9c, 0xff, 0xff, 0x7f]);
}

#[test]
fn encodes_8_24_and_32_bit_samples() {
    let eight = encode_pcm_as_wav(&[-128, 0, 127], 8_000, 1, 8).expect("8-bit");
    assert_eq!(&eight[44..], &[0, 128, 255]);
    let twenty_four = encode_pcm_as_wav(&[-2, 0x123456], 8_000, 1, 24).expect("24-bit");
    assert_eq!(&twenty_four[44..], &[0xfe, 0xff, 0xff, 0x56, 0x34, 0x12]);
    assert_eq!(u16_at(&twenty_four, 32), 3);
    let thirty_two = encode_pcm_as_wav(&[-1, 0x01020304], 8_000, 1, 32).expect("32-bit");
    assert_eq!(&thirty_two[44..], &[0xff, 0xff, 0xff, 0xff, 4, 3, 2, 1]);
}

#[test]
fn rejects_invalid_wav_parameters() {
    assert_eq!(
        encode_pcm_as_wav(&[0], 0, 1, 16),
        Err(AudioConversionError::InvalidInput("The sample rate must be greater than zero.".to_owned()))
    );
    assert_eq!(
        encode_pcm_as_wav(&[0], 8_000, 0, 16),
        Err(AudioConversionError::InvalidInput("The channel count must be greater than zero.".to_owned()))
    );
    assert_eq!(
        encode_pcm_as_wav(&[0], 8_000, 1, 12),
        Err(AudioConversionError::Encoding(
            "WAV output only supports 8, 16, 24, or 32-bit PCM; the source declares 12-bit samples.".to_owned()
        ))
    );
    assert_eq!(
        encode_pcm_as_wav(&[0, 1, 2], 8_000, 2, 16),
        Err(AudioConversionError::InvalidInput(
            "The sample buffer must contain complete interleaved frames.".to_owned()
        ))
    );
}

#[test]
fn overflowing_header_fields_are_reported_as_aborted_decoding() {
    let decoded = DecodedPcm { samples: vec![0, 0], sample_rate: u32::MAX, channels: 2, bits_per_sample: 16 };

    let result = WavEncoder.encode_decoded(&decoded);

    assert_eq!(
        result,
        Err(AudioConversionError::Decode(
            "The audio decoder panicked while parsing a malformed or truncated input.".to_owned()
        ))
    );
    let fine = DecodedPcm { samples: vec![1, 2], sample_rate: 44_100, channels: 1, bits_per_sample: 16 };
    assert_eq!(WavEncoder.encode_decoded(&fine).expect("valid").len(), 48);
}
