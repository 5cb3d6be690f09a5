use ui24_session::{
    append_samples, decode_failure_step, drain_step, finish_decoding, mp3_error, next_packet_step,
    require_audio_bytes, stream_parameters, AudioConversionError, AudioFormat, AudioMetadata,
    AudioProcessingError, ChannelAssignment, DecodeStep, DrainStep, Mp3Encoder, Mp3PacketOutcome,
    PacketEvent, SymphoniaMetadataReader,
};

#[test]
fn audio_formats_from_extensions() {
    assert_eq!(AudioFormat::from_extension("wav"), Some(AudioFormat::Wav));
    assert_eq!(AudioFormat::from_extension(".FLAC"), Some(AudioFormat::Flac));
    assert_eq!(AudioFormat::from_extension("..Aif"), Some(AudioFormat::Aiff));
    assert_eq!(AudioFormat::from_extension("aiff"), Some(AudioFormat::Aiff));
    assert_eq!(AudioFormat::from_extension("Mp3"), Some(AudioFormat::Mp3));
    assert_eq!(AudioFormat::from_extension("ogg"), None);
    assert_eq!(AudioFormat::from_extension(""), None);
    assert_eq!(AudioFormat::Aiff.extension(), "aiff");
    assert_eq!(AudioFormat::Flac.name(), "FLAC");
}

#[test]
fn channel_assignments_stop_at_twenty_one() {
    assert_eq!(ChannelAssignment::new(21).map(|c| c.index()), Some(21));
    assert!(ChannelAssignment::new(22).is_none());
    assert_eq!(ChannelAssignment::new(0).expect("channel").label(), "i.0");
    assert_eq!(ChannelAssignment::new(14).expect("channel").label(), "i.14");
}

#[test]
fn empty_sources_are_refused() {
    assert_eq!(
        require_audio_bytes(&[]),
        Err(AudioConversionError::InvalidInput("The audio source is empty.".to_owned()))
    );
    assert!(require_audio_bytes(&[1]).is_ok());
    assert_eq!(
        SymphoniaMetadataReader::require_audio_bytes(&[]),
        Err(AudioProcessingError::ReadFailed("The audio source is empty.".to_owned()))
    );
}

#[test]
fn stream_parameters_require_rate_and_channels() {
    assert_eq!(stream_parameters(Some(44_100), Some(2), None), Ok((44_100, 2, 16)));
    assert_eq!(stream_parameters(Some(44_100), Some(1), Some(24)), Ok((44_100, 1, 24)));
    assert_eq!(
        stream_parameters(None, Some(1), Some(24)),
        Err(AudioConversionError::InvalidInput("The audio source has no sample rate.".to_owned()))
    );
    assert_eq!(
        stream_parameters(Some(8_000), None, None),
        Err(AudioConversionError::InvalidInput("The audio source has no channels.".to_owned()))
    );
}

#[test]
fn packet_steps() {
    assert_eq!(next_packet_step(3, PacketEvent::Packet { track_id: 3 }), DecodeStep::DecodePacket);
    assert_eq!(next_packet_step(3, PacketEvent::Packet { track_id: 4 }), DecodeStep::SkipPacket);
    assert_eq!(next_packet_step(3, PacketEvent::UnexpectedEof), DecodeStep::Finish);
    assert_eq!(next_packet_step(3, PacketEvent::Failed("end of stream".to_owned())), DecodeStep::Finish);
    assert_eq!(
        next_packet_step(3, PacketEvent::Failed("bad".to_owned())),
        DecodeStep::Fail(AudioConversionError::Decode("next_packet: bad".to_owned()))
    );
    assert_eq!(
        next_packet_step(3, PacketEvent::ResetRequired),
        DecodeStep::Fail(AudioConversionError::Decode("The audio decoder requires a reset.".to_owned()))
    );
    assert_eq!(decode_failure_step("end of stream".to_owned()), DecodeStep::Finish);
    assert_eq!(
        decode_failure_step("oops".to_owned()),
        DecodeStep::Fail(AudioConversionError::Decode("decode: oops".to_owned()))
    );
}

#[test]
fn decoded_samples_are_rescaled_to_their_depth() {
    let mut samples = vec![9];
    append_samples(&mut samples, &[0x7fff_0000, -0x0001_0000, 0x0100], 16);
    assert_eq!(samples, vec![9, 0x7fff, -1, 0]);
    let mut full = Vec::new();
    append_samples(&mut full, &[-5, 5], 32);
    assert_eq!(full, vec![-5, 5]);
}

#[test]
fn finishing_checks_sixteen_bit_fields() {
    let decoded = finish_decoding(vec![1, 2], 48_000, 2, 24).expect("fits");
    assert_eq!(decoded.channels, 2);
    assert_eq!(decoded.bits_per_sample, 24);
    assert_eq!(decoded.samples, vec![1, 2]);
    assert_eq!(
        finish_decoding(vec![], 48_000, 70_000, 24).map(|d| d.channels),
        Err(AudioConversionError::InvalidInput("The channel count is too large.".to_owned()))
    );
    assert_eq!(
        finish_decoding(vec![], 48_000, 2, 70_000).map(|d| d.channels),
        Err(AudioConversionError::InvalidInput("The bit depth is too large.".to_owned()))
    );
}

#[test]
fn metadata_from_declared_parameters() {
    let metadata = SymphoniaMetadataReader::metadata_from_parameters(
        AudioFormat::Flac,
        Some(48_000),
        Some(16),
        Some(1),
        Some(4096),
    );
    assert_eq!(
        metadata,
        Ok(AudioMetadata {
            format: AudioFormat::Flac,
            sample_rate: 48_000,
            bit_depth: 16,
            channel_count: 1,
            duration_samples: 4096,
        })
    );
    let compressed = SymphoniaMetadataReader::metadata_from_parameters(AudioFormat::Mp3, Some(44_100), None, Some(2), Some(10));
    assert_eq!(compressed.map(|m| m.bit_depth), Ok(0));
    assert_eq!(
        SymphoniaMetadataReader::metadata_from_parameters(AudioFormat::Wav, Some(44_100), Some(16), Some(2), None),
        Err(AudioProcessingError::InvalidMetadata("The audio source does not declare a duration.".to_owned()))
    );
    assert_eq!(
        SymphoniaMetadataReader::metadata_from_parameters(AudioFormat::Wav, None, Some(16), Some(2), Some(1)),
        Err(AudioProcessingError::InvalidMetadata("The audio source does not declare a sample rate.".to_owned()))
    );
}

#[test]
fn mp3_parameters_and_draining() {
    assert!(Mp3Encoder.check_pcm_parameters(&[0, 1], 44_100, 2).is_ok());
    assert_eq!(
        Mp3Encoder.check_pcm_parameters(&[0, 1, 2], 44_100, 2),
        Err(AudioConversionError::InvalidInput("Invalid PCM parameters for MP3 encoding.".to_owned()))
    );
    assert_eq!(drain_step(Mp3PacketOutcome::Packet, false), DrainStep::Append);
    assert_eq!(drain_step(Mp3PacketOutcome::Again("Again".to_owned()), false), DrainStep::Stop);
    assert_eq!(
        drain_step(Mp3PacketOutcome::Again("Again".to_owned()), true),
        DrainStep::Fail(AudioConversionError::Encoding("MP3 encoding failed: Again".to_owned()))
    );
    assert_eq!(drain_step(Mp3PacketOutcome::EndOfStream, true), DrainStep::Stop);
    assert_eq!(mp3_error("X"), AudioConversionError::Encoding("MP3 encoding failed: X".to_owned()));
}
