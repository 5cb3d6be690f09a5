use ui24_session::{
    check_zip_output, generate_configuration_for_extension, require_inputs, require_session_size,
    session_audio_extension, session_file_name, session_name, validate_session, AudioFormat, AudioMetadata, OutputFormat,
    OutputNames, SessionDraft,
};

fn metadata(sample_rate: u32, duration_samples: u64) -> AudioMetadata {
    AudioMetadata {
        format: AudioFormat::Wav,
        sample_rate,
        bit_depth: 16,
        channel_count: 1,
        duration_samples,
    }
}

#[test]
fn output_names_refuse_a_second_claim() {
    let mut names = OutputNames::new();
    assert_eq!(names.claim("kick", "flac"), Ok("kick.flac".to_owned()));
    assert_eq!(names.claim("snare", "flac"), Ok("snare.flac".to_owned()));
    assert_eq!(
        names.claim("kick", "flac"),
        Err("multiple inputs would write kick.flac".to_owned())
    );
    assert_eq!(names.claim("kick", "wav"), Ok("kick.wav".to_owned()));
}

#[test]
fn draft_assigns_channels_in_order_and_keeps_the_longest_length() {
    let mut draft = SessionDraft::new();
    assert_eq!(draft.track_count(), 0);
    assert_eq!(draft.add_track("in/a.wav", Some("a"), "flac", metadata(48_000, 100)), Ok(()));
    assert_eq!(draft.add_track("in/b.wav", Some("b"), "flac", metadata(48_000, 300)), Ok(()));
    assert_eq!(draft.add_track("in/c.wav", Some("c"), "flac", metadata(48_000, 200)), Ok(()));
    assert_eq!(draft.track_count(), 3);

    let session = draft.finish("Show".to_owned());
    assert_eq!(session.metadata.name, "Show");
    assert_eq!(session.metadata.sample_rate, 48_000);
    assert_eq!(session.metadata.duration_samples, 300);
    assert_eq!(session.tracks.len(), 3);
    for (index, track) in session.tracks.iter().enumerate() {
        assert_eq!(usize::from(track.channel.index()), index);
    }
    assert_eq!(session.tracks[1].display_name, "b");
    assert_eq!(session.tracks[1].file_name, "b.flac");
    assert!(validate_session(&session).is_empty());
    let configuration = generate_configuration_for_extension(&session, "flac").expect("valid session");
    assert_eq!(configuration.length_seconds(), 0);
    assert_eq!(configuration.length_samples(), 0);
}

#[test]
fn draft_refuses_a_second_sample_rate() {
    let mut draft = SessionDraft::new();
    assert_eq!(draft.add_track("a.wav", Some("a"), "wav", metadata(48_000, 10)), Ok(()));
    assert_eq!(
        draft.add_track("b.wav", Some("b"), "wav", metadata(44_100, 10)),
        Err("sample rate mismatch: b.wav uses 44100 Hz, expected 48000 Hz".to_owned())
    );
    assert_eq!(draft.track_count(), 1);
}

#[test]
fn draft_refuses_an_input_without_a_name() {
    let mut draft = SessionDraft::new();
    assert_eq!(
        draft.add_track("..", None, "wav", metadata(48_000, 10)),
        Err("invalid audio filename: ..".to_owned())
    );
    assert_eq!(draft.track_count(), 0);
}

#[test]
fn draft_refuses_a_track_beyond_the_last_channel() {
    let mut draft = SessionDraft::new();
    for index in 0..22 {
        let name = format!("t{index}");
        assert_eq!(draft.add_track(&name, Some(&name), "flac", metadata(48_000, 10)), Ok(()));
    }
    assert_eq!(
        draft.add_track("t22", Some("t22"), "flac", metadata(48_000, 10)),
        Err("invalid channel assignment for t22".to_owned())
    );
    assert_eq!(draft.track_count(), 22);
    let session = draft.finish("Full".to_owned());
    assert!(validate_session(&session).is_empty());
}

#[test]
fn create_request_checks() {
    assert_eq!(
        check_zip_output(true, false),
        Err("an output path is required when --zip is used".to_owned())
    );
    assert_eq!(check_zip_output(true, true), Ok(()));
    assert_eq!(check_zip_output(false, false), Ok(()));
    assert_eq!(
        require_inputs("music", 0),
        Err("no supported audio files found in music".to_owned())
    );
    assert_eq!(require_inputs("music", 1), Ok(()));
    assert_eq!(require_session_size(22), Ok(()));
    assert_eq!(
        require_session_size(23),
        Err("a Ui24R session cannot contain more than 22 tracks".to_owned())
    );
}

#[test]
fn session_name_defaults() {
    assert_eq!(session_name(Some("Live".to_owned()), Some("dir".to_owned())), "Live");
    assert_eq!(session_name(None, Some("dir".to_owned())), "dir");
    assert_eq!(session_name(None, None), "Ui24R Session");
}

#[test]
fn session_extension_follows_output_or_inputs() {
    let inputs = vec!["a.WAV".to_owned(), "b.wav".to_owned()];
    assert_eq!(session_audio_extension(Some(OutputFormat::Flac), &inputs), Ok("flac".to_owned()));
    assert_eq!(session_audio_extension(None, &inputs), Ok("wav".to_owned()));
    let mixed = vec!["a.wav".to_owned(), "b.aiff".to_owned()];
    assert!(session_audio_extension(None, &mixed).is_err());
}

#[test]
fn session_file_names_take_the_target_extension() {
    assert_eq!(session_file_name("dir/Lead Vocal.wav", AudioFormat::Flac), "Lead Vocal.flac");
    assert_eq!(session_file_name("kick.flac", AudioFormat::Wav), "kick.wav");
    assert_eq!(session_file_name("c:\\takes\\bass.aif", AudioFormat::Mp3), "bass.mp3");
}
