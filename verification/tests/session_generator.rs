use ui24_session::{
    filename_without_extension, generate_configuration, generate_configuration_for_extension,
    validate_source_files, AudioFormat, AudioMetadata, AudioTrack, ChannelAssignment, Session,
    SessionGenerationError, SessionMetadata, SourceFile,
};

fn session() -> Session {
    let tracks = [
        ("03 - Vocal 1", "03 - Vocal 1.flac", 0),
        ("04 - Vocal 2", "04 - Vocal 2.wav", 1),
    ]
    .into_iter()
    .map(|(name, file_name, channel)| AudioTrack {
        display_name: name.to_owned(),
        file_name: file_name.to_owned(),
        metadata: AudioMetadata {
            format: AudioFormat::Wav,
            sample_rate: 48_000,
            bit_depth: 16,
            channel_count: 2,
            duration_samples: 16_320_000,
        },
        channel: ChannelAssignment::new(channel).expect("valid channel"),
    })
    .collect();

    Session {
        metadata: SessionMetadata {
            name: "Reference".to_owned(),
            sample_rate: 48_000,
            duration_samples: 16_320_000,
        },
        tracks,
    }
}

#[test]
fn generates_observed_uirecsession_fields() {
    let configuration = generate_configuration(&session()).expect("valid session");

    assert!(configuration.is_complete());
    assert_eq!(configuration.extension(), ".flac");
    assert_eq!(configuration.files()[0], "03 - Vocal 1");
    assert_eq!(configuration.files()[1], "04 - Vocal 2");
    assert_eq!(configuration.names()[0], "03 - Vocal 1");
    assert_eq!(configuration.mappings()[0], "i.0");
    assert_eq!(configuration.sample_rate(), 48_000);
    assert_eq!(configuration.length_samples(), 16_320_000_u64);
    assert_eq!(configuration.length_seconds(), 340);
}

#[test]
fn rejects_invalid_sessions_before_serialization() {
    let mut invalid = session();
    invalid.tracks[1].channel = ChannelAssignment::new(0).expect("valid channel");

    assert!(matches!(
        generate_configuration(&invalid),
        Err(SessionGenerationError::InvalidSession(_))
    ));
}

#[test]
fn strips_unix_and_windows_filename_extensions() {
    assert_eq!(filename_without_extension("dir/lead.wav"), "lead");
    assert_eq!(filename_without_extension(r"dir\lead.flac"), "lead");
}

#[test]
fn stem_keeps_inner_dots_and_handles_missing_extensions() {
    assert_eq!(filename_without_extension("a/b\\c.d.e.wav"), "c.d.e");
    assert_eq!(filename_without_extension("plain"), "plain");
    assert_eq!(filename_without_extension("dir.v2/plain"), "plain");
    assert_eq!(filename_without_extension(".hidden"), "");
    assert_eq!(filename_without_extension("dir/"), "");
}

#[test]
fn configuration_for_extension_uses_the_given_extension() {
    let configuration =
        generate_configuration_for_extension(&session(), "wav").expect("valid session");

    assert_eq!(configuration.extension(), ".wav");
    assert_eq!(configuration.mappings()[1], "i.1");
    assert_eq!(configuration.names()[1], "04 - Vocal 2");
    assert_eq!(configuration.files().len(), 2);
}

#[test]
fn length_in_samples_is_whole_seconds_times_rate() {
    let mut reference = session();
    reference.metadata.duration_samples = 95_999;

    let configuration = generate_configuration(&reference).expect("valid session");

    assert_eq!(configuration.length_seconds(), 1);
    assert_eq!(configuration.length_samples(), 48_000);
}

#[test]
fn invalid_session_error_counts_issues() {
    let mut invalid = session();
    invalid.tracks[1].channel = ChannelAssignment::new(0).expect("valid channel");
    invalid.tracks[1].metadata.sample_rate = 44_100;

    let error = generate_configuration(&invalid).expect_err("invalid session");

    assert_eq!(error.message(), "session is invalid (2 issue(s))");
}

fn source(display: &str, extension: Option<&str>, is_file: bool) -> SourceFile {
    SourceFile {
        display: display.to_owned(),
        extension: extension.map(str::to_owned),
        is_file,
    }
}

#[test]
fn source_files_must_match_track_count() {
    let result = validate_source_files(&session(), &[source("a.flac", Some("flac"), true)], AudioFormat::Flac);

    match result {
        Err(SessionGenerationError::SourceFiles(message)) => {
            assert_eq!(message, "expected 2 FLAC source file(s), received 1")
        }
        other => panic!("unexpected result: {other:?}"),
    }
}

#[test]
fn source_files_reject_other_formats_then_missing_files() {
    let wrong = validate_source_files(
        &session(),
        &[source("/tmp/source.wav", Some("wav"), true), source("/tmp/missing.flac", Some("flac"), false)],
        AudioFormat::Flac,
    );
    match wrong {
        Err(SessionGenerationError::SourceFiles(message)) => {
            assert_eq!(message, "source /tmp/source.wav is not a FLAC file")
        }
        other => panic!("unexpected result: {other:?}"),
    }

    let missing = validate_source_files(
        &session(),
        &[source("/tmp/a.flac", Some("flac"), true), source("/tmp/missing.flac", Some("flac"), false)],
        AudioFormat::Flac,
    );
    match missing {
        Err(SessionGenerationError::SourceFiles(message)) => {
            assert_eq!(message, "source file does not exist: /tmp/missing.flac")
        }
        other => panic!("unexpected result: {other:?}"),
    }

    let accepted = validate_source_files(
        &session(),
        &[source("a.wav", Some("wav"), true), source("b.wav", Some("wav"), true)],
        AudioFormat::Wav,
    );
    assert!(accepted.is_ok());
}
