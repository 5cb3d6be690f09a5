use ui24_session::{
    validate_session, AudioFormat, AudioMetadata, AudioTrack, ChannelAssignment, Session,
    SessionMetadata, ValidationIssueKind, MAX_TRACK_COUNT,
};

fn track(name: &str, channel: u8, sample_rate: u32) -> AudioTrack {
    AudioTrack {
        display_name: name.to_owned(),
        file_name: format!("{name}.wav"),
        metadata: AudioMetadata {
            format: AudioFormat::Wav,
            sample_rate,
            bit_depth: 24,
            channel_count: 1,
            duration_samples: 48_000,
        },
        channel: ChannelAssignment::new(channel).expect("valid test channel"),
    }
}

fn session(tracks: Vec<AudioTrack>) -> Session {
    Session {
        metadata: SessionMetadata {
            name: "Test session".to_owned(),
            sample_rate: 48_000,
            duration_samples: 48_000,
        },
        tracks,
    }
}

#[test]
fn rejects_empty_session() {
    let issues = validate_session(&session(Vec::new()));

    assert!(issues
        .iter()
        .any(|issue| issue.kind == ValidationIssueKind::EmptySession));
}

#[test]
fn rejects_more_than_maximum_tracks() {
    let mut tracks: Vec<_> = (0..MAX_TRACK_COUNT)
        .map(|channel| track(&format!("track-{channel}"), channel as u8, 48_000))
        .collect();
    tracks.push(track("overflow", 0, 48_000));

    let issues = validate_session(&session(tracks));

    assert!(issues
        .iter()
        .any(|issue| issue.kind == ValidationIssueKind::TooManyTracks));
}

#[test]
fn rejects_channel_conflicts() {
    let issues = validate_session(&session(vec![
        track("lead", 0, 48_000),
        track("backing", 0, 48_000),
    ]));

    assert!(issues
        .iter()
        .any(|issue| issue.kind == ValidationIssueKind::ChannelConflict));
}

#[test]
fn rejects_zero_session_sample_rate() {
    let mut valid_session = session(vec![track("lead", 0, 48_000)]);
    valid_session.metadata.sample_rate = 0;

    let issues = validate_session(&valid_session);

    assert!(issues
        .iter()
        .any(|issue| issue.kind == ValidationIssueKind::InvalidSampleRate));
}

#[test]
fn rejects_track_sample_rate_mismatch() {
    let issues = validate_session(&session(vec![track("lead", 0, 44_100)]));

    assert!(issues
        .iter()
        .any(|issue| issue.kind == ValidationIssueKind::SampleRateMismatch));
}

#[test]
fn accepts_valid_session() {
    let issues = validate_session(&session(vec![
        track("lead", 0, 48_000),
        track("backing", 1, 48_000),
    ]));

    assert!(issues.is_empty());
}

#[test]
fn reports_every_issue_in_order_with_its_message() {
    let mut tracks: Vec<_> = (0..MAX_TRACK_COUNT)
        .map(|channel| track(&format!("t{channel}"), channel as u8, 48_000))
        .collect();
    tracks.push(track("late", 3, 44_100));
    let mut invalid = session(tracks);
    invalid.metadata.sample_rate = 0;

    let issues = validate_session(&invalid);

    let kinds: Vec<_> = issues.iter().map(|issue| issue.kind.clone()).collect();
    assert_eq!(kinds.len(), 2 + MAX_TRACK_COUNT + 2);
    assert_eq!(kinds[0], ValidationIssueKind::TooManyTracks);
    assert_eq!(kinds[1], ValidationIssueKind::InvalidSampleRate);
    assert_eq!(issues[0].message, "A session cannot contain more than 22 tracks.");
    assert_eq!(issues[1].message, "A session sample rate must be greater than zero.");
    assert_eq!(issues[2].kind, ValidationIssueKind::SampleRateMismatch);
    assert_eq!(issues[2].track_index, Some(0));
    assert_eq!(
        issues[2].message,
        "Track t0.wav has sample rate 48000 but the session requires 0."
    );
    let last = &issues[issues.len() - 1];
    assert_eq!(last.kind, ValidationIssueKind::ChannelConflict);
    assert_eq!(last.track_index, Some(22));
    assert_eq!(last.message, "Track late.wav conflicts with track 4 on channel i.3.");
}

#[test]
fn conflict_names_the_most_recent_track_on_the_channel() {
    let issues = validate_session(&session(vec![
        track("a", 5, 48_000),
        track("b", 5, 48_000),
        track("c", 5, 48_000),
    ]));

    assert_eq!(issues.len(), 2);
    assert_eq!(issues[0].message, "Track b.wav conflicts with track 1 on channel i.5.");
    assert_eq!(issues[1].message, "Track c.wav conflicts with track 2 on channel i.5.");
}

#[test]
fn empty_session_reports_only_the_empty_issue() {
    let mut empty = session(Vec::new());
    empty.metadata.sample_rate = 0;

    let issues = validate_session(&empty);

    assert_eq!(issues.len(), 1);
    assert_eq!(issues[0].kind, ValidationIssueKind::EmptySession);
    assert_eq!(issues[0].track_index, None);
    assert_eq!(issues[0].message, "A session must contain at least one audio track.");
}
