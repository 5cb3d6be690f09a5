use ui24_session::{audio_format, audio_format_for, shared_audio_extension, shared_extension, AudioFormat, OutputFormat};

#[test]
fn shared_audio_extension_rejects_mixed_inputs() {
    let inputs = vec!["a.wav".to_owned(), "b.mp3".to_owned()];

    let result = shared_audio_extension(&inputs);

    assert!(result.is_err());
}

#[test]
fn shared_audio_extension_accepts_uniform_inputs_case_insensitively() {
    let inputs = vec!["a.wav".to_owned(), "B.WAV".to_owned()];

    let result = shared_audio_extension(&inputs).expect("uniform extension should be accepted");

    assert_eq!(result, "wav");
}

#[test]
fn shared_extension_messages() {
    assert_eq!(
        shared_extension(&[None, None]),
        Err("no supported audio files found".to_owned())
    );
    assert_eq!(
        shared_extension(&[Some("Flac".to_owned()), None, Some("flac".to_owned()), Some("AIF".to_owned())]),
        Err("cannot write .uirecsession without an output path: input files use mixed extensions (.flac and .aif); convert them to a single format first with `convert` or pass an output path to `create`".to_owned())
    );
    assert_eq!(shared_extension(&[None, Some("FLAC".to_owned())]), Ok("flac".to_owned()));
}

#[test]
fn audio_format_of_paths() {
    assert_eq!(audio_format("dir/take.AIF"), Ok(AudioFormat::Aiff));
    assert_eq!(audio_format("song.mp3"), Ok(AudioFormat::Mp3));
    assert_eq!(
        audio_format("notes.txt"),
        Err("unsupported audio extension: .txt".to_owned())
    );
    assert_eq!(
        audio_format_for(None, "folder/README".to_owned()),
        Err("folder/README has no supported audio extension".to_owned())
    );
}

#[test]
fn output_format_extensions() {
    assert_eq!(OutputFormat::Flac.extension(), "flac");
    assert_eq!(OutputFormat::Wav.extension(), "wav");
    assert_eq!(OutputFormat::Mp3.extension(), "mp3");
    assert_eq!(OutputFormat::Mp3.audio_format(), AudioFormat::Mp3);
}

#[test]
fn path_extensions_follow_std() {
    assert_eq!(audio_format("music/.wav"), Err("music/.wav has no supported audio extension".to_owned()));
    assert_eq!(audio_format("music/take.wav/"), Ok(AudioFormat::Wav));
    assert_eq!(audio_format("music/take.flac/."), Ok(AudioFormat::Flac));
    assert_eq!(audio_format("take.wav/.."), Err("take.wav/.. has no supported audio extension".to_owned()));
    assert_eq!(audio_format("a.b.mp3"), Ok(AudioFormat::Mp3));
    assert_eq!(audio_format("dir.wav/notes"), Err("dir.wav/notes has no supported audio extension".to_owned()));
    assert_eq!(
        shared_audio_extension(&["x/a.FLAC".to_owned(), "README".to_owned(), "b.flac".to_owned()]),
        Ok("flac".to_owned())
    );
}
