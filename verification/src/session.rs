//! Ui24R `.uirecsession` configuration generation.
use vstd::prelude::*;
use vstd::string::*;
use crate::domain::{channel_label, AudioTrack, Session};
use crate::format::{extension_of, name_of, AudioFormat};
use crate::names::{file_stem, filename_without_extension};
use crate::text::{decimal, lemma_decimal_injective, push_decimal};
use crate::validation::{
    issue_values, session_is_valid, session_issues, validate_session, lemma_no_issues_iff_valid,
    ValidationIssue,
};

verus! {

/// The fields of a `.uirecsession` file, as mathematical values.
pub struct ConfigurationValue {
    pub complete: bool,
    pub ext: Seq<char>,
    pub files: Seq<Seq<char>>,
    pub length_samples: u64,
    pub length_seconds: u64,
    pub mapping: Seq<Seq<char>>,
    pub names: Seq<Seq<char>>,
    pub sample_rate: u32,
}

/// A verified Ui24R session configuration ready for JSON serialization.
#[derive(Clone, Debug, PartialEq, Eq)]
pub struct Ui24rSessionConfiguration {
    complete: bool,
    ext: String,
    files: Vec<String>,
    length_samples: u64,
    length_seconds: u64,
    mapping: Vec<String>,
    names: Vec<String>,
    sample_rate: u32,
}

pub open spec fn string_values(strings: Seq<String>) -> Seq<Seq<char>> {
    strings.map_values(|s: String| s@)
}

impl View for Ui24rSessionConfiguration {
    type V = ConfigurationValue;

    closed spec fn view(&self) -> ConfigurationValue {
        ConfigurationValue {
            complete: self.complete,
            ext: self.ext@,
            files: string_values(self.files@),
            length_samples: self.length_samples,
            length_seconds: self.length_seconds,
            mapping: string_values(self.mapping@),
            names: string_values(self.names@),
            sample_rate: self.sample_rate,
        }
    }
}

impl Ui24rSessionConfiguration {
    /// Returns the generated audio extension, including its leading dot.
    pub fn extension(&self) -> (res: &str)
        ensures
            res@ == self@.ext,
    {
        self.ext.as_str()
    }

    /// Returns the JSON field containing filenames without extensions.
    pub fn files(&self) -> (res: &[String])
        ensures
            string_values(res@) == self@.files,
    {
        self.files.as_slice()
    }

    /// Returns the JSON field containing display names.
    pub fn names(&self) -> (res: &[String])
        ensures
            string_values(res@) == self@.names,
    {
        self.names.as_slice()
    }

    /// Returns the JSON field containing Ui24R channel mappings.
    pub fn mappings(&self) -> (res: &[String])
        ensures
            string_values(res@) == self@.mapping,
    {
        self.mapping.as_slice()
    }

    /// Returns the JSON `complete` field.
    pub fn is_complete(&self) -> (res: bool)
        ensures
            res == self@.complete,
    {
        self.complete
    }

    /// Returns the JSON `lengthSamples` field.
    pub fn length_samples(&self) -> (res: u64)
        ensures
            res == self@.length_samples,
    {
        self.length_samples
    }

    /// Returns the JSON `lengthSeconds` field.
    pub fn length_seconds(&self) -> (res: u64)
        ensures
            res == self@.length_seconds,
    {
        self.length_seconds
    }

    /// Returns the JSON `sampleRate` field.
    pub fn sample_rate(&self) -> (res: u32)
        ensures
            res == self@.sample_rate,
    {
        self.sample_rate
    }
}

proof fn lemma_string_values_push(strings: Seq<String>, last: String)
    ensures
        string_values(strings.push(last)) == string_values(strings).push(last@),
{
    assert(string_values(strings.push(last)) =~= string_values(strings).push(last@));
}

/// The configuration generated for a valid session whose audio files carry
/// `extension` (given without its dot).
pub open spec fn configuration_for(session: Session, extension: Seq<char>) -> ConfigurationValue {
    let tracks = session.tracks@;
    ConfigurationValue {
        complete: true,
        ext: "."@ + extension,
        files: tracks.map_values(|t: AudioTrack| file_stem(t.file_name@)),
        length_samples: ((session.metadata.duration_samples / (session.metadata.sample_rate as u64))
            * session.metadata.sample_rate) as u64,
        length_seconds: (session.metadata.duration_samples / (session.metadata.sample_rate as u64)) as u64,
        mapping: tracks.map_values(|t: AudioTrack| channel_label(t.channel@)),
        names: tracks.map_values(|t: AudioTrack| t.display_name@),
        sample_rate: session.metadata.sample_rate,
    }
}

/// Errors produced while generating or writing a session configuration.
#[derive(Clone, Debug, PartialEq, Eq)]
pub enum SessionGenerationError {
    /// The domain session failed one or more validation rules.
    InvalidSession(Vec<ValidationIssue>),
    /// JSON serialization failed.
    Serialization(String),
    /// The JSON file could not be written.
    Write(String),
    /// Source audio files do not match the session requirements.
    SourceFiles(String),
    /// ZIP archive creation failed.
    Archive(String),
}

pub open spec fn invalid_session_message(issue_count: nat) -> Seq<char> {
    "session is invalid ("@ + decimal(issue_count) + " issue(s))"@
}

impl SessionGenerationError {
    /// The human-readable text of this error.
    pub fn message(&self) -> (res: String)
        ensures
            res@ == match self {
                SessionGenerationError::InvalidSession(issues) => invalid_session_message(issues@.len()),
                SessionGenerationError::Serialization(m) => m@,
                SessionGenerationError::Write(m) => m@,
                SessionGenerationError::SourceFiles(m) => m@,
                SessionGenerationError::Archive(m) => m@,
            },
    {
        match self {
            SessionGenerationError::InvalidSession(issues) => {
                let mut out = String::from_str("session is invalid (");
                push_decimal(&mut out, issues.len() as u64);
                out.append(" issue(s))");
                out
            }
            SessionGenerationError::Serialization(m) => m.clone(),
            SessionGenerationError::Write(m) => m.clone(),
            SessionGenerationError::SourceFiles(m) => m.clone(),
            SessionGenerationError::Archive(m) => m.clone(),
        }
    }
}

/// Generates a verified Ui24R configuration from a validated domain session,
/// for FLAC audio files.
pub fn generate_configuration(session: &Session) -> (res: Result<Ui24rSessionConfiguration, SessionGenerationError>)
    ensures
        res is Ok <==> session_is_valid(*session),
        res matches Ok(config) ==> config@ == configuration_for(*session, "flac"@),
        res matches Ok(config) ==> config@.complete && config@.sample_rate > 0,
        res matches Err(e) ==> (e matches SessionGenerationError::InvalidSession(issues)
            && issue_values(issues@) == session_issues(*session)),
{
    generate_configuration_for_extension(session, "flac")
}

/// Generates a verified Ui24R configuration from a validated domain session
/// whose audio files carry `extension` (given without its dot).
pub fn generate_configuration_for_extension(session: &Session, extension: &str) -> (res: Result<Ui24rSessionConfiguration, SessionGenerationError>)
    ensures
        res is Ok <==> session_is_valid(*session),
        res matches Ok(config) ==> config@ == configuration_for(*session, extension@),
        res matches Ok(config) ==> config@.complete && config@.sample_rate > 0,
        res matches Err(e) ==> (e matches SessionGenerationError::InvalidSession(issues)
            && issue_values(issues@) == session_issues(*session)),
{
    let issues = validate_session(session);
    proof {
        lemma_no_issues_iff_valid(*session);
    }
    if issues.len() != 0 {
        return Err(SessionGenerationError::InvalidSession(issues));
    }
    let ghost tracks = session.tracks@;
    let n = session.tracks.len();
    let rate = session.metadata.sample_rate as u64;
    let length_seconds = session.metadata.duration_samples / rate;
    assert(length_seconds * rate <= session.metadata.duration_samples) by (nonlinear_arith)
        requires rate > 0, length_seconds == session.metadata.duration_samples / rate;
    let length_samples = length_seconds * rate;
    let mut files: Vec<String> = Vec::new();
    let mut names: Vec<String> = Vec::new();
    let mut mapping: Vec<String> = Vec::new();
    let mut i: usize = 0;
    while i < n
        invariant
            n == tracks.len(),
            tracks == session.tracks@,
            i <= n,
            string_values(files@) == tracks.take(i as int).map_values(|t: AudioTrack| file_stem(t.file_name@)),
            string_values(names@) == tracks.take(i as int).map_values(|t: AudioTrack| t.display_name@),
            string_values(mapping@) == tracks.take(i as int).map_values(|t: AudioTrack| channel_label(t.channel@)),
        decreases n - i,
    {
        let track = &session.tracks[i];
        let ghost old_files = files@;
        let ghost old_names = names@;
        let stem = filename_without_extension(track.file_name.as_str());
        let name = track.display_name.clone();
        assert(name@ == track.display_name@);
        files.push(stem);
        names.push(name);
        let ghost old_mapping = mapping@;
        let label = track.channel.label();
        mapping.push(label);
        proof {
            lemma_string_values_push(old_mapping, label);
            lemma_string_values_push(old_files, stem);
            lemma_string_values_push(old_names, name);
        }
        assert(tracks.take(i + 1) =~= tracks.take(i as int).push(tracks[i as int]));
        assert(string_values(files@) =~= tracks.take(i + 1).map_values(|t: AudioTrack| file_stem(t.file_name@)));
        assert(string_values(names@) =~= tracks.take(i + 1).map_values(|t: AudioTrack| t.display_name@));
        assert(string_values(mapping@) =~= tracks.take(i + 1).map_values(|t: AudioTrack| channel_label(t.channel@)));
        i = i + 1;
    }
    assert(tracks.take(n as int) =~= tracks);
    let mut ext = String::from_str(".");
    ext.append(extension);
    let config = Ui24rSessionConfiguration {
        complete: true,
        ext,
        files,
        length_samples,
        length_seconds,
        mapping,
        names,
        sample_rate: session.metadata.sample_rate,
    };
    assert(config@ == configuration_for(*session, extension@));
    Ok(config)
}

} // verus!

verus! {

/// What the session generator knows of one prepared audio source file:
/// how it is displayed, its extension (if it has a UTF-8 one) and whether
/// it exists as a regular file.
#[derive(Clone, Debug, PartialEq, Eq)]
pub struct SourceFile {
    pub display: String,
    pub extension: Option<String>,
    pub is_file: bool,
}

pub open spec fn source_count_message(expected: nat, received: nat, format: AudioFormat) -> Seq<char> {
    "expected "@ + decimal(expected) + " "@ + name_of(format) + " source file(s), received "@
        + decimal(received)
}

pub open spec fn wrong_format_message(display: Seq<char>, format: AudioFormat) -> Seq<char> {
    "source "@ + display + " is not a "@ + name_of(format) + " file"@
}

pub open spec fn missing_source_message(display: Seq<char>) -> Seq<char> {
    "source file does not exist: "@ + display
}

pub open spec fn has_extension(source: SourceFile, format: AudioFormat) -> bool {
    source.extension matches Some(e) && e@ == extension_of(format)
}

/// The first problem among `sources[i..]`: a wrong extension, or a source
/// that is not an existing file, checked source by source.
pub open spec fn first_source_problem(sources: Seq<SourceFile>, format: AudioFormat, i: int) -> Option<Seq<char>>
    decreases sources.len() - i,
{
    if i < 0 || i >= sources.len() {
        None
    } else if !has_extension(sources[i], format) {
        Some(wrong_format_message(sources[i].display@, format))
    } else if !sources[i].is_file {
        Some(missing_source_message(sources[i].display@))
    } else {
        first_source_problem(sources, format, i + 1)
    }
}

/// The outcome of checking prepared sources against a session.
pub open spec fn source_files_problem(track_count: nat, sources: Seq<SourceFile>, format: AudioFormat) -> Option<Seq<char>> {
    if sources.len() != track_count {
        Some(source_count_message(track_count, sources.len(), format))
    } else {
        first_source_problem(sources, format, 0)
    }
}

proof fn lemma_first_source_problem_none(sources: Seq<SourceFile>, format: AudioFormat, i: int)
    requires
        0 <= i <= sources.len(),
    ensures
        first_source_problem(sources, format, i) is None <==> forall|k: int| i <= k < sources.len() ==> {
            &&& (#[trigger] sources[k]).is_file
            &&& sources[k].extension matches Some(e) && e@ == extension_of(format)
        },
    decreases sources.len() - i,
{
    if i < sources.len() {
        lemma_first_source_problem_none(sources, format, i + 1);
    }
}

/// Prepared sources are accepted exactly when there are as many as the
/// session has tracks and each one exists as a file carrying the target
/// format's extension; more sources than tracks are refused as well as fewer.
pub proof fn lemma_sources_accepted_iff_one_present_file_per_track(track_count: nat, sources: Seq<SourceFile>, format: AudioFormat)
    ensures
        source_files_problem(track_count, sources, format) is None <==> {
            &&& sources.len() == track_count
            &&& forall|i: int| 0 <= i < sources.len() ==> {
                &&& (#[trigger] sources[i]).is_file
                &&& sources[i].extension matches Some(e) && e@ == extension_of(format)
            }
        },
{
    lemma_first_source_problem_none(sources, format, 0);
}

/// Checks that there is one existing source file in `format` per session track.
pub fn validate_source_files(session: &Session, sources: &[SourceFile], format: AudioFormat) -> (res: Result<(), SessionGenerationError>)
    ensures
        match source_files_problem(session.tracks@.len(), sources@, format) {
            None => res is Ok,
            Some(m) => res matches Err(SessionGenerationError::SourceFiles(text)) && text@ == m,
        },
        res is Ok <==> {
            &&& sources@.len() == session.tracks@.len()
            &&& forall|i: int| 0 <= i < sources@.len() ==> {
                &&& (#[trigger] sources@[i]).is_file
                &&& sources@[i].extension matches Some(e) && e@ == extension_of(format)
            }
        },
{
    proof {
        lemma_sources_accepted_iff_one_present_file_per_track(session.tracks@.len(), sources@, format);
    }
    let expected = session.tracks.len();
    if sources.len() != expected {
        let mut message = String::from_str("expected ");
        push_decimal(&mut message, expected as u64);
        message.append(" ");
        message.append(format.name());
        message.append(" source file(s), received ");
        push_decimal(&mut message, sources.len() as u64);
        return Err(SessionGenerationError::SourceFiles(message));
    }
    let wanted = String::from_str(format.extension());
    let mut i: usize = 0;
    while i < sources.len()
        invariant
            i <= sources@.len(),
            sources@.len() == session.tracks@.len(),
            wanted@ == extension_of(format),
            first_source_problem(sources@, format, 0) == first_source_problem(sources@, format, i as int),
        decreases sources@.len() - i,
    {
        let source = &sources[i];
        let matches_format = match &source.extension {
            Some(e) => *e == wanted,
            None => false,
        };
        assert(matches_format == has_extension(sources@[i as int], format));
        if !matches_format {
            let mut message = String::from_str("source ");
            message.append(source.display.as_str());
            message.append(" is not a ");
            message.append(format.name());
            message.append(" file");
            assert(message@ == wrong_format_message(sources@[i as int].display@, format));
            return Err(SessionGenerationError::SourceFiles(message));
        }
        if !source.is_file {
            let mut message = String::from_str("source file does not exist: ");
            message.append(source.display.as_str());
            assert(message@ == missing_source_message(sources@[i as int].display@));
            return Err(SessionGenerationError::SourceFiles(message));
        }
        i = i + 1;
    }
    Ok(())
}

} // verus!

verus! {

/// The `files`, `names` and `mapping` arrays of a generated configuration
/// have one entry per track, in track order: each file is the track's file
/// name without directories or extension, each name its display name, each
/// mapping its channel label `i.<index>`; `ext` is the extension after a dot.
pub proof fn lemma_configuration_arrays_match_tracks(session: Session, extension: Seq<char>)
    ensures
        ({
            let config = configuration_for(session, extension);
            let tracks = session.tracks@;
            &&& config.files.len() == tracks.len()
            &&& config.names.len() == tracks.len()
            &&& config.mapping.len() == tracks.len()
            &&& forall|i: int| 0 <= i < tracks.len() ==> {
                &&& #[trigger] config.files[i] == file_stem(tracks[i].file_name@)
                &&& config.names[i] == tracks[i].display_name@
                &&& config.mapping[i] == channel_label(tracks[i].channel@)
            }
            &&& config.ext[0] == '.'
            &&& config.ext.drop_first() == extension
        }),
{
    let config = configuration_for(session, extension);
    reveal_strlit(".");
    assert(config.ext.drop_first() =~= extension);
}

/// `lengthSamples = sampleRate × lengthSeconds`, where `lengthSeconds` is
/// the session length in whole seconds:
/// `lengthSeconds × sampleRate ≤ duration < (lengthSeconds + 1) × sampleRate`.
pub proof fn lemma_length_in_whole_seconds(session: Session, extension: Seq<char>)
    requires
        session.metadata.sample_rate > 0,
    ensures
        ({
            let config = configuration_for(session, extension);
            let rate = config.sample_rate as int;
            let duration = session.metadata.duration_samples as int;
            &&& config.length_samples == config.length_seconds * rate
            &&& config.length_seconds * rate <= duration
            &&& duration < (config.length_seconds + 1) * rate
        }),
{
    let config = configuration_for(session, extension);
    let samples = session.metadata.duration_samples as int;
    let rate = session.metadata.sample_rate as int;
    let seconds = samples / rate;
    assert(config.length_seconds == seconds);
    assert(seconds * rate <= samples < (seconds + 1) * rate) by (nonlinear_arith)
        requires rate > 0, seconds == samples / rate;
    assert(seconds * rate >= 0) by (nonlinear_arith) requires rate > 0, seconds >= 0;
}

/// Every configuration generated for a valid session is marked complete,
/// whatever its length; and its sample rate is the session's, which is
/// not zero.
pub proof fn lemma_generated_configuration_complete(session: Session, extension: Seq<char>)
    requires
        session_is_valid(session),
    ensures
        configuration_for(session, extension).complete,
        configuration_for(session, extension).sample_rate == session.metadata.sample_rate,
        configuration_for(session, extension).sample_rate > 0,
{
}

/// In a valid session every track has its own channel, so the generated
/// `mapping` entries are pairwise distinct.
pub proof fn lemma_valid_session_mappings_distinct(session: Session, extension: Seq<char>)
    requires
        session_is_valid(session),
    ensures
        ({
            let mapping = configuration_for(session, extension).mapping;
            forall|i: int, j: int| 0 <= i < j < mapping.len() ==> #[trigger] mapping[i] != #[trigger] mapping[j]
        }),
{
    let tracks = session.tracks@;
    let mapping = configuration_for(session, extension).mapping;
    assert forall|i: int, j: int| 0 <= i < j < mapping.len() implies #[trigger] mapping[i] != #[trigger] mapping[j] by {
        let a = tracks[i].channel@;
        let b = tracks[j].channel@;
        assert(a != b);
        if mapping[i] == mapping[j] {
            assert(mapping[i] == channel_label(a));
            assert(mapping[j] == channel_label(b));
            assert(channel_label(a).skip(2) =~= decimal(a as nat)) by { reveal_strlit("i."); }
            assert(channel_label(b).skip(2) =~= decimal(b as nat)) by { reveal_strlit("i."); }
            lemma_decimal_injective(a as nat, b as nat);
        }
    }
}

} // verus!

verus! {

/// The name under which a track's prepared source is stored in a session
/// folder or archive: its file name without directories or extension,
/// then a dot and the extension of `format`.
pub fn session_file_name(file_name: &str, format: AudioFormat) -> (res: String)
    ensures
        res@ == file_stem(file_name@) + "."@ + extension_of(format),
{
    let mut name = filename_without_extension(file_name);
    name.append(".");
    name.append(format.extension());
    name
}

} // verus!
