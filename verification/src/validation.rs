//! Session validation rules.
use vstd::prelude::*;
use vstd::string::*;
use std::collections::HashMap;
use crate::domain::{channel_label, AudioTrack, Session, MAX_CHANNEL_INDEX};
use crate::text::{decimal, push_decimal};

verus! {

broadcast use vstd::std_specs::hash::group_hash_axioms;

/// Maximum number of tracks supported by the Ui24R session format.
pub const MAX_TRACK_COUNT: usize = 22;

/// The category of a validation issue.
#[derive(Clone, Debug, PartialEq, Eq, Structural)]
pub enum ValidationIssueKind {
    EmptySession,
    TooManyTracks,
    ChannelConflict,
    SampleRateMismatch,
    InvalidSampleRate,
}

/// One broken session rule: its category, the track concerned (if any) and
/// a corrective explanation.
#[derive(Clone, Debug, PartialEq, Eq)]
pub struct ValidationIssue {
    pub kind: ValidationIssueKind,
    pub track_index: Option<usize>,
    pub message: String,
}

/// The mathematical value of an issue: kind, track index and message text.
pub type IssueValue = (ValidationIssueKind, Option<usize>, Seq<char>);

impl View for ValidationIssue {
    type V = IssueValue;

    open spec fn view(&self) -> IssueValue {
        (self.kind, self.track_index, self.message@)
    }
}

impl ValidationIssue {
    pub(crate) fn new(
        kind: ValidationIssueKind,
        track_index: Option<usize>,
        message: String,
    ) -> (res: Self)
        ensures
            res@ == (kind, track_index, message@),
    {
        ValidationIssue { kind, track_index, message }
    }
}

pub open spec fn empty_session_message() -> Seq<char> {
    "A session must contain at least one audio track."@
}

pub open spec fn too_many_tracks_message() -> Seq<char> {
    "A session cannot contain more than "@ + decimal(MAX_TRACK_COUNT as nat) + " tracks."@
}

pub open spec fn invalid_sample_rate_message() -> Seq<char> {
    "A session sample rate must be greater than zero."@
}

pub open spec fn mismatch_message(file_name: Seq<char>, track_rate: u32, session_rate: u32) -> Seq<char> {
    "Track "@ + file_name + " has sample rate "@ + decimal(track_rate as nat)
        + " but the session requires "@ + decimal(session_rate as nat) + "."@
}

pub open spec fn conflict_message(file_name: Seq<char>, previous_track: nat, channel: u8) -> Seq<char> {
    "Track "@ + file_name + " conflicts with track "@ + decimal(previous_track + 1)
        + " on channel "@ + channel_label(channel) + "."@
}

/// The position of the last track before `end` that plays on `channel`.
pub open spec fn last_on_channel(tracks: Seq<AudioTrack>, channel: u8, end: int) -> Option<int>
    decreases end,
{
    if end <= 0 {
        None
    } else if tracks[end - 1].channel@ == channel {
        Some(end - 1)
    } else {
        last_on_channel(tracks, channel, end - 1)
    }
}

proof fn lemma_last_on_channel_before(tracks: Seq<AudioTrack>, channel: u8, end: int)
    ensures
        last_on_channel(tracks, channel, end) matches Some(p) ==> 0 <= p < end
            && tracks[p].channel@ == channel,
    decreases end,
{
    if end > 0 {
        lemma_last_on_channel_before(tracks, channel, end - 1);
    }
}

/// The issues raised by track `i`: a sample-rate mismatch, then a conflict
/// with the last earlier track on the same channel.
pub open spec fn track_issues(tracks: Seq<AudioTrack>, session_rate: u32, i: int) -> Seq<IssueValue> {
    let track = tracks[i];
    let mismatch: Seq<IssueValue> = if track.metadata.sample_rate != session_rate {
        seq![(ValidationIssueKind::SampleRateMismatch, Some(i as usize),
            mismatch_message(track.file_name@, track.metadata.sample_rate, session_rate))]
    } else {
        seq![]
    };
    let conflict: Seq<IssueValue> = match last_on_channel(tracks, track.channel@, i) {
        Some(previous) => seq![(ValidationIssueKind::ChannelConflict, Some(i as usize),
            conflict_message(track.file_name@, previous as nat, track.channel@))],
        None => seq![],
    };
    mismatch + conflict
}

/// The issues raised by the first `n` tracks, in track order.
pub open spec fn issues_up_to(tracks: Seq<AudioTrack>, session_rate: u32, n: int) -> Seq<IssueValue>
    decreases n,
{
    if n <= 0 {
        seq![]
    } else {
        issues_up_to(tracks, session_rate, n - 1) + track_issues(tracks, session_rate, n - 1)
    }
}

/// Every issue of a session, in the order in which they are reported.
pub open spec fn session_issues(session: Session) -> Seq<IssueValue> {
    let tracks = session.tracks@;
    let rate = session.metadata.sample_rate;
    if tracks.len() == 0 {
        seq![(ValidationIssueKind::EmptySession, None, empty_session_message())]
    } else {
        let too_many: Seq<IssueValue> = if tracks.len() > MAX_TRACK_COUNT {
            seq![(ValidationIssueKind::TooManyTracks, None, too_many_tracks_message())]
        } else {
            seq![]
        };
        let invalid_rate: Seq<IssueValue> = if rate == 0 {
            seq![(ValidationIssueKind::InvalidSampleRate, None, invalid_sample_rate_message())]
        } else {
            seq![]
        };
        too_many + invalid_rate + issues_up_to(tracks, rate, tracks.len() as int)
    }
}

/// The session rules: at least one and at most 22 tracks, a non-zero
/// sample rate shared by every track, and one track per channel.
pub open spec fn session_is_valid(session: Session) -> bool {
    let tracks = session.tracks@;
    let rate = session.metadata.sample_rate;
    &&& 0 < tracks.len() <= MAX_TRACK_COUNT
    &&& rate > 0
    &&& forall|i: int| 0 <= i < tracks.len() ==> #[trigger] tracks[i].metadata.sample_rate == rate
    &&& forall|i: int, j: int|
        0 <= i < j < tracks.len() ==> #[trigger] tracks[i].channel@ != #[trigger] tracks[j].channel@
}

pub open spec fn issue_values(issues: Seq<ValidationIssue>) -> Seq<IssueValue> {
    issues.map_values(|issue: ValidationIssue| issue@)
}

/// Validates every session rule.
///
/// The returned vector is empty when the session is valid. Each issue holds
/// a category, optional track context and a corrective explanation.
pub fn validate_session(session: &Session) -> (issues: Vec<ValidationIssue>)
    ensures
        issue_values(issues@) == session_issues(*session),
{
    let mut issues: Vec<ValidationIssue> = Vec::new();
    let n = session.tracks.len();
    let rate = session.metadata.sample_rate;
    if n == 0 {
        issues.push(ValidationIssue::new(
            ValidationIssueKind::EmptySession,
            None,
            String::from_str("A session must contain at least one audio track."),
        ));
        assert(issue_values(issues@) =~= session_issues(*session));
        return issues;
    }
    if n > MAX_TRACK_COUNT {
        let mut message = String::from_str("A session cannot contain more than ");
        push_decimal(&mut message, MAX_TRACK_COUNT as u64);
        message.append(" tracks.");
        issues.push(ValidationIssue::new(ValidationIssueKind::TooManyTracks, None, message));
    }
    if rate == 0 {
        issues.push(ValidationIssue::new(
            ValidationIssueKind::InvalidSampleRate,
            None,
            String::from_str("A session sample rate must be greater than zero."),
        ));
    }
    let ghost tracks = session.tracks@;
    let ghost prefix = issue_values(issues@);
    assert(prefix + issues_up_to(tracks, rate, 0) =~= prefix);
    let mut channels: HashMap<u8, usize> = HashMap::new();
    let mut i: usize = 0;
    while i < n
        invariant
            n == session.tracks@.len(),
            tracks == session.tracks@,
            rate == session.metadata.sample_rate,
            i <= n,
            issue_values(issues@) == prefix + issues_up_to(tracks, rate, i as int),
            forall|c: u8| #[trigger] channels@.contains_key(c) <==> last_on_channel(tracks, c, i as int) is Some,
            forall|c: u8| #[trigger] channels@.contains_key(c) ==> last_on_channel(tracks, c, i as int) == Some(channels@[c] as int),
        decreases n - i,
    {
        let track = &session.tracks[i];
        let ghost before = issue_values(issues@);
        if rate != track.metadata.sample_rate {
            let mut message = String::from_str("Track ");
            message.append(track.file_name.as_str());
            message.append(" has sample rate ");
            push_decimal(&mut message, track.metadata.sample_rate as u64);
            message.append(" but the session requires ");
            push_decimal(&mut message, rate as u64);
            message.append(".");
            issues.push(ValidationIssue::new(ValidationIssueKind::SampleRateMismatch, Some(i), message));
        }
        let ghost middle = issue_values(issues@);
        let channel = track.channel.index();
        let previous = channels.insert(channel, i);
        match previous {
            Some(previous_track) => {
                assert(last_on_channel(tracks, channel, i as int) == Some(previous_track as int));
                proof {
                    lemma_last_on_channel_before(tracks, channel, i as int);
                }
                let mut message = String::from_str("Track ");
                message.append(track.file_name.as_str());
                message.append(" conflicts with track ");
                push_decimal(&mut message, (previous_track + 1) as u64);
                message.append(" on channel ");
                let label = track.channel.label();
                message.append(label.as_str());
                message.append(".");
                issues.push(ValidationIssue::new(ValidationIssueKind::ChannelConflict, Some(i), message));
            }
            None => {
                assert(last_on_channel(tracks, channel, i as int) is None);
            }
        }
        assert(issue_values(issues@) =~= before + track_issues(tracks, rate, i as int));
        assert(issues_up_to(tracks, rate, i + 1) == issues_up_to(tracks, rate, i as int) + track_issues(tracks, rate, i as int));
        i = i + 1;
        assert forall|c: u8| #[trigger] channels@.contains_key(c) <==> last_on_channel(tracks, c, i as int) is Some by {}
        assert forall|c: u8| #[trigger] channels@.contains_key(c) implies last_on_channel(tracks, c, i as int) == Some(channels@[c] as int) by {}
    }
    assert(issue_values(issues@) =~= session_issues(*session));
    issues
}

} // verus!

verus! {

proof fn lemma_last_on_channel_none(tracks: Seq<AudioTrack>, channel: u8, end: int)
    requires
        end <= tracks.len(),
    ensures
        last_on_channel(tracks, channel, end) is None <==> forall|j: int|
            0 <= j < end ==> #[trigger] tracks[j].channel@ != channel,
    decreases end,
{
    if end > 0 {
        lemma_last_on_channel_none(tracks, channel, end - 1);
    }
}

proof fn lemma_issues_up_to_empty(tracks: Seq<AudioTrack>, rate: u32, n: int)
    requires
        0 <= n <= tracks.len(),
    ensures
        issues_up_to(tracks, rate, n).len() == 0 <==> forall|i: int|
            0 <= i < n ==> (#[trigger] tracks[i].metadata.sample_rate == rate
                && last_on_channel(tracks, tracks[i].channel@, i) is None),
    decreases n,
{
    if n > 0 {
        lemma_issues_up_to_empty(tracks, rate, n - 1);
    }
}

proof fn lemma_valid_tracks_raise_nothing(tracks: Seq<AudioTrack>, rate: u32, n: int)
    requires
        0 <= n <= tracks.len(),
        forall|i: int| 0 <= i < tracks.len() ==> #[trigger] tracks[i].metadata.sample_rate == rate,
        forall|i: int, j: int|
            0 <= i < j < tracks.len() ==> #[trigger] tracks[i].channel@ != #[trigger] tracks[j].channel@,
    ensures
        issues_up_to(tracks, rate, n).len() == 0,
    decreases n,
{
    if n > 0 {
        lemma_valid_tracks_raise_nothing(tracks, rate, n - 1);
        let last = n - 1;
        assert forall|j: int| 0 <= j < last implies #[trigger] tracks[j].channel@ != tracks[last].channel@ by {
            assert(tracks[j].channel@ != tracks[last].channel@);
        }
        lemma_last_on_channel_none(tracks, tracks[last].channel@, last);
        assert(tracks[last].metadata.sample_rate == rate);
        assert(track_issues(tracks, rate, last).len() == 0);
    }
}

/// A session is reported free of issues exactly when it satisfies every
/// session rule: one to 22 tracks, a non-zero sample rate shared by all
/// tracks, and no two tracks on the same channel.
pub proof fn lemma_no_issues_iff_valid(session: Session)
    ensures
        session_issues(session).len() == 0 <==> session_is_valid(session),
{
    let tracks = session.tracks@;
    let rate = session.metadata.sample_rate;
    if tracks.len() > 0 {
        lemma_issues_up_to_empty(tracks, rate, tracks.len() as int);
        let too_many: Seq<IssueValue> = if tracks.len() > MAX_TRACK_COUNT {
            seq![(ValidationIssueKind::TooManyTracks, None, too_many_tracks_message())]
        } else {
            seq![]
        };
        let invalid_rate: Seq<IssueValue> = if rate == 0 {
            seq![(ValidationIssueKind::InvalidSampleRate, None, invalid_sample_rate_message())]
        } else {
            seq![]
        };
        assert(session_issues(session) == too_many + invalid_rate + issues_up_to(tracks, rate, tracks.len() as int));
        if session_issues(session).len() == 0 {
            assert forall|i: int, j: int|
                0 <= i < j < tracks.len() implies #[trigger] tracks[i].channel@ != #[trigger] tracks[j].channel@ by {
                assert(tracks[j].metadata.sample_rate == rate);
                lemma_last_on_channel_none(tracks, tracks[j].channel@, j);
            }
        }
        if session_is_valid(session) {
            lemma_valid_tracks_raise_nothing(tracks, rate, tracks.len() as int);
        }
    }
}

} // verus!

verus! {

proof fn lemma_track_issue_indices(tracks: Seq<AudioTrack>, rate: u32, n: int)
    requires
        0 <= n <= tracks.len(),
        tracks.len() <= usize::MAX,
    ensures
        forall|k: int| 0 <= k < issues_up_to(tracks, rate, n).len() ==> {
            let issue = #[trigger] issues_up_to(tracks, rate, n)[k];
            &&& (issue.0 == ValidationIssueKind::SampleRateMismatch || issue.0 == ValidationIssueKind::ChannelConflict)
            &&& issue.1 matches Some(t) && t < n
        },
    decreases n,
{
    if n > 0 {
        lemma_track_issue_indices(tracks, rate, n - 1);
    }
}

/// Session-wide issues (empty session, too many tracks, zero sample rate)
/// carry no track index; every other issue is a sample-rate mismatch or a
/// channel conflict and names a track of the session.
pub proof fn lemma_issue_track_indices(session: Session)
    requires
        session.tracks@.len() <= usize::MAX,
    ensures
        forall|k: int| 0 <= k < session_issues(session).len() ==> {
            let issue = #[trigger] session_issues(session)[k];
            match issue.1 {
                None => issue.0 == ValidationIssueKind::EmptySession
                    || issue.0 == ValidationIssueKind::TooManyTracks
                    || issue.0 == ValidationIssueKind::InvalidSampleRate,
                Some(t) => t < session.tracks@.len() && (issue.0 == ValidationIssueKind::SampleRateMismatch
                    || issue.0 == ValidationIssueKind::ChannelConflict),
            }
        },
{
    let tracks = session.tracks@;
    lemma_track_issue_indices(tracks, session.metadata.sample_rate, tracks.len() as int);
}

} // verus!
