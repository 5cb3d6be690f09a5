//! The decisions of the command-line tool: output formats, the audio format
//! of an input path, and the extension shared by a folder's inputs.
use vstd::prelude::*;
use vstd::string::*;
use std::path::Path;
use crate::format::{format_for_extension, AudioFormat};
use crate::text::{decimal, lower, lowercase_ascii, push_decimal};
use crate::domain::{AudioTrack, ChannelAssignment, Session, SessionMetadata, MAX_CHANNEL_INDEX};
use crate::metadata::AudioMetadata;
use crate::validation::session_is_valid;
use crate::names::{last_dot, last_separator};

verus! {

/// Whether a path's text reads the same under every platform's path syntax:
/// no `\` and no `:` (which Windows also treats as a separator or as a
/// drive prefix), and no leading `//` (a Windows network share).
pub open spec fn portable_path(path: Seq<char>) -> bool {
    &&& forall|i: int| 0 <= i < path.len() ==> #[trigger] path[i] != '\\' && path[i] != ':'
    &&& !(path.len() >= 2 && path[0] == '/' && path[1] == '/')
}

/// A `/`-separated path without its trailing separators and trailing `.`
/// components, which `Path::components` does not yield.
pub open spec fn trim_path_tail(path: Seq<char>) -> Seq<char>
    decreases path.len(),
{
    if path.len() > 0 && path.last() == '/' {
        trim_path_tail(path.drop_last())
    } else if path == seq!['.'] || (path.len() >= 2 && path.last() == '.' && path[path.len() - 2] == '/') {
        trim_path_tail(path.drop_last())
    } else {
        path
    }
}

/// The file name of a `/`-separated path (`Path::file_name`): its last
/// component, unless there is none or it is `..`.
pub open spec fn path_file_name(path: Seq<char>) -> Option<Seq<char>> {
    let trimmed = trim_path_tail(path);
    let name = trimmed.skip(last_separator(trimmed, trimmed.len() as int) + 1);
    if name.len() == 0 || name == seq!['.', '.'] {
        None
    } else {
        Some(name)
    }
}

/// The extension of a `/`-separated path as `Path::extension` documents it:
/// none without a file name, none when the file name holds no `.` or only a
/// leading one, else the text after the file name's last `.`.
pub open spec fn std_extension(path: Seq<char>) -> Option<Seq<char>> {
    match path_file_name(path) {
        None => None,
        Some(name) => {
            let dot = last_dot(name, name.len() as int);
            if dot <= 0 {
                None
            } else {
                Some(name.skip(dot + 1))
            }
        },
    }
}

/// Calls `Path::extension` on the path `path` and converts the result to
/// an owned string (always possible, since the path is UTF-8 text). For a
/// path that reads the same on every platform, the result is the extension
/// that std documents, [`std_extension`]; for other paths, whose extension
/// depends on the platform's path syntax, nothing is stated.
#[verifier::external_body]
fn path_extension(path: &str) -> (res: Option<String>)
    ensures
        portable_path(path@) ==> option_value(res) == std_extension(path@),
{
    Path::new(path).extension().and_then(|extension| extension.to_str()).map(|extension| extension.to_owned())
}

/// Destination audio format for `convert` and `create`.
#[derive(Clone, Copy, Debug, PartialEq, Eq, Structural)]
pub enum OutputFormat {
    /// FLAC output (default). Confirmed compatible with real Ui24R hardware.
    Flac,
    /// Canonical PCM WAV output.
    Wav,
    /// MP3 output at constant 320 kbps; local use only.
    Mp3,
}

pub open spec fn output_extension(format: OutputFormat) -> Seq<char> {
    match format {
        OutputFormat::Flac => "flac"@,
        OutputFormat::Wav => "wav"@,
        OutputFormat::Mp3 => "mp3"@,
    }
}

impl OutputFormat {
    /// The file extension written for this output format, without its dot.
    pub fn extension(self) -> (res: &'static str)
        ensures
            res@ == output_extension(self),
    {
        match self {
            OutputFormat::Flac => "flac",
            OutputFormat::Wav => "wav",
            OutputFormat::Mp3 => "mp3",
        }
    }

    /// The audio format of the files this output format produces.
    pub fn audio_format(self) -> (res: AudioFormat)
        ensures
            res == match self {
                OutputFormat::Flac => AudioFormat::Flac,
                OutputFormat::Wav => AudioFormat::Wav,
                OutputFormat::Mp3 => AudioFormat::Mp3,
            },
    {
        match self {
            OutputFormat::Flac => AudioFormat::Flac,
            OutputFormat::Wav => AudioFormat::Wav,
            OutputFormat::Mp3 => AudioFormat::Mp3,
        }
    }
}

/// The input format chosen for a path from its extension (given when the
/// path has a UTF-8 one) and its displayed text.
pub open spec fn format_for_path(extension: Option<Seq<char>>, display: Seq<char>) -> Result<AudioFormat, Seq<char>> {
    match extension {
        None => Err(display + " has no supported audio extension"@),
        Some(e) => match format_for_extension(e) {
            Some(format) => Ok(format),
            None => Err("unsupported audio extension: ."@ + e),
        },
    }
}

pub open spec fn option_value(s: Option<String>) -> Option<Seq<char>> {
    match s {
        Some(v) => Some(v@),
        None => None,
    }
}

/// The input format for a file extension (if any) and the displayed path.
pub fn audio_format_for(extension: Option<String>, display: String) -> (res: Result<AudioFormat, String>)
    ensures
        match format_for_path(option_value(extension), display@) {
            Ok(format) => res == Ok::<AudioFormat, String>(format),
            Err(m) => res matches Err(text) && text@ == m,
        },
{
    match extension {
        None => {
            let mut message = display;
            message.append(" has no supported audio extension");
            Err(message)
        },
        Some(e) => match AudioFormat::from_extension(e.as_str()) {
            Some(format) => Ok(format),
            None => {
                let mut message = String::from_str("unsupported audio extension: .");
                message.append(e.as_str());
                Err(message)
            },
        },
    }
}
/// The input format of the path `path`, from its extension. For a path that
/// reads the same on every platform the result is exact; for any path, the
/// error text names the path as given.
pub fn audio_format(path: &str) -> (res: Result<AudioFormat, String>)
    ensures
        portable_path(path@) ==> match format_for_path(std_extension(path@), path@) {
            Ok(format) => res == Ok::<AudioFormat, String>(format),
            Err(m) => res matches Err(text) && text@ == m,
        },
        exists|extension: Option<Seq<char>>|
            match #[trigger] format_for_path(extension, path@) {
                Ok(format) => res == Ok::<AudioFormat, String>(format),
                Err(m) => res matches Err(text) && text@ == m,
            },
{
    let extension = path_extension(path);
    let ghost e = option_value(extension);
    let res = audio_format_for(extension, String::from_str(path));
    assert(match format_for_path(e, path@) {
        Ok(format) => res == Ok::<AudioFormat, String>(format),
        Err(m) => res matches Err(text) && text@ == m,
    });
    res
}

/// The lower-cased extensions that are present, in order.
pub open spec fn present_extensions(extensions: Seq<Option<Seq<char>>>) -> Seq<Seq<char>>
    decreases extensions.len(),
{
    if extensions.len() == 0 {
        seq![]
    } else {
        present_extensions(extensions.drop_last()) + match extensions.last() {
            Some(e) => seq![lower(e)],
            None => seq![],
        }
    }
}

/// The first position from `k` on whose extension differs from the first.
pub open spec fn first_mismatch(present: Seq<Seq<char>>, k: int) -> Option<int>
    decreases present.len() - k,
{
    if k < 1 || k >= present.len() {
        None
    } else if present[k] != present[0] {
        Some(k)
    } else {
        first_mismatch(present, k + 1)
    }
}

pub open spec fn no_audio_message() -> Seq<char> {
    "no supported audio files found"@
}

pub open spec fn mixed_extensions_message(first: Seq<char>, other: Seq<char>) -> Seq<char> {
    "cannot write .uirecsession without an output path: input files use mixed extensions (."@
        + first + " and ."@ + other
        + "); convert them to a single format first with `convert` or pass an output path to `create`"@
}

/// The extension shared by all inputs that have one, compared
/// case-insensitively and returned lower-cased.
pub open spec fn shared_extension_result(extensions: Seq<Option<Seq<char>>>) -> Result<Seq<char>, Seq<char>> {
    let present = present_extensions(extensions);
    if present.len() == 0 {
        Err(no_audio_message())
    } else {
        match first_mismatch(present, 1) {
            Some(k) => Err(mixed_extensions_message(present[0], present[k])),
            None => Ok(present[0]),
        }
    }
}

} // verus!

verus! {

pub open spec fn option_values(extensions: Seq<Option<String>>) -> Seq<Option<Seq<char>>> {
    extensions.map_values(|e: Option<String>| option_value(e))
}

/// The extension shared by all inputs that have one, lower-cased.
pub fn shared_extension(extensions: &[Option<String>]) -> (res: Result<String, String>)
    ensures
        match shared_extension_result(option_values(extensions@)) {
            Ok(e) => res matches Ok(text) && text@ == e,
            Err(m) => res matches Err(text) && text@ == m,
        },
{
    let ghost exts = option_values(extensions@);
    let mut present: Vec<String> = Vec::new();
    let mut i: usize = 0;
    while i < extensions.len()
        invariant
            i <= extensions@.len(),
            exts == option_values(extensions@),
            present@.map_values(|s: String| s@) == present_extensions(exts.take(i as int)),
        decreases extensions@.len() - i,
    {
        let ghost before = present@;
        assert(exts.take(i + 1).drop_last() =~= exts.take(i as int));
        match &extensions[i] {
            Some(e) => {
                let lowered = lowercase_ascii(e.as_str());
                present.push(lowered);
                assert(present@.map_values(|s: String| s@) =~= before.map_values(|s: String| s@).push(lowered@));
            },
            None => {},
        }
        assert(present@.map_values(|s: String| s@) =~= present_extensions(exts.take(i + 1)));
        i = i + 1;
    }
    assert(exts.take(extensions@.len() as int) =~= exts);
    let ghost p = present_extensions(exts);
    if present.len() == 0 {
        return Err(String::from_str("no supported audio files found"));
    }
    assert(present[0]@ == p[0]);
    let mut k: usize = 1;
    while k < present.len()
        invariant
            1 <= k <= present@.len(),
            p == present@.map_values(|s: String| s@),
            p == present_extensions(option_values(extensions@)),
            first_mismatch(p, 1) == first_mismatch(p, k as int),
        decreases present@.len() - k,
    {
        assert(present[k as int]@ == p[k as int]);
        assert(present[0]@ == p[0]);
        if present[k] != present[0] {
            assert(first_mismatch(p, k as int) == Some(k as int));
            let mut message = String::from_str(
                "cannot write .uirecsession without an output path: input files use mixed extensions (.",
            );
            message.append(present[0].as_str());
            message.append(" and .");
            message.append(present[k].as_str());
            message.append("); convert them to a single format first with `convert` or pass an output path to `create`");
            return Err(message);
        }
        k = k + 1;
    }
    Ok(present[0].clone())
}

/// The extensions that `Path::extension` documents for the paths `inputs`.
pub open spec fn std_extensions(inputs: Seq<String>) -> Seq<Option<Seq<char>>> {
    inputs.map_values(|p: String| std_extension(p@))
}

/// Whether every path of `inputs` reads the same on every platform.
pub open spec fn all_portable(inputs: Seq<String>) -> bool {
    forall|i: int| 0 <= i < inputs.len() ==> portable_path(#[trigger] inputs[i]@)
}

/// The outcome of finding the shared extension among `extensions`.
pub open spec fn shared_extension_holds(res: Result<String, String>, extensions: Seq<Option<Seq<char>>>) -> bool {
    match shared_extension_result(extensions) {
        Ok(e) => res matches Ok(text) && text@ == e,
        Err(m) => res matches Err(text) && text@ == m,
    }
}

/// The lower-cased extension shared by every input path, used when a
/// `.uirecsession` is written next to files that are neither converted nor
/// copied. Paths without an extension are passed over. For paths that read
/// the same on every platform the result is exact.
pub fn shared_audio_extension(inputs: &[String]) -> (res: Result<String, String>)
    ensures
        all_portable(inputs@) ==> shared_extension_holds(res, std_extensions(inputs@)),
        exists|extensions: Seq<Option<Seq<char>>>| {
            &&& extensions.len() == inputs@.len()
            &&& #[trigger] shared_extension_holds(res, extensions)
        },
{
    let mut extensions: Vec<Option<String>> = Vec::new();
    let mut i: usize = 0;
    while i < inputs.len()
        invariant
            i <= inputs@.len(),
            extensions@.len() == i,
            all_portable(inputs@) ==> option_values(extensions@) == std_extensions(inputs@).take(i as int),
        decreases inputs@.len() - i,
    {
        let extension = path_extension(inputs[i].as_str());
        let ghost before = extensions@;
        extensions.push(extension);
        proof {
            if all_portable(inputs@) {
                assert(portable_path(inputs@[i as int]@));
                assert(option_values(extensions@) =~= option_values(before).push(option_value(extension)));
                assert(std_extensions(inputs@).take(i + 1) =~= std_extensions(inputs@).take(i as int).push(
                    std_extension(inputs@[i as int]@)));
            }
        }
        i = i + 1;
    }
    let res = shared_extension(extensions.as_slice());
    let ghost exts = option_values(extensions@);
    assert(shared_extension_holds(res, exts));
    proof {
        if all_portable(inputs@) {
            assert(std_extensions(inputs@).take(inputs@.len() as int) =~= std_extensions(inputs@));
        }
    }
    res
}

} // verus!

verus! {

proof fn lemma_present_extensions_lowercase(extensions: Seq<Option<Seq<char>>>)
    ensures
        forall|k: int| 0 <= k < present_extensions(extensions).len() ==>
            lower(#[trigger] present_extensions(extensions)[k]) == present_extensions(extensions)[k],
    decreases extensions.len(),
{
    if extensions.len() > 0 {
        lemma_present_extensions_lowercase(extensions.drop_last());
        let p = present_extensions(extensions);
        let q = present_extensions(extensions.drop_last());
        assert forall|k: int| 0 <= k < p.len() implies lower(#[trigger] p[k]) == p[k] by {
            if k < q.len() {
                assert(p[k] == q[k]);
            } else {
                let e = extensions.last()->Some_0;
                assert(p[k] == lower(e));
                assert(lower(lower(e)) =~= lower(e));
            }
        }
    }
}

proof fn lemma_no_mismatch_all_equal(present: Seq<Seq<char>>, k: int)
    requires
        1 <= k,
        first_mismatch(present, k) is None,
    ensures
        forall|i: int| k <= i < present.len() ==> #[trigger] present[i] == present[0],
    decreases present.len() - k,
{
    if k < present.len() {
        lemma_no_mismatch_all_equal(present, k + 1);
    }
}

/// A shared extension is lower-case, and every input that has an extension
/// has that one up to ASCII case; otherwise an error is reported.
pub proof fn lemma_shared_extension_is_common(extensions: Seq<Option<Seq<char>>>)
    ensures
        shared_extension_result(extensions) matches Ok(e) ==> {
            &&& lower(e) == e
            &&& forall|i: int| 0 <= i < extensions.len() ==> (#[trigger] extensions[i] matches Some(x) ==> lower(x) == e)
        },
{
    let p = present_extensions(extensions);
    lemma_present_extensions_lowercase(extensions);
    if shared_extension_result(extensions) is Ok {
        lemma_no_mismatch_all_equal(p, 1);
        lemma_present_contains(extensions);
        assert forall|i: int| 0 <= i < extensions.len() implies (#[trigger] extensions[i] matches Some(x) ==> lower(x) == p[0]) by {
            if extensions[i] is Some {
                let k = choose|k: int| 0 <= k < p.len() && p[k] == lower(extensions[i]->Some_0);
                assert(p[k] == p[0]);
            }
        }
    }
}

proof fn lemma_present_contains(extensions: Seq<Option<Seq<char>>>)
    ensures
        forall|i: int| 0 <= i < extensions.len() && #[trigger] extensions[i] is Some ==>
            exists|k: int| 0 <= k < present_extensions(extensions).len()
                && present_extensions(extensions)[k] == lower(extensions[i]->Some_0),
    decreases extensions.len(),
{
    if extensions.len() > 0 {
        let rest = extensions.drop_last();
        lemma_present_contains(rest);
        let p = present_extensions(extensions);
        let q = present_extensions(rest);
        assert forall|i: int| 0 <= i < extensions.len() && #[trigger] extensions[i] is Some implies
            exists|k: int| 0 <= k < p.len() && p[k] == lower(extensions[i]->Some_0) by {
            if i < rest.len() {
                assert(rest[i] == extensions[i]);
                let k = choose|k: int| 0 <= k < q.len() && q[k] == lower(rest[i]->Some_0);
                assert(p[k] == q[k]);
            } else {
                assert(p[q.len() as int] == lower(extensions[i]->Some_0));
            }
        }
    }
}

} // verus!

verus! {

/// The output file names already claimed while converting a folder.
pub struct OutputNames {
    claimed: Vec<String>,
}

impl View for OutputNames {
    type V = Seq<Seq<char>>;

    closed spec fn view(&self) -> Seq<Seq<char>> {
        self.claimed@.map_values(|s: String| s@)
    }
}

pub open spec fn output_file_name(stem: Seq<char>, extension: Seq<char>) -> Seq<char> {
    stem + "."@ + extension
}

/// An output name is the stem exactly as given, a dot, then the extension:
/// its characters are neither changed nor dropped.
pub proof fn lemma_output_name_parts(stem: Seq<char>, extension: Seq<char>)
    ensures
        ({
            let name = output_file_name(stem, extension);
            &&& name.len() == stem.len() + 1 + extension.len()
            &&& name.subrange(0, stem.len() as int) == stem
            &&& name[stem.len() as int] == '.'
            &&& name.subrange(stem.len() + 1int, name.len() as int) == extension
        }),
{
    let name = output_file_name(stem, extension);
    reveal_strlit(".");
    assert(name.subrange(0, stem.len() as int) =~= stem);
    assert(name.subrange(stem.len() + 1int, name.len() as int) =~= extension);
}

/// Two different stems given the same extension claim different output
/// names (so `Kick` and `kick` never collide), and the same stem with two
/// different extensions claims different names too.
pub proof fn lemma_output_names_distinct(stem1: Seq<char>, stem2: Seq<char>, ext1: Seq<char>, ext2: Seq<char>)
    requires
        stem1 != stem2 && ext1 == ext2 || stem1 == stem2 && ext1 != ext2,
    ensures
        output_file_name(stem1, ext1) != output_file_name(stem2, ext2),
{
    lemma_output_name_parts(stem1, ext1);
    lemma_output_name_parts(stem2, ext2);
    let n1 = output_file_name(stem1, ext1);
    let n2 = output_file_name(stem2, ext2);
    if n1 == n2 {
        if ext1 == ext2 {
            assert(stem1.len() == stem2.len());
            assert(stem1 == n1.subrange(0, stem1.len() as int));
        } else {
            assert(n1.subrange(stem1.len() + 1int, n1.len() as int) == n2.subrange(stem2.len() + 1int, n2.len() as int));
        }
    }
}

impl OutputNames {
    /// No name claimed yet.
    pub fn new() -> (res: Self)
        ensures
            res@ == Seq::<Seq<char>>::empty(),
    {
        let res = OutputNames { claimed: Vec::new() };
        assert(res@ =~= Seq::<Seq<char>>::empty());
        res
    }

    /// Claims the output name `<stem>.<extension>`; a name claimed before
    /// is refused, since two inputs would write the same file.
    pub fn claim(&mut self, stem: &str, extension: &str) -> (res: Result<String, String>)
        ensures
            ({
                let name = output_file_name(stem@, extension@);
                if old(self)@.contains(name) {
                    &&& res matches Err(m) && m@ == "multiple inputs would write "@ + name
                    &&& final(self)@ == old(self)@
                } else {
                    &&& res matches Ok(n) && n@ == name
                    &&& final(self)@ == old(self)@.push(name)
                }
            }),
        res matches Ok(n) ==> {
            &&& n@.len() == stem@.len() + 1 + extension@.len()
            &&& n@.subrange(0, stem@.len() as int) == stem@
            &&& n@[stem@.len() as int] == '.'
            &&& n@.subrange(stem@.len() + 1int, n@.len() as int) == extension@
        },
    {
        let mut name = String::from_str(stem);
        name.append(".");
        name.append(extension);
        let ghost target = output_file_name(stem@, extension@);
        assert(name@ == target);
        let mut i: usize = 0;
        let mut found = false;
        while i < self.claimed.len() && !found
            invariant
                i <= self.claimed@.len(),
                name@ == target,
                self@ == old(self)@,
                self@ == self.claimed@.map_values(|s: String| s@),
                found ==> self@.contains(target),
                !found ==> forall|k: int| 0 <= k < i ==> self@[k] != target,
            decreases self.claimed@.len() - i,
        {
            if self.claimed[i] == name {
                assert(self@[i as int] == target);
                found = true;
            }
            i = i + 1;
        }
        if found {
            let mut message = String::from_str("multiple inputs would write ");
            message.append(name.as_str());
            return Err(message);
        }
        assert(!self@.contains(target));
        let ghost before = self.claimed@;
        self.claimed.push(name.clone());
        assert(self.claimed@.map_values(|s: String| s@) =~= before.map_values(|s: String| s@).push(target));
        proof {
            lemma_output_name_parts(stem@, extension@);
        }
        Ok(name)
    }
}

} // verus!

verus! {

/// A session being assembled from analysed inputs, in the order in which
/// the inputs are added: each track plays on the channel of its position,
/// and every track shares the first track's sample rate.
pub struct SessionDraft {
    sample_rate: Option<u32>,
    duration_samples: u64,
    tracks: Vec<AudioTrack>,
}

/// The sample rate, session length and tracks of a draft.
pub type DraftValue = (Option<u32>, u64, Seq<AudioTrack>);

impl View for SessionDraft {
    type V = DraftValue;

    closed spec fn view(&self) -> DraftValue {
        (self.sample_rate, self.duration_samples, self.tracks@)
    }
}

pub open spec fn draft_consistent(draft: DraftValue) -> bool {
    let (rate, _, tracks) = draft;
    &&& (rate is Some <==> tracks.len() > 0)
    &&& tracks.len() <= MAX_CHANNEL_INDEX + 1
    &&& forall|i: int| 0 <= i < tracks.len() ==> {
        &&& (#[trigger] tracks[i]).channel@ == i
        &&& rate matches Some(r) && tracks[i].metadata.sample_rate == r
    }
}

pub open spec fn track_file_name(display_name: Seq<char>, extension: Seq<char>) -> Seq<char> {
    display_name + "."@ + extension
}

pub open spec fn rate_mismatch_message(path: Seq<char>, found: u32, expected: u32) -> Seq<char> {
    "sample rate mismatch: "@ + path + " uses "@ + decimal(found as nat) + " Hz, expected "@
        + decimal(expected as nat) + " Hz"@
}

impl SessionDraft {
    #[verifier::type_invariant]
    spec fn consistent(self) -> bool {
        draft_consistent(self@)
    }

    /// A draft without tracks.
    pub fn new() -> (res: Self)
        ensures
            res@ == (None::<u32>, 0u64, Seq::<AudioTrack>::empty()),
    {
        SessionDraft { sample_rate: None, duration_samples: 0, tracks: Vec::new() }
    }

    /// The number of tracks added so far.
    pub fn track_count(&self) -> (res: usize)
        ensures
            res == self@.2.len(),
    {
        self.tracks.len()
    }

    /// Adds the analysed input shown as `path` as the next track, named
    /// `display_name` (its file stem, `None` where it has none) and stored as
    /// `<display_name>.<extension>`. A sample rate other than the first
    /// track's is refused, then an input without a name, then a track beyond
    /// the last channel; the session length is the longest input.
    pub fn add_track(&mut self, path: &str, display_name: Option<&str>, extension: &str, metadata: AudioMetadata) -> (res: Result<(), String>)
        ensures
            ({
                let (rate, duration, tracks) = old(self)@;
                match rate {
                    Some(expected) if expected != metadata.sample_rate => {
                        &&& res matches Err(m) && m@ == rate_mismatch_message(path@, metadata.sample_rate, expected)
                        &&& final(self)@ == old(self)@
                    },
                    _ => if display_name is None {
                        &&& res matches Err(m) && m@ == "invalid audio filename: "@ + path@
                        &&& final(self)@ == old(self)@
                    } else if tracks.len() > MAX_CHANNEL_INDEX {
                        &&& res matches Err(m) && m@ == "invalid channel assignment for "@ + path@
                        &&& final(self)@ == old(self)@
                    } else {
                        &&& res is Ok
                        &&& final(self)@.0 == Some(metadata.sample_rate)
                        &&& final(self)@.1 == if metadata.duration_samples > duration { metadata.duration_samples } else { duration }
                        &&& final(self)@.2.len() == tracks.len() + 1
                        &&& final(self)@.2.subrange(0, tracks.len() as int) == tracks
                        &&& final(self)@.2.last().display_name@ == display_name->Some_0@
                        &&& final(self)@.2.last().file_name@ == track_file_name(display_name->Some_0@, extension@)
                        &&& final(self)@.2.last().metadata == metadata
                        &&& final(self)@.2.last().channel@ == tracks.len()
                    },
                }
            }),
    {
        proof {
            use_type_invariant(&*self);
        }
        match self.sample_rate {
            Some(expected) => {
                if expected != metadata.sample_rate {
                    let mut message = String::from_str("sample rate mismatch: ");
                    message.append(path);
                    message.append(" uses ");
                    push_decimal(&mut message, metadata.sample_rate as u64);
                    message.append(" Hz, expected ");
                    push_decimal(&mut message, expected as u64);
                    message.append(" Hz");
                    return Err(message);
                }
            },
            None => {},
        }
        let display_name = match display_name {
            Some(name) => name,
            None => {
                let mut message = String::from_str("invalid audio filename: ");
                message.append(path);
                return Err(message);
            },
        };
        let count = self.tracks.len();
        let channel = if count <= MAX_CHANNEL_INDEX as usize {
            ChannelAssignment::new(count as u8)
        } else {
            None
        };
        let channel = match channel {
            Some(channel) => channel,
            None => {
                let mut message = String::from_str("invalid channel assignment for ");
                message.append(path);
                return Err(message);
            },
        };
        let rate = metadata.sample_rate;
        let duration = if metadata.duration_samples > self.duration_samples {
            metadata.duration_samples
        } else {
            self.duration_samples
        };
        let mut file_name = String::from_str(display_name);
        file_name.append(".");
        file_name.append(extension);
        let track = AudioTrack {
            display_name: String::from_str(display_name),
            file_name,
            metadata,
            channel,
        };
        let mut previous = SessionDraft::new();
        std::mem::swap(&mut previous, self);
        let SessionDraft { sample_rate: _, duration_samples: _, tracks: mut track_list } = previous;
        let ghost before = track_list@;
        track_list.push(track);
        assert(track_list@.subrange(0, before.len() as int) =~= before);
        *self = SessionDraft { sample_rate: Some(rate), duration_samples: duration, tracks: track_list };
        Ok(())
    }

    /// The session named `name` holding the added tracks; it is valid when
    /// its sample rate is not zero.
    pub fn finish(self, name: String) -> (res: Session)
        requires
            self@.2.len() > 0,
        ensures
            res.metadata.name == name,
            Some(res.metadata.sample_rate) == self@.0,
            res.metadata.duration_samples == self@.1,
            res.tracks@ == self@.2,
            res.metadata.sample_rate > 0 ==> session_is_valid(res),
    {
        proof {
            use_type_invariant(&self);
        }
        let ghost tracks = self@.2;
        let SessionDraft { sample_rate, duration_samples, tracks: track_list } = self;
        let rate = match sample_rate {
            Some(rate) => rate,
            None => 0,
        };
        let session = Session {
            metadata: SessionMetadata { name, sample_rate: rate, duration_samples },
            tracks: track_list,
        };
        assert forall|i: int, j: int| 0 <= i < j < tracks.len() implies
            #[trigger] tracks[i].channel@ != #[trigger] tracks[j].channel@ by {
            assert(tracks[i].channel@ == i);
            assert(tracks[j].channel@ == j);
        }
        session
    }
}

} // verus!

verus! {

pub open spec fn zip_without_output_message() -> Seq<char> {
    "an output path is required when --zip is used"@
}

pub open spec fn too_many_tracks_message() -> Seq<char> {
    "a Ui24R session cannot contain more than 22 tracks"@
}

/// A `--zip` archive is written to the output path, so one must be given.
pub fn check_zip_output(as_zip: bool, has_output: bool) -> (res: Result<(), String>)
    ensures
        as_zip && !has_output ==> (res matches Err(m) && m@ == zip_without_output_message()),
        !(as_zip && !has_output) ==> res is Ok,
{
    if as_zip && !has_output {
        Err(String::from_str("an output path is required when --zip is used"))
    } else {
        Ok(())
    }
}

/// A folder to convert or to build a session from must hold at least one
/// supported audio file; `directory` is the folder as displayed.
pub fn require_inputs(directory: &str, count: usize) -> (res: Result<(), String>)
    ensures
        count == 0 ==> (res matches Err(m) && m@ == "no supported audio files found in "@ + directory@),
        count > 0 ==> res is Ok,
{
    if count == 0 {
        let mut message = String::from_str("no supported audio files found in ");
        message.append(directory);
        Err(message)
    } else {
        Ok(())
    }
}

/// A session holds at most one track per channel.
pub fn require_session_size(count: usize) -> (res: Result<(), String>)
    ensures
        count > 22 ==> (res matches Err(m) && m@ == too_many_tracks_message()),
        count <= 22 ==> res is Ok,
{
    if count > 22 {
        Err(String::from_str("a Ui24R session cannot contain more than 22 tracks"))
    } else {
        Ok(())
    }
}

/// The session's name: the one given, else the input folder's name, else a
/// fixed default.
pub fn session_name(name: Option<String>, directory_name: Option<String>) -> (res: String)
    ensures
        res@ == match name {
            Some(n) => n@,
            None => match directory_name {
                Some(d) => d@,
                None => "Ui24R Session"@,
            },
        },
{
    match name {
        Some(n) => n,
        None => match directory_name {
            Some(d) => d,
            None => String::from_str("Ui24R Session"),
        },
    }
}

/// The extension that the session's files carry: that of the output
/// format where the inputs are converted into an output path, else the one
/// that the inputs already share.
pub fn session_audio_extension(output: Option<OutputFormat>, inputs: &[String]) -> (res: Result<String, String>)
    ensures
        output matches Some(f) ==> (res matches Ok(text) && text@ == output_extension(f)),
        output is None && all_portable(inputs@) ==> shared_extension_holds(res, std_extensions(inputs@)),
        output is None ==> exists|extensions: Seq<Option<Seq<char>>>| {
            &&& extensions.len() == inputs@.len()
            &&& #[trigger] shared_extension_holds(res, extensions)
        },
{
    match output {
        Some(format) => Ok(String::from_str(format.extension())),
        None => shared_audio_extension(inputs),
    }
}

} // verus!
