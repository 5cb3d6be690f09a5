//! Audio container formats accepted as conversion and session input.
use vstd::prelude::*;
use vstd::string::*;
use crate::text::{lower, lower_char, lower_char_exec};

verus! {

/// Audio formats accepted as input: WAV, FLAC, AIFF and MP3.
#[derive(Clone, Copy, Debug, PartialEq, Eq, Structural)]
pub enum AudioFormat {
    Wav,
    Flac,
    Aiff,
    Mp3,
}

/// `s` with every leading `.` removed (`str::trim_start_matches('.')`).
pub open spec fn trim_leading_dots(s: Seq<char>) -> Seq<char>
    decreases s.len(),
{
    if s.len() > 0 && s[0] == '.' {
        trim_leading_dots(s.drop_first())
    } else {
        s
    }
}

/// The format named by an already trimmed and lower-cased extension.
pub open spec fn format_named(name: Seq<char>) -> Option<AudioFormat> {
    if name == "wav"@ {
        Some(AudioFormat::Wav)
    } else if name == "flac"@ {
        Some(AudioFormat::Flac)
    } else if name == "aif"@ || name == "aiff"@ {
        Some(AudioFormat::Aiff)
    } else if name == "mp3"@ {
        Some(AudioFormat::Mp3)
    } else {
        None
    }
}

/// The format recognised for a file extension: leading dots are ignored and
/// the comparison is ASCII case-insensitive.
pub open spec fn format_for_extension(extension: Seq<char>) -> Option<AudioFormat> {
    format_named(lower(trim_leading_dots(extension)))
}

/// The canonical extension of a format, without its dot.
pub open spec fn extension_of(format: AudioFormat) -> Seq<char> {
    match format {
        AudioFormat::Wav => "wav"@,
        AudioFormat::Flac => "flac"@,
        AudioFormat::Aiff => "aiff"@,
        AudioFormat::Mp3 => "mp3"@,
    }
}

/// The display name of a format.
pub open spec fn name_of(format: AudioFormat) -> Seq<char> {
    match format {
        AudioFormat::Wav => "WAV"@,
        AudioFormat::Flac => "FLAC"@,
        AudioFormat::Aiff => "AIFF"@,
        AudioFormat::Mp3 => "MP3"@,
    }
}

/// Lower-cases `extension` after dropping its leading dots.
fn normalized_extension(extension: &str) -> (res: String)
    ensures
        res@ == lower(trim_leading_dots(extension@)),
{
    let n = extension.unicode_len();
    let mut start: usize = 0;
    assert(extension@.skip(0) =~= extension@);
    while start < n && extension.get_char(start) == '.'
        invariant
            n == extension@.len(),
            start <= n,
            trim_leading_dots(extension@) == trim_leading_dots(extension@.skip(start as int)),
        decreases n - start,
    {
        assert(extension@.skip(start as int).drop_first() =~= extension@.skip(start + 1));
        start = start + 1;
    }
    assert(trim_leading_dots(extension@.skip(start as int)) == extension@.skip(start as int));
    let mut out = String::new();
    let mut i: usize = start;
    while i < n
        invariant
            n == extension@.len(),
            start <= i <= n,
            out@ == lower(extension@.subrange(start as int, i as int)),
        decreases n - i,
    {
        let c = lower_char_exec(extension.get_char(i));
        out.push(c);
        assert(lower(extension@.subrange(start as int, i + 1)) =~= lower(
            extension@.subrange(start as int, i as int),
        ).push(c));
        i = i + 1;
    }
    assert(extension@.subrange(start as int, n as int) =~= extension@.skip(start as int));
    out
}

impl AudioFormat {
    /// Recognises a file extension such as `"wav"`, `".FLAC"` or `"aif"`.
    pub fn from_extension(extension: &str) -> (res: Option<Self>)
        ensures
            res == format_for_extension(extension@),
    {
        let name = normalized_extension(extension);
        if name == String::from_str("wav") {
            Some(AudioFormat::Wav)
        } else if name == String::from_str("flac") {
            Some(AudioFormat::Flac)
        } else if name == String::from_str("aif") || name == String::from_str("aiff") {
            Some(AudioFormat::Aiff)
        } else if name == String::from_str("mp3") {
            Some(AudioFormat::Mp3)
        } else {
            None
        }
    }

    /// The canonical extension of this format, without its dot.
    pub fn extension(&self) -> (res: &'static str)
        ensures
            res@ == extension_of(*self),
    {
        match self {
            AudioFormat::Wav => "wav",
            AudioFormat::Flac => "flac",
            AudioFormat::Aiff => "aiff",
            AudioFormat::Mp3 => "mp3",
        }
    }

    /// The display name of this format (`"WAV"`, `"FLAC"`, `"AIFF"`, `"MP3"`).
    pub fn name(&self) -> (res: &'static str)
        ensures
            res@ == name_of(*self),
    {
        match self {
            AudioFormat::Wav => "WAV",
            AudioFormat::Flac => "FLAC",
            AudioFormat::Aiff => "AIFF",
            AudioFormat::Mp3 => "MP3",
        }
    }
}

} // verus!

verus! {

proof fn lemma_lower_idempotent(s: Seq<char>)
    ensures
        lower(lower(s)) == lower(s),
{
    assert(lower(lower(s)) =~= lower(s));
}

proof fn lemma_trim_commutes_with_lower(s: Seq<char>)
    ensures
        trim_leading_dots(lower(s)) == lower(trim_leading_dots(s)),
    decreases s.len(),
{
    if s.len() > 0 {
        assert(lower(s)[0] == lower_char(s[0]));
        assert(lower(s).drop_first() =~= lower(s.drop_first()));
        lemma_trim_commutes_with_lower(s.drop_first());
    }
}

/// Extensions are recognised case-insensitively: an extension and its ASCII
/// lower-cased form name the same format.
pub proof fn lemma_extension_case_insensitive(extension: Seq<char>)
    ensures
        format_for_extension(extension) == format_for_extension(lower(extension)),
{
    lemma_trim_commutes_with_lower(extension);
    lemma_lower_idempotent(trim_leading_dots(extension));
}

/// Leading dots are ignored: `.wav` names the same format as `wav`.
pub proof fn lemma_extension_leading_dot(extension: Seq<char>)
    ensures
        format_for_extension(seq!['.'] + extension) == format_for_extension(extension),
{
    assert((seq!['.'] + extension).drop_first() =~= extension);
}

/// Every format is recognised from its own canonical extension.
pub proof fn lemma_extension_round_trip(format: AudioFormat)
    ensures
        format_for_extension(extension_of(format)) == Some(format),
{
    reveal_strlit("wav");
    reveal_strlit("flac");
    reveal_strlit("aif");
    reveal_strlit("aiff");
    reveal_strlit("mp3");
    let e = extension_of(format);
    assert(trim_leading_dots(e) == e);
    assert(lower(e) =~= e);
}

} // verus!
