//! Errors shared by every audio output-format encoder.
use vstd::prelude::*;

use vstd::string::*;

verus! {

/// Errors returned while decoding an audio source before encoding it in an
/// output format (FLAC, WAV or MP3).
#[derive(Clone, Debug, PartialEq, Eq)]
pub enum AudioConversionError {
    /// The source metadata or bytes are invalid.
    InvalidInput(String),
    /// The source could not be decoded.
    Decode(String),
    /// The decoded samples could not be encoded in the destination format.
    Encoding(String),
    /// The encoded stream could not be written to the output sink.
    Write(String),
}

/// The variant of an [`AudioConversionError`].
#[derive(Clone, Copy, Debug, PartialEq, Eq, Structural)]
pub enum ConversionErrorKind {
    InvalidInput,
    Decode,
    Encoding,
    Write,
}

/// The mathematical value of a conversion error: its variant and its text.
pub type ConversionErrorValue = (ConversionErrorKind, Seq<char>);

impl View for AudioConversionError {
    type V = ConversionErrorValue;

    open spec fn view(&self) -> ConversionErrorValue {
        match self {
            AudioConversionError::InvalidInput(m) => (ConversionErrorKind::InvalidInput, m@),
            AudioConversionError::Decode(m) => (ConversionErrorKind::Decode, m@),
            AudioConversionError::Encoding(m) => (ConversionErrorKind::Encoding, m@),
            AudioConversionError::Write(m) => (ConversionErrorKind::Write, m@),
        }
    }
}

impl AudioConversionError {
    /// The human-readable text of this error.
    pub fn message(&self) -> (res: String)
        ensures
            res@ == self@.1,
    {
        match self {
            AudioConversionError::InvalidInput(m) => m.clone(),
            AudioConversionError::Decode(m) => m.clone(),
            AudioConversionError::Encoding(m) => m.clone(),
            AudioConversionError::Write(m) => m.clone(),
        }
    }
}

/// The text reported when decoding or encoding stopped abnormally on a
/// malformed or truncated input.
pub open spec fn aborted_decode_message() -> Seq<char> {
    "The audio decoder panicked while parsing a malformed or truncated input."@
}

/// The error reported when decoding or encoding stopped abnormally.
pub fn aborted_decode_error() -> (res: AudioConversionError)
    ensures
        res@ == (ConversionErrorKind::Decode, aborted_decode_message()),
{
    AudioConversionError::Decode(String::from_str(
        "The audio decoder panicked while parsing a malformed or truncated input.",
    ))
}

} // verus!
