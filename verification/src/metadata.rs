//! Audio metadata as read from a source container.
use vstd::prelude::*;
use crate::format::AudioFormat;
use vstd::string::*;

verus! {

/// Stream parameters of one audio source.
#[derive(Clone, Debug, PartialEq, Eq, Structural)]
pub struct AudioMetadata {
    pub format: AudioFormat,
    pub sample_rate: u32,
    pub bit_depth: u16,
    pub channel_count: u16,
    pub duration_samples: u64,
}

/// Errors returned while reading audio metadata.
#[derive(Clone, Debug, PartialEq, Eq)]
pub enum AudioProcessingError {
    UnsupportedFormat(String),
    InvalidMetadata(String),
    ReadFailed(String),
}

impl AudioProcessingError {
    /// The human-readable text of this error.
    pub fn message(&self) -> (res: String)
        ensures
            res@ == match self {
                AudioProcessingError::UnsupportedFormat(m) => m@,
                AudioProcessingError::InvalidMetadata(m) => m@,
                AudioProcessingError::ReadFailed(m) => m@,
            },
    {
        match self {
            AudioProcessingError::UnsupportedFormat(m) => m.clone(),
            AudioProcessingError::InvalidMetadata(m) => m.clone(),
            AudioProcessingError::ReadFailed(m) => m.clone(),
        }
    }
}

/// A source of audio metadata for encoded audio bytes.
pub trait AudioMetadataReader {
    fn read_metadata(&self, source: &[u8], format: AudioFormat) -> Result<AudioMetadata, AudioProcessingError>;
}

} // verus!

verus! {

/// Reads WAV, FLAC, AIFF and MP3 metadata with the Symphonia probe.
///
/// The probe itself runs where a decoder failure can be caught; this type
/// holds the decisions made on what the probe reports.
#[derive(Clone, Copy, Debug, Default)]
pub struct SymphoniaMetadataReader;

impl SymphoniaMetadataReader {
    /// Refuses an empty source before it is probed.
    pub fn require_audio_bytes(source: &[u8]) -> (res: Result<(), AudioProcessingError>)
        ensures
            source@.len() == 0 <==> res is Err,
            res matches Err(e) ==> (e matches AudioProcessingError::ReadFailed(m) && m@ == "The audio source is empty."@),
    {
        if source.len() == 0 {
            return Err(AudioProcessingError::ReadFailed(String::from_str("The audio source is empty.")));
        }
        Ok(())
    }

    /// The metadata of a source from what its default track declares: the
    /// sample rate, the channel count and the frame count are required, an
    /// undeclared bit depth is reported as 0, and the bit depth and channel
    /// count must fit 16 bits.
    pub fn metadata_from_parameters(
        format: AudioFormat,
        sample_rate: Option<u32>,
        bits_per_sample: Option<u32>,
        channels: Option<usize>,
        frames: Option<u64>,
    ) -> (res: Result<AudioMetadata, AudioProcessingError>)
        ensures
            match (sample_rate, channels, frames) {
                (None, _, _) => res matches Err(AudioProcessingError::InvalidMetadata(m))
                    && m@ == "The audio source does not declare a sample rate."@,
                (Some(_), None, _) => res matches Err(AudioProcessingError::InvalidMetadata(m))
                    && m@ == "The audio source does not declare any channels."@,
                (Some(rate), Some(count), _) => {
                    let bits: u32 = match bits_per_sample { Some(b) => b, None => 0u32 };
                    if bits > u16::MAX {
                        res matches Err(AudioProcessingError::InvalidMetadata(m))
                            && m@ == "The audio source declares an unsupported bit depth."@
                    } else if count > u16::MAX {
                        res matches Err(AudioProcessingError::InvalidMetadata(m))
                            && m@ == "The audio source declares an unsupported channel count."@
                    } else {
                        match frames {
                            None => res matches Err(AudioProcessingError::InvalidMetadata(m))
                                && m@ == "The audio source does not declare a duration."@,
                            Some(n) => res == Ok::<AudioMetadata, AudioProcessingError>(AudioMetadata {
                                format,
                                sample_rate: rate,
                                bit_depth: bits as u16,
                                channel_count: count as u16,
                                duration_samples: n,
                            }),
                        }
                    }
                },
            },
    {
        let rate = match sample_rate {
            Some(rate) => rate,
            None => return Err(AudioProcessingError::InvalidMetadata(String::from_str(
                "The audio source does not declare a sample rate.",
            ))),
        };
        let bits = match bits_per_sample {
            Some(bits) => bits,
            None => 0,
        };
        let count = match channels {
            Some(count) => count,
            None => return Err(AudioProcessingError::InvalidMetadata(String::from_str(
                "The audio source does not declare any channels.",
            ))),
        };
        if bits > u16::MAX as u32 {
            return Err(AudioProcessingError::InvalidMetadata(String::from_str(
                "The audio source declares an unsupported bit depth.",
            )));
        }
        if count > u16::MAX as usize {
            return Err(AudioProcessingError::InvalidMetadata(String::from_str(
                "The audio source declares an unsupported channel count.",
            )));
        }
        let duration_samples = match frames {
            Some(n) => n,
            None => return Err(AudioProcessingError::InvalidMetadata(String::from_str(
                "The audio source does not declare a duration.",
            ))),
        };
        Ok(AudioMetadata {
            format,
            sample_rate: rate,
            bit_depth: bits as u16,
            channel_count: count as u16,
            duration_samples,
        })
    }
}

} // verus!
