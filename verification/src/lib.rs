//! Ui24R playback-session preparation: audio formats, PCM encoders, session
//! validation and `.uirecsession` configuration generation.
#![allow(unused_imports)]

pub mod text;
pub mod format;
pub mod metadata;
pub mod domain;
pub mod validation;
pub mod names;
pub mod session;
pub mod conversion_error;
pub mod decode;
pub mod wav;
pub mod flacenc_bridge;
pub mod flac;
pub mod cli;
pub mod mp3;

pub use cli::{
    audio_format, audio_format_for, check_zip_output, require_inputs, require_session_size,
    session_audio_extension, session_name, shared_audio_extension, shared_extension, OutputFormat,
    OutputNames, SessionDraft,
};
pub use conversion_error::{aborted_decode_error, AudioConversionError, ConversionErrorKind};
pub use decode::{
    append_samples, decode_failure_step, finish_decoding, next_packet_step, require_audio_bytes,
    stream_parameters, DecodeStep, DecodedPcm, PacketEvent,
};
pub use domain::{AudioTrack, ChannelAssignment, Session, SessionMetadata, MAX_CHANNEL_INDEX};
pub use flac::{pad_to_block_size, validate_parameters, FlacEncoder, FlacEncodingError, DEFAULT_BLOCK_SIZE};
pub use format::AudioFormat;
pub use metadata::{AudioMetadata, AudioMetadataReader, AudioProcessingError, SymphoniaMetadataReader};
pub use mp3::{drain_step, mp3_error, DrainStep, Mp3Encoder, Mp3PacketOutcome, MP3_BITRATE_KBPS};
pub use names::filename_without_extension;
pub use session::{
    generate_configuration, generate_configuration_for_extension, session_file_name, validate_source_files,
    SessionGenerationError, SourceFile, Ui24rSessionConfiguration,
};
pub use validation::{validate_session, ValidationIssue, ValidationIssueKind, MAX_TRACK_COUNT};
pub use wav::{encode_pcm_as_wav, fits_wav_limits, WavEncoder, WAV_HEADER_SIZE};
