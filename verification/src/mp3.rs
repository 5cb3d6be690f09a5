//! Decisions of constant-bitrate 320 kbps MP3 encoding.
use vstd::prelude::*;
use vstd::string::*;
use crate::conversion_error::{AudioConversionError, ConversionErrorKind};

verus! {

/// The constant MP3 bitrate, in kbps.
pub const MP3_BITRATE_KBPS: u32 = 320;

/// Constant-bitrate MP3 encoder configured for 320 kbps.
#[derive(Clone, Copy, Debug, Default)]
pub struct Mp3Encoder;

impl Mp3Encoder {
    /// Checks the PCM parameters before MP3 encoding: a non-zero sample
    /// rate and channel count, and complete interleaved frames.
    pub fn check_pcm_parameters(&self, samples: &[i32], sample_rate: u32, channels: u16) -> (res: Result<(), AudioConversionError>)
        ensures
            res is Err <==> (sample_rate == 0 || channels == 0 || samples@.len() % (channels as nat) != 0),
            res matches Err(e) ==> e@ == (ConversionErrorKind::InvalidInput, "Invalid PCM parameters for MP3 encoding."@),
    {
        if sample_rate == 0 || channels == 0 || samples.len() % (channels as usize) != 0 {
            return Err(AudioConversionError::InvalidInput(String::from_str(
                "Invalid PCM parameters for MP3 encoding.",
            )));
        }
        Ok(())
    }
}

/// What the MP3 encoder answered when asked for its next packet; the
/// strings are the `Debug` text of the encoder's error.
#[derive(Clone, Debug, PartialEq, Eq)]
pub enum Mp3PacketOutcome {
    /// A packet of encoded bytes.
    Packet,
    /// More input is needed before the next packet.
    Again(String),
    /// The encoder is flushed and has no more output.
    EndOfStream,
    /// Any other error.
    Failed(String),
}

/// What draining the encoder does next.
#[derive(Clone, Debug, PartialEq, Eq)]
pub enum DrainStep {
    /// Append the packet and ask again.
    Append,
    /// Stop draining.
    Stop,
    /// Encoding fails with this error.
    Fail(AudioConversionError),
}

pub open spec fn mp3_error_message(text: Seq<char>) -> Seq<char> {
    "MP3 encoding failed: "@ + text
}

/// The error reported for an MP3 encoder failure with the given text.
pub fn mp3_error(text: &str) -> (res: AudioConversionError)
    ensures
        res@ == (ConversionErrorKind::Encoding, mp3_error_message(text@)),
{
    let mut message = String::from_str("MP3 encoding failed: ");
    message.append(text);
    AudioConversionError::Encoding(message)
}

/// The next step of draining packets. Before the input is finished, a
/// request for more input ends the draining; once it is finished, only the
/// end of the stream does.
pub fn drain_step(outcome: Mp3PacketOutcome, finished: bool) -> (res: DrainStep)
    ensures
        match outcome {
            Mp3PacketOutcome::Packet => res == DrainStep::Append,
            Mp3PacketOutcome::EndOfStream => res == DrainStep::Stop,
            Mp3PacketOutcome::Again(text) => if finished {
                res matches DrainStep::Fail(e) && e@ == (ConversionErrorKind::Encoding, mp3_error_message(text@))
            } else {
                res == DrainStep::Stop
            },
            Mp3PacketOutcome::Failed(text) => res matches DrainStep::Fail(e)
                && e@ == (ConversionErrorKind::Encoding, mp3_error_message(text@)),
        },
{
    match outcome {
        Mp3PacketOutcome::Packet => DrainStep::Append,
        Mp3PacketOutcome::EndOfStream => DrainStep::Stop,
        Mp3PacketOutcome::Again(text) => if finished {
            DrainStep::Fail(mp3_error(text.as_str()))
        } else {
            DrainStep::Stop
        },
        Mp3PacketOutcome::Failed(text) => DrainStep::Fail(mp3_error(text.as_str())),
    }
}

} // verus!
