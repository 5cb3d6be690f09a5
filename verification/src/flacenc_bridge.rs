//! The calls into the `flacenc` crate that FLAC encoding makes, each behind
//! a small trusted item whose contract states what `flacenc`'s source shows.
use vstd::prelude::*;
use flacenc::bitsink::{BitSink, ByteSink};
use flacenc::component::BitRepr;
use flacenc::config::Encoder;
use flacenc::error::{Verified, Verify};
use flacenc::source::MemSource;
use crate::flac::sample_fits_depth;

verus! {

/// `flacenc::config::Encoder`: the encoder configuration.
#[verifier::external_type_specification]
#[verifier::external_body]
pub struct ExEncoder(Encoder);

/// `flacenc::error::Verified`: a value that passed `flacenc`'s checks.
#[verifier::external_type_specification]
#[verifier::external_body]
#[verifier::reject_recursive_types(T)]
pub struct ExVerified<T>(Verified<T>);

/// A checked `flacenc` encoder configuration, with whether its fixed and
/// LPC prediction are switched on.
pub struct FlacConfig {
    verified: Verified<Encoder>,
    prediction: bool,
}

impl View for FlacConfig {
    type V = bool;

    /// Whether the configuration predicts samples (fixed and LPC coding).
    closed spec fn view(&self) -> bool {
        self.prediction
    }
}

/// The bytes `fLaC` that open every FLAC stream.
pub open spec fn flac_magic() -> Seq<u8> {
    seq![0x66u8, 0x4cu8, 0x61u8, 0x43u8]
}

/// The fields that the `STREAMINFO` block of a FLAC stream declares. The
/// block follows `fLaC` and its 4-byte header; after the block sizes (2 + 2
/// bytes) and the frame sizes (3 + 3 bytes), bits are written most
/// significant first: the sample rate in 20 bits, the channel count minus
/// one in 3, the bit depth minus one in 5 and the total frame count in 36.
pub open spec fn stream_info_declares(bytes: Seq<u8>, sample_rate: int, channels: int, bits: int, total_samples: int) -> bool {
    &&& bytes.len() >= 42
    &&& bytes[18] * 4096 + bytes[19] * 16 + bytes[20] / 16 == sample_rate
    &&& (bytes[20] / 2) % 8 + 1 == channels
    &&& (bytes[20] % 2) * 16 + bytes[21] / 16 + 1 == bits
    &&& (bytes[21] % 16) * 0x1_0000_0000 + bytes[22] * 0x100_0000 + bytes[23] * 0x1_0000
        + bytes[24] * 0x100 + bytes[25] == total_samples % 0x10_0000_0000
}

/// What `Verify::into_verified` answers for `Encoder::default()` with fixed
/// and LPC prediction set to `prediction`: `None` when it accepts the
/// configuration, else the `Debug` text of its refusal.
pub uninterp spec fn flac_config_refusal(prediction: bool) -> Option<Seq<char>>;

/// What `flacenc` produces for the interleaved `samples` with the given
/// channel count, bit depth and sample rate, a single-threaded configuration
/// with or without prediction, blocks of `block_size` frames, and
/// `total_samples` recorded as the stream's frame count: the bytes of the
/// FLAC stream, or the text of the error that stopped it.
pub uninterp spec fn flac_encoding(
    samples: Seq<i32>,
    channels: usize,
    bits_per_sample: usize,
    sample_rate: usize,
    prediction: bool,
    block_size: usize,
    total_samples: usize,
) -> Result<Seq<u8>, Seq<char>>;

/// Calls `Encoder::default()` with fixed-LPC and LPC prediction switched to
/// `prediction` (both are on in the default) and multithreading off, then
/// `Verify::into_verified`; a refusal gives the `Debug` text of the error.
/// The outcome depends on `prediction` alone, and is named
/// [`flac_config_refusal`]. Single-threaded encoding writes the same stream
/// as the parallel mode, without asking the machine for its parallelism.
#[verifier::external_body]
pub(crate) fn flac_encoder_config(prediction: bool) -> (res: Result<FlacConfig, String>)
    ensures
        match flac_config_refusal(prediction) {
            None => res matches Ok(config) && config@ == prediction,
            Some(text) => res matches Err(t) && t@ == text,
        },
{
    let mut config = Encoder::default();
    config.subframe_coding.use_fixed = prediction;
    config.subframe_coding.use_lpc = prediction;
    config.multithread = false;
    match config.into_verified() {
        Ok(verified) => Ok(FlacConfig { verified, prediction }),
        Err(error) => Err(format!("{error:?}")),
    }
}

/// Encodes interleaved samples with `flacenc`: `MemSource::from_samples`,
/// `encode_with_fixed_block_size`, `StreamInfo::set_total_samples`,
/// `Verify::verify`, then `BitRepr::write` into a fresh `ByteSink`,
/// `BitSink::align_to_byte` and `into_inner`; a failure gives the error's
/// text. With the single-threaded configuration that [`flac_encoder_config`]
/// builds, the outcome is a function of the arguments, named
/// [`flac_encoding`]. A stream starts with `fLaC`, which `flacenc` writes
/// first into the empty sink, followed by the `STREAMINFO` block that
/// `Stream::new` built from the sample rate, channel count and bit depth
/// (its check refuses a rate above 96000, more than 8 channels and depths
/// outside 8 to 24, and `FrameBuf::with_size` more than 8 channels, so on
/// success they fit their fields) and that records `total_samples`
/// (its low 36 bits). `requires` leaves out a bit depth beyond 32
/// (on which `Context::new` panics), a block size beyond 32767 (on which
/// `set_block_sizes(..).unwrap()` panics), sample counts whose last read
/// position overflows, and parameters other than those FLAC encoding here
/// hands over.
#[verifier::external_body]
pub(crate) fn flac_encode(
    config: &FlacConfig,
    samples: &[i32],
    channels: usize,
    bits_per_sample: usize,
    sample_rate: usize,
    block_size: usize,
    total_samples: usize,
) -> (res: Result<Vec<u8>, String>)
    requires
        1 <= channels <= u16::MAX,
        4 <= bits_per_sample <= 32,
        1 <= sample_rate <= u32::MAX,
        32 <= block_size <= 32767,
        samples@.len() % (channels as nat) == 0,
        samples@.len() + block_size * channels <= usize::MAX,
        forall|i: int| 0 <= i < samples@.len() ==> sample_fits_depth(#[trigger] samples@[i], bits_per_sample as u16),
    ensures
        match flac_encoding(samples@, channels, bits_per_sample, sample_rate, config@, block_size, total_samples) {
            Ok(bytes) => res matches Ok(out) && out@ == bytes,
            Err(text) => res matches Err(message) && message@ == text,
        },
        res matches Ok(bytes) ==> bytes@.len() >= 4 && bytes@.subrange(0, 4) == flac_magic(),
        res matches Ok(bytes) ==> stream_info_declares(
            bytes@, sample_rate as int, channels as int, bits_per_sample as int, total_samples as int),
{
    let source = MemSource::from_samples(samples, channels, bits_per_sample, sample_rate);
    let mut stream = flacenc::encode_with_fixed_block_size(&config.verified, source, block_size)
        .map_err(|error| error.to_string())?;
    stream.stream_info_mut().set_total_samples(total_samples);
    stream.verify().map_err(|error| format!("{error:?}"))?;
    let mut sink = ByteSink::new();
    stream.write(&mut sink).map_err(|error| error.to_string())?;
    sink.align_to_byte().map_err(|error| error.to_string())?;
    Ok(sink.into_inner())
}

} // verus!
