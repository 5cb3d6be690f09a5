//! FLAC encoding of interleaved PCM samples.
use vstd::prelude::*;
use vstd::string::*;
use vstd::arithmetic::power2::{pow2, lemma_pow2_unfold, lemma_pow2_strictly_increases, lemma2_to64};
use crate::conversion_error::{AudioConversionError, ConversionErrorKind};
use crate::decode::DecodedPcm;
use crate::flacenc_bridge::{
    flac_config_refusal, flac_encode, flac_encoder_config, flac_encoding, flac_magic,
    stream_info_declares,
};

verus! {

/// Number of samples per channel in every encoded FLAC block.
pub const DEFAULT_BLOCK_SIZE: usize = 4096;

/// Errors returned while encoding PCM samples as FLAC.
#[derive(Clone, Debug, PartialEq, Eq)]
pub enum FlacEncodingError {
    /// The input parameters or PCM samples are invalid.
    InvalidParameters(String),
    /// The encoder configuration could not be created.
    Configuration(String),
    /// The encoder could not produce a valid FLAC stream.
    Encoding(String),
}

impl FlacEncodingError {
    /// The text of this error, whichever its variant.
    pub open spec fn text(self) -> Seq<char> {
        match self {
            FlacEncodingError::InvalidParameters(m) => m@,
            FlacEncodingError::Configuration(m) => m@,
            FlacEncodingError::Encoding(m) => m@,
        }
    }

    /// The human-readable text of this error.
    pub fn message(&self) -> (res: String)
        ensures
            res@ == self.text(),
    {
        match self {
            FlacEncodingError::InvalidParameters(m) => m.clone(),
            FlacEncodingError::Configuration(m) => m.clone(),
            FlacEncodingError::Encoding(m) => m.clone(),
        }
    }
}

/// Whether a sample is representable with `bits` bits in two's complement.
pub open spec fn sample_fits_depth(sample: i32, bits: u16) -> bool {
    bits >= 32 || (-pow2((bits - 1) as nat) <= sample && sample <= pow2((bits - 1) as nat) - 1)
}

/// The first rule that FLAC encoding parameters break, with its message.
pub open spec fn flac_parameter_problem(samples: Seq<i32>, sample_rate: u32, channels: u16, bits: u16) -> Option<Seq<char>> {
    if sample_rate == 0 {
        Some("The sample rate must be greater than zero."@)
    } else if channels == 0 {
        Some("The channel count must be greater than zero."@)
    } else if !(4 <= bits && bits <= 32) {
        Some("The bit depth must be between 4 and 32 bits per sample."@)
    } else if samples.len() % (channels as nat) != 0 {
        Some("The sample buffer must contain complete interleaved frames."@)
    } else if exists|i: int| 0 <= i < samples.len() && !sample_fits_depth(#[trigger] samples[i], bits) {
        Some("A PCM sample exceeds the declared bit depth."@)
    } else {
        None
    }
}

/// The samples handed to the encoder: silence is appended until the frame
/// count is a whole number of blocks.
pub open spec fn padded_samples(samples: Seq<i32>, channels: u16) -> Seq<i32> {
    let frames = samples.len() / (channels as nat);
    let remainder = frames % (DEFAULT_BLOCK_SIZE as nat);
    if remainder != 0 {
        samples + Seq::new(((DEFAULT_BLOCK_SIZE - remainder) * channels) as nat, |i: int| 0i32)
    } else {
        samples
    }
}

fn half_range(bits: u16) -> (res: i64)
    requires
        1 <= bits <= 32,
    ensures
        res == pow2((bits - 1) as nat),
{
    let mut half: i64 = 1;
    let mut k: u16 = 0;
    proof {
        lemma2_to64();
    }
    while k < bits - 1
        invariant
            1 <= bits <= 32,
            k <= bits - 1,
            half == pow2(k as nat),
            pow2(32) == 0x1_0000_0000,
        decreases bits - 1 - k,
    {
        proof {
            lemma_pow2_unfold((k + 1) as nat);
            lemma_pow2_strictly_increases((k + 1) as nat, 32);
        }
        half = half * 2;
        k = k + 1;
    }
    half
}

/// PCM parameters that FLAC encoding accepts: any non-zero sample rate, at
/// least one channel, a depth of 4 to 32 bits, complete interleaved frames,
/// and every sample within the depth's two's-complement range.
pub open spec fn pcm_parameters_acceptable(samples: Seq<i32>, sample_rate: u32, channels: u16, bits: u16) -> bool {
    &&& sample_rate > 0
    &&& channels > 0
    &&& 4 <= bits <= 32
    &&& samples.len() % (channels as nat) == 0
    &&& forall|i: int| 0 <= i < samples.len() ==> bits == 32 || (-pow2((bits - 1) as nat) <= #[trigger] samples[i]
        && samples[i] < pow2((bits - 1) as nat))
}

/// The parameter check refuses exactly the unacceptable parameters: every
/// non-zero sample rate passes (no rate above some ceiling is refused), as
/// does every channel count, every depth from 4 to 32 and every sample
/// within the depth; and the sample-rate message is given only for a zero
/// rate.
pub proof fn lemma_parameters_accepted_iff_acceptable(samples: Seq<i32>, sample_rate: u32, channels: u16, bits: u16)
    ensures
        flac_parameter_problem(samples, sample_rate, channels, bits) is None
            <==> pcm_parameters_acceptable(samples, sample_rate, channels, bits),
        flac_parameter_problem(samples, sample_rate, channels, bits)
            == Some("The sample rate must be greater than zero."@) ==> sample_rate == 0,
{
    if flac_parameter_problem(samples, sample_rate, channels, bits) == Some("The sample rate must be greater than zero."@) && sample_rate != 0 {
        reveal_strlit("The sample rate must be greater than zero.");
        reveal_strlit("The channel count must be greater than zero.");
        reveal_strlit("The bit depth must be between 4 and 32 bits per sample.");
        reveal_strlit("The sample buffer must contain complete interleaved frames.");
        reveal_strlit("A PCM sample exceeds the declared bit depth.");
        assert("The sample rate must be greater than zero."@[4] != "The channel count must be greater than zero."@[4]);
        assert("The sample rate must be greater than zero."@[4] != "The bit depth must be between 4 and 32 bits per sample."@[4]);
        assert("The sample rate must be greater than zero."@[4] != "The sample buffer must contain complete interleaved frames."@[4]
            || "The sample rate must be greater than zero."@[11] != "The sample buffer must contain complete interleaved frames."@[11]);
        assert("The sample rate must be greater than zero."@[0] != "A PCM sample exceeds the declared bit depth."@[0]);
    }
    if pcm_parameters_acceptable(samples, sample_rate, channels, bits) {
        assert forall|i: int| 0 <= i < samples.len() implies sample_fits_depth(#[trigger] samples[i], bits) by {}
    } else if flac_parameter_problem(samples, sample_rate, channels, bits) is None {
        assert forall|i: int| 0 <= i < samples.len() implies bits == 32 || (-pow2((bits - 1) as nat) <= #[trigger] samples[i]
            && samples[i] < pow2((bits - 1) as nat)) by {
            assert(sample_fits_depth(samples[i], bits));
        }
    }
}

/// Checks the FLAC encoding parameters and samples.
pub fn validate_parameters(samples: &[i32], sample_rate: u32, channels: u16, bits_per_sample: u16) -> (res: Result<(), FlacEncodingError>)
    ensures
        match flac_parameter_problem(samples@, sample_rate, channels, bits_per_sample) {
            None => res is Ok,
            Some(m) => res matches Err(FlacEncodingError::InvalidParameters(t)) && t@ == m,
        },
        res is Ok <==> pcm_parameters_acceptable(samples@, sample_rate, channels, bits_per_sample),
{
    proof {
        lemma_parameters_accepted_iff_acceptable(samples@, sample_rate, channels, bits_per_sample);
    }
    if sample_rate == 0 {
        return Err(FlacEncodingError::InvalidParameters(String::from_str(
            "The sample rate must be greater than zero.",
        )));
    }
    if channels == 0 {
        return Err(FlacEncodingError::InvalidParameters(String::from_str(
            "The channel count must be greater than zero.",
        )));
    }
    if !(4 <= bits_per_sample && bits_per_sample <= 32) {
        return Err(FlacEncodingError::InvalidParameters(String::from_str(
            "The bit depth must be between 4 and 32 bits per sample.",
        )));
    }
    if samples.len() % (channels as usize) != 0 {
        return Err(FlacEncodingError::InvalidParameters(String::from_str(
            "The sample buffer must contain complete interleaved frames.",
        )));
    }
    if bits_per_sample < 32 {
        let half = half_range(bits_per_sample);
        let minimum: i64 = -half;
        let maximum: i64 = half - 1;
        let mut i: usize = 0;
        while i < samples.len()
            invariant
                4 <= bits_per_sample < 32,
                sample_rate != 0,
                channels != 0,
                samples@.len() % (channels as nat) == 0,
                half == pow2((bits_per_sample - 1) as nat),
                minimum == -half,
                maximum == half - 1,
                i <= samples@.len(),
                forall|k: int| 0 <= k < i ==> sample_fits_depth(#[trigger] samples@[k], bits_per_sample),
            decreases samples@.len() - i,
        {
            let sample = samples[i] as i64;
            if sample < minimum || sample > maximum {
                assert(!sample_fits_depth(samples@[i as int], bits_per_sample));
                return Err(FlacEncodingError::InvalidParameters(String::from_str(
                    "A PCM sample exceeds the declared bit depth.",
                )));
            }
            i = i + 1;
        }
    }
    Ok(())
}

/// Appends silence to `samples` until the frame count is a whole number of
/// blocks of [`DEFAULT_BLOCK_SIZE`].
pub fn pad_to_block_size(samples: &[i32], channels: u16) -> (res: Vec<i32>)
    requires
        channels > 0,
        samples@.len() + DEFAULT_BLOCK_SIZE * channels <= usize::MAX,
    ensures
        res@ == padded_samples(samples@, channels),
{
    let frames = samples.len() / (channels as usize);
    let remainder = frames % DEFAULT_BLOCK_SIZE;
    let mut padded: Vec<i32> = Vec::new();
    let mut i: usize = 0;
    while i < samples.len()
        invariant
            i <= samples@.len(),
            padded@ == samples@.take(i as int),
        decreases samples@.len() - i,
    {
        padded.push(samples[i]);
        assert(padded@ =~= samples@.take(i + 1));
        i = i + 1;
    }
    assert(samples@.take(samples@.len() as int) =~= samples@);
    if remainder != 0 {
        assert((DEFAULT_BLOCK_SIZE - remainder) * (channels as usize) <= DEFAULT_BLOCK_SIZE * (channels as usize)) by (nonlinear_arith)
            requires remainder < DEFAULT_BLOCK_SIZE;
        let extra = (DEFAULT_BLOCK_SIZE - remainder) * (channels as usize);
        let mut j: usize = 0;
        while j < extra
            invariant
                j <= extra,
                padded@ == samples@ + Seq::new(j as nat, |k: int| 0i32),
            decreases extra - j,
        {
            padded.push(0);
            assert(padded@ =~= samples@ + Seq::new((j + 1) as nat, |k: int| 0i32));
            j = j + 1;
        }
    }
    padded
}

/// Encodes interleaved PCM samples as a FLAC stream.
#[derive(Clone, Copy, Debug, Default)]
pub struct FlacEncoder;

/// Whether FLAC encoding predicts samples: it does, but for 24-bit input.
pub open spec fn flac_prediction(bits: u16) -> bool {
    bits != 24
}

/// What `flacenc` gives for the padded samples of valid parameters, with
/// prediction but for 24-bit input, blocks of [`DEFAULT_BLOCK_SIZE`] frames
/// and the unpadded frame count recorded: the stream's bytes or an error.
pub open spec fn flac_pcm_encoding(samples: Seq<i32>, sample_rate: u32, channels: u16, bits: u16) -> Result<Seq<u8>, Seq<char>> {
    flac_encoding(
        padded_samples(samples, channels),
        channels as usize,
        bits as usize,
        sample_rate as usize,
        flac_prediction(bits),
        DEFAULT_BLOCK_SIZE,
        (samples.len() / (channels as nat)) as usize,
    )
}

/// What FLAC encoding of valid parameters returns: the configuration's
/// refusal as a configuration error, else the stream of
/// [`flac_pcm_encoding`], which starts with `fLaC` and declares the sample
/// rate, channel count, bit depth and unpadded frame count, or its error as
/// an encoding error.
pub open spec fn flac_outcome_holds(
    res: Result<Vec<u8>, FlacEncodingError>,
    samples: Seq<i32>,
    sample_rate: u32,
    channels: u16,
    bits: u16,
) -> bool {
    match flac_config_refusal(flac_prediction(bits)) {
        Some(text) => res matches Err(FlacEncodingError::Configuration(t)) && t@ == text,
        None => match flac_pcm_encoding(samples, sample_rate, channels, bits) {
            Ok(stream) => res matches Ok(bytes) && bytes@ == stream
                && bytes@.len() >= 4 && bytes@.subrange(0, 4) == flac_magic()
                && stream_info_declares(bytes@, sample_rate as int, channels as int, bits as int,
                    (samples.len() / (channels as nat)) as int),
            Err(text) => res matches Err(FlacEncodingError::Encoding(t)) && t@ == text,
        },
    }
}

proof fn lemma_padded_samples_fit(samples: Seq<i32>, channels: u16, bits: u16)
    requires
        channels > 0,
        4 <= bits <= 32,
        samples.len() % (channels as nat) == 0,
        forall|i: int| 0 <= i < samples.len() ==> sample_fits_depth(#[trigger] samples[i], bits),
    ensures
        ({
            let padded = padded_samples(samples, channels);
            &&& padded.len() % (channels as nat) == 0
            &&& padded.len() < samples.len() + 4096 * channels
            &&& forall|i: int| 0 <= i < padded.len() ==> sample_fits_depth(#[trigger] padded[i], bits)
        }),
{
    let padded = padded_samples(samples, channels);
    lemma_padding_whole_blocks(samples, channels);
    let c = channels as int;
    let block = 4096 * c;
    let n = padded.len() as int;
    let k = n / block;
    assert(block > 0) by (nonlinear_arith) requires c > 0, block == 4096 * c;
    assert(n == block * k) by (nonlinear_arith) requires block > 0, n % block == 0, k == n / block;
    assert(n == (4096 * k) * c) by (nonlinear_arith) requires n == block * k, block == 4096 * c;
    vstd::arithmetic::div_mod::lemma_mod_multiples_basic(4096 * k, c);
    assert(pow2((bits - 1) as nat) > 0) by {
        vstd::arithmetic::power2::lemma_pow2_pos((bits - 1) as nat);
    }
    assert forall|i: int| 0 <= i < padded.len() implies sample_fits_depth(#[trigger] padded[i], bits) by {
        if i < samples.len() {
            assert(padded.subrange(0, samples.len() as int)[i] == padded[i]);
        } else {
            assert(padded[i] == 0);
        }
    }
}

impl FlacEncoder {
    /// Encodes signed, interleaved PCM samples into FLAC bytes.
    ///
    /// `samples` must contain complete frames: its length must be divisible
    /// by `channels`. Samples must fit within the declared `bits_per_sample`.
    /// Valid samples are padded with silence to whole blocks of
    /// [`DEFAULT_BLOCK_SIZE`] frames; the stream records the unpadded frame
    /// count. 24-bit input is encoded without fixed or LPC prediction.
    pub fn encode_pcm(&self, samples: &[i32], sample_rate: u32, channels: u16, bits_per_sample: u16) -> (res: Result<Vec<u8>, FlacEncodingError>)
        requires
            samples@.len() + 2 * DEFAULT_BLOCK_SIZE * channels <= usize::MAX,
        ensures
            match flac_parameter_problem(samples@, sample_rate, channels, bits_per_sample) {
                Some(m) => res matches Err(FlacEncodingError::InvalidParameters(t)) && t@ == m,
                None => flac_outcome_holds(res, samples@, sample_rate, channels, bits_per_sample),
            },
            pcm_parameters_acceptable(samples@, sample_rate, channels, bits_per_sample)
                ==> flac_outcome_holds(res, samples@, sample_rate, channels, bits_per_sample),
            !pcm_parameters_acceptable(samples@, sample_rate, channels, bits_per_sample)
                ==> res matches Err(FlacEncodingError::InvalidParameters(_)),
    {
        proof {
            lemma_parameters_accepted_iff_acceptable(samples@, sample_rate, channels, bits_per_sample);
        }
        match validate_parameters(samples, sample_rate, channels, bits_per_sample) {
            Ok(()) => {},
            Err(error) => return Err(error),
        }
        let unpadded_frames = samples.len() / (channels as usize);
        assert(samples@.len() + 4096 * channels <= usize::MAX) by (nonlinear_arith)
            requires samples@.len() + 2 * 4096 * channels <= usize::MAX;
        let padded = pad_to_block_size(samples, channels);
        proof {
            lemma_padded_samples_fit(samples@, channels, bits_per_sample);
        }
        assert(padded@.len() + 4096 * channels <= usize::MAX) by (nonlinear_arith)
            requires
                samples@.len() + 2 * 4096 * channels <= usize::MAX,
                padded@.len() < samples@.len() + 4096 * channels;
        let config = match flac_encoder_config(bits_per_sample != 24) {
            Ok(config) => config,
            Err(message) => return Err(FlacEncodingError::Configuration(message)),
        };
        match flac_encode(
            &config,
            padded.as_slice(),
            channels as usize,
            bits_per_sample as usize,
            sample_rate as usize,
            DEFAULT_BLOCK_SIZE,
            unpadded_frames,
        ) {
            Ok(bytes) => Ok(bytes),
            Err(message) => Err(FlacEncodingError::Encoding(message)),
        }
    }

    /// Encodes decoded PCM as FLAC; encoder errors become
    /// [`AudioConversionError::Encoding`] with the encoder's message.
    pub fn encode_decoded(&self, decoded: &DecodedPcm) -> (res: Result<Vec<u8>, AudioConversionError>)
        requires
            decoded.samples@.len() + 2 * DEFAULT_BLOCK_SIZE * decoded.channels <= usize::MAX,
        ensures
            match flac_parameter_problem(decoded.samples@, decoded.sample_rate, decoded.channels, decoded.bits_per_sample) {
                Some(m) => res matches Err(e) && e@ == (ConversionErrorKind::Encoding, m),
                None => match flac_config_refusal(flac_prediction(decoded.bits_per_sample)) {
                    Some(text) => res matches Err(e) && e@ == (ConversionErrorKind::Encoding, text),
                    None => match flac_pcm_encoding(decoded.samples@, decoded.sample_rate,
                        decoded.channels, decoded.bits_per_sample) {
                        Ok(stream) => res matches Ok(bytes) && bytes@ == stream
                            && bytes@.len() >= 4 && bytes@.subrange(0, 4) == flac_magic()
                            && stream_info_declares(bytes@, decoded.sample_rate as int,
                                decoded.channels as int, decoded.bits_per_sample as int,
                                (decoded.samples@.len() / (decoded.channels as nat)) as int),
                        Err(text) => res matches Err(e) && e@ == (ConversionErrorKind::Encoding, text),
                    },
                },
            },
    {
        match self.encode_pcm(decoded.samples.as_slice(), decoded.sample_rate, decoded.channels, decoded.bits_per_sample) {
            Ok(bytes) => Ok(bytes),
            Err(error) => Err(AudioConversionError::Encoding(error.message())),
        }
    }
}

} // verus!

verus! {

/// Padding keeps the samples as a prefix, appends only silence, adds less
/// than one block of frames, and (for complete interleaved frames) leaves a
/// whole number of blocks of [`DEFAULT_BLOCK_SIZE`] frames.
pub proof fn lemma_padding_whole_blocks(samples: Seq<i32>, channels: u16)
    requires
        channels > 0,
    ensures
        ({
            let padded = padded_samples(samples, channels);
            let block = DEFAULT_BLOCK_SIZE as int * channels as int;
            &&& padded.len() >= samples.len()
            &&& padded.len() < samples.len() + block
            &&& padded.subrange(0, samples.len() as int) == samples
            &&& forall|k: int| samples.len() <= k < padded.len() ==> #[trigger] padded[k] == 0
            &&& samples.len() % (channels as nat) == 0 ==> (padded.len() as int) % block == 0
        }),
{
    let padded = padded_samples(samples, channels);
    let c = channels as int;
    let len = samples.len() as int;
    let f = len / c;
    let r = f % 4096;
    let block = 4096 * c;
    assert(padded.subrange(0, len) =~= samples);
    assert(0 <= r < 4096);
    assert(f * c <= len) by (nonlinear_arith) requires c > 0, f == len / c, len >= 0;
    if r != 0 {
        assert(padded.len() == len + (4096 - r) * c);
        assert((4096 - r) * c < block) by (nonlinear_arith) requires r > 0, c > 0, block == 4096 * c;
        assert((4096 - r) * c >= 0) by (nonlinear_arith) requires r < 4096, c > 0;
        if len % c == 0 {
            assert(len == f * c) by (nonlinear_arith) requires c > 0, f == len / c, len % c == 0;
            assert(f == 4096 * (f / 4096) + r) by (nonlinear_arith) requires r == f % 4096;
            assert(len + (4096 - r) * c == block * (f / 4096 + 1)) by (nonlinear_arith)
                requires len == f * c, f == 4096 * (f / 4096) + r, block == 4096 * c;
            vstd::arithmetic::div_mod::lemma_mod_multiples_basic(f / 4096 + 1, block);
            assert((block * (f / 4096 + 1)) % block == 0) by (nonlinear_arith)
                requires block > 0, ((f / 4096 + 1) * block) % block == 0;
        }
    } else {
        assert(block > 0) by (nonlinear_arith) requires c > 0, block == 4096 * c;
        if len % c == 0 {
            assert(len == f * c) by (nonlinear_arith) requires c > 0, f == len / c, len % c == 0;
            assert(f == 4096 * (f / 4096)) by (nonlinear_arith) requires r == f % 4096, r == 0;
            assert(len == block * (f / 4096)) by (nonlinear_arith)
                requires len == f * c, f == 4096 * (f / 4096), block == 4096 * c;
            vstd::arithmetic::div_mod::lemma_mod_multiples_basic(f / 4096, block);
            assert((block * (f / 4096)) % block == 0) by (nonlinear_arith)
                requires block > 0, ((f / 4096) * block) % block == 0;
        }
    }
}

} // verus!
