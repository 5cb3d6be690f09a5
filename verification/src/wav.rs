//! Canonical RIFF/WAVE PCM encoding of decoded samples.
use vstd::prelude::*;
use vstd::string::*;
use crate::conversion_error::{
    aborted_decode_error, aborted_decode_message, AudioConversionError, ConversionErrorKind,
    ConversionErrorValue,
};
use crate::decode::DecodedPcm;
use crate::text::{decimal, push_decimal};

verus! {

/// Size of the canonical PCM WAV header in bytes.
pub const WAV_HEADER_SIZE: u32 = 44;

/// Little-endian bytes of a 16-bit value.
pub open spec fn le16(v: u16) -> Seq<u8> {
    seq![v as u8, (v >> 8u16) as u8]
}

/// Little-endian bytes of a 32-bit value.
pub open spec fn le32(v: u32) -> Seq<u8> {
    seq![v as u8, (v >> 8u32) as u8, (v >> 16u32) as u8, (v >> 24u32) as u8]
}

/// The four ASCII bytes `RIFF`, `WAVE`, `fmt ` and `data`.
pub open spec fn riff_tag() -> Seq<u8> { seq![0x52u8, 0x49u8, 0x46u8, 0x46u8] }
pub open spec fn wave_tag() -> Seq<u8> { seq![0x57u8, 0x41u8, 0x56u8, 0x45u8] }
pub open spec fn fmt_tag() -> Seq<u8> { seq![0x66u8, 0x6du8, 0x74u8, 0x20u8] }
pub open spec fn data_tag() -> Seq<u8> { seq![0x64u8, 0x61u8, 0x74u8, 0x61u8] }

/// Whether `bits` is a PCM width that WAV output supports (8, 16, 24, 32).
pub open spec fn supported_wav_depth(bits: u16) -> bool {
    bits == 8 || bits == 16 || bits == 24 || bits == 32
}

/// The byte count of the `data` chunk, as the header records it.
pub open spec fn wav_data_size(sample_count: nat, bits: u16) -> int {
    ((sample_count as u32) as int) * ((bits / 8) as int)
}

/// The 44-byte canonical PCM header.
pub open spec fn wav_header(channels: u16, sample_rate: u32, bits: u16, data_size: u32) -> Seq<u8> {
    let bytes_per_sample = (bits / 8) as u32;
    riff_tag() + le32((36 + data_size) as u32) + wave_tag() + fmt_tag() + le32(16) + le16(1)
        + le16(channels) + le32(sample_rate)
        + le32((sample_rate * channels * bytes_per_sample) as u32)
        + le16((channels * (bytes_per_sample as u16)) as u16) + le16(bits) + data_tag()
        + le32(data_size)
}

/// The little-endian bytes of one sample at the given width: unsigned with
/// a 128 offset for 8 bits, the low two, three or four two's-complement
/// bytes otherwise.
pub open spec fn sample_bytes(sample: i32, bits: u16) -> Seq<u8> {
    if bits == 8 {
        seq![(sample + 128) as u8]
    } else if bits == 16 {
        seq![sample as u8, (sample >> 8i32) as u8]
    } else if bits == 24 {
        seq![sample as u8, (sample >> 8i32) as u8, (sample >> 16i32) as u8]
    } else {
        seq![sample as u8, (sample >> 8i32) as u8, (sample >> 16i32) as u8, (sample >> 24i32) as u8]
    }
}

/// The bytes of all samples in order.
pub open spec fn samples_bytes(samples: Seq<i32>, bits: u16) -> Seq<u8>
    decreases samples.len(),
{
    if samples.len() == 0 {
        seq![]
    } else {
        samples_bytes(samples.drop_last(), bits) + sample_bytes(samples.last(), bits)
    }
}

pub open spec fn zero_rate_message() -> Seq<char> {
    "The sample rate must be greater than zero."@
}

pub open spec fn zero_channels_message() -> Seq<char> {
    "The channel count must be greater than zero."@
}

pub open spec fn incomplete_frame_message() -> Seq<char> {
    "The sample buffer must contain complete interleaved frames."@
}

pub open spec fn unsupported_depth_message(bits: u16) -> Seq<char> {
    "WAV output only supports 8, 16, 24, or 32-bit PCM; the source declares "@ + decimal(bits as nat)
        + "-bit samples."@
}

/// The WAV stream for PCM samples, or the error for invalid parameters.
pub open spec fn wav_encoding(samples: Seq<i32>, sample_rate: u32, channels: u16, bits: u16) -> Result<Seq<u8>, ConversionErrorValue> {
    if sample_rate == 0 {
        Err((ConversionErrorKind::InvalidInput, zero_rate_message()))
    } else if channels == 0 {
        Err((ConversionErrorKind::InvalidInput, zero_channels_message()))
    } else if !supported_wav_depth(bits) {
        Err((ConversionErrorKind::Encoding, unsupported_depth_message(bits)))
    } else if samples.len() % (channels as nat) != 0 {
        Err((ConversionErrorKind::InvalidInput, incomplete_frame_message()))
    } else {
        Ok(wav_header(channels, sample_rate, bits, wav_data_size(samples.len(), bits) as u32)
            + samples_bytes(samples, bits))
    }
}

/// Whether the parameters pass validation.
pub open spec fn wav_parameters_valid(samples: Seq<i32>, sample_rate: u32, channels: u16, bits: u16) -> bool {
    sample_rate != 0 && channels != 0 && supported_wav_depth(bits) && samples.len() % (channels as nat) == 0
}

/// Whether encoding valid parameters stays within the header's integer
/// widths (the data size, byte rate and block alignment) and within `i32`
/// when offsetting 8-bit samples.
pub open spec fn wav_fits(samples: Seq<i32>, sample_rate: u32, channels: u16, bits: u16) -> bool {
    wav_parameters_valid(samples, sample_rate, channels, bits) ==> {
        let bytes_per_sample = (bits / 8) as int;
        &&& wav_data_size(samples.len(), bits) + 44 <= u32::MAX
        &&& sample_rate * channels * bytes_per_sample <= u32::MAX
        &&& channels * bytes_per_sample <= u16::MAX
        &&& bits == 8 ==> forall|i: int| 0 <= i < samples.len() ==> #[trigger] samples[i] <= i32::MAX - 128
    }
}

fn push_le16(out: &mut Vec<u8>, v: u16)
    ensures
        final(out)@ == old(out)@ + le16(v),
{
    out.push(v as u8);
    out.push((v >> 8u16) as u8);
    assert(final(out)@ =~= old(out)@ + le16(v));
}

fn push_le32(out: &mut Vec<u8>, v: u32)
    ensures
        final(out)@ == old(out)@ + le32(v),
{
    out.push(v as u8);
    out.push((v >> 8u32) as u8);
    out.push((v >> 16u32) as u8);
    out.push((v >> 24u32) as u8);
    assert(final(out)@ =~= old(out)@ + le32(v));
}

fn push_tag(out: &mut Vec<u8>, a: u8, b: u8, c: u8, d: u8)
    ensures
        final(out)@ == old(out)@ + seq![a, b, c, d],
{
    out.push(a);
    out.push(b);
    out.push(c);
    out.push(d);
    assert(final(out)@ =~= old(out)@ + seq![a, b, c, d]);
}

/// Encodes signed interleaved PCM samples as a canonical PCM WAV stream.
pub fn encode_pcm_as_wav(samples: &[i32], sample_rate: u32, channels: u16, bits_per_sample: u16) -> (res: Result<Vec<u8>, AudioConversionError>)
    requires
        wav_fits(samples@, sample_rate, channels, bits_per_sample),
    ensures
        match wav_encoding(samples@, sample_rate, channels, bits_per_sample) {
            Ok(bytes) => res matches Ok(out) && out@ == bytes,
            Err(e) => res matches Err(err) && err@ == e,
        },
{
    if sample_rate == 0 {
        return Err(AudioConversionError::InvalidInput(String::from_str(
            "The sample rate must be greater than zero.",
        )));
    }
    if channels == 0 {
        return Err(AudioConversionError::InvalidInput(String::from_str(
            "The channel count must be greater than zero.",
        )));
    }
    let bytes_per_sample: u32 = if bits_per_sample == 8 || bits_per_sample == 16
        || bits_per_sample == 24 || bits_per_sample == 32 {
        (bits_per_sample / 8) as u32
    } else {
        let mut message = String::from_str(
            "WAV output only supports 8, 16, 24, or 32-bit PCM; the source declares ",
        );
        push_decimal(&mut message, bits_per_sample as u64);
        message.append("-bit samples.");
        return Err(AudioConversionError::Encoding(message));
    };
    if samples.len() % (channels as usize) != 0 {
        return Err(AudioConversionError::InvalidInput(String::from_str(
            "The sample buffer must contain complete interleaved frames.",
        )));
    }
    let data_size: u32 = (samples.len() as u32) * bytes_per_sample;
    let byte_rate: u32 = sample_rate * (channels as u32) * bytes_per_sample;
    let block_align: u16 = channels * (bytes_per_sample as u16);
    let mut wav: Vec<u8> = Vec::new();
    push_tag(&mut wav, 0x52, 0x49, 0x46, 0x46);
    push_le32(&mut wav, WAV_HEADER_SIZE - 8 + data_size);
    push_tag(&mut wav, 0x57, 0x41, 0x56, 0x45);
    push_tag(&mut wav, 0x66, 0x6d, 0x74, 0x20);
    push_le32(&mut wav, 16);
    push_le16(&mut wav, 1);
    push_le16(&mut wav, channels);
    push_le32(&mut wav, sample_rate);
    push_le32(&mut wav, byte_rate);
    push_le16(&mut wav, block_align);
    push_le16(&mut wav, bits_per_sample);
    push_tag(&mut wav, 0x64, 0x61, 0x74, 0x61);
    push_le32(&mut wav, data_size);
    let ghost header = wav@;
    assert(header =~= wav_header(channels, sample_rate, bits_per_sample, wav_data_size(samples@.len(), bits_per_sample) as u32));
    let mut i: usize = 0;
    while i < samples.len()
        invariant
            i <= samples@.len(),
            bits_per_sample == 8 || bits_per_sample == 16 || bits_per_sample == 24 || bits_per_sample == 32,
            bits_per_sample == 8 ==> forall|k: int| 0 <= k < samples@.len() ==> #[trigger] samples@[k] <= i32::MAX - 128,
            wav@ == header + samples_bytes(samples@.take(i as int), bits_per_sample),
        decreases samples@.len() - i,
    {
        let sample = samples[i];
        let ghost before = wav@;
        if bits_per_sample == 8 {
            wav.push((sample + 128) as u8);
        } else if bits_per_sample == 16 {
            wav.push(sample as u8);
            wav.push((sample >> 8i32) as u8);
        } else if bits_per_sample == 24 {
            wav.push(sample as u8);
            wav.push((sample >> 8i32) as u8);
            wav.push((sample >> 16i32) as u8);
        } else {
            wav.push(sample as u8);
            wav.push((sample >> 8i32) as u8);
            wav.push((sample >> 16i32) as u8);
            wav.push((sample >> 24i32) as u8);
        }
        assert(wav@ =~= before + sample_bytes(sample, bits_per_sample));
        assert(samples@.take(i + 1).drop_last() =~= samples@.take(i as int));
        i = i + 1;
    }
    assert(samples@.take(samples@.len() as int) =~= samples@);
    Ok(wav)
}

} // verus!

verus! {

fn all_offsettable(samples: &[i32]) -> (res: bool)
    ensures
        res == forall|i: int| 0 <= i < samples@.len() ==> #[trigger] samples@[i] <= i32::MAX - 128,
{
    let mut i: usize = 0;
    while i < samples.len()
        invariant
            i <= samples@.len(),
            forall|k: int| 0 <= k < i ==> #[trigger] samples@[k] <= i32::MAX - 128,
        decreases samples@.len() - i,
    {
        if samples[i] > i32::MAX - 128 {
            assert(samples@[i as int] > i32::MAX - 128);
            return false;
        }
        i = i + 1;
    }
    true
}

/// Decides [`wav_fits`] at run time.
pub fn fits_wav_limits(samples: &[i32], sample_rate: u32, channels: u16, bits_per_sample: u16) -> (res: bool)
    ensures
        res == wav_fits(samples@, sample_rate, channels, bits_per_sample),
{
    if sample_rate == 0 || channels == 0 || !(bits_per_sample == 8 || bits_per_sample == 16
        || bits_per_sample == 24 || bits_per_sample == 32) || samples.len() % (channels as usize) != 0 {
        return true;
    }
    let bytes_per_sample = (bits_per_sample / 8) as u64;
    assert(bytes_per_sample <= 4);
    let sample_count: u32 = #[verifier::truncate] (samples.len() as u32);
    assert((sample_count as u64) * bytes_per_sample <= 4 * 0xffff_ffffu64) by (nonlinear_arith)
        requires bytes_per_sample <= 4;
    assert((sample_rate as u64) * (channels as u64) <= 0xffff_ffffu64 * 0xffffu64) by (nonlinear_arith);
    assert((sample_rate as u64) * (channels as u64) * bytes_per_sample <= 4 * (0xffff_ffffu64 * 0xffffu64)) by (nonlinear_arith)
        requires bytes_per_sample <= 4, (sample_rate as u64) * (channels as u64) <= 0xffff_ffffu64 * 0xffffu64;
    assert((channels as u64) * bytes_per_sample <= 4 * 0xffffu64) by (nonlinear_arith)
        requires bytes_per_sample <= 4;
    let data_size = (sample_count as u64) * bytes_per_sample;
    if data_size + 44 > u32::MAX as u64 {
        return false;
    }
    if (sample_rate as u64) * (channels as u64) * bytes_per_sample > u32::MAX as u64 {
        return false;
    }
    if (channels as u64) * bytes_per_sample > u16::MAX as u64 {
        return false;
    }
    if bits_per_sample == 8 {
        return all_offsettable(samples);
    }
    true
}

/// Encodes decoded audio as canonical PCM WAV.
#[derive(Clone, Copy, Debug, Default)]
pub struct WavEncoder;

impl WavEncoder {
    /// Encodes decoded PCM as a WAV stream. Parameters whose header fields
    /// would overflow abort the encoding, which is reported as the error of
    /// an aborted decode.
    pub fn encode_decoded(&self, decoded: &DecodedPcm) -> (res: Result<Vec<u8>, AudioConversionError>)
        ensures
            wav_fits(decoded.samples@, decoded.sample_rate, decoded.channels, decoded.bits_per_sample) ==>
                match wav_encoding(decoded.samples@, decoded.sample_rate, decoded.channels, decoded.bits_per_sample) {
                    Ok(bytes) => res matches Ok(out) && out@ == bytes,
                    Err(e) => res matches Err(err) && err@ == e,
                },
            !wav_fits(decoded.samples@, decoded.sample_rate, decoded.channels, decoded.bits_per_sample) ==>
                (res matches Err(err) && err@ == (ConversionErrorKind::Decode, aborted_decode_message())),
    {
        let samples = decoded.samples.as_slice();
        if !fits_wav_limits(samples, decoded.sample_rate, decoded.channels, decoded.bits_per_sample) {
            return Err(aborted_decode_error());
        }
        encode_pcm_as_wav(samples, decoded.sample_rate, decoded.channels, decoded.bits_per_sample)
    }
}

} // verus!

verus! {

/// The little-endian 16-bit value stored at `at`.
pub open spec fn u16_at(bytes: Seq<u8>, at: int) -> int {
    bytes[at] + 256 * bytes[at + 1]
}

/// The little-endian 32-bit value stored at `at`.
pub open spec fn u32_at(bytes: Seq<u8>, at: int) -> int {
    bytes[at] + 256 * bytes[at + 1] + 65536 * bytes[at + 2] + 16777216 * bytes[at + 3]
}

proof fn lemma_le16_value(v: u16)
    ensures
        u16_at(le16(v), 0) == v,
{
    let b0 = v as u8;
    let b1 = (v >> 8u16) as u8;
    assert(v == b0 as u16 + 256 * (b1 as u16)) by (bit_vector)
        requires b0 == v as u8, b1 == (v >> 8u16) as u8;
}

proof fn lemma_le32_value(v: u32)
    ensures
        u32_at(le32(v), 0) == v,
{
    let b0 = v as u8;
    let b1 = (v >> 8u32) as u8;
    let b2 = (v >> 16u32) as u8;
    let b3 = (v >> 24u32) as u8;
    assert(v as int == b0 as int + 256 * (b1 as int) + 65536 * (b2 as int) + 16777216 * (b3 as int)) by (bit_vector)
        requires b0 == v as u8, b1 == (v >> 8u32) as u8, b2 == (v >> 16u32) as u8, b3 == (v >> 24u32) as u8;
}

proof fn lemma_samples_bytes_len(samples: Seq<i32>, bits: u16)
    requires
        supported_wav_depth(bits),
    ensures
        samples_bytes(samples, bits).len() == samples.len() * (bits / 8) as int,
    decreases samples.len(),
{
    if samples.len() > 0 {
        lemma_samples_bytes_len(samples.drop_last(), bits);
        assert(samples.len() * (bits / 8) as int == (samples.len() - 1) * (bits / 8) as int + (bits / 8) as int) by (nonlinear_arith);
    }
}

/// Reading back a WAV stream produced for valid parameters gives those
/// parameters: the `RIFF`/`WAVE`/`fmt `/`data` tags sit at their offsets,
/// the format is PCM (1), the channel count, sample rate, byte rate, block
/// alignment, bit depth and data size read back from the header, and the
/// sample bytes follow the 44-byte header. When the data fits the header's
/// 32-bit size fields, the RIFF size is the stream length minus 8 and the
/// data size is the length of the sample bytes.
pub proof fn lemma_wav_header_reads_back(samples: Seq<i32>, sample_rate: u32, channels: u16, bits: u16)
    requires
        wav_parameters_valid(samples, sample_rate, channels, bits),
        wav_fits(samples, sample_rate, channels, bits),
    ensures
        wav_encoding(samples, sample_rate, channels, bits) is Ok,
        ({
            let out = wav_encoding(samples, sample_rate, channels, bits)->Ok_0;
            let bytes_per_sample = (bits / 8) as int;
            &&& out.len() == 44 + samples.len() * bytes_per_sample
            &&& out.subrange(0, 4) == riff_tag()
            &&& out.subrange(8, 12) == wave_tag()
            &&& out.subrange(12, 16) == fmt_tag()
            &&& out.subrange(36, 40) == data_tag()
            &&& u32_at(out, 16) == 16
            &&& u16_at(out, 20) == 1
            &&& u16_at(out, 22) == channels
            &&& u32_at(out, 24) == sample_rate
            &&& u32_at(out, 28) == sample_rate * channels * bytes_per_sample
            &&& u16_at(out, 32) == channels * bytes_per_sample
            &&& u16_at(out, 34) == bits
            &&& u32_at(out, 40) == wav_data_size(samples.len(), bits)
            &&& out.skip(44) == samples_bytes(samples, bits)
            &&& samples.len() <= u32::MAX ==> {
                &&& u32_at(out, 4) == out.len() - 8
                &&& u32_at(out, 40) == out.len() - 44
            }
        }),
{
    let bps = (bits / 8) as u32;
    let data_size = wav_data_size(samples.len(), bits) as u32;
    let header = wav_header(channels, sample_rate, bits, data_size);
    let out = header + samples_bytes(samples, bits);
    lemma_samples_bytes_len(samples, bits);
    assert(wav_encoding(samples, sample_rate, channels, bits) == Ok::<Seq<u8>, ConversionErrorValue>(out));
    lemma_le32_value((36 + data_size) as u32);
    lemma_le32_value(16);
    lemma_le16_value(1);
    lemma_le16_value(channels);
    lemma_le32_value(sample_rate);
    lemma_le32_value((sample_rate * channels * bps) as u32);
    lemma_le16_value((channels * (bps as u16)) as u16);
    lemma_le16_value(bits);
    lemma_le32_value(data_size);
    assert(header.len() == 44);
    assert(out.subrange(0, 4) =~= riff_tag());
    assert(out.subrange(8, 12) =~= wave_tag());
    assert(out.subrange(12, 16) =~= fmt_tag());
    assert(out.subrange(36, 40) =~= data_tag());
    assert(out.skip(44) =~= samples_bytes(samples, bits));
    assert(le32((36 + data_size) as u32) =~= out.subrange(4, 8));
    assert(u32_at(out, 4) == u32_at(le32((36 + data_size) as u32), 0));
    assert(u32_at(out, 16) == u32_at(le32(16), 0));
    assert(u16_at(out, 20) == u16_at(le16(1), 0));
    assert(u16_at(out, 22) == u16_at(le16(channels), 0));
    assert(u32_at(out, 24) == u32_at(le32(sample_rate), 0));
    assert(u32_at(out, 28) == u32_at(le32((sample_rate * channels * bps) as u32), 0));
    assert(u16_at(out, 32) == u16_at(le16((channels * (bps as u16)) as u16), 0));
    assert(u16_at(out, 34) == u16_at(le16(bits), 0));
    assert(u32_at(out, 40) == u32_at(le32(data_size), 0));
}

} // verus!
