//! Decoded PCM shared by every output-format encoder, and the decisions of
//! the packet-by-packet decoding loop.
use vstd::prelude::*;
use vstd::string::*;
use crate::conversion_error::{AudioConversionError, ConversionErrorKind};
use vstd::arithmetic::power2::pow2;
use vstd::bits::lemma_u64_shl_is_mul;

verus! {

/// Decoded interleaved PCM samples plus their source format parameters.
#[derive(Clone, Debug, PartialEq, Eq)]
pub struct DecodedPcm {
    pub samples: Vec<i32>,
    pub sample_rate: u32,
    pub channels: u16,
    pub bits_per_sample: u16,
}

} // verus!

verus! {

/// Refuses an empty audio source before it is probed.
pub fn require_audio_bytes(source: &[u8]) -> (res: Result<(), AudioConversionError>)
    ensures
        source@.len() == 0 <==> res is Err,
        res matches Err(e) ==> e@ == (ConversionErrorKind::InvalidInput, "The audio source is empty."@),
{
    if source.len() == 0 {
        return Err(AudioConversionError::InvalidInput(String::from_str("The audio source is empty.")));
    }
    Ok(())
}

/// The stream parameters that decoding needs, from what the container's
/// default track declares: the sample rate and the channel count are
/// required, the bit depth defaults to 16.
pub fn stream_parameters(sample_rate: Option<u32>, channels: Option<usize>, bits_per_sample: Option<u32>) -> (res: Result<(u32, usize, u32), AudioConversionError>)
    ensures
        match (sample_rate, channels) {
            (None, _) => res matches Err(e) && e@ == (ConversionErrorKind::InvalidInput, "The audio source has no sample rate."@),
            (Some(_), None) => res matches Err(e) && e@ == (ConversionErrorKind::InvalidInput, "The audio source has no channels."@),
            (Some(rate), Some(count)) => res == Ok::<(u32, usize, u32), AudioConversionError>((rate, count,
                match bits_per_sample { Some(b) => b, None => 16u32 })),
        },
{
    let rate = match sample_rate {
        Some(rate) => rate,
        None => return Err(AudioConversionError::InvalidInput(String::from_str("The audio source has no sample rate."))),
    };
    let count = match channels {
        Some(count) => count,
        None => return Err(AudioConversionError::InvalidInput(String::from_str("The audio source has no channels."))),
    };
    let bits = match bits_per_sample {
        Some(bits) => bits,
        None => 16,
    };
    Ok((rate, count, bits))
}

/// What the container returned when asked for its next packet.
#[derive(Clone, Debug, PartialEq, Eq)]
pub enum PacketEvent {
    /// A packet of the given track.
    Packet { track_id: u32 },
    /// The decoder must be reset before it can go on.
    ResetRequired,
    /// The input ended in the middle of a read.
    UnexpectedEof,
    /// Any other failure, with its text.
    Failed(String),
}

/// What the decoding loop does next.
#[derive(Clone, Debug, PartialEq, Eq)]
pub enum DecodeStep {
    /// Decode the packet and append its samples.
    DecodePacket,
    /// Ignore the packet: it belongs to another track.
    SkipPacket,
    /// The stream is over: the samples gathered so far are the result.
    Finish,
    /// Decoding fails with this error.
    Fail(AudioConversionError),
}

pub open spec fn is_end_of_stream(text: Seq<char>) -> bool {
    text == "end of stream"@
}

/// The next step after the container answered `event`, for the stream's
/// default track `track_id`.
pub fn next_packet_step(track_id: u32, event: PacketEvent) -> (res: DecodeStep)
    ensures
        match event {
            PacketEvent::Packet { track_id: id } => res == if id == track_id { DecodeStep::DecodePacket } else { DecodeStep::SkipPacket },
            PacketEvent::ResetRequired => res matches DecodeStep::Fail(e)
                && e@ == (ConversionErrorKind::Decode, "The audio decoder requires a reset."@),
            PacketEvent::UnexpectedEof => res == DecodeStep::Finish,
            PacketEvent::Failed(text) => if is_end_of_stream(text@) {
                res == DecodeStep::Finish
            } else {
                res matches DecodeStep::Fail(e) && e@ == (ConversionErrorKind::Decode, "next_packet: "@ + text@)
            },
        },
{
    match event {
        PacketEvent::Packet { track_id: id } => if id == track_id {
            DecodeStep::DecodePacket
        } else {
            DecodeStep::SkipPacket
        },
        PacketEvent::ResetRequired => DecodeStep::Fail(AudioConversionError::Decode(String::from_str(
            "The audio decoder requires a reset.",
        ))),
        PacketEvent::UnexpectedEof => DecodeStep::Finish,
        PacketEvent::Failed(text) => {
            if text == String::from_str("end of stream") {
                DecodeStep::Finish
            } else {
                let mut message = String::from_str("next_packet: ");
                message.append(text.as_str());
                DecodeStep::Fail(AudioConversionError::Decode(message))
            }
        },
    }
}

/// The next step after the decoder failed on a packet with `text`.
pub fn decode_failure_step(text: String) -> (res: DecodeStep)
    ensures
        if is_end_of_stream(text@) {
            res == DecodeStep::Finish
        } else {
            res matches DecodeStep::Fail(e) && e@ == (ConversionErrorKind::Decode, "decode: "@ + text@)
        },
{
    if text == String::from_str("end of stream") {
        DecodeStep::Finish
    } else {
        let mut message = String::from_str("decode: ");
        message.append(text.as_str());
        DecodeStep::Fail(AudioConversionError::Decode(message))
    }
}

/// How far decoded samples are shifted right: decoders yield samples
/// scaled to 32 bits, and `32 - bits` brings them back to their depth.
pub open spec fn sample_shift(bits_per_sample: u32) -> u32 {
    if bits_per_sample >= 32 { 0 } else { (32 - bits_per_sample) as u32 }
}

/// Appends decoded 32-bit interleaved samples rescaled to `bits_per_sample`
/// bits (an arithmetic right shift by `32 - bits_per_sample`).
pub fn append_samples(destination: &mut Vec<i32>, interleaved: &[i32], bits_per_sample: u32)
    requires
        bits_per_sample >= 1,
    ensures
        final(destination)@ == old(destination)@ + interleaved@.map_values(
            |s: i32| s >> sample_shift(bits_per_sample),
        ),
        final(destination)@.len() == old(destination)@.len() + interleaved@.len(),
        final(destination)@.subrange(0, old(destination)@.len() as int) == old(destination)@,
        forall|i: int| 0 <= i < interleaved@.len() ==> final(destination)@[old(destination)@.len() + i]
            == if bits_per_sample <= 32 {
                #[trigger] interleaved@[i] >> ((32 - bits_per_sample) as u32)
            } else {
                interleaved@[i]
            },
{
    let shift: u32 = if bits_per_sample >= 32 { 0 } else { 32 - bits_per_sample };
    let ghost start = destination@;
    let mut i: usize = 0;
    while i < interleaved.len()
        invariant
            bits_per_sample >= 1,
            shift == sample_shift(bits_per_sample),
            0 <= shift < 32,
            i <= interleaved@.len(),
            destination@ == start + interleaved@.take(i as int).map_values(|s: i32| s >> sample_shift(bits_per_sample)),
        decreases interleaved@.len() - i,
    {
        destination.push(interleaved[i] >> shift);
        assert(destination@ =~= start + interleaved@.take(i + 1).map_values(|s: i32| s >> sample_shift(bits_per_sample)));
        i = i + 1;
    }
    assert(interleaved@.take(interleaved@.len() as int) =~= interleaved@);
    assert(destination@.subrange(0, start.len() as int) =~= start);
    assert forall|i: int| 0 <= i < interleaved@.len() implies destination@[start.len() + i]
        == if bits_per_sample <= 32 {
            #[trigger] interleaved@[i] >> ((32 - bits_per_sample) as u32)
        } else {
            interleaved@[i]
        } by {
        let mapped = interleaved@.map_values(|s: i32| s >> sample_shift(bits_per_sample));
        assert(mapped[i] == interleaved@[i] >> sample_shift(bits_per_sample));
        assert((start + mapped)[start.len() + i] == mapped[i]);
        if bits_per_sample <= 32 {
            assert(sample_shift(bits_per_sample) == (32 - bits_per_sample) as u32);
        } else {
            let x = interleaved@[i];
            assert(x >> 0u32 == x) by (bit_vector);
        }
    }
}

/// Gathers the decoded samples and parameters, refusing a channel count or
/// a bit depth that does not fit 16 bits.
pub fn finish_decoding(samples: Vec<i32>, sample_rate: u32, channels: usize, bits_per_sample: u32) -> (res: Result<DecodedPcm, AudioConversionError>)
    ensures
        channels > u16::MAX ==> (res matches Err(e) && e@ == (ConversionErrorKind::InvalidInput, "The channel count is too large."@)),
        channels <= u16::MAX && bits_per_sample > u16::MAX ==> (res matches Err(e) && e@ == (ConversionErrorKind::InvalidInput, "The bit depth is too large."@)),
        channels <= u16::MAX && bits_per_sample <= u16::MAX ==> (res matches Ok(d) && d.samples@ == samples@
            && d.sample_rate == sample_rate && d.channels == channels && d.bits_per_sample == bits_per_sample),
{
    if channels > u16::MAX as usize {
        return Err(AudioConversionError::InvalidInput(String::from_str("The channel count is too large.")));
    }
    if bits_per_sample > u16::MAX as u32 {
        return Err(AudioConversionError::InvalidInput(String::from_str("The bit depth is too large.")));
    }
    Ok(DecodedPcm {
        samples,
        sample_rate,
        channels: channels as u16,
        bits_per_sample: bits_per_sample as u16,
    })
}

} // verus!

verus! {

/// Rescaling never leaves the declared depth: for every depth `b` from 1 to
/// 32, a decoded 32-bit sample shifted right (arithmetically) by `32 - b`
/// lies in the `b`-bit two's-complement range `-2^(b-1) ..= 2^(b-1) - 1`,
/// and that shift is the one `append_samples` applies.
pub proof fn lemma_rescaled_samples_fit_depth(sample: i32, bits: u32)
    requires
        1 <= bits <= 32,
    ensures
        sample >> sample_shift(bits) == sample >> ((32 - bits) as u32),
        -pow2((bits - 1) as nat) <= sample >> ((32 - bits) as u32) <= pow2((bits - 1) as nat) - 1,
{
    let k: u32 = (32 - bits) as u32;
    let e: u64 = (bits - 1) as u64;
    let r: i32 = sample >> k;
    assert(-((1u64 << e) as i64) <= r as i64 && (r as i64) < (1u64 << e) as i64) by (bit_vector)
        requires
            r == sample >> k,
            k <= 31,
            e == 31 - k;
    vstd::arithmetic::power2::lemma2_to64();
    vstd::arithmetic::power2::lemma_pow2_strictly_increases(e as nat, 64);
    lemma_u64_shl_is_mul(1, e);
}

} // verus!
