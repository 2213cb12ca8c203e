//! The decisions that drive one conversion: the plan made from what the
//! container says about the source, the bookkeeping of the samples that wait
//! for the resampler, and what the decode loop does with each packet.

use vstd::prelude::*;
use crate::profile::{ConversionProfile, ProfileView};

verus! {

/// The number of set bits of `x`.
pub open spec fn ones(x: nat) -> nat
    decreases x,
{
    if x == 0 {
        0
    } else {
        x % 2 + ones(x / 2)
    }
}

/// The bits of the channel positions that the decoder library defines.
pub open spec fn known_channel_bits() -> u32 {
    0x03FF_FFFFu32
}

/// Counts the channels of a channel mask with the decoder library:
/// `symphonia::core::audio::Channels::from_bits_truncate` keeps the 26 defined
/// positions (it masks with `Channels::all()`), and `Channels::count` counts
/// the set bits. Claimed: the result is the number of set bits of
/// `bits & 0x03FF_FFFF`.
#[verifier::external_body]
fn count_channels(bits: u32) -> (n: usize)
    ensures
        n == ones((bits & known_channel_bits()) as nat),
{
    symphonia::core::audio::Channels::from_bits_truncate(bits).count()
}

/// The decoder library's stereo layout, `Channels::FRONT_LEFT | Channels::FRONT_RIGHT`,
/// as a mask (`Channels::bits`). Claimed: the mask is 3, the two lowest positions.
#[verifier::external_body]
fn stereo_bits() -> (b: u32)
    ensures
        b == 3,
{
    (symphonia::core::audio::Channels::FRONT_LEFT
        | symphonia::core::audio::Channels::FRONT_RIGHT).bits()
}

/// The channel count planned for a source whose container states the
/// channel mask `bits`, or none (then stereo is assumed).
pub open spec fn planned_channels(bits: Option<u32>) -> nat {
    match bits {
        Some(b) => ones((b & known_channel_bits()) as nat),
        None => 2,
    }
}

/// What a conversion is going to do.
#[derive(Clone, Copy, PartialEq, Eq, Structural, Debug)]
pub struct ConversionPlan {
    /// The source's rate (44100 where the container states none).
    pub source_hz: u32,
    /// The tier's rate.
    pub target_hz: u32,
    /// The number of interleaved channels.
    pub channels: usize,
    /// The tier's bit depth.
    pub bit_depth: u32,
    /// Whether the audio goes through the resampler.
    pub needs_resampling: bool,
}

/// The plan for a source with the given rate and channel mask, converted to a tier.
pub open spec fn plan_spec(sample_rate: Option<u32>, channel_bits: Option<u32>, p: ProfileView) -> ConversionPlan {
    let source_hz = match sample_rate {
        Some(hz) => hz,
        None => 44100,
    };
    ConversionPlan {
        source_hz,
        target_hz: p.target_sample_rate,
        channels: planned_channels(channel_bits) as usize,
        bit_depth: p.target_bit_depth,
        needs_resampling: source_hz != p.target_sample_rate,
    }
}

/// Plans the conversion of a source whose container states `sample_rate`
/// and the channel mask `channel_bits` (where it states them) to a tier.
pub fn plan_conversion(sample_rate: Option<u32>, channel_bits: Option<u32>, profile: &ConversionProfile) -> (r: ConversionPlan)
    ensures
        r == plan_spec(sample_rate, channel_bits, profile@),
        forall|hz: u32| sample_rate == Some(hz) ==> r.source_hz == hz,
        sample_rate is None ==> r.source_hz == 44100,
        r.needs_resampling <==> r.source_hz != profile.target_sample_rate,
        r.target_hz == profile.target_sample_rate,
        r.bit_depth == profile.target_bit_depth,
        channel_bits is None ==> r.channels == 2,
{
    let source_hz: u32 = match sample_rate {
        Some(hz) => hz,
        None => 44100,
    };
    let bits: u32 = match channel_bits {
        Some(b) => b,
        None => stereo_bits(),
    };
    let channels: usize = count_channels(bits);
    proof {
        if channel_bits is None {
            assert((3u32 & 0x03FF_FFFFu32) == 3u32) by (bit_vector);
            assert(ones(3) == 2) by {
                reveal_with_fuel(ones, 3);
            }
        }
    }
    ConversionPlan {
        source_hz,
        target_hz: profile.target_sample_rate,
        channels,
        bit_depth: profile.target_bit_depth,
        needs_resampling: source_hz != profile.target_sample_rate,
    }
}

impl ConversionPlan {
    /// The channel count written into the WAV header.
    pub fn wav_channels(&self) -> (r: u16)
        ensures
            r == self.channels as u16,
    {
        self.channels as u16
    }

    /// The bits per sample written into the WAV header.
    pub fn wav_bits_per_sample(&self) -> (r: u16)
        ensures
            r == self.bit_depth as u16,
    {
        self.bit_depth as u16
    }

    /// The size, in samples, of the resampler's first output buffer.
    pub fn initial_output_len(&self) -> (r: usize)
        requires
            self.channels * 4096 <= usize::MAX,
        ensures
            r == self.channels * 4096,
    {
        self.channels * 4096
    }

    /// The size the output buffer is given before the resampler writes up
    /// to `max_frames` frames into it: grown to hold them, never shrunk.
    pub fn output_len_for(&self, current: usize, max_frames: usize) -> (r: usize)
        requires
            max_frames * self.channels <= usize::MAX,
        ensures
            r == if current < max_frames * self.channels { max_frames * self.channels } else { current as int },
            r >= current,
            r >= max_frames * self.channels,
    {
        let needed: usize = max_frames * self.channels;
        if current < needed {
            needed
        } else {
            current
        }
    }

    /// How many samples of an output buffer of `available` samples are
    /// written after the resampler reports `frames_written` frames.
    pub fn samples_to_write(&self, frames_written: usize, available: usize) -> (r: usize)
        requires
            frames_written * self.channels <= usize::MAX,
        ensures
            r == if frames_written * self.channels <= available { frames_written * self.channels } else { available as int },
            r <= available,
    {
        let wanted: usize = frames_written * self.channels;
        if wanted <= available {
            wanted
        } else {
            available
        }
    }
}

/// The interleaved samples that wait for the resampler, counted: decoded
/// samples are added, the resampler takes whole frames from the front.
pub struct PendingSamples {
    buffered: usize,
    channels: usize,
}

impl PendingSamples {
    #[verifier::type_invariant]
    spec fn channels_positive(self) -> bool {
        self.channels > 0
    }

    /// The number of samples waiting.
    pub closed spec fn spec_buffered(self) -> nat {
        self.buffered as nat
    }

    /// The number of interleaved channels.
    pub closed spec fn spec_channels(self) -> nat {
        self.channels as nat
    }

    /// An empty queue for audio with `channels` interleaved channels.
    pub fn new(channels: usize) -> (r: Self)
        requires
            channels > 0,
        ensures
            r.spec_buffered() == 0,
            r.spec_channels() == channels,
    {
        PendingSamples { buffered: 0, channels }
    }

    /// The number of samples waiting.
    pub fn buffered(&self) -> (r: usize)
        ensures
            r == self.spec_buffered(),
    {
        self.buffered
    }

    /// The number of interleaved channels.
    pub fn channels(&self) -> (r: usize)
        ensures
            r == self.spec_channels(),
            r > 0,
    {
        proof {
            use_type_invariant(self);
        }
        self.channels
    }

    /// The number of whole frames waiting.
    pub fn frames(&self) -> (r: usize)
        ensures
            r == self.spec_buffered() / self.spec_channels(),
            r * self.spec_channels() <= self.spec_buffered(),
    {
        proof {
            use_type_invariant(self);
        }
        let r: usize = self.buffered / self.channels;
        proof {
            let b = self.buffered as int;
            let c = self.channels as int;
            assert((b / c) * c <= b) by (nonlinear_arith)
                requires
                    c > 0,
                    b >= 0,
            {
                vstd::arithmetic::div_mod::lemma_fundamental_div_mod(b, c);
            }
        }
        r
    }

    /// Records `samples` more decoded samples.
    pub fn add(&mut self, samples: usize)
        requires
            old(self).spec_buffered() + samples <= usize::MAX,
        ensures
            final(self).spec_buffered() == old(self).spec_buffered() + samples,
            final(self).spec_channels() == old(self).spec_channels(),
    {
        proof {
            use_type_invariant(&*self);
        }
        self.buffered = self.buffered + samples;
    }

    /// The number of samples handed to the resampler when it asks for
    /// `frames_needed` frames: `None` while fewer frames are waiting.
    pub fn next_chunk(&self, frames_needed: usize) -> (r: Option<usize>)
        ensures
            match r {
                Some(n) => frames_needed <= self.spec_buffered() / self.spec_channels()
                    && n == frames_needed * self.spec_channels() && n <= self.spec_buffered(),
                None => frames_needed > self.spec_buffered() / self.spec_channels(),
            },
    {
        let frames: usize = self.frames();
        if frames >= frames_needed {
            proof {
                use_type_invariant(self);
                vstd::arithmetic::mul::lemma_mul_inequality(frames_needed as int, frames as int, self.channels as int);
            }
            Some(frames_needed * self.channels)
        } else {
            None
        }
    }

    /// Removes the `frames_read` frames the resampler consumed from the front.
    pub fn consume(&mut self, frames_read: usize)
        requires
            frames_read * old(self).spec_channels() <= old(self).spec_buffered(),
        ensures
            final(self).spec_buffered() == old(self).spec_buffered() - frames_read * old(self).spec_channels(),
            final(self).spec_channels() == old(self).spec_channels(),
    {
        proof {
            use_type_invariant(&*self);
        }
        self.buffered = self.buffered - frames_read * self.channels;
    }

    /// The frames handed to the resampler as a last, partial chunk when the
    /// source ends: `None` when no sample is waiting.
    pub fn final_chunk_frames(&self) -> (r: Option<usize>)
        ensures
            match r {
                Some(f) => self.spec_buffered() > 0 && f == self.spec_buffered() / self.spec_channels(),
                None => self.spec_buffered() == 0,
            },
    {
        if self.buffered > 0 {
            Some(self.frames())
        } else {
            None
        }
    }
}

/// What reading the next packet of the source gave.
#[derive(Clone, Copy, PartialEq, Eq, Structural, Debug)]
pub enum ReadOutcome {
    /// A packet of the given track.
    Packet { track_id: u32 },
    /// The source ended (an unexpected end of file).
    EndOfStream,
    /// Any other read error.
    Failed,
}

/// What decoding a packet gave.
#[derive(Clone, Copy, PartialEq, Eq, Structural, Debug)]
pub enum DecodeOutcome {
    /// Decoded audio.
    Audio,
    /// The packet held corrupt data.
    Corrupt,
    /// Any other decoder error.
    Failed,
}

/// What the decode loop does next.
#[derive(Clone, Copy, PartialEq, Eq, Structural, Debug)]
pub enum LoopStep {
    /// Decode the packet just read.
    Decode,
    /// Write out the decoded audio.
    Write,
    /// Go on with the next packet.
    Skip,
    /// The source is done: flush and finish the output.
    Finish,
    /// Stop with the error.
    Fail,
}

/// The step after reading a packet, when converting the track `track_id`.
pub open spec fn after_read_spec(read: ReadOutcome, track_id: u32) -> LoopStep {
    match read {
        ReadOutcome::Packet { track_id: t } => if t == track_id { LoopStep::Decode } else { LoopStep::Skip },
        ReadOutcome::EndOfStream => LoopStep::Finish,
        ReadOutcome::Failed => LoopStep::Fail,
    }
}

/// The step after decoding a packet.
pub open spec fn after_decode_spec(decoded: DecodeOutcome) -> LoopStep {
    match decoded {
        DecodeOutcome::Audio => LoopStep::Write,
        DecodeOutcome::Corrupt => LoopStep::Skip,
        DecodeOutcome::Failed => LoopStep::Fail,
    }
}

/// The step after reading a packet: packets of other tracks are skipped,
/// the end of the source finishes the conversion, other errors stop it.
pub fn after_read(read: ReadOutcome, track_id: u32) -> (r: LoopStep)
    ensures
        r == after_read_spec(read, track_id),
{
    match read {
        ReadOutcome::Packet { track_id: t } => if t == track_id {
            LoopStep::Decode
        } else {
            LoopStep::Skip
        },
        ReadOutcome::EndOfStream => LoopStep::Finish,
        ReadOutcome::Failed => LoopStep::Fail,
    }
}

/// The step after decoding a packet: corrupt packets are skipped, other
/// decoder errors stop the conversion.
pub fn after_decode(decoded: DecodeOutcome) -> (r: LoopStep)
    ensures
        r == after_decode_spec(decoded),
{
    match decoded {
        DecodeOutcome::Audio => LoopStep::Write,
        DecodeOutcome::Corrupt => LoopStep::Skip,
        DecodeOutcome::Failed => LoopStep::Fail,
    }
}

/// A number below `2^k` has at most `k` set bits.
proof fn lemma_ones_bound(x: nat, k: nat)
    requires
        x < vstd::arithmetic::power2::pow2(k),
    ensures
        ones(x) <= k,
    decreases k,
{
    if x > 0 {
        if k == 0 {
            vstd::arithmetic::power2::lemma2_to64();
        } else {
            vstd::arithmetic::power2::lemma_pow2_unfold(k);
            lemma_ones_bound(x / 2, (k - 1) as nat);
        }
    }
}

/// A planned conversion never has more channels than the 26 positions the
/// decoder library knows, so the count fits the WAV header.
pub proof fn lemma_planned_channels_bounded(bits: Option<u32>)
    ensures
        planned_channels(bits) <= 26,
{
    if let Some(b) = bits {
        let m = b & 0x03FF_FFFFu32;
        assert(m < 0x0400_0000u32) by (bit_vector)
            requires
                m == b & 0x03FF_FFFFu32,
        ;
        vstd::arithmetic::power2::lemma2_to64();
        lemma_ones_bound(m as nat, 26);
    }
}

/// The plan resamples exactly when the source's rate (44100 if unstated)
/// differs from the tier's, and keeps the tier's rate and bit depth.
pub proof fn lemma_plan_resamples_iff_rates_differ(
    sample_rate: Option<u32>,
    channel_bits: Option<u32>,
    p: ProfileView,
)
    ensures
        plan_spec(sample_rate, channel_bits, p).needs_resampling <==> plan_spec(
            sample_rate,
            channel_bits,
            p,
        ).source_hz != p.target_sample_rate,
        plan_spec(sample_rate, channel_bits, p).target_hz == p.target_sample_rate,
        plan_spec(sample_rate, channel_bits, p).channels <= 26,
        sample_rate == Some(p.target_sample_rate) ==> !plan_spec(sample_rate, channel_bits, p).needs_resampling,
{
    lemma_planned_channels_bounded(channel_bits);
}

/// Whether a read gave a packet of a track other than `track_id`.
pub open spec fn is_foreign(read: ReadOutcome, track_id: u32) -> bool {
    match read {
        ReadOutcome::Packet { track_id: t } => t != track_id,
        _ => false,
    }
}

/// The reads without the packets of other tracks.
pub open spec fn without_foreign(reads: Seq<ReadOutcome>, track_id: u32) -> Seq<ReadOutcome>
    decreases reads.len(),
{
    if reads.len() == 0 {
        reads
    } else {
        let rest = without_foreign(reads.skip(1), track_id);
        if is_foreign(reads[0], track_id) {
            rest
        } else {
            seq![reads[0]] + rest
        }
    }
}

/// The steps of the decode loop that do something, for the reads in order:
/// skipped packets leave no step, and the loop stops after `Finish` or `Fail`.
pub open spec fn loop_trace(reads: Seq<ReadOutcome>, track_id: u32) -> Seq<LoopStep>
    decreases reads.len(),
{
    if reads.len() == 0 {
        Seq::empty()
    } else {
        let step = after_read_spec(reads[0], track_id);
        match step {
            LoopStep::Skip => loop_trace(reads.skip(1), track_id),
            LoopStep::Finish => seq![step],
            LoopStep::Fail => seq![step],
            _ => seq![step] + loop_trace(reads.skip(1), track_id),
        }
    }
}

/// Packets of other tracks change nothing: the loop does the same steps
/// with them as without them.
pub proof fn lemma_foreign_packets_ignored(reads: Seq<ReadOutcome>, track_id: u32)
    ensures
        loop_trace(reads, track_id) == loop_trace(without_foreign(reads, track_id), track_id),
    decreases reads.len(),
{
    if reads.len() > 0 {
        lemma_foreign_packets_ignored(reads.skip(1), track_id);
        let rest = without_foreign(reads.skip(1), track_id);
        if !is_foreign(reads[0], track_id) {
            let w = seq![reads[0]] + rest;
            assert(w[0] == reads[0]);
            assert(w.skip(1) =~= rest);
        }
    }
}

/// Two sources whose reads differ only in packets of other tracks drive the
/// decode loop through the same steps.
pub proof fn lemma_same_steps_without_foreign_packets(
    reads1: Seq<ReadOutcome>,
    reads2: Seq<ReadOutcome>,
    track_id: u32,
)
    requires
        without_foreign(reads1, track_id) == without_foreign(reads2, track_id),
    ensures
        loop_trace(reads1, track_id) == loop_trace(reads2, track_id),
{
    lemma_foreign_packets_ignored(reads1, track_id);
    lemma_foreign_packets_ignored(reads2, track_id);
}

/// The plan takes the source's rate as the container states it (44100 when
/// it states none), the tier's rate and bit depth, and resamples exactly when
/// the stated rate differs from the tier's.
pub proof fn lemma_plan_follows_source(sample_rate: Option<u32>, channel_bits: Option<u32>, p: ProfileView)
    ensures
        forall|hz: u32|
            sample_rate == Some(hz) ==> plan_spec(sample_rate, channel_bits, p).source_hz == hz
                && (plan_spec(sample_rate, channel_bits, p).needs_resampling <==> hz != p.target_sample_rate),
        sample_rate is None ==> plan_spec(sample_rate, channel_bits, p).source_hz == 44100
            && (plan_spec(sample_rate, channel_bits, p).needs_resampling <==> p.target_sample_rate != 44100),
        plan_spec(sample_rate, channel_bits, p).target_hz == p.target_sample_rate,
        plan_spec(sample_rate, channel_bits, p).bit_depth == p.target_bit_depth,
        channel_bits is None ==> plan_spec(sample_rate, channel_bits, p).channels == 2,
{
}

/// Only packets of the converted track are decoded; the end of the source
/// finishes the conversion and any other read error stops it.
pub proof fn lemma_read_steps(t: u32, track_id: u32)
    ensures
        (after_read_spec(ReadOutcome::Packet { track_id: t }, track_id) == LoopStep::Decode) <==> t == track_id,
        t != track_id ==> after_read_spec(ReadOutcome::Packet { track_id: t }, track_id) == LoopStep::Skip,
        after_read_spec(ReadOutcome::EndOfStream, track_id) == LoopStep::Finish,
        after_read_spec(ReadOutcome::Failed, track_id) == LoopStep::Fail,
        after_decode_spec(DecodeOutcome::Audio) == LoopStep::Write,
        after_decode_spec(DecodeOutcome::Corrupt) == LoopStep::Skip,
        after_decode_spec(DecodeOutcome::Failed) == LoopStep::Fail,
{
}

} // verus!
