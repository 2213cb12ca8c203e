//! The quality check made before a track is converted: a conversion that
//! upsamples, pads the bit depth or re-encodes a lossy source gains nothing
//! and is reported.

use vstd::prelude::*;
use crate::profile::{ConversionProfile, ProfileView};
use crate::text::{decimal, decimal_string};

verus! {

/// The codecs that the quality check tells apart.
#[derive(Clone, Copy, PartialEq, Eq, Structural, Debug)]
pub enum SourceCodec {
    Mp3,
    Aac,
    Other,
}

/// What the quality check reads of a source track: its sample rate and bit
/// depth where the container states them, and its codec.
#[derive(Clone, Copy, PartialEq, Eq, Structural, Debug)]
pub struct SourceFormat {
    pub sample_rate: Option<u32>,
    pub bits_per_sample: Option<u32>,
    pub codec: SourceCodec,
}

/// Why converting a source to a tier wastes space or gains nothing.
#[derive(Clone, Copy, PartialEq, Eq, Structural, Debug)]
pub enum QualityWarning {
    /// The source's rate is below the tier's, so the tier would upsample.
    Upsample { source_hz: u32, target_hz: u32 },
    /// The source's bit depth is below the tier's, so samples would be padded.
    BitDepth { source_bits: u32, target_bits: u32 },
    /// The source is MP3 or AAC: the lost data does not come back.
    Lossy,
}

/// The rate assumed for a source that does not state one.
pub open spec fn assumed_sample_rate(f: SourceFormat) -> u32 {
    match f.sample_rate {
        Some(hz) => hz,
        None => 44100,
    }
}

/// The bit depth assumed for a source that does not state one.
pub open spec fn assumed_bit_depth(f: SourceFormat) -> u32 {
    match f.bits_per_sample {
        Some(bits) => bits,
        None => 16,
    }
}

/// The first warning that applies, checked in the order upsampling, bit
/// depth, lossy codec.
pub open spec fn assess_quality_spec(f: SourceFormat, p: ProfileView) -> Option<QualityWarning> {
    let hz = assumed_sample_rate(f);
    let bits = assumed_bit_depth(f);
    if hz < p.target_sample_rate {
        Some(QualityWarning::Upsample { source_hz: hz, target_hz: p.target_sample_rate })
    } else if bits < p.target_bit_depth {
        Some(QualityWarning::BitDepth { source_bits: bits, target_bits: p.target_bit_depth })
    } else if f.codec == SourceCodec::Mp3 || f.codec == SourceCodec::Aac {
        Some(QualityWarning::Lossy)
    } else {
        None
    }
}

/// Checks a source against a tier; `None` when the conversion is worth it.
pub fn assess_quality(format: &SourceFormat, profile: &ConversionProfile) -> (r: Option<
    QualityWarning,
>)
    ensures
        r == assess_quality_spec(*format, profile@),
        forall|h: u32| format.sample_rate == Some(h) ==> ((h < profile.target_sample_rate) <==> r == Some(
            QualityWarning::Upsample { source_hz: h, target_hz: profile.target_sample_rate },
        )),
        format.sample_rate is None ==> ((44100 < profile.target_sample_rate) <==> r == Some(
            QualityWarning::Upsample { source_hz: 44100, target_hz: profile.target_sample_rate },
        )),
        r is None ==> format.codec == SourceCodec::Other,
{
    let hz: u32 = match format.sample_rate {
        Some(hz) => hz,
        None => 44100,
    };
    let bits: u32 = match format.bits_per_sample {
        Some(bits) => bits,
        None => 16,
    };
    if hz < profile.target_sample_rate {
        Some(QualityWarning::Upsample { source_hz: hz, target_hz: profile.target_sample_rate })
    } else if bits < profile.target_bit_depth {
        Some(QualityWarning::BitDepth { source_bits: bits, target_bits: profile.target_bit_depth })
    } else {
        match format.codec {
            SourceCodec::Mp3 | SourceCodec::Aac => Some(QualityWarning::Lossy),
            SourceCodec::Other => None,
        }
    }
}

/// A source that raises no warning for a tier raises none for a tier that
/// asks for no higher rate and no deeper samples.
pub proof fn lemma_quality_monotone(f: SourceFormat, p: ProfileView, q: ProfileView)
    requires
        q.target_sample_rate <= p.target_sample_rate,
        q.target_bit_depth <= p.target_bit_depth,
        assess_quality_spec(f, p) is None,
    ensures
        assess_quality_spec(f, q) is None,
{
}

/// A lossy source is always reported, with the rate or depth warning taking
/// precedence: the check says nothing only of a lossless source.
pub proof fn lemma_lossy_always_reported(f: SourceFormat, p: ProfileView)
    requires
        f.codec == SourceCodec::Mp3 || f.codec == SourceCodec::Aac,
    ensures
        assess_quality_spec(f, p) is Some,
{
}

/// What `str::to_uppercase` gives for a text (full Unicode case mapping).
pub uninterp spec fn uppercase(s: Seq<char>) -> Seq<char>;

/// Calls std's `str::to_uppercase`. Claimed: the result is a function of
/// the text alone, named `uppercase`; the Unicode mapping itself is not stated.
#[verifier::external_body]
fn to_uppercase(s: &str) -> (r: String)
    ensures
        r@ == uppercase(s@),
{
    s.to_uppercase()
}

/// The text of a warning about converting to tier `p`. An upsampling warning
/// shows both rates in kHz; `source_khz` and `target_khz` are those rates as
/// the caller renders them.
pub open spec fn warning_message_spec(
    w: QualityWarning,
    p: ProfileView,
    source_khz: Seq<char>,
    target_khz: Seq<char>,
) -> Seq<char> {
    match w {
        QualityWarning::Upsample { .. } => "UPSAMPLE WARNING: Source is "@ + source_khz
            + "kHz. Converting to "@ + target_khz + "kHz for "@ + uppercase(p.name)
            + " wastes USB space."@,
        QualityWarning::BitDepth { source_bits, target_bits } => "BIT-DEPTH WARNING: Source is "@
            + decimal(source_bits as nat) + "-bit. Padding to "@ + decimal(target_bits as nat)
            + "-bit for "@ + uppercase(p.name) + " creates unnecessarily large files."@,
        QualityWarning::Lossy => "LOSSY WARNING: Source is a compressed lossy format. Converting to "@
            + uppercase(p.ext) + " will not recover lost audio data."@,
    }
}

/// The text of a warning about converting to `profile`. For an upsampling
/// warning, `source_khz` and `target_khz` are the two rates in kHz as the
/// caller renders them; the other warnings ignore them.
pub fn warning_message(
    warning: &QualityWarning,
    profile: &ConversionProfile,
    source_khz: &str,
    target_khz: &str,
) -> (r: String)
    ensures
        r@ == warning_message_spec(*warning, profile@, source_khz@, target_khz@),
        warning is Upsample ==> r@ == "UPSAMPLE WARNING: Source is "@ + source_khz@ + "kHz. Converting to "@
            + target_khz@ + "kHz for "@ + uppercase(profile.name@) + " wastes USB space."@,
        forall|a: u32, b: u32|
            *warning == (QualityWarning::BitDepth { source_bits: a, target_bits: b }) ==> r@
                == "BIT-DEPTH WARNING: Source is "@ + decimal(a as nat) + "-bit. Padding to "@ + decimal(
                b as nat,
            ) + "-bit for "@ + uppercase(profile.name@) + " creates unnecessarily large files."@,
        *warning == QualityWarning::Lossy ==> r@
            == "LOSSY WARNING: Source is a compressed lossy format. Converting to "@ + uppercase(profile.ext@)
            + " will not recover lost audio data."@,
{
    match warning {
        QualityWarning::Upsample { .. } => {
            let mut r = String::from_str("UPSAMPLE WARNING: Source is ");
            r.append(source_khz);
            r.append("kHz. Converting to ");
            r.append(target_khz);
            r.append("kHz for ");
            let name = to_uppercase(profile.name);
            r.append(name.as_str());
            r.append(" wastes USB space.");
            r
        },
        QualityWarning::BitDepth { source_bits, target_bits } => {
            let mut r = String::from_str("BIT-DEPTH WARNING: Source is ");
            let a = decimal_string(*source_bits as u64);
            r.append(a.as_str());
            r.append("-bit. Padding to ");
            let b = decimal_string(*target_bits as u64);
            r.append(b.as_str());
            r.append("-bit for ");
            let name = to_uppercase(profile.name);
            r.append(name.as_str());
            r.append(" creates unnecessarily large files.");
            r
        },
        QualityWarning::Lossy => {
            let mut r = String::from_str(
                "LOSSY WARNING: Source is a compressed lossy format. Converting to ",
            );
            let ext = to_uppercase(profile.ext);
            r.append(ext.as_str());
            r.append(" will not recover lost audio data.");
            r
        },
    }
}

/// A source is warned about upsampling exactly when its rate (44100 if the
/// container states none) is below the tier's; when it is not, it is warned
/// about padding exactly when its depth (16 if unstated) is below the tier's;
/// when neither applies, MP3 and AAC sources are reported as lossy and the
/// others pass.
pub proof fn lemma_quality_rules(f: SourceFormat, p: ProfileView)
    ensures
        forall|h: u32| f.sample_rate == Some(h) ==> ((h < p.target_sample_rate) <==> assess_quality_spec(f, p) == Some(
            QualityWarning::Upsample { source_hz: h, target_hz: p.target_sample_rate },
        )),
        f.sample_rate is None ==> ((44100 < p.target_sample_rate) <==> assess_quality_spec(f, p) == Some(
            QualityWarning::Upsample { source_hz: 44100, target_hz: p.target_sample_rate },
        )),
{
}

/// For a source whose rate `h` reaches the tier's and whose depth is `b`:
/// it is warned about padding exactly when `b` is below the tier's depth;
/// otherwise MP3 and AAC sources are reported as lossy and the others pass.
pub proof fn lemma_quality_depth_and_codec_rules(f: SourceFormat, p: ProfileView, h: u32, b: u32)
    requires
        f.sample_rate == Some(h) || (f.sample_rate is None && h == 44100),
        f.bits_per_sample == Some(b) || (f.bits_per_sample is None && b == 16),
        h >= p.target_sample_rate,
    ensures
        (b < p.target_bit_depth) <==> assess_quality_spec(f, p) == Some(
            QualityWarning::BitDepth { source_bits: b, target_bits: p.target_bit_depth },
        ),
        b >= p.target_bit_depth ==> (assess_quality_spec(f, p) is None <==> f.codec == SourceCodec::Other),
        b >= p.target_bit_depth && f.codec != SourceCodec::Other ==> assess_quality_spec(f, p) == Some(
            QualityWarning::Lossy,
        ),
{
}
} // verus!
