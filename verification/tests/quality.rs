use pioneer_converter::profile::get_presets;
use pioneer_converter::quality::{assess_quality, warning_message, QualityWarning, SourceCodec, SourceFormat};

fn fmt(rate: Option<u32>, bits: Option<u32>, codec: SourceCodec) -> SourceFormat {
    SourceFormat { sample_rate: rate, bits_per_sample: bits, codec }
}

#[test]
fn lower_rate_warns_about_upsampling() {
    let p = get_presets();
    let w = assess_quality(&fmt(Some(44100), Some(24), SourceCodec::Other), &p[0]);
    assert_eq!(w, Some(QualityWarning::Upsample { source_hz: 44100, target_hz: 96000 }));
}

#[test]
fn missing_rate_is_taken_as_cd_rate() {
    let p = get_presets();
    let w = assess_quality(&fmt(None, Some(24), SourceCodec::Other), &p[1]);
    assert_eq!(w, Some(QualityWarning::Upsample { source_hz: 44100, target_hz: 48000 }));
    assert_eq!(assess_quality(&fmt(None, None, SourceCodec::Other), &p[2]), None);
}

#[test]
fn lower_bit_depth_warns_about_padding() {
    let p = get_presets();
    let w = assess_quality(&fmt(Some(96000), Some(16), SourceCodec::Other), &p[0]);
    assert_eq!(w, Some(QualityWarning::BitDepth { source_bits: 16, target_bits: 24 }));
    let w = assess_quality(&fmt(Some(48000), None, SourceCodec::Other), &p[1]);
    assert_eq!(w, Some(QualityWarning::BitDepth { source_bits: 16, target_bits: 24 }));
}

#[test]
fn lossy_sources_are_reported() {
    let p = get_presets();
    assert_eq!(assess_quality(&fmt(Some(44100), Some(16), SourceCodec::Mp3), &p[2]), Some(QualityWarning::Lossy));
    assert_eq!(assess_quality(&fmt(Some(48000), Some(24), SourceCodec::Aac), &p[3]), Some(QualityWarning::Lossy));
}

#[test]
fn rate_warning_comes_before_the_others() {
    let p = get_presets();
    let w = assess_quality(&fmt(Some(22050), Some(8), SourceCodec::Mp3), &p[3]);
    assert_eq!(w, Some(QualityWarning::Upsample { source_hz: 22050, target_hz: 44100 }));
    let w = assess_quality(&fmt(Some(96000), Some(8), SourceCodec::Mp3), &p[3]);
    assert_eq!(w, Some(QualityWarning::BitDepth { source_bits: 8, target_bits: 16 }));
}

#[test]
fn good_lossless_source_passes_every_tier() {
    for p in get_presets() {
        assert_eq!(assess_quality(&fmt(Some(96000), Some(24), SourceCodec::Other), &p), None);
    }
}

#[test]
fn warning_texts() {
    let p = get_presets();
    assert_eq!(
        warning_message(&QualityWarning::BitDepth { source_bits: 16, target_bits: 24 }, &p[0], "", ""),
        "BIT-DEPTH WARNING: Source is 16-bit. Padding to 24-bit for FLAGSHIP creates unnecessarily large files."
    );
    assert_eq!(
        warning_message(&QualityWarning::Lossy, &p[1], "", ""),
        "LOSSY WARNING: Source is a compressed lossy format. Converting to AIFF will not recover lost audio data."
    );
    assert_eq!(
        warning_message(&QualityWarning::Upsample { source_hz: 44100, target_hz: 96000 }, &p[0], "44.1", "96"),
        "UPSAMPLE WARNING: Source is 44.1kHz. Converting to 96kHz for FLAGSHIP wastes USB space."
    );
}
