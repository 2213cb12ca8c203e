use pioneer_converter::settings::{core_count, is_supported_audio_extension, slots_full, summary_note};
use pioneer_converter::text::decimal_string;

#[test]
fn core_count_prefers_the_request() {
    assert_eq!(core_count(Some(10), Some(4)), 10);
    assert_eq!(core_count(Some(0), None), 0);
}

#[test]
fn core_count_leaves_one_processor_free() {
    assert_eq!(core_count(None, Some(8)), 7);
    assert_eq!(core_count(None, Some(2)), 1);
    assert_eq!(core_count(None, Some(1)), 1);
    assert_eq!(core_count(None, None), 3);
}

#[test]
fn slots_fill_up_at_the_core_count() {
    assert!(!slots_full(3, 4));
    assert!(slots_full(4, 4));
    assert!(slots_full(0, 0));
}

#[test]
fn audio_extensions() {
    for e in ["wav", "flac", "aiff", "mp3", "m4a"] {
        assert!(is_supported_audio_extension(e));
    }
    for e in ["WAV", "ogg", "", "flac ", "aif"] {
        assert!(!is_supported_audio_extension(e));
    }
}

#[test]
fn summary_mentions_warnings_only() {
    assert_eq!(summary_note(0), None);
    assert_eq!(summary_note(3), Some("Processed with 3 warnings.".to_string()));
    assert_eq!(summary_note(1), Some("Processed with 1 warnings.".to_string()));
}

#[test]
fn decimal_text() {
    assert_eq!(decimal_string(0), "0");
    assert_eq!(decimal_string(10), "10");
    assert_eq!(decimal_string(u64::MAX), u64::MAX.to_string());
}

#[test]
fn running_conversions_never_exceed_the_cores() {
    let cores = 3;
    let mut running = 0usize;
    let mut peak = 0usize;
    for step in 0..20 {
        if step % 4 == 3 && running > 0 {
            running -= 1;
        }
        while slots_full(running, cores) {
            running -= 1;
        }
        running += 1;
        peak = peak.max(running);
        assert!(running <= cores);
    }
    assert_eq!(peak, cores);
}
