use pioneer_converter::ffmpeg::{
    clean_path, effective_sample_rate, ffmpeg_args, ffmpeg_failure_message, get_ffmpeg_codec_args,
    parse_sample_rate, progress_time, version_line,
};
use pioneer_converter::profile::{get_presets, ConversionProfile};

fn prof(ext: &'static str, depth: u32) -> ConversionProfile {
    ConversionProfile { name: "t", ext, target_sample_rate: 44100, target_bit_depth: depth }
}

#[test]
fn clean_path_strips_the_verbatim_prefix() {
    assert_eq!(clean_path(r"\\?\C:\Music\a.flac"), r"C:\Music\a.flac");
    assert_eq!(clean_path("/home/dj/a.flac"), "/home/dj/a.flac");
    assert_eq!(clean_path(r"\\?"), r"\\?");
    assert_eq!(clean_path(r"\\?\"), "");
    assert_eq!(clean_path(r"\\?\\\?\x"), r"\\?\x");
}

#[test]
fn codec_args_for_each_tier() {
    let p = get_presets();
    assert_eq!(get_ffmpeg_codec_args(&p[0]), vec!["-c:a", "flac"]);
    assert_eq!(get_ffmpeg_codec_args(&p[1]), vec!["-c:a", "pcm_s24be", "-write_id3v2", "1"]);
    assert_eq!(get_ffmpeg_codec_args(&p[2]), vec!["-c:a", "pcm_s16le", "-write_id3v2", "1"]);
    assert_eq!(get_ffmpeg_codec_args(&p[3]), vec!["-c:a", "pcm_s16le", "-write_id3v2", "1"]);
}

#[test]
fn codec_args_for_other_containers() {
    assert_eq!(get_ffmpeg_codec_args(&prof("wav", 24)), vec!["-c:a", "pcm_s24le", "-write_id3v2", "1"]);
    assert_eq!(get_ffmpeg_codec_args(&prof("aiff", 16)), vec!["-c:a", "pcm_s16be", "-write_id3v2", "1"]);
    assert_eq!(get_ffmpeg_codec_args(&prof("flac", 16)), vec!["-c:a", "flac"]);
    assert_eq!(get_ffmpeg_codec_args(&prof("aiff", 32)), vec!["-c:a", "pcm_s16le"]);
    assert_eq!(get_ffmpeg_codec_args(&prof("mp3", 16)), vec!["-c:a", "pcm_s16le"]);
}

#[test]
fn rate_is_kept_below_a_slower_source_unless_forced() {
    assert_eq!(effective_sample_rate(44100, 96000, false), 44100);
    assert_eq!(effective_sample_rate(44100, 96000, true), 96000);
    assert_eq!(effective_sample_rate(192000, 48000, false), 48000);
    assert_eq!(effective_sample_rate(48000, 48000, false), 48000);
}

#[test]
fn encoder_command_line() {
    let p = get_presets();
    let args = ffmpeg_args(r"\\?\C:\in.mp3", "/out/in.aiff", 48000, &p[1]);
    let expect = vec![
        "-y", "-loglevel", "level", "-i", r"C:\in.mp3", "-progress", "pipe:1", "-map_metadata", "0",
        "-hide_banner", "-stats", "-ar", "48000", "-c:a", "pcm_s24be", "-write_id3v2", "1",
        "/out/in.aiff",
    ];
    assert_eq!(args, expect);
}

#[test]
fn sample_rate_from_encoder_report() {
    let info = "Input #0, flac, from 'a.flac':\n  Duration: 00:03:00.00\n  Stream #0:0: Audio: flac, 96000 Hz, stereo, s32 (24 bit)\n";
    assert_eq!(parse_sample_rate(info), 96000);
    assert_eq!(parse_sample_rate("Stream #0:0: Audio: pcm_s16le ([1][0][0][0] / 0x0001), 22050 Hz, 2 channels"), 22050);
}

#[test]
fn sample_rate_defaults_when_unreadable() {
    assert_eq!(parse_sample_rate(""), 44100);
    assert_eq!(parse_sample_rate("no rate here"), 44100);
    assert_eq!(parse_sample_rate("abc Hz"), 44100);
    assert_eq!(parse_sample_rate(" 99999999999 Hz"), 44100);
    assert_eq!(parse_sample_rate("x, 48k Hz then 48000 Hz"), 44100);
    assert_eq!(parse_sample_rate("rate:\t48000 Hz"), 44100);
}

#[test]
fn sample_rate_number_is_trimmed_and_may_carry_a_plus() {
    assert_eq!(parse_sample_rate(" \t48000 Hz"), 48000);
    assert_eq!(parse_sample_rate("+32000 Hz"), 32000);
    assert_eq!(parse_sample_rate("8000 Hz"), 8000);
    assert_eq!(parse_sample_rate(" 4294967295 Hz"), 4294967295);
}

#[test]
fn sample_rate_round_trips() {
    for n in [0u32, 7, 8000, 44100, 48000, 96000, 192000, u32::MAX] {
        assert_eq!(parse_sample_rate(&format!("prefix, {} Hz, suffix", n)), n);
    }
}

#[test]
fn progress_lines() {
    assert_eq!(progress_time("out_time=00:01:02.500000"), Some("00:01:02.500000".to_string()));
    assert_eq!(progress_time("out_time= 00:00:01 "), Some("00:00:01".to_string()));
    assert_eq!(progress_time("out_time=a out_time=b"), Some("a b".to_string()));
    assert_eq!(progress_time("out_time_ms=123"), None);
    assert_eq!(progress_time("frame=10"), None);
    assert_eq!(progress_time(""), None);
}

#[test]
fn version_banner_is_the_first_line() {
    assert_eq!(version_line("ffmpeg version 6.0 Copyright\nbuilt with gcc\n"), "ffmpeg version 6.0 Copyright");
    assert_eq!(version_line(""), "Unknown version");
    assert_eq!(version_line("a\r\nb"), "a");
    assert_eq!(version_line("solo\r"), "solo\r");
    assert_eq!(version_line("\nsecond"), "");
}

#[test]
fn failure_message_trims_the_error_output() {
    assert_eq!(ffmpeg_failure_message("  boom \n"), "FFmpeg Error: boom");
    assert_eq!(ffmpeg_failure_message(""), "FFmpeg Error: ");
    assert_eq!(ffmpeg_failure_message("\u{3000}a b\u{a0}"), "FFmpeg Error: a b");
}
