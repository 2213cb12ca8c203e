use pioneer_converter::conversion::{
    after_decode, after_read, plan_conversion, DecodeOutcome, LoopStep, PendingSamples, ReadOutcome,
};
use pioneer_converter::profile::get_presets;

#[test]
fn plan_defaults_to_cd_rate_and_stereo() {
    let p = get_presets();
    let plan = plan_conversion(None, None, &p[2]);
    assert_eq!(plan.source_hz, 44100);
    assert_eq!(plan.target_hz, 44100);
    assert_eq!(plan.channels, 2);
    assert_eq!(plan.bit_depth, 16);
    assert!(!plan.needs_resampling);
}

#[test]
fn plan_resamples_when_rates_differ() {
    let p = get_presets();
    let plan = plan_conversion(Some(44100), Some(0b11), &p[0]);
    assert!(plan.needs_resampling);
    assert_eq!(plan.target_hz, 96000);
    assert_eq!(plan.bit_depth, 24);
    let same = plan_conversion(Some(96000), Some(0b11), &p[0]);
    assert!(!same.needs_resampling);
}

#[test]
fn plan_counts_the_known_channel_positions() {
    let p = get_presets();
    assert_eq!(plan_conversion(Some(48000), Some(0b111111), &p[1]).channels, 6);
    assert_eq!(plan_conversion(Some(48000), Some(0x0000_0004), &p[1]).channels, 1);
    assert_eq!(plan_conversion(Some(48000), Some(0xFC00_0000), &p[1]).channels, 0);
    assert_eq!(plan_conversion(Some(48000), Some(0xFFFF_FFFF), &p[1]).channels, 26);
}

#[test]
fn wav_header_fields_come_from_the_plan() {
    let p = get_presets();
    let plan = plan_conversion(Some(48000), Some(0b11), &p[1]);
    assert_eq!(plan.wav_channels(), 2);
    assert_eq!(plan.wav_bits_per_sample(), 24);
    assert_eq!(plan.initial_output_len(), 8192);
}

#[test]
fn output_buffer_grows_but_never_shrinks() {
    let p = get_presets();
    let plan = plan_conversion(Some(48000), Some(0b11), &p[1]);
    assert_eq!(plan.output_len_for(8192, 5000), 10000);
    assert_eq!(plan.output_len_for(8192, 100), 8192);
    assert_eq!(plan.samples_to_write(100, 8192), 200);
    assert_eq!(plan.samples_to_write(5000, 8192), 8192);
}

#[test]
fn pending_samples_hand_out_whole_chunks() {
    let mut q = PendingSamples::new(2);
    assert_eq!(q.buffered(), 0);
    assert_eq!(q.final_chunk_frames(), None);
    q.add(2047);
    assert_eq!(q.frames(), 1023);
    assert_eq!(q.next_chunk(1024), None);
    q.add(1);
    assert_eq!(q.next_chunk(1024), Some(2048));
    q.add(3000);
    assert_eq!(q.next_chunk(1024), Some(2048));
    q.consume(1024);
    assert_eq!(q.buffered(), 3000);
    assert_eq!(q.channels(), 2);
    q.consume(1000);
    assert_eq!(q.buffered(), 1000);
    assert_eq!(q.next_chunk(1024), None);
    assert_eq!(q.final_chunk_frames(), Some(500));
}

#[test]
fn odd_sample_counts_leave_a_partial_frame() {
    let mut q = PendingSamples::new(3);
    q.add(10);
    assert_eq!(q.frames(), 3);
    assert_eq!(q.final_chunk_frames(), Some(3));
    assert_eq!(q.next_chunk(3), Some(9));
    assert_eq!(q.next_chunk(4), None);
}

#[test]
fn packets_of_other_tracks_are_skipped() {
    assert_eq!(after_read(ReadOutcome::Packet { track_id: 1 }, 1), LoopStep::Decode);
    assert_eq!(after_read(ReadOutcome::Packet { track_id: 2 }, 1), LoopStep::Skip);
    assert_eq!(after_read(ReadOutcome::EndOfStream, 1), LoopStep::Finish);
    assert_eq!(after_read(ReadOutcome::Failed, 1), LoopStep::Fail);
}

#[test]
fn corrupt_packets_are_skipped_other_errors_stop() {
    assert_eq!(after_decode(DecodeOutcome::Audio), LoopStep::Write);
    assert_eq!(after_decode(DecodeOutcome::Corrupt), LoopStep::Skip);
    assert_eq!(after_decode(DecodeOutcome::Failed), LoopStep::Fail);
}

#[test]
fn foreign_packets_do_not_change_the_steps() {
    let run = |reads: &[ReadOutcome]| -> Vec<LoopStep> {
        let mut steps = Vec::new();
        for r in reads {
            match after_read(*r, 1) {
                LoopStep::Skip => continue,
                s @ (LoopStep::Finish | LoopStep::Fail) => {
                    steps.push(s);
                    break;
                }
                s => steps.push(s),
            }
        }
        steps
    };
    let plain = [ReadOutcome::Packet { track_id: 1 }, ReadOutcome::Packet { track_id: 1 }, ReadOutcome::EndOfStream];
    let mixed = [
        ReadOutcome::Packet { track_id: 2 },
        ReadOutcome::Packet { track_id: 1 },
        ReadOutcome::Packet { track_id: 7 },
        ReadOutcome::Packet { track_id: 1 },
        ReadOutcome::Packet { track_id: 2 },
        ReadOutcome::EndOfStream,
    ];
    assert_eq!(run(&plain), run(&mixed));
    assert_eq!(run(&plain), vec![LoopStep::Decode, LoopStep::Decode, LoopStep::Finish]);
}
