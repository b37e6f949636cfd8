use capture_encoder::error::EncoderError;
use capture_encoder::frame::{PixelLayout, VideoFrame};
use capture_encoder::pipeline::{DrainStage, Step};
use capture_encoder::rate::{FrameRate, TimeBase};
use capture_encoder::video::{H264Encoder, Stage, VideoSettings};
use capture_encoder::bgra_frame;

fn fps(n: i32) -> FrameRate {
    FrameRate::new(n, 1).expect("a positive rate")
}

/// A one-pixel frame whose four bytes are all `tag`, to tell frames apart.
fn frame(tag: u8) -> VideoFrame {
    bgra_frame(&[tag, tag, tag, tag], 1, 1).expect("four bytes are one pixel")
}

fn tag_of(f: &VideoFrame) -> u8 {
    f.plane(0).data()[0]
}

fn write_step(index: usize, rate: i32) -> Step {
    Step::WritePacket { stream_index: index, time_base: TimeBase { num: 1, den: rate } }
}

/// Reports success for a submission and then an empty codec.
fn finish_without_packets(enc: &mut H264Encoder) {
    assert_eq!(enc.advance(true), Step::ReceivePacket);
    assert_eq!(enc.advance(false), Step::Done);
}

/// Carries a call through with every step succeeding and `packets` packets after each
/// submission; returns the tags and timestamps of what was submitted.
fn run_call(enc: &mut H264Encoder, first: Step, packets: usize) -> Vec<(u8, i64, bool)> {
    let mut submitted = Vec::new();
    let mut step = first;
    let mut left = 0;
    loop {
        let ok = match step {
            Step::Done => break,
            Step::SubmitDuplicate { pts } | Step::SubmitFrame { pts } => {
                let f = enc.last_frame().expect("a frame to submit");
                assert_eq!(f.pts(), Some(pts));
                submitted.push((tag_of(f), pts, matches!(step, Step::SubmitDuplicate { .. })));
                left = packets;
                true
            }
            Step::ReceivePacket => {
                if left > 0 {
                    left -= 1;
                    true
                } else {
                    false
                }
            }
            Step::WritePacket { .. } => true,
            other => panic!("unexpected step {:?}", other),
        };
        step = enc.advance(ok);
    }
    submitted
}

#[test]
fn new_session_has_the_fixed_settings() {
    let enc = H264Encoder::new(1280, 720, fps(30), 0, true);
    assert_eq!(
        enc.settings(),
        VideoSettings {
            width: 1280,
            height: 720,
            format: PixelLayout::Yuv420p,
            frame_rate: fps(30),
            time_base: TimeBase { num: 1, den: 30 },
            gop: 30,
            max_bit_rate: 8000,
            global_header: true,
        }
    );
    assert_eq!(enc.stream_index(), 0);
    assert_eq!(enc.fps(), fps(30));
    assert_eq!(enc.start_time(), None);
    assert_eq!(enc.last_emitted_pts(), None);
    assert!(enc.last_frame().is_none());
    assert_eq!(enc.stage(), Stage::Idle);
    assert!(!enc.is_closed());
}

#[test]
fn settings_of_a_fractional_rate() {
    let rate = FrameRate::new(30000, 1001).unwrap();
    let enc = H264Encoder::new(640, 480, rate, 3, false);
    let s = enc.settings();
    assert_eq!(s.gop, 29);
    assert_eq!(s.time_base, TimeBase { num: 1001, den: 30000 });
    assert!(!s.global_header);
    assert_eq!(enc.stream_index(), 3);
}

#[test]
fn output_format_is_planar_420() {
    assert_eq!(H264Encoder::output_format(), PixelLayout::Yuv420p);
}

#[test]
fn encoder_options_in_order() {
    assert_eq!(
        H264Encoder::encoder_options(),
        vec![("preset", "ultrafast"), ("tune", "zerolatency")]
    );
    assert_eq!(H264Encoder::stream_metadata(), vec![("tune", "zerolatency")]);
}

#[test]
fn first_frame_is_submitted_in_slot_zero() {
    let mut enc = H264Encoder::new(1, 1, fps(30), 0, false);
    assert_eq!(enc.encode_frame(frame(7), 5000), Ok(Step::SubmitFrame { pts: 0 }));
    assert_eq!(enc.stage(), Stage::SubmittingFrame);
    assert_eq!(enc.start_time(), Some(5000));
    assert_eq!(enc.last_emitted_pts(), Some(0));
    let kept = enc.last_frame().unwrap();
    assert_eq!(kept.pts(), Some(0));
    assert_eq!(tag_of(kept), 7);
    finish_without_packets(&mut enc);
    assert_eq!(enc.stage(), Stage::Idle);
}

#[test]
fn packets_are_drained_after_a_submission() {
    let mut enc = H264Encoder::new(1, 1, fps(30), 2, false);
    assert_eq!(enc.encode_frame(frame(1), 0), Ok(Step::SubmitFrame { pts: 0 }));
    assert_eq!(enc.advance(true), Step::ReceivePacket);
    assert_eq!(enc.stage(), Stage::DrainingFrame(DrainStage::Receiving));
    assert_eq!(enc.advance(true), write_step(2, 30));
    assert_eq!(enc.stage(), Stage::DrainingFrame(DrainStage::Writing));
    assert_eq!(enc.advance(true), Step::ReceivePacket);
    assert_eq!(enc.advance(true), write_step(2, 30));
    assert_eq!(enc.advance(true), Step::ReceivePacket);
    assert_eq!(enc.advance(false), Step::Done);
    assert_eq!(enc.stage(), Stage::Idle);
}

#[test]
fn write_packet_carries_the_time_base_of_one_frame_slot() {
    let rate = FrameRate::new(30000, 1001).unwrap();
    let mut enc = H264Encoder::new(1, 1, rate, 1, false);
    assert_eq!(enc.encode_frame(frame(1), 0), Ok(Step::SubmitFrame { pts: 0 }));
    assert_eq!(enc.advance(true), Step::ReceivePacket);
    assert_eq!(
        enc.advance(true),
        Step::WritePacket { stream_index: 1, time_base: TimeBase { num: 1001, den: 30000 } }
    );
}

#[test]
fn failed_write_stops_the_drain_but_not_the_session() {
    let mut enc = H264Encoder::new(1, 1, fps(30), 0, false);
    assert_eq!(enc.encode_frame(frame(1), 0), Ok(Step::SubmitFrame { pts: 0 }));
    assert_eq!(enc.advance(true), Step::ReceivePacket);
    assert_eq!(enc.advance(true), write_step(0, 30));
    assert_eq!(enc.advance(false), Step::Done);
    assert_eq!(enc.stage(), Stage::Idle);
    assert!(!enc.is_closed());
    assert_eq!(enc.encode_frame(frame(2), 33), Ok(Step::SubmitFrame { pts: 1 }));
}

#[test]
fn failed_submission_of_the_frame_still_drains_and_keeps_the_frame() {
    let mut enc = H264Encoder::new(1, 1, fps(30), 0, false);
    assert_eq!(enc.encode_frame(frame(9), 0), Ok(Step::SubmitFrame { pts: 0 }));
    assert_eq!(enc.advance(false), Step::ReceivePacket);
    assert_eq!(enc.advance(false), Step::Done);
    assert_eq!(tag_of(enc.last_frame().unwrap()), 9);
    assert_eq!(enc.last_emitted_pts(), Some(0));
}

#[test]
fn exactly_spaced_frames_are_each_submitted_once() {
    let mut enc = H264Encoder::new(1, 1, fps(25), 0, false);
    for k in 0..50u64 {
        let first = enc.encode_frame(frame(k as u8), 40 * k).unwrap();
        assert_eq!(first, Step::SubmitFrame { pts: k as i64 });
        let submitted = run_call(&mut enc, first, 1);
        assert_eq!(submitted, vec![(k as u8, k as i64, false)]);
    }
}

#[test]
fn second_frame_of_a_slot_produces_nothing() {
    let mut enc = H264Encoder::new(1, 1, fps(30), 0, false);
    let first = enc.encode_frame(frame(1), 0).unwrap();
    run_call(&mut enc, first, 1);
    let first = enc.encode_frame(frame(2), 100).unwrap();
    assert_eq!(run_call(&mut enc, first, 1), vec![(1, 1, true), (1, 2, true), (2, 3, false)]);
    // 105 ms maps to slot 3 again.
    assert_eq!(enc.encode_frame(frame(3), 105), Ok(Step::Done));
    assert_eq!(enc.stage(), Stage::Idle);
    assert_eq!(enc.last_emitted_pts(), Some(3));
    let kept = enc.last_frame().unwrap();
    assert_eq!(tag_of(kept), 2);
    assert_eq!(kept.pts(), Some(3));
    assert_eq!(enc.advance(true), Step::Done);
}

#[test]
fn gap_of_twenty_slots_is_bridged_by_five_repeats_of_the_previous_frame() {
    let mut enc = H264Encoder::new(1, 1, fps(10), 0, false);
    let first = enc.encode_frame(frame(1), 0).unwrap();
    assert_eq!(run_call(&mut enc, first, 0), vec![(1, 0, false)]);
    let first = enc.encode_frame(frame(2), 300).unwrap();
    assert_eq!(run_call(&mut enc, first, 0), vec![(1, 1, true), (1, 2, true), (2, 3, false)]);
    let first = enc.encode_frame(frame(3), 2300).unwrap();
    assert_eq!(first, Step::SubmitDuplicate { pts: 4 });
    let submitted = run_call(&mut enc, first, 2);
    assert_eq!(
        submitted,
        vec![
            (2, 4, true),
            (2, 5, true),
            (2, 6, true),
            (2, 7, true),
            (2, 8, true),
            (3, 23, false)
        ]
    );
    assert_eq!(enc.last_emitted_pts(), Some(23));
    assert_eq!(tag_of(enc.last_frame().unwrap()), 3);
}

#[test]
fn gap_of_six_slots_ends_six_beyond_the_last_emitted_slot() {
    let mut enc = H264Encoder::new(1, 1, fps(10), 0, false);
    let first = enc.encode_frame(frame(1), 0).unwrap();
    run_call(&mut enc, first, 0);
    let first = enc.encode_frame(frame(2), 600).unwrap();
    let submitted = run_call(&mut enc, first, 0);
    assert_eq!(submitted.len(), 6);
    assert_eq!(submitted[5], (2, 6, false));
}

#[test]
fn one_second_pause_at_thirty_fps_in_hd() {
    let mut enc = H264Encoder::new(1280, 720, fps(30), 0, false);
    let first = enc.encode_frame(frame(1), 0).unwrap();
    assert_eq!(run_call(&mut enc, first, 1), vec![(1, 0, false)]);
    assert_eq!(enc.last_emitted_pts(), Some(0));
    let first = enc.encode_frame(frame(2), 1000).unwrap();
    let submitted = run_call(&mut enc, first, 1);
    assert_eq!(
        submitted,
        vec![
            (1, 1, true),
            (1, 2, true),
            (1, 3, true),
            (1, 4, true),
            (1, 5, true),
            (2, 30, false)
        ]
    );
    assert_eq!(enc.last_emitted_pts(), Some(30));
}

#[test]
fn steps_of_a_call_with_repeats() {
    let mut enc = H264Encoder::new(1, 1, fps(10), 4, false);
    let first = enc.encode_frame(frame(1), 0).unwrap();
    run_call(&mut enc, first, 0);
    assert_eq!(enc.encode_frame(frame(2), 200), Ok(Step::SubmitDuplicate { pts: 1 }));
    assert_eq!(enc.stage(), Stage::SubmittingDuplicate);
    assert_eq!(tag_of(enc.last_frame().unwrap()), 1);
    assert_eq!(enc.last_frame().unwrap().pts(), Some(1));
    assert_eq!(enc.last_emitted_pts(), Some(2));
    assert_eq!(enc.advance(true), Step::ReceivePacket);
    assert_eq!(enc.stage(), Stage::DrainingDuplicate(DrainStage::Receiving));
    assert_eq!(enc.advance(true), write_step(4, 10));
    assert_eq!(enc.stage(), Stage::DrainingDuplicate(DrainStage::Writing));
    assert_eq!(enc.advance(true), Step::ReceivePacket);
    assert_eq!(enc.advance(false), Step::SubmitFrame { pts: 2 });
    assert_eq!(enc.stage(), Stage::SubmittingFrame);
    assert_eq!(tag_of(enc.last_frame().unwrap()), 2);
    assert_eq!(enc.last_frame().unwrap().pts(), Some(2));
    assert_eq!(enc.advance(true), Step::ReceivePacket);
    assert_eq!(enc.advance(false), Step::Done);
}

#[test]
fn failed_repeat_ends_the_repeats() {
    let mut enc = H264Encoder::new(1, 1, fps(10), 0, false);
    let first = enc.encode_frame(frame(1), 0).unwrap();
    run_call(&mut enc, first, 0);
    assert_eq!(enc.encode_frame(frame(2), 1000), Ok(Step::SubmitDuplicate { pts: 1 }));
    assert_eq!(enc.advance(true), Step::ReceivePacket);
    assert_eq!(enc.advance(false), Step::SubmitDuplicate { pts: 2 });
    // The second repeat cannot be submitted: the new frame is next, in its own slot.
    assert_eq!(enc.advance(false), Step::SubmitFrame { pts: 10 });
    assert_eq!(tag_of(enc.last_frame().unwrap()), 2);
    assert_eq!(enc.advance(true), Step::ReceivePacket);
    assert_eq!(enc.advance(false), Step::Done);
    assert_eq!(enc.last_emitted_pts(), Some(10));
}

#[test]
fn failed_write_after_a_repeat_goes_on_with_the_next_repeat() {
    let mut enc = H264Encoder::new(1, 1, fps(10), 0, false);
    let first = enc.encode_frame(frame(1), 0).unwrap();
    run_call(&mut enc, first, 0);
    assert_eq!(enc.encode_frame(frame(2), 300), Ok(Step::SubmitDuplicate { pts: 1 }));
    assert_eq!(enc.advance(true), Step::ReceivePacket);
    assert_eq!(enc.advance(true), write_step(0, 10));
    assert_eq!(enc.advance(false), Step::SubmitDuplicate { pts: 2 });
    assert_eq!(enc.advance(true), Step::ReceivePacket);
    assert_eq!(enc.advance(false), Step::SubmitFrame { pts: 3 });
}

#[test]
fn frame_during_a_call_is_rejected() {
    let mut enc = H264Encoder::new(1, 1, fps(30), 0, false);
    assert_eq!(enc.encode_frame(frame(1), 0), Ok(Step::SubmitFrame { pts: 0 }));
    assert_eq!(enc.encode_frame(frame(2), 33), Err(EncoderError::CallInProgress));
    assert_eq!(enc.close(), Err(EncoderError::CallInProgress));
    assert_eq!(enc.stage(), Stage::SubmittingFrame);
    assert_eq!(tag_of(enc.last_frame().unwrap()), 1);
    assert_eq!(enc.last_emitted_pts(), Some(0));
    finish_without_packets(&mut enc);
    assert_eq!(enc.encode_frame(frame(2), 33), Ok(Step::SubmitFrame { pts: 1 }));
}

#[test]
fn close_signals_the_end_drains_and_writes_the_trailer() {
    let mut enc = H264Encoder::new(1, 1, fps(30), 0, false);
    let first = enc.encode_frame(frame(1), 0).unwrap();
    run_call(&mut enc, first, 0);
    assert_eq!(enc.close(), Ok(Step::SignalEndOfStream));
    assert_eq!(enc.stage(), Stage::Finishing);
    assert_eq!(enc.advance(true), Step::ReceivePacket);
    assert_eq!(enc.advance(true), write_step(0, 30));
    assert_eq!(enc.advance(true), Step::ReceivePacket);
    assert_eq!(enc.advance(false), Step::WriteTrailer);
    assert_eq!(enc.stage(), Stage::WritingTrailer);
    assert!(!enc.is_closed());
    assert_eq!(enc.advance(true), Step::Done);
    assert!(enc.is_closed());
    assert_eq!(enc.stage(), Stage::Closed);
}

#[test]
fn close_of_a_session_without_frames() {
    let mut enc = H264Encoder::new(1, 1, fps(30), 0, false);
    assert_eq!(enc.close(), Ok(Step::SignalEndOfStream));
    assert_eq!(enc.advance(true), Step::ReceivePacket);
    assert_eq!(enc.advance(false), Step::WriteTrailer);
    assert_eq!(enc.advance(true), Step::Done);
    assert!(enc.is_closed());
}

#[test]
fn closed_session_rejects_frames_and_a_second_close() {
    let mut enc = H264Encoder::new(1, 1, fps(30), 0, false);
    assert_eq!(enc.close(), Ok(Step::SignalEndOfStream));
    assert_eq!(enc.advance(true), Step::ReceivePacket);
    assert_eq!(enc.advance(false), Step::WriteTrailer);
    assert_eq!(enc.advance(true), Step::Done);
    assert_eq!(enc.encode_frame(frame(1), 0), Err(EncoderError::SessionClosed));
    assert_eq!(enc.close(), Err(EncoderError::SessionClosed));
    assert_eq!(enc.advance(true), Step::Done);
    assert_eq!(enc.advance(false), Step::Done);
    assert!(enc.is_closed());
    assert!(enc.last_frame().is_none());
}

#[test]
fn codec_that_refuses_the_end_of_stream_fails_the_close() {
    let mut enc = H264Encoder::new(1, 1, fps(30), 0, false);
    assert_eq!(enc.close(), Ok(Step::SignalEndOfStream));
    assert_eq!(enc.advance(false), Step::Failed(EncoderError::EncoderNegotiationFailed));
    assert!(enc.is_closed());
    assert_eq!(enc.encode_frame(frame(1), 0), Err(EncoderError::SessionClosed));
}

#[test]
fn trailer_that_cannot_be_written_fails_the_close() {
    let mut enc = H264Encoder::new(1, 1, fps(30), 0, false);
    assert_eq!(enc.close(), Ok(Step::SignalEndOfStream));
    assert_eq!(enc.advance(true), Step::ReceivePacket);
    assert_eq!(enc.advance(false), Step::WriteTrailer);
    assert_eq!(enc.advance(false), Step::Failed(EncoderError::ContainerOpenFailed));
    assert!(enc.is_closed());
}

#[test]
fn failed_write_while_closing_still_writes_the_trailer() {
    let mut enc = H264Encoder::new(1, 1, fps(30), 0, false);
    assert_eq!(enc.close(), Ok(Step::SignalEndOfStream));
    assert_eq!(enc.advance(true), Step::ReceivePacket);
    assert_eq!(enc.advance(true), write_step(0, 30));
    assert_eq!(enc.advance(false), Step::WriteTrailer);
    assert_eq!(enc.advance(true), Step::Done);
}

#[test]
fn idle_session_has_nothing_to_advance() {
    let mut enc = H264Encoder::new(1, 1, fps(30), 0, false);
    assert_eq!(enc.advance(true), Step::Done);
    assert_eq!(enc.advance(false), Step::Done);
    assert_eq!(enc.stage(), Stage::Idle);
}

#[test]
fn submitted_timestamps_grow_strictly_under_erratic_arrivals_and_failures() {
    let mut enc = H264Encoder::new(1, 1, fps(30), 0, false);
    let times: [u64; 14] = [50, 60, 55, 400, 401, 380, 1000, 5000, 5001, 5033, 4000, 5100, 9000, 9010];
    let mut last: i64 = -1;
    let mut seed: u32 = 12345;
    for (k, t) in times.iter().enumerate() {
        let mut step = enc.encode_frame(frame(k as u8), *t).unwrap();
        let mut repeats = 0;
        let mut guard = 0;
        while step != Step::Done {
            if let Step::SubmitDuplicate { pts } | Step::SubmitFrame { pts } = step {
                assert!(pts > last);
                last = pts;
                if matches!(step, Step::SubmitDuplicate { .. }) {
                    repeats += 1;
                }
            }
            seed = seed.wrapping_mul(1103515245).wrapping_add(12345);
            guard += 1;
            let ok = guard < 100 && (seed >> 16) % 3 != 0;
            step = enc.advance(ok);
        }
        assert!(repeats <= 5);
    }
    assert_eq!(enc.start_time(), Some(50));
}
