use security_camera_viewer::recorder::{
    EncodingKind, FrameAction, RecorderConfig, RecordingController, StartAction, StopReason,
    Trigger, ASSUMED_FPS, MAX_RECORDING_BYTES,
};
use std::time::Instant;

fn config(encoding: EncodingKind) -> RecorderConfig {
    RecorderConfig {
        motion_recording_enabled: true,
        encoding,
        post_record_seconds: 2,
        assumed_fps: 3,
        max_bytes: 100,
    }
}

fn is_write(action: &FrameAction) -> bool {
    matches!(action, FrameAction::Write)
}

#[test]
fn default_limits() {
    assert_eq!(ASSUMED_FPS, 11);
    assert_eq!(MAX_RECORDING_BYTES, 1_000_000_000);
    let config = RecordingController::config_for(true, EncodingKind::Piped, 30);
    assert_eq!(config.assumed_fps, 11);
    assert_eq!(config.max_bytes, 1_000_000_000);
    assert_eq!(config.post_record_seconds, 30);
    assert_eq!(config.encoding, EncodingKind::Piped);
    assert!(config.motion_recording_enabled);
    assert_eq!(RecordingController::new(config).initial_countdown(), 330);
}

#[test]
fn idle_controller_discards_frames() {
    let mut controller = RecordingController::new(config(EncodingKind::Raw));
    assert!(!controller.is_recording());
    assert!(matches!(controller.submit_frame(&[1, 2, 3], true), FrameAction::Discard));
    assert!(!controller.is_recording());
    assert_eq!(controller.progress(), (0, 0));
    assert!(controller.stop(StopReason::Requested).is_none());
}

#[test]
fn manual_session_counts_frames_and_bytes() {
    let mut controller = RecordingController::new(config(EncodingKind::Raw));
    let started = Instant::now();
    let action = controller.start(Trigger::Manual, "out.mjpeg".to_string(), started, (5, 500));
    assert_eq!(action, StartAction::Open { encoding: EncodingKind::Raw, flush_prebuffer: false });
    assert!(controller.is_recording());
    assert_eq!(controller.progress(), (0, 0));
    assert!(is_write(&controller.submit_frame(&[0; 10], false)));
    assert!(is_write(&controller.submit_frame(&[0; 20], true)));
    assert_eq!(controller.progress(), (2, 30));
    let summary = controller.stop(StopReason::Requested).unwrap();
    assert_eq!(summary.trigger, Trigger::Manual);
    assert_eq!(summary.reason, StopReason::Requested);
    assert_eq!(summary.info.frame_count, 2);
    assert_eq!(summary.info.total_bytes, 30);
    assert_eq!(summary.info.output_path, "out.mjpeg");
    assert_eq!(summary.info.encoding, EncodingKind::Raw);
    assert_eq!(summary.info.start_time, started);
    assert!(!controller.is_recording());
}

#[test]
fn starting_while_recording_changes_nothing() {
    let mut controller = RecordingController::new(config(EncodingKind::Raw));
    controller.start(Trigger::Manual, "first".to_string(), Instant::now(), (0, 0));
    controller.submit_frame(&[0; 10], false);
    for trigger in [Trigger::Manual, Trigger::Motion] {
        let action = controller.start(trigger, "second".to_string(), Instant::now(), (9, 90));
        assert_eq!(action, StartAction::AlreadyRecording);
        assert_eq!(controller.progress(), (1, 10));
    }
    let summary = controller.stop(StopReason::Requested).unwrap();
    assert_eq!(summary.info.output_path, "first");
    assert_eq!(summary.trigger, Trigger::Manual);
}

#[test]
fn session_closes_itself_above_the_ceiling() {
    let mut controller = RecordingController::new(config(EncodingKind::Raw));
    controller.start(Trigger::Manual, "out".to_string(), Instant::now(), (0, 0));
    assert!(is_write(&controller.submit_frame(&[0; 60], false)));
    // Exactly at the ceiling the session goes on.
    assert!(is_write(&controller.submit_frame(&[0; 40], false)));
    assert_eq!(controller.progress(), (2, 100));
    match controller.submit_frame(&[0; 7], false) {
        FrameAction::WriteAndClose(summary) => {
            assert_eq!(summary.reason, StopReason::SizeLimit);
            assert_eq!(summary.info.total_bytes, 107);
            assert_eq!(summary.info.frame_count, 3);
            assert_eq!(summary.trigger, Trigger::Manual);
        }
        other => panic!("session went on: {:?}", other),
    }
    assert!(!controller.is_recording());
    assert!(controller.stop(StopReason::Requested).is_none());
}

#[test]
fn motion_session_opens_with_the_prebuffer_when_raw() {
    let mut controller = RecordingController::new(RecorderConfig {
        max_bytes: 10_000,
        ..config(EncodingKind::Raw)
    });
    let action = controller.start(Trigger::Motion, "motion".to_string(), Instant::now(), (5, 500));
    assert_eq!(action, StartAction::Open { encoding: EncodingKind::Raw, flush_prebuffer: true });
    assert_eq!(controller.progress(), (5, 500));
    assert_eq!(controller.countdown(), 6);
    assert!(is_write(&controller.submit_frame(&[0; 10], true)));
    assert_eq!(controller.progress(), (6, 510));
}

#[test]
fn motion_session_starts_at_the_trigger_when_piped() {
    let mut controller = RecordingController::new(config(EncodingKind::Piped));
    let action = controller.start(Trigger::Motion, "motion".to_string(), Instant::now(), (5, 500));
    assert_eq!(action, StartAction::Open { encoding: EncodingKind::Piped, flush_prebuffer: false });
    assert_eq!(controller.progress(), (0, 0));
}

#[test]
fn motion_does_not_start_a_session_when_disabled() {
    let mut controller = RecordingController::new(RecorderConfig {
        motion_recording_enabled: false,
        ..config(EncodingKind::Raw)
    });
    let action = controller.start(Trigger::Motion, "motion".to_string(), Instant::now(), (0, 0));
    assert_eq!(action, StartAction::MotionDisabled);
    assert!(!controller.is_recording());
    let action = controller.start(Trigger::Manual, "manual".to_string(), Instant::now(), (0, 0));
    assert_eq!(action, StartAction::Open { encoding: EncodingKind::Raw, flush_prebuffer: false });
}

#[test]
fn motion_session_runs_out_after_the_countdown() {
    let mut controller = RecordingController::new(config(EncodingKind::Piped));
    controller.start(Trigger::Motion, "motion".to_string(), Instant::now(), (0, 0));
    assert_eq!(controller.countdown(), 6);
    assert!(is_write(&controller.submit_frame(&[0; 1], true)));
    assert_eq!(controller.countdown(), 6);
    for left in (1..6).rev() {
        assert!(is_write(&controller.submit_frame(&[0; 1], false)));
        assert_eq!(controller.countdown(), left);
    }
    match controller.submit_frame(&[0; 1], false) {
        FrameAction::WriteAndClose(summary) => {
            assert_eq!(summary.reason, StopReason::MotionEnded);
            assert_eq!(summary.trigger, Trigger::Motion);
            assert_eq!(summary.info.frame_count, 7);
            assert_eq!(summary.info.total_bytes, 7);
        }
        other => panic!("session went on: {:?}", other),
    }
    assert!(!controller.is_recording());
}

#[test]
fn renewed_motion_sets_the_countdown_anew() {
    let mut controller = RecordingController::new(config(EncodingKind::Piped));
    controller.start(Trigger::Motion, "motion".to_string(), Instant::now(), (0, 0));
    for _ in 0..5 {
        assert!(is_write(&controller.submit_frame(&[0; 1], false)));
    }
    assert_eq!(controller.countdown(), 1);
    assert!(is_write(&controller.submit_frame(&[0; 1], true)));
    assert_eq!(controller.countdown(), 6);
    for _ in 0..5 {
        assert!(is_write(&controller.submit_frame(&[0; 1], false)));
    }
    assert!(matches!(controller.submit_frame(&[0; 1], false), FrameAction::WriteAndClose(_)));
}

#[test]
fn motion_in_a_manual_session_changes_nothing() {
    let mut controller = RecordingController::new(config(EncodingKind::Raw));
    controller.start(Trigger::Manual, "out".to_string(), Instant::now(), (0, 0));
    for _ in 0..20 {
        assert!(is_write(&controller.submit_frame(&[0; 1], false)));
    }
    assert!(controller.is_recording());
    assert_eq!(controller.countdown(), 0);
}

#[test]
fn size_limit_comes_before_the_countdown() {
    let mut controller = RecordingController::new(RecorderConfig {
        post_record_seconds: 0,
        ..config(EncodingKind::Piped)
    });
    controller.start(Trigger::Motion, "motion".to_string(), Instant::now(), (0, 0));
    match controller.submit_frame(&[0; 101], false) {
        FrameAction::WriteAndClose(summary) => {
            assert_eq!(summary.reason, StopReason::SizeLimit);
            assert_eq!(summary.info.total_bytes, 101);
        }
        other => panic!("session went on: {:?}", other),
    }
}

#[test]
fn stop_by_transport_and_aborted_start() {
    let mut controller = RecordingController::new(config(EncodingKind::Raw));
    controller.start(Trigger::Motion, "motion".to_string(), Instant::now(), (2, 20));
    let summary = controller.stop(StopReason::TransportStopped).unwrap();
    assert_eq!(summary.reason, StopReason::TransportStopped);
    assert_eq!(summary.trigger, Trigger::Motion);
    assert_eq!(summary.info.total_bytes, 20);
    controller.start(Trigger::Manual, "out".to_string(), Instant::now(), (0, 0));
    controller.abort_start();
    assert!(!controller.is_recording());
    assert!(controller.stop(StopReason::Requested).is_none());
}
