use accessible_screen_capture::audio::subtract_pauses;
use accessible_screen_capture::mux::{mux_outcome, MuxRun};
use accessible_screen_capture::output_settings::{
    clamp_speech_rate, clamp_speech_volume, default_rate, default_true, default_volume,
    set_show_notifications, set_speak_outside_app, set_speech_rate, set_speech_voice,
    set_speech_volume, OutputSettings,
};
use accessible_screen_capture::recording::{
    active_duration_ns, conclude_recording, final_plan, start_failed, FinalPlan, RecordingControl,
    RecordingTiming, StartFailure,
};

#[test]
fn default_settings() {
    let s = OutputSettings::default();
    assert!(!s.speak_outside_app);
    assert!(s.show_notifications);
    assert_eq!(s.speech_voice_id, None);
    assert_eq!(s.speech_rate, 2);
    assert_eq!(s.speech_volume, 100);
    assert!(default_true());
    assert_eq!(default_rate(), 2);
    assert_eq!(default_volume(), 100);
}

#[test]
fn rate_is_held_to_its_range() {
    assert_eq!(clamp_speech_rate(-20), -10);
    assert_eq!(clamp_speech_rate(15), 10);
    assert_eq!(clamp_speech_rate(3), 3);
    assert_eq!(clamp_speech_rate(-10), -10);
    assert_eq!(clamp_speech_rate(clamp_speech_rate(i32::MAX)), 10);
}

#[test]
fn volume_is_held_to_its_range() {
    assert_eq!(clamp_speech_volume(150), 100);
    assert_eq!(clamp_speech_volume(40), 40);
    assert_eq!(clamp_speech_volume(0), 0);
}

#[test]
fn each_setter_changes_only_its_field() {
    let mut s = OutputSettings::default();
    assert!(set_speak_outside_app(&mut s, true));
    assert!(s.speak_outside_app);
    assert!(!set_show_notifications(&mut s, false));
    assert!(!s.show_notifications);
    set_speech_voice(&mut s, Some("David".to_string()));
    assert_eq!(s.speech_voice_id, Some("David".to_string()));
    assert_eq!(set_speech_rate(&mut s, 12), 10);
    assert_eq!(s.speech_rate, 10);
    assert_eq!(set_speech_volume(&mut s, 300), 100);
    assert_eq!(set_speech_volume(&mut s, 55), 55);
    assert_eq!(s.speech_volume, 55);
    assert!(s.speak_outside_app);
    assert!(!s.show_notifications);
    assert_eq!(s.speech_voice_id, Some("David".to_string()));
}

#[test]
fn recording_lifecycle() {
    let mut control = RecordingControl::new();
    assert!(!control.is_recording());
    assert!(control.start_refusal().is_none());
    let started = control.record_started(0);
    assert!(started.started);
    assert_eq!(started.start_error, None);
    assert!(control.is_recording());

    let refused = control.start_refusal().unwrap();
    assert!(!refused.started);
    assert_eq!(refused.start_error, Some("A native recording is already in progress.".to_string()));
    let again = control.record_started(5);
    assert!(!again.started);

    assert_eq!(control.pause(200), Ok(true));
    assert_eq!(control.pause(250), Ok(false));
    assert_eq!(control.resume(300), Ok(true));
    assert_eq!(control.resume(350), Ok(false));
    let timing = control.stop(1000).unwrap();
    assert_eq!(timing.started_at, 0);
    assert_eq!(timing.pauses, vec![(200, 300)]);
    assert_eq!(timing.paused_since, None);
    assert!(!control.is_recording());
}

#[test]
fn stopping_while_paused_closes_the_pause() {
    let mut control = RecordingControl::default();
    control.record_started(10);
    assert_eq!(control.pause(40), Ok(true));
    let timing = control.stop(90).unwrap();
    assert_eq!(timing.pauses, vec![(40, 90)]);
}

#[test]
fn no_recording_to_control() {
    let mut control = RecordingControl::new();
    assert_eq!(control.pause(1).unwrap_err(), "No active native recording to pause.");
    assert_eq!(control.resume(1).unwrap_err(), "No active native recording to resume.");
    assert_eq!(control.stop(1).err(), Some("No active native recording to stop.".to_string()));
}

#[test]
fn active_duration_leaves_out_pauses() {
    let timing = RecordingTiming { started_at: 0, pauses: vec![(200, 300), (400, 450)], paused_since: None };
    assert_eq!(active_duration_ns(&timing, 1000), 850);
    let late = RecordingTiming { started_at: 100, pauses: Vec::new(), paused_since: None };
    assert_eq!(active_duration_ns(&late, 50), 0);
}

#[test]
fn pauses_recorded_by_control_cut_audio_in_order() {
    let mut control = RecordingControl::new();
    control.record_started(0);
    control.pause(100).unwrap();
    control.resume(200).unwrap();
    control.pause(300).unwrap();
    let timing = control.stop(400).unwrap();
    let kept = subtract_pauses(50, 350, &timing.pauses);
    assert_eq!(kept, vec![(50, 100), (200, 300)]);
}

#[test]
fn start_failures_are_worded() {
    let r = start_failed(StartFailure::ConfigDirectory("denied".to_string()));
    assert!(!r.started);
    assert_eq!(r.start_error, Some("Could not resolve the app config directory: denied".to_string()));
    assert_eq!(
        start_failed(StartFailure::OutputDirectory("full".to_string())).start_error,
        Some("Could not create output directory: full".to_string())
    );
    assert_eq!(
        start_failed(StartFailure::NoPrimaryMonitor("none".to_string())).start_error,
        Some("No primary monitor available: none".to_string())
    );
    assert_eq!(
        start_failed(StartFailure::CaptureStart("busy".to_string())).start_error,
        Some("Could not start native capture: busy".to_string())
    );
    assert_eq!(
        start_failed(StartFailure::FirstFrameTimeout).start_error,
        Some("No video frame arrived within 10 seconds of starting capture - initialization may have failed.".to_string())
    );
}

#[test]
fn final_plan_choices() {
    assert!(matches!(final_plan(false, true, true), FinalPlan::NoVideo));
    assert!(matches!(final_plan(true, false, false), FinalPlan::VideoOnly));
    assert!(matches!(final_plan(true, true, false), FinalPlan::Mux));
    assert!(matches!(final_plan(true, false, true), FinalPlan::Mux));
}

#[test]
fn concluded_recordings() {
    let none = conclude_recording(FinalPlan::NoVideo, "src.mp4".to_string(), true, true, None);
    assert_eq!(none.final_muxed_path, None);
    let video = conclude_recording(FinalPlan::VideoOnly, "src.mp4".to_string(), false, false, None);
    assert_eq!(video.final_muxed_path, Some("src.mp4".to_string()));

    let ok = mux_outcome(
        "aac".to_string(),
        "final.mp4".to_string(),
        MuxRun::Exited { exit_code: Some(0), success: true, output_exists: true, final_file_size_bytes: Some(1), stderr: Vec::new() },
    );
    let muxed = conclude_recording(FinalPlan::Mux, "src.mp4".to_string(), true, false, Some(&ok));
    assert_eq!(muxed.final_muxed_path, Some("final.mp4".to_string()));
    assert!(muxed.system_audio_included);
    assert!(!muxed.mic_included);

    let bad = mux_outcome("aac".to_string(), "final.mp4".to_string(), MuxRun::LaunchFailed("x".to_string()));
    let failed = conclude_recording(FinalPlan::Mux, "src.mp4".to_string(), true, true, Some(&bad));
    assert_eq!(failed.final_muxed_path, None);
    assert!(!failed.system_audio_included && !failed.mic_included);
}
