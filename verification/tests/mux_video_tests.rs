use accessible_screen_capture::mux::{
    debug_exit_code_text, gain_factor_text, mux_outcome, recording_audio_codec, recording_mux_args,
    single_source_mux_args, synced_audio_filter, synced_microphone_filter, truncated_stderr, MuxRun,
};
use accessible_screen_capture::video::truncated_stderr as video_truncated_stderr;
use accessible_screen_capture::video::{
    collect_stderr, frame_from_buffer, new_shared_frame, raw_video_args, video_encode_outcome,
    VideoClock,
};

fn strings(items: &[&str]) -> Vec<String> {
    items.iter().map(|s| s.to_string()).collect()
}

#[test]
fn short_stderr_is_kept_whole() {
    assert_eq!(truncated_stderr(b"error: no such file"), "error: no such file");
}

#[test]
fn long_stderr_is_cut_with_its_length() {
    let long = vec![b'e'; 2500];
    assert_eq!(
        truncated_stderr(&long),
        format!("{}... [truncated, 2500 total characters]", "e".repeat(2000))
    );
    let exact = vec![b'e'; 2000];
    assert_eq!(truncated_stderr(&exact), "e".repeat(2000));
}

#[test]
fn stderr_with_invalid_utf8_is_decoded_lossily() {
    assert_eq!(truncated_stderr(&[0xff, b'!']), "\u{FFFD}!");
}

#[test]
fn exit_codes_are_written_as_debug_does() {
    assert_eq!(debug_exit_code_text(Some(1)), "Some(1)");
    assert_eq!(debug_exit_code_text(Some(-1073741515)), "Some(-1073741515)");
    assert_eq!(debug_exit_code_text(None), "None");
}

#[test]
fn missing_sidecar_is_reported() {
    let r = mux_outcome("aac".to_string(), "out.mp4".to_string(), MuxRun::SidecarMissing("not bundled".to_string()));
    assert!(r.mux_attempted);
    assert!(!r.sidecar_invocation_succeeded);
    assert!(!r.muxing_success);
    assert_eq!(r.ffmpeg_exit_code, None);
    assert_eq!(r.final_muxed_path, None);
    assert_eq!(r.muxing_method, "ffmpeg sidecar");
    assert_eq!(r.video_stream_handling, "copy (no re-encode)");
    assert_eq!(r.audio_codec_used, "aac");
    assert_eq!(r.muxing_error, Some("Could not locate the ffmpeg sidecar binary: not bundled".to_string()));
}

#[test]
fn failed_launch_is_reported() {
    let r = mux_outcome("aac".to_string(), "out.mp4".to_string(), MuxRun::LaunchFailed("access denied".to_string()));
    assert!(!r.sidecar_invocation_succeeded);
    assert_eq!(r.muxing_error, Some("Could not run the ffmpeg sidecar: access denied".to_string()));
}

#[test]
fn non_zero_exit_is_reported_with_stderr() {
    let run = MuxRun::Exited {
        exit_code: Some(1),
        success: false,
        output_exists: true,
        final_file_size_bytes: Some(99),
        stderr: b"Invalid data".to_vec(),
    };
    let r = mux_outcome("aac".to_string(), "out.mp4".to_string(), run);
    assert!(r.sidecar_invocation_succeeded);
    assert!(!r.muxing_success);
    assert_eq!(r.ffmpeg_exit_code, Some(1));
    assert_eq!(r.final_muxed_path, None);
    assert_eq!(r.final_file_size_bytes, None);
    assert_eq!(
        r.muxing_error,
        Some("ffmpeg exited with a non-zero status: Some(1). stderr: Invalid data".to_string())
    );
}

#[test]
fn clean_exit_without_output_is_a_failure() {
    let run = MuxRun::Exited {
        exit_code: Some(0),
        success: true,
        output_exists: false,
        final_file_size_bytes: None,
        stderr: Vec::new(),
    };
    let r = mux_outcome("aac".to_string(), "out.mp4".to_string(), run);
    assert!(!r.muxing_success);
    assert_eq!(
        r.muxing_error,
        Some("ffmpeg reported success but the expected output file does not exist.".to_string())
    );
}

#[test]
fn successful_mux_names_output() {
    let run = MuxRun::Exited {
        exit_code: Some(0),
        success: true,
        output_exists: true,
        final_file_size_bytes: Some(4096),
        stderr: b"noise".to_vec(),
    };
    let r = mux_outcome("none".to_string(), "C:\\final.mp4".to_string(), run);
    assert!(r.muxing_success);
    assert_eq!(r.final_muxed_path, Some("C:\\final.mp4".to_string()));
    assert_eq!(r.final_file_size_bytes, Some(4096));
    assert_eq!(r.muxing_error, None);
    assert_eq!(r.audio_codec_used, "none");
}

#[test]
fn single_source_mux_arguments() {
    assert_eq!(
        single_source_mux_args("v.mp4", "a.wav", "o.mp4"),
        strings(&[
            "-y", "-i", "v.mp4", "-i", "a.wav", "-map", "0:v:0", "-map", "1:a:0", "-c:v", "copy",
            "-c:a", "aac", "-shortest", "-movflags", "+faststart", "o.mp4",
        ])
    );
}

#[test]
fn raw_video_arguments() {
    assert_eq!(
        raw_video_args(1920, 1080, 30, "src.mp4"),
        strings(&[
            "-y", "-f", "rawvideo", "-pixel_format", "rgba", "-video_size", "1920x1080",
            "-framerate", "30", "-i", "-", "-c:v", "mpeg4", "-pix_fmt", "yuv420p", "-movflags",
            "+faststart", "src.mp4",
        ])
    );
}

#[test]
fn video_stderr_truncation() {
    assert_eq!(video_truncated_stderr("fine"), "fine");
    let long = "q".repeat(2001);
    assert_eq!(
        video_truncated_stderr(&long),
        format!("{}... [truncated, 2001 total characters]", "q".repeat(2000))
    );
}

#[test]
fn stderr_collection_stops_at_four_thousand_bytes() {
    let mut collected = "a".repeat(3999);
    collect_stderr(&mut collected, b"bc");
    assert_eq!(collected.len(), 4001);
    collect_stderr(&mut collected, b"more");
    assert_eq!(collected.len(), 4001);
    let mut empty = String::new();
    collect_stderr(&mut empty, &[0xfe]);
    assert_eq!(empty, "\u{FFFD}");
}

#[test]
fn clock_counts_one_frame_per_tick() {
    let mut clock = VideoClock::new();
    clock.frame_written();
    clock.frame_written();
    assert_eq!(clock.tick, 2);
    assert_eq!(clock.frames_produced, 2);
    assert!(!clock.failed());
}

#[test]
fn clock_write_failure_names_the_tick() {
    let mut clock = VideoClock::new();
    clock.frame_written();
    clock.frame_write_failed("broken pipe");
    assert!(clock.failed());
    assert_eq!(clock.write_error, Some("Could not write frame 1 to ffmpeg stdin: broken pipe".to_string()));
    assert_eq!(clock.frames_produced, 1);
}

#[test]
fn clock_missing_frame_names_the_tick() {
    let mut clock = VideoClock::new();
    clock.frame_missing();
    assert_eq!(
        clock.write_error,
        Some("No owned frame available at tick 0 - clock started before any frame was captured.".to_string())
    );
}

#[test]
fn encode_outcome_prefers_the_write_error() {
    assert_eq!(video_encode_outcome(None, true, 3, "x"), Ok(()));
    assert_eq!(
        video_encode_outcome(Some("Could not write frame 2 to ffmpeg stdin: gone".to_string()), true, 2, "x"),
        Err("Could not write frame 2 to ffmpeg stdin: gone".to_string())
    );
    assert_eq!(
        video_encode_outcome(None, false, 3, "no space"),
        Err("ffmpeg did not produce the expected output file. stderr: no space".to_string())
    );
    assert_eq!(
        video_encode_outcome(None, true, 0, ""),
        Err("ffmpeg did not produce the expected output file. stderr: ".to_string())
    );
}

#[test]
fn frame_rows_are_packed_tightly() {
    // Two rows of one RGBA pixel each, with a pitch of 8 bytes.
    let raw = [1u8, 2, 3, 4, 9, 9, 9, 9, 5, 6, 7, 8, 9, 9, 9, 9];
    let frame = frame_from_buffer(&raw, 8, 1, 2).unwrap();
    assert_eq!(frame.width, 1);
    assert_eq!(frame.height, 2);
    assert_eq!(frame.pixels, vec![1, 2, 3, 4, 5, 6, 7, 8]);
}

#[test]
fn frame_with_short_pitch_is_refused() {
    let raw = [0u8; 16];
    assert_eq!(
        frame_from_buffer(&raw, 4, 2, 2).err(),
        Some("Frame buffer size mismatch: row_pitch=4, expected>=8".to_string())
    );
}

#[test]
fn shared_frame_starts_empty() {
    let shared = new_shared_frame();
    assert!(shared.lock().unwrap().is_none());
}

#[test]
fn recording_mux_without_audio_drops_audio() {
    let args = recording_mux_args("v.mp4", None, None, "out.mp4", "1.000000000", "12.500000000", "SF", "MF");
    assert_eq!(
        args,
        strings(&[
            "-y", "-itsscale", "1.000000000", "-i", "v.mp4", "-map", "0:v:0", "-c:v", "copy", "-an", "-t",
            "12.500000000", "-movflags", "+faststart", "out.mp4",
        ])
    );
}

#[test]
fn recording_mux_with_system_audio_only() {
    let args = recording_mux_args("v.mp4", Some("sys.wav"), None, "out.mp4", "0.980000000", "3.000000000", "SF", "MF");
    assert_eq!(
        args,
        strings(&[
            "-y", "-itsscale", "0.980000000", "-i", "v.mp4", "-i", "sys.wav", "-filter_complex", "SF", "-map",
            "0:v:0", "-map", "[aout]", "-c:v", "copy", "-c:a", "aac", "-t", "3.000000000", "-movflags",
            "+faststart", "out.mp4",
        ])
    );
}

#[test]
fn recording_mux_with_microphone_only() {
    let args = recording_mux_args("v.mp4", None, Some("mic.wav"), "out.mp4", "1.000000000", "3.000000000", "SF", "MF");
    assert_eq!(
        args,
        strings(&[
            "-y", "-itsscale", "1.000000000", "-i", "v.mp4", "-i", "mic.wav", "-filter_complex", "MF", "-map",
            "0:v:0", "-map", "[aout]", "-c:v", "copy", "-c:a", "aac", "-t", "3.000000000", "-movflags",
            "+faststart", "out.mp4",
        ])
    );
}

#[test]
fn recording_mux_mixes_two_sources() {
    let args = recording_mux_args("v.mp4", Some("sys.wav"), Some("mic.wav"), "out.mp4", "1.000000000", "3.000000000", "SF", "MF");
    assert_eq!(
        args,
        strings(&[
            "-y", "-itsscale", "1.000000000", "-i", "v.mp4", "-i", "sys.wav", "-i", "mic.wav", "-filter_complex",
            "SF;MF;[sys][mic]amix=inputs=2:duration=longest:dropout_transition=0,atrim=duration=3.000000000[aout]",
            "-map", "0:v:0", "-map", "[aout]", "-c:v", "copy", "-c:a", "aac", "-t", "3.000000000", "-movflags",
            "+faststart", "out.mp4",
        ])
    );
}

#[test]
fn synced_filters_name_input_tempo_and_label() {
    assert_eq!(
        synced_audio_filter(1, "sys", "1.010000000", "3.000000000"),
        "[1:a]asetpts=PTS-STARTPTS,atempo=1.010000000,aresample=async=1000:first_pts=0,apad,atrim=duration=3.000000000[sys]"
    );
    assert_eq!(
        synced_microphone_filter(2, "mic", "0.990000000", "3.000000000", 150),
        "[2:a]asetpts=PTS-STARTPTS,atempo=0.990000000,aresample=async=1000:first_pts=0,volume=1.500,alimiter=limit=0.95:attack=5:release=50,apad,atrim=duration=3.000000000[mic]"
    );
}

#[test]
fn microphone_gain_is_clamped_and_written_with_three_decimals() {
    assert_eq!(gain_factor_text(150), "1.500");
    assert_eq!(gain_factor_text(105), "1.050");
    assert_eq!(gain_factor_text(50), "1.000");
    assert_eq!(gain_factor_text(100), "1.000");
    assert_eq!(gain_factor_text(200), "2.000");
    assert_eq!(gain_factor_text(350), "2.000");
    assert_eq!(gain_factor_text(123), format!("{:.3}", 123f64 / 100.0));
}

#[test]
fn recording_audio_codec_describes_each_layout() {
    assert_eq!(recording_audio_codec(false, false, "1", "1", 150, "3.0", "1"), "none");
    assert_eq!(
        recording_audio_codec(true, false, "1.010000000", "1.000000000", 150, "3.000000", "1.000000000"),
        "aac (system synchronized to master; tempo 1.010000000)"
    );
    assert_eq!(
        recording_audio_codec(false, true, "1.000000000", "0.990000000", 150, "3.000000", "1.000000000"),
        "aac (microphone synchronized to master; tempo 0.990000000; microphone gain 150 percent; limiter 0.95)"
    );
    assert_eq!(
        recording_audio_codec(true, true, "1.010000000", "0.990000000", 150, "3.000000", "0.980000000"),
        "aac (system + microphone synchronized to 3.000000s master; system tempo 1.010000000; microphone tempo 0.990000000; microphone gain 150 percent; limiter 0.95; video timestamp scale 0.980000000)"
    );
}
