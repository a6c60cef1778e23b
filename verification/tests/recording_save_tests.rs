use accessible_screen_capture::payload::{decode_capture_data, decode_chunk, screenshot_payload};
use accessible_screen_capture::recording_save::{
    edit_args, edit_failed, edit_succeeded, file_backed_save_result, finish_verdict, import_canceled,
    import_failed, import_plan, import_succeeded, import_transcode_args, parse_edit_operation,
    render_args, render_failed, EditOperation, RecordingSaveState, SaveSession,
};

fn target(path: &str, name: &str) -> Option<(String, Option<String>)> {
    Some((path.to_string(), Some(name.to_string())))
}

#[test]
fn session_ids_start_at_one_and_increase() {
    let mut state = RecordingSaveState::new();
    let first = state.begin_recording_save(target("C:\\a.webm", "a.webm"));
    let second = state.begin_recording_save(target("C:\\b.webm", "b.webm"));
    assert_eq!(first.session_id, Some(1));
    assert!(!first.canceled);
    assert_eq!(second.session_id, Some(2));
}

#[test]
fn canceled_dialog_opens_no_session() {
    let mut state = RecordingSaveState::default();
    let result = state.begin_recording_save(None);
    assert_eq!(result.session_id, None);
    assert!(result.canceled);
    let next = state.begin_recording_save(target("C:\\a.webm", "a.webm"));
    assert_eq!(next.session_id, Some(1));
}

#[test]
fn chunk_for_open_session_decodes() {
    let mut state = RecordingSaveState::new();
    let id = state.begin_recording_save(target("a.webm", "a.webm")).session_id.unwrap();
    assert_eq!(state.prepare_chunk(id, "aGVsbG8=").unwrap(), b"hello".to_vec());
}

#[test]
fn chunk_for_unknown_session_is_refused() {
    let state = RecordingSaveState::new();
    assert_eq!(
        state.prepare_chunk(7, "aGVsbG8=").unwrap_err(),
        "Unknown save session (it may have already finished or been aborted)."
    );
}

#[test]
fn undecodable_chunk_is_refused_before_session_lookup() {
    let state = RecordingSaveState::new();
    assert_eq!(
        state.prepare_chunk(7, "!!!!").unwrap_err(),
        "Could not decode chunk: Invalid symbol 33, offset 0."
    );
}

#[test]
fn written_bytes_accumulate() {
    let mut state = RecordingSaveState::new();
    let id = state.begin_recording_save(target("a.webm", "a.webm")).session_id.unwrap();
    assert_eq!(state.record_written(id, 5), Ok(5));
    assert_eq!(state.record_written(id, 3), Ok(8));
    let session = state.take_session(id).unwrap();
    assert_eq!(session.bytes_written, 8);
    assert_eq!(session.path, "a.webm");
}

#[test]
fn recording_bytes_for_unknown_session_is_refused() {
    let mut state = RecordingSaveState::new();
    assert_eq!(
        state.record_written(3, 5).unwrap_err(),
        "Unknown save session (it may have already finished or been aborted)."
    );
}

#[test]
fn finished_session_is_unknown_afterwards() {
    let mut state = RecordingSaveState::new();
    let id = state.begin_recording_save(target("a.webm", "a.webm")).session_id.unwrap();
    assert!(state.take_session(id).is_ok());
    assert_eq!(state.take_session(id).err(), Some("Unknown save session.".to_string()));
    assert_eq!(
        state.prepare_chunk(id, "aGVsbG8=").unwrap_err(),
        "Unknown save session (it may have already finished or been aborted)."
    );
}

#[test]
fn aborted_session_is_unknown_afterwards() {
    let mut state = RecordingSaveState::new();
    let id = state.begin_recording_save(target("a.webm", "a.webm")).session_id.unwrap();
    let other = state.begin_recording_save(target("b.webm", "b.webm")).session_id.unwrap();
    let aborted = state.abort_session(id).unwrap();
    assert_eq!(aborted.path, "a.webm");
    assert!(state.abort_session(id).is_none());
    assert!(state.prepare_chunk(other, "aGVsbG8=").is_ok());
}

#[test]
fn finish_succeeds_when_sizes_agree() {
    let session = SaveSession { path: "C:\\v.webm".to_string(), file_name: Some("v.webm".to_string()), bytes_written: 10 };
    let result = finish_verdict(&session, 10, 10).unwrap();
    assert!(result.ok);
    assert_eq!(result.final_size, 10);
    assert_eq!(result.saved_file_name, Some("v.webm".to_string()));
}

#[test]
fn finish_reports_size_mismatch() {
    let session = SaveSession { path: "v.webm".to_string(), file_name: None, bytes_written: 8 };
    assert_eq!(
        finish_verdict(&session, 10, 8).err(),
        Some("File size mismatch: wrote 8 bytes, expected 10, file on disk is 8 bytes.".to_string())
    );
    let session = SaveSession { path: "v.webm".to_string(), file_name: None, bytes_written: 10 };
    assert_eq!(
        finish_verdict(&session, 10, 12).err(),
        Some("File size mismatch: wrote 10 bytes, expected 10, file on disk is 12 bytes.".to_string())
    );
}

#[test]
fn file_backed_save_reports_cancel_and_copy() {
    let canceled = file_backed_save_result(None);
    assert!(!canceled.ok && canceled.canceled);
    assert_eq!(canceled.saved_file_name, None);
    assert_eq!(canceled.saved_file_path, None);
    let saved = file_backed_save_result(target("D:\\clips\\c.mp4", "c.mp4"));
    assert!(saved.ok && !saved.canceled);
    assert_eq!(saved.saved_file_name, Some("c.mp4".to_string()));
    assert_eq!(saved.saved_file_path, Some("D:\\clips\\c.mp4".to_string()));
}

#[test]
fn edit_operations_are_read_by_name() {
    assert!(parse_edit_operation("trim_start") == Ok(EditOperation::TrimStart));
    assert!(parse_edit_operation("trim_end") == Ok(EditOperation::TrimEnd));
    assert!(parse_edit_operation("cut_middle") == Ok(EditOperation::CutMiddle));
    assert_eq!(
        parse_edit_operation("rotate").err(),
        Some("Unknown recording edit operation: rotate".to_string())
    );
}

#[test]
fn edit_results_carry_path_or_bounded_error() {
    let ok = edit_succeeded("edited-1.mp4".to_string());
    assert!(ok.ok);
    assert_eq!(ok.edited_path, Some("edited-1.mp4".to_string()));
    assert_eq!(ok.error, None);

    let long = vec![b'x'; 2500];
    let failed = edit_failed(&long);
    assert!(!failed.ok);
    assert_eq!(failed.edited_path, None);
    assert_eq!(failed.error, Some(format!("{}... [truncated]", "x".repeat(2000))));

    let short = edit_failed(b"bad filter");
    assert_eq!(short.error, Some("bad filter".to_string()));
}

#[test]
fn render_failure_keeps_first_two_thousand_characters() {
    let long = vec![b'y'; 2500];
    let failed = render_failed(&long);
    assert!(!failed.ok);
    assert_eq!(failed.error, Some("y".repeat(2000)));
}

#[test]
fn invalid_utf8_in_stderr_is_replaced() {
    let failed = edit_failed(&[b'a', 0xff, b'b']);
    assert_eq!(failed.error, Some("a\u{FFFD}b".to_string()));
}

#[test]
fn import_plan_copies_mp4_in_any_case() {
    let plan = import_plan(Some("clip"), Some("MP4"));
    assert_eq!(plan.suggested_name, "clip.mp4");
    assert!(plan.copy_directly);
    assert!(import_plan(Some("clip"), Some("mp4")).copy_directly);
    assert!(import_plan(Some("clip"), Some("Mp4")).copy_directly);
}

#[test]
fn import_plan_reencodes_other_containers() {
    let plan = import_plan(Some("holiday"), Some("mov"));
    assert_eq!(plan.suggested_name, "holiday.mp4");
    assert!(!plan.copy_directly);
    assert!(!import_plan(Some("a"), Some("mp4v")).copy_directly);
    assert!(!import_plan(Some("a"), None).copy_directly);
}

#[test]
fn import_plan_without_stem_uses_default_name() {
    assert_eq!(import_plan(None, Some("webm")).suggested_name, "Imported Video.mp4");
}

#[test]
fn import_transcode_arguments() {
    let args = import_transcode_args("C:\\in.mov", "C:\\out.mp4");
    let expected: Vec<String> = [
        "-y", "-i", "C:\\in.mov", "-map", "0:v:0", "-map", "0:a?", "-c:v", "mpeg4", "-q:v", "5",
        "-c:a", "aac", "-movflags", "+faststart", "C:\\out.mp4",
    ]
    .iter()
    .map(|s| s.to_string())
    .collect();
    assert_eq!(args, expected);
}

#[test]
fn import_results() {
    let canceled = import_canceled();
    assert!(!canceled.ok && canceled.canceled);
    assert_eq!(canceled.error, None);

    let failed = import_failed(&vec![b'z'; 1300]);
    assert!(!failed.ok && !failed.canceled);
    assert_eq!(failed.error, Some(format!("{}... [truncated]", "z".repeat(1200))));

    let plan = import_plan(Some("clip"), Some("avi"));
    let done = import_succeeded("imported-5.mp4".to_string(), plan);
    assert!(done.ok && !done.canceled);
    assert_eq!(done.imported_path, Some("imported-5.mp4".to_string()));
    assert_eq!(done.suggested_name, Some("clip.mp4".to_string()));
}

#[test]
fn capture_data_decodes() {
    assert_eq!(decode_capture_data("aGVsbG8=").unwrap(), b"hello".to_vec());
}

#[test]
fn empty_capture_data_is_refused() {
    assert_eq!(decode_capture_data("").unwrap_err(), "No capture data was received to save.");
}

#[test]
fn undecodable_capture_data_is_refused() {
    assert_eq!(
        decode_capture_data("!!!!").unwrap_err(),
        "Could not decode capture data: Invalid symbol 33, offset 0."
    );
}

#[test]
fn chunk_decoding_alone() {
    assert_eq!(decode_chunk("AAEC").unwrap(), vec![0u8, 1, 2]);
    assert!(decode_chunk("A").unwrap_err().starts_with("Could not decode chunk: "));
}

#[test]
fn screenshot_payload_is_padded_base64() {
    assert_eq!(screenshot_payload(b"hello"), "aGVsbG8=");
    assert_eq!(screenshot_payload(&[0u8, 1, 2]), "AAEC");
    assert_eq!(screenshot_payload(b""), "");
}

#[test]
fn render_arguments_with_and_without_audio() {
    let with_audio: Vec<String> = [
        "-y", "-i", "in.mp4", "-filter_complex", "G", "-map", "[vout]", "-map", "[aout]", "-c:v", "mpeg4",
        "-q:v", "5", "-c:a", "aac", "-movflags", "+faststart", "out.mp4",
    ]
    .iter()
    .map(|s| s.to_string())
    .collect();
    assert_eq!(render_args("in.mp4", "out.mp4", "G", true), with_audio);
    let video_only: Vec<String> = [
        "-y", "-i", "in.mp4", "-filter_complex", "G", "-map", "[vout]", "-c:v", "mpeg4", "-q:v", "5",
        "-movflags", "+faststart", "out.mp4",
    ]
    .iter()
    .map(|s| s.to_string())
    .collect();
    assert_eq!(render_args("in.mp4", "out.mp4", "G", false), video_only);
}

#[test]
fn edit_arguments() {
    let expected: Vec<String> = [
        "-y", "-i", "in.mp4", "-vf", "V", "-af", "A", "-map", "0:v:0", "-map", "0:a?", "-c:v", "mpeg4",
        "-q:v", "5", "-c:a", "aac", "-movflags", "+faststart", "edited.mp4",
    ]
    .iter()
    .map(|s| s.to_string())
    .collect();
    assert_eq!(edit_args("in.mp4", "V", "A", "edited.mp4"), expected);
}
