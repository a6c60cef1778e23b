use accessible_screen_capture::audio::{
    block_align_bytes, chunk_totals, kept_window, list_native_audio_applications, packet_chunk, retain_frames,
    subtract_pauses, wav_header, AudioChunk, AudioSessionEntry,
};
use std::time::Duration;

fn entry(pid: u32, display: Option<&str>, process: Option<&str>) -> AudioSessionEntry {
    AudioSessionEntry {
        process_id: pid,
        display_name: display.map(|s| s.to_string()),
        process_name: process.map(|s| s.to_string()),
    }
}

#[test]
fn pauses_are_cut_out_of_the_window() {
    assert_eq!(subtract_pauses(0, 100, &vec![(20, 30), (50, 60)]), vec![(0, 20), (30, 50), (60, 100)]);
}

#[test]
fn pause_covering_the_window_leaves_nothing() {
    assert_eq!(subtract_pauses(10, 20, &vec![(0, 30)]), Vec::<(i64, i64)>::new());
}

#[test]
fn pause_at_the_edges() {
    assert_eq!(subtract_pauses(0, 100, &vec![(0, 10), (90, 100)]), vec![(10, 90)]);
    assert_eq!(subtract_pauses(0, 100, &vec![(100, 120)]), vec![(0, 100)]);
    assert_eq!(subtract_pauses(0, 100, &Vec::new()), vec![(0, 100)]);
}

#[test]
fn applications_are_listed_once_per_process_in_name_order() {
    let sessions = vec![
        entry(40, Some("Zoom"), None),
        entry(0, Some("System Sounds"), None),
        entry(12, Some("  "), Some("chrome.exe")),
        entry(40, Some("Zoom second session"), None),
        entry(7, None, None),
        entry(3, Some("chrome.exe"), None),
    ];
    let apps = list_native_audio_applications(&sessions);
    let listed: Vec<(u32, String)> = apps.iter().map(|a| (a.process_id, a.name.clone())).collect();
    assert_eq!(
        listed,
        vec![
            (3, "chrome.exe".to_string()),
            (12, "chrome.exe".to_string()),
            (7, "Process 7".to_string()),
            (40, "Zoom".to_string()),
        ]
    );
}

#[test]
fn application_order_ignores_case() {
    let sessions = vec![entry(1, Some("beta"), None), entry(2, Some("Alpha"), None), entry(3, Some("alpha"), None)];
    let names: Vec<String> = list_native_audio_applications(&sessions).into_iter().map(|a| a.name).collect();
    assert_eq!(names, vec!["Alpha".to_string(), "alpha".to_string(), "beta".to_string()]);
}

#[test]
fn block_alignment() {
    assert_eq!(block_align_bytes(2, 32), 8);
    assert_eq!(block_align_bytes(1, 16), 2);
    assert_eq!(block_align_bytes(2, 4), 0);
}

#[test]
fn frames_are_retained_by_byte_range() {
    let pcm: Vec<u8> = (0u8..16).collect();
    let mut kept = Vec::new();
    retain_frames(&mut kept, &pcm, 4, 4, 1, 3);
    assert_eq!(kept, (4u8..12).collect::<Vec<u8>>());
    retain_frames(&mut kept, &pcm, 4, 4, 3, 9);
    assert_eq!(kept.len(), 12);
    retain_frames(&mut kept, &pcm, 4, 4, 2, 2);
    assert_eq!(kept.len(), 12);
}

#[test]
fn wav_header_for_sixteen_bit_stereo() {
    let header = wav_header(8, 48000, 2, 16);
    let expected: Vec<u8> = vec![
        b'R', b'I', b'F', b'F', 44, 0, 0, 0, b'W', b'A', b'V', b'E', b'f', b'm', b't', b' ', 16, 0,
        0, 0, 1, 0, 2, 0, 0x80, 0xBB, 0, 0, 0x00, 0xEE, 0x02, 0, 4, 0, 16, 0, b'd', b'a', b't',
        b'a', 8, 0, 0, 0,
    ];
    assert_eq!(header, expected);
}

#[test]
fn wav_header_marks_float_samples() {
    let header = wav_header(0, 44100, 1, 32);
    assert_eq!(header.len(), 44);
    assert_eq!(&header[20..22], &[3, 0]);
    assert_eq!(&header[4..8], &[36, 0, 0, 0]);
}

#[test]
fn silent_packets_are_zeroed() {
    let chunk = packet_chunk(vec![1, 2, 3, 4], 1, Duration::from_millis(10), true);
    assert_eq!(chunk.pcm, vec![0, 0, 0, 0]);
    assert!(chunk.wasapi_silent);
    assert!(!chunk.has_signal);
    assert_eq!(chunk.frames, 1);
    assert_eq!(chunk.elapsed, Duration::from_millis(10));
}

#[test]
fn signal_needs_a_non_zero_byte() {
    let quiet = packet_chunk(vec![0, 0, 0, 0], 1, Duration::ZERO, false);
    assert!(!quiet.has_signal);
    assert_eq!(quiet.pcm, vec![0, 0, 0, 0]);
    let loud = packet_chunk(vec![0, 0, 7, 0], 1, Duration::ZERO, false);
    assert!(loud.has_signal);
    assert_eq!(loud.pcm, vec![0, 0, 7, 0]);
}

#[test]
fn chunk_totals_count_buffers_and_frames() {
    let chunks: Vec<AudioChunk> = vec![
        packet_chunk(vec![0; 8], 2, Duration::ZERO, false),
        packet_chunk(vec![0; 12], 3, Duration::ZERO, false),
    ];
    assert_eq!(chunk_totals(&chunks), (2, 5));
    assert_eq!(chunk_totals(&Vec::new()), (0, 0));
}

#[test]
fn chunks_are_cut_to_the_recording_window() {
    assert_eq!(kept_window(-50, 50, 0, 1000), Some((0, 50)));
    assert_eq!(kept_window(900, 1100, 0, 1000), Some((900, 1000)));
    assert_eq!(kept_window(100, 200, 0, 1000), Some((100, 200)));
    assert_eq!(kept_window(-100, 0, 0, 1000), None);
    assert_eq!(kept_window(1000, 1100, 0, 1000), None);
    assert_eq!(kept_window(300, 300, 0, 1000), None);
}
