use vstd::prelude::*;
use crate::text::{
    decimal, opt_view, padded_decimal, push_decimal, push_owned, push_padded_decimal,
    push_signed_decimal, push_str, signed_decimal, spec_utf8_lossy, string_views,
    truncate_with_count, truncated_with_count, utf8_lossy,
};

verus! {

/// The most characters of FFmpeg's stderr kept in a report.
pub const MAX_STDERR_CHARS: usize = 2000;

/// What a muxing attempt reports. Every attempt that starts yields one,
/// with `mux_attempted` set.
pub struct MuxResult {
    pub mux_attempted: bool,
    pub sidecar_invocation_succeeded: bool,
    pub ffmpeg_exit_code: Option<i32>,
    pub final_muxed_path: Option<String>,
    pub muxing_method: String,
    pub video_stream_handling: String,
    pub audio_codec_used: String,
    pub muxing_success: bool,
    pub final_file_size_bytes: Option<u64>,
    pub muxing_error: Option<String>,
}

/// How running the FFmpeg sidecar went.
pub enum MuxRun {
    /// The sidecar binary could not be located; the text of that error.
    SidecarMissing(String),
    /// The process could not be run; the text of that error.
    LaunchFailed(String),
    /// The process ran and exited.
    Exited {
        exit_code: Option<i32>,
        success: bool,
        output_exists: bool,
        final_file_size_bytes: Option<u64>,
        stderr: Vec<u8>,
    },
}

/// `Some(<code>)` or `None`, as `{:?}` writes an exit code.
pub open spec fn debug_exit_code(code: Option<i32>) -> Seq<char> {
    match code {
        Some(c) => "Some("@ + signed_decimal(c as int) + ")"@,
        None => "None"@,
    }
}

/// FFmpeg's stderr as text, bounded to 2000 characters with a note of its
/// full length.
pub open spec fn spec_truncated_stderr(stderr: Seq<u8>) -> Seq<char> {
    truncated_with_count(spec_utf8_lossy(stderr), MAX_STDERR_CHARS as nat)
}

/// Decodes FFmpeg's stderr (lossily) and bounds its length.
pub fn truncated_stderr(stderr: &[u8]) -> (r: String)
    ensures
        r@ == spec_truncated_stderr(stderr@),
{
    let text = utf8_lossy(stderr);
    truncate_with_count(text.as_str(), MAX_STDERR_CHARS)
}

/// Writes an exit code as `{:?}` does.
pub fn debug_exit_code_text(code: Option<i32>) -> (r: String)
    ensures
        r@ == debug_exit_code(code),
{
    let mut s = String::new();
    match code {
        Some(c) => {
            push_str(&mut s, "Some(");
            push_signed_decimal(&mut s, c as i64);
            push_str(&mut s, ")");
        },
        None => push_str(&mut s, "None"),
    }
    s
}

/// The error a muxing attempt reports, if any, for how the run went.
pub open spec fn mux_error(run: MuxRun) -> Option<Seq<char>> {
    match run {
        MuxRun::SidecarMissing(e) => Some("Could not locate the ffmpeg sidecar binary: "@ + e@),
        MuxRun::LaunchFailed(e) => Some("Could not run the ffmpeg sidecar: "@ + e@),
        MuxRun::Exited { exit_code, success, output_exists, stderr, .. } => if success
            && output_exists {
            None
        } else if !success {
            Some(
                "ffmpeg exited with a non-zero status: "@ + debug_exit_code(exit_code)
                    + ". stderr: "@ + spec_truncated_stderr(stderr@),
            )
        } else {
            Some("ffmpeg reported success but the expected output file does not exist."@)
        },
    }
}

/// Whether a run counts as a successful mux: a clean exit and an output
/// file that exists afterwards, not the exit code alone.
pub open spec fn mux_succeeded(run: MuxRun) -> bool {
    match run {
        MuxRun::Exited { success, output_exists, .. } => success && output_exists,
        _ => false,
    }
}

/// Builds the report of a muxing attempt from how the sidecar run went.
/// `audio_codec_used` describes the audio handling and `output_display` is
/// the output path as displayed.
pub fn mux_outcome(audio_codec_used: String, output_display: String, run: MuxRun) -> (r: MuxResult)
    ensures
        r.mux_attempted,
        r.muxing_method@ == "ffmpeg sidecar"@,
        r.video_stream_handling@ == "copy (no re-encode)"@,
        r.audio_codec_used == audio_codec_used,
        r.sidecar_invocation_succeeded == (run is Exited),
        r.ffmpeg_exit_code == (match run {
            MuxRun::Exited { exit_code, .. } => exit_code,
            _ => None,
        }),
        r.muxing_success == mux_succeeded(run),
        r.final_muxed_path == (if mux_succeeded(run) {
            Some(output_display)
        } else {
            None
        }),
        r.final_file_size_bytes == (match run {
            MuxRun::Exited { final_file_size_bytes, .. } => if mux_succeeded(run) {
                final_file_size_bytes
            } else {
                None
            },
            _ => None,
        }),
        match (r.muxing_error, mux_error(run)) {
            (Some(a), Some(b)) => a@ == b,
            (None, None) => true,
            _ => false,
        },
{
    let muxing_method = String::from_str("ffmpeg sidecar");
    let video_stream_handling = String::from_str("copy (no re-encode)");
    match run {
        MuxRun::SidecarMissing(e) => {
            let mut m = String::new();
            push_str(&mut m, "Could not locate the ffmpeg sidecar binary: ");
            m.append(e.as_str());
            MuxResult {
                mux_attempted: true,
                sidecar_invocation_succeeded: false,
                ffmpeg_exit_code: None,
                final_muxed_path: None,
                muxing_method,
                video_stream_handling,
                audio_codec_used,
                muxing_success: false,
                final_file_size_bytes: None,
                muxing_error: Some(m),
            }
        },
        MuxRun::LaunchFailed(e) => {
            let mut m = String::new();
            push_str(&mut m, "Could not run the ffmpeg sidecar: ");
            m.append(e.as_str());
            MuxResult {
                mux_attempted: true,
                sidecar_invocation_succeeded: false,
                ffmpeg_exit_code: None,
                final_muxed_path: None,
                muxing_method,
                video_stream_handling,
                audio_codec_used,
                muxing_success: false,
                final_file_size_bytes: None,
                muxing_error: Some(m),
            }
        },
        MuxRun::Exited { exit_code, success, output_exists, final_file_size_bytes, stderr } => {
            if success && output_exists {
                MuxResult {
                    mux_attempted: true,
                    sidecar_invocation_succeeded: true,
                    ffmpeg_exit_code: exit_code,
                    final_muxed_path: Some(output_display),
                    muxing_method,
                    video_stream_handling,
                    audio_codec_used,
                    muxing_success: true,
                    final_file_size_bytes,
                    muxing_error: None,
                }
            } else {
                let mut m = String::new();
                if !success {
                    push_str(&mut m, "ffmpeg exited with a non-zero status: ");
                    let code = debug_exit_code_text(exit_code);
                    m.append(code.as_str());
                    push_str(&mut m, ". stderr: ");
                    let t = truncated_stderr(stderr.as_slice());
                    m.append(t.as_str());
                } else {
                    push_str(
                        &mut m,
                        "ffmpeg reported success but the expected output file does not exist.",
                    );
                }
                MuxResult {
                    mux_attempted: true,
                    sidecar_invocation_succeeded: true,
                    ffmpeg_exit_code: exit_code,
                    final_muxed_path: None,
                    muxing_method,
                    video_stream_handling,
                    audio_codec_used,
                    muxing_success: false,
                    final_file_size_bytes: None,
                    muxing_error: Some(m),
                }
            }
        },
    }
}

/// The FFmpeg arguments that mux one video and one audio file: video from
/// the first input copied as it is, audio from the second encoded to AAC.
pub open spec fn spec_single_source_mux_args(
    video: Seq<char>,
    audio: Seq<char>,
    output: Seq<char>,
) -> Seq<Seq<char>> {
    seq![
        "-y"@,
        "-i"@,
        video,
        "-i"@,
        audio,
        "-map"@,
        "0:v:0"@,
        "-map"@,
        "1:a:0"@,
        "-c:v"@,
        "copy"@,
        "-c:a"@,
        "aac"@,
        "-shortest"@,
        "-movflags"@,
        "+faststart"@,
        output,
    ]
}

/// Builds the FFmpeg arguments that mux one video and one audio file.
pub fn single_source_mux_args(video: &str, audio: &str, output: &str) -> (r: Vec<String>)
    ensures
        string_views(r@) == spec_single_source_mux_args(video@, audio@, output@),
{
    let mut v: Vec<String> = Vec::new();
    push_owned(&mut v, "-y");
    push_owned(&mut v, "-i");
    push_owned(&mut v, video);
    push_owned(&mut v, "-i");
    push_owned(&mut v, audio);
    push_owned(&mut v, "-map");
    push_owned(&mut v, "0:v:0");
    push_owned(&mut v, "-map");
    push_owned(&mut v, "1:a:0");
    push_owned(&mut v, "-c:v");
    push_owned(&mut v, "copy");
    push_owned(&mut v, "-c:a");
    push_owned(&mut v, "aac");
    push_owned(&mut v, "-shortest");
    push_owned(&mut v, "-movflags");
    push_owned(&mut v, "+faststart");
    push_owned(&mut v, output);
    assert(string_views(v@) =~= spec_single_source_mux_args(video@, audio@, output@));
    v
}

/// The lowest and highest microphone gain, in percent.
pub const MIN_MICROPHONE_GAIN_PERCENT: u32 = 100;
pub const MAX_MICROPHONE_GAIN_PERCENT: u32 = 200;

/// A microphone gain clamped to the range the mix accepts.
pub open spec fn clamped_gain_percent(percent: u32) -> nat {
    if percent < MIN_MICROPHONE_GAIN_PERCENT {
        MIN_MICROPHONE_GAIN_PERCENT as nat
    } else if percent > MAX_MICROPHONE_GAIN_PERCENT {
        MAX_MICROPHONE_GAIN_PERCENT as nat
    } else {
        percent as nat
    }
}

/// The clamped gain as a factor with three decimals (`150` gives `1.500`).
pub open spec fn spec_gain_factor_text(percent: u32) -> Seq<char> {
    let c = clamped_gain_percent(percent);
    decimal(c / 100) + "."@ + padded_decimal(c % 100, 2) + "0"@
}

/// Writes a microphone gain percentage as the factor FFmpeg's `volume`
/// filter takes, clamped to 100-200 percent.
pub fn gain_factor_text(percent: u32) -> (r: String)
    ensures
        r@ == spec_gain_factor_text(percent),
{
    let c: u32 = if percent < MIN_MICROPHONE_GAIN_PERCENT {
        MIN_MICROPHONE_GAIN_PERCENT
    } else if percent > MAX_MICROPHONE_GAIN_PERCENT {
        MAX_MICROPHONE_GAIN_PERCENT
    } else {
        percent
    };
    let mut s = String::new();
    push_decimal(&mut s, (c / 100) as u128);
    push_str(&mut s, ".");
    push_padded_decimal(&mut s, c % 100, 2);
    push_str(&mut s, "0");
    s
}

/// The filter that synchronizes audio input `input_index` to the master
/// duration: timestamps restarted, tempo stretched by `tempo`, gaps
/// resampled, padded with silence and trimmed to `target_duration`, under
/// the label `label`.
pub open spec fn spec_synced_audio_filter(
    input_index: nat,
    label: Seq<char>,
    tempo: Seq<char>,
    target_duration: Seq<char>,
) -> Seq<char> {
    "["@ + decimal(input_index) + ":a]"@ + "asetpts=PTS-STARTPTS,atempo="@ + tempo
        + ",aresample=async=1000:first_pts=0,apad,atrim=duration="@ + target_duration + "["@
        + label + "]"@
}

/// The microphone's filter: as for any synchronized source, with the
/// clamped gain and a limiter at 0.95 applied before padding.
pub open spec fn spec_synced_microphone_filter(
    input_index: nat,
    label: Seq<char>,
    tempo: Seq<char>,
    target_duration: Seq<char>,
    microphone_gain_percent: u32,
) -> Seq<char> {
    "["@ + decimal(input_index) + ":a]"@ + "asetpts=PTS-STARTPTS,atempo="@ + tempo
        + ",aresample=async=1000:first_pts=0,volume="@ + spec_gain_factor_text(
        microphone_gain_percent,
    ) + ",alimiter=limit=0.95:attack=5:release=50,apad,atrim=duration="@ + target_duration
        + "["@ + label + "]"@
}

/// `filter` reads audio input `input_index`: it opens with `[<n>:a]`.
pub open spec fn reads_input(filter: Seq<char>, input_index: nat) -> bool {
    let head = "["@ + decimal(input_index) + ":a]"@;
    head.len() <= filter.len() && filter.subrange(0, head.len() as int) == head
}

/// `filter` hands its output on under `label`: it closes with `[<label>]`.
pub open spec fn labelled(filter: Seq<char>, label: Seq<char>) -> bool {
    let tail = "["@ + label + "]"@;
    tail.len() <= filter.len() && filter.subrange(filter.len() - tail.len(), filter.len() as int)
        == tail
}

/// Each synchronizing filter, the system one and the microphone one alike,
/// reads the input it is given and hands its output on under the label it
/// is given, whatever the tempo, duration and gain.
pub proof fn law_filters_read_their_input(
    input_index: nat,
    label: Seq<char>,
    tempo: Seq<char>,
    target_duration: Seq<char>,
    microphone_gain_percent: u32,
)
    ensures
        reads_input(spec_synced_audio_filter(input_index, label, tempo, target_duration), input_index),
        reads_input(
            spec_synced_microphone_filter(
                input_index,
                label,
                tempo,
                target_duration,
                microphone_gain_percent,
            ),
            input_index,
        ),
        labelled(spec_synced_audio_filter(input_index, label, tempo, target_duration), label),
        labelled(
            spec_synced_microphone_filter(
                input_index,
                label,
                tempo,
                target_duration,
                microphone_gain_percent,
            ),
            label,
        ),
{
    let head = "["@ + decimal(input_index) + ":a]"@;
    let tail = "["@ + label + "]"@;
    let sys = spec_synced_audio_filter(input_index, label, tempo, target_duration);
    let mic = spec_synced_microphone_filter(
        input_index,
        label,
        tempo,
        target_duration,
        microphone_gain_percent,
    );
    let sys_mid = "asetpts=PTS-STARTPTS,atempo="@ + tempo
        + ",aresample=async=1000:first_pts=0,apad,atrim=duration="@ + target_duration;
    let mic_mid = "asetpts=PTS-STARTPTS,atempo="@ + tempo
        + ",aresample=async=1000:first_pts=0,volume="@ + spec_gain_factor_text(
        microphone_gain_percent,
    ) + ",alimiter=limit=0.95:attack=5:release=50,apad,atrim=duration="@ + target_duration;
    assert(sys =~= head + sys_mid + tail);
    assert(mic =~= head + mic_mid + tail);
    assert((head + sys_mid + tail).subrange(0, head.len() as int) =~= head);
    assert((head + mic_mid + tail).subrange(0, head.len() as int) =~= head);
    assert((head + sys_mid + tail).subrange(sys.len() - tail.len(), sys.len() as int) =~= tail);
    assert((head + mic_mid + tail).subrange(mic.len() - tail.len(), mic.len() as int) =~= tail);
}

/// Builds the filter that synchronizes one audio input to the master
/// duration; `tempo` and `target_duration` are the numbers as text.
pub fn synced_audio_filter(input_index: u64, label: &str, tempo: &str, target_duration: &str) -> (r:
    String)
    ensures
        r@ == spec_synced_audio_filter(input_index as nat, label@, tempo@, target_duration@),
{
    let mut s = String::new();
    push_str(&mut s, "[");
    push_decimal(&mut s, input_index as u128);
    push_str(&mut s, ":a]");
    push_str(&mut s, "asetpts=PTS-STARTPTS,atempo=");
    s.append(tempo);
    push_str(&mut s, ",aresample=async=1000:first_pts=0,apad,atrim=duration=");
    s.append(target_duration);
    push_str(&mut s, "[");
    s.append(label);
    push_str(&mut s, "]");
    s
}

/// Builds the microphone's synchronizing filter, with its gain and limiter.
pub fn synced_microphone_filter(
    input_index: u64,
    label: &str,
    tempo: &str,
    target_duration: &str,
    microphone_gain_percent: u32,
) -> (r: String)
    ensures
        r@ == spec_synced_microphone_filter(
            input_index as nat,
            label@,
            tempo@,
            target_duration@,
            microphone_gain_percent,
        ),
{
    let mut s = String::new();
    push_str(&mut s, "[");
    push_decimal(&mut s, input_index as u128);
    push_str(&mut s, ":a]");
    push_str(&mut s, "asetpts=PTS-STARTPTS,atempo=");
    s.append(tempo);
    push_str(&mut s, ",aresample=async=1000:first_pts=0,volume=");
    let g = gain_factor_text(microphone_gain_percent);
    s.append(g.as_str());
    push_str(&mut s, ",alimiter=limit=0.95:attack=5:release=50,apad,atrim=duration=");
    s.append(target_duration);
    push_str(&mut s, "[");
    s.append(label);
    push_str(&mut s, "]");
    s
}

/// The filter graph that mixes the system (`[sys]`) and microphone
/// (`[mic]`) streams into `[aout]`, trimmed to the master duration.
pub open spec fn spec_mixed_filter(
    system_filter: Seq<char>,
    mic_filter: Seq<char>,
    target_duration: Seq<char>,
) -> Seq<char> {
    system_filter + ";"@ + mic_filter
        + ";[sys][mic]amix=inputs=2:duration=longest:dropout_transition=0,atrim=duration="@
        + target_duration + "[aout]"@
}

/// The FFmpeg arguments that mux a recording's video with no, one or two
/// audio sources. The video's timestamps are scaled by `video_scale` and
/// its stream copied as it is; with no audio the output has none; with one
/// source its own filter (`system_filter` or `mic_filter`, labelled
/// `[aout]`) feeds the AAC audio; with both, the two filters (labelled
/// `[sys]` and `[mic]`) are mixed. The output is cut at `target_duration`.
pub open spec fn spec_recording_mux_args(
    video: Seq<char>,
    system_audio: Option<Seq<char>>,
    mic_audio: Option<Seq<char>>,
    output: Seq<char>,
    video_scale: Seq<char>,
    target_duration: Seq<char>,
    system_filter: Seq<char>,
    mic_filter: Seq<char>,
) -> Seq<Seq<char>> {
    let head = seq!["-y"@, "-itsscale"@, video_scale, "-i"@, video];
    let tail = seq!["-t"@, target_duration, "-movflags"@, "+faststart"@, output];
    let encode_mixed = |filter: Seq<char>|
        seq![
            "-filter_complex"@,
            filter,
            "-map"@,
            "0:v:0"@,
            "-map"@,
            "[aout]"@,
            "-c:v"@,
            "copy"@,
            "-c:a"@,
            "aac"@,
        ];
    let middle = match (system_audio, mic_audio) {
        (None, None) => seq!["-map"@, "0:v:0"@, "-c:v"@, "copy"@, "-an"@],
        (Some(sys), None) => seq!["-i"@, sys] + encode_mixed(system_filter),
        (None, Some(mic)) => seq!["-i"@, mic] + encode_mixed(mic_filter),
        (Some(sys), Some(mic)) => seq!["-i"@, sys, "-i"@, mic] + encode_mixed(
            spec_mixed_filter(system_filter, mic_filter, target_duration),
        ),
    };
    head + middle + tail
}

/// Appends the arguments that encode the filter graph `filter`'s `[aout]`
/// to AAC beside the copied video.
fn push_encoded_audio(args: &mut Vec<String>, filter: &str)
    ensures
        string_views(final(args)@) == string_views(old(args)@) + seq![
            "-filter_complex"@,
            filter@,
            "-map"@,
            "0:v:0"@,
            "-map"@,
            "[aout]"@,
            "-c:v"@,
            "copy"@,
            "-c:a"@,
            "aac"@,
        ],
{
    let ghost start = string_views(args@);
    push_owned(args, "-filter_complex");
    push_owned(args, filter);
    push_owned(args, "-map");
    push_owned(args, "0:v:0");
    push_owned(args, "-map");
    push_owned(args, "[aout]");
    push_owned(args, "-c:v");
    push_owned(args, "copy");
    push_owned(args, "-c:a");
    push_owned(args, "aac");
    assert(string_views(args@) =~= start + seq![
        "-filter_complex"@,
        filter@,
        "-map"@,
        "0:v:0"@,
        "-map"@,
        "[aout]"@,
        "-c:v"@,
        "copy"@,
        "-c:a"@,
        "aac"@,
    ]);
}

/// Builds the FFmpeg arguments that mux a recording's video with no, one
/// or two audio sources; the numbers (`video_scale`, `target_duration`)
/// and the per-source filters come as text.
pub fn recording_mux_args(
    video: &str,
    system_audio: Option<&str>,
    mic_audio: Option<&str>,
    output: &str,
    video_scale: &str,
    target_duration: &str,
    system_filter: &str,
    mic_filter: &str,
) -> (r: Vec<String>)
    ensures
        string_views(r@) == spec_recording_mux_args(
            video@,
            opt_view(system_audio),
            opt_view(mic_audio),
            output@,
            video_scale@,
            target_duration@,
            system_filter@,
            mic_filter@,
        ),
{
    let mut v: Vec<String> = Vec::new();
    push_owned(&mut v, "-y");
    push_owned(&mut v, "-itsscale");
    push_owned(&mut v, video_scale);
    push_owned(&mut v, "-i");
    push_owned(&mut v, video);
    match (system_audio, mic_audio) {
        (None, None) => {
            push_owned(&mut v, "-map");
            push_owned(&mut v, "0:v:0");
            push_owned(&mut v, "-c:v");
            push_owned(&mut v, "copy");
            push_owned(&mut v, "-an");
        },
        (Some(sys), None) => {
            push_owned(&mut v, "-i");
            push_owned(&mut v, sys);
            push_encoded_audio(&mut v, system_filter);
        },
        (None, Some(mic)) => {
            push_owned(&mut v, "-i");
            push_owned(&mut v, mic);
            push_encoded_audio(&mut v, mic_filter);
        },
        (Some(sys), Some(mic)) => {
            push_owned(&mut v, "-i");
            push_owned(&mut v, sys);
            push_owned(&mut v, "-i");
            push_owned(&mut v, mic);
            let mut filter = String::new();
            filter.append(system_filter);
            push_str(&mut filter, ";");
            filter.append(mic_filter);
            push_str(
                &mut filter,
                ";[sys][mic]amix=inputs=2:duration=longest:dropout_transition=0,atrim=duration=",
            );
            filter.append(target_duration);
            push_str(&mut filter, "[aout]");
            assert(filter@ =~= spec_mixed_filter(system_filter@, mic_filter@, target_duration@));
            push_encoded_audio(&mut v, filter.as_str());
        },
    }
    push_owned(&mut v, "-t");
    push_owned(&mut v, target_duration);
    push_owned(&mut v, "-movflags");
    push_owned(&mut v, "+faststart");
    push_owned(&mut v, output);
    assert(string_views(v@) =~= spec_recording_mux_args(
        video@,
        opt_view(system_audio),
        opt_view(mic_audio),
        output@,
        video_scale@,
        target_duration@,
        system_filter@,
        mic_filter@,
    ));
    v
}

/// How a recording's mux reports its audio handling: `none` without audio,
/// else AAC with the tempo of each source, the microphone's gain and, with
/// both sources, the master duration (`master_duration`, in seconds) and
/// the video's timestamp scale.
pub open spec fn spec_recording_audio_codec(
    has_system: bool,
    has_mic: bool,
    system_tempo: Seq<char>,
    mic_tempo: Seq<char>,
    microphone_gain_percent: u32,
    master_duration: Seq<char>,
    video_scale: Seq<char>,
) -> Seq<char> {
    if !has_system && !has_mic {
        "none"@
    } else if !has_mic {
        "aac (system synchronized to master; tempo "@ + system_tempo + ")"@
    } else if !has_system {
        "aac (microphone synchronized to master; tempo "@ + mic_tempo + "; microphone gain "@
            + decimal(microphone_gain_percent as nat) + " percent; limiter 0.95)"@
    } else {
        "aac (system + microphone synchronized to "@ + master_duration + "s master; system tempo "@
            + system_tempo + "; microphone tempo "@ + mic_tempo + "; microphone gain "@ + decimal(
            microphone_gain_percent as nat,
        ) + " percent; limiter 0.95; video timestamp scale "@ + video_scale + ")"@
    }
}

/// Describes a recording mux's audio handling; the numbers other than the
/// gain come as text.
pub fn recording_audio_codec(
    has_system: bool,
    has_mic: bool,
    system_tempo: &str,
    mic_tempo: &str,
    microphone_gain_percent: u32,
    master_duration: &str,
    video_scale: &str,
) -> (r: String)
    ensures
        r@ == spec_recording_audio_codec(
            has_system,
            has_mic,
            system_tempo@,
            mic_tempo@,
            microphone_gain_percent,
            master_duration@,
            video_scale@,
        ),
{
    let mut s = String::new();
    if !has_system && !has_mic {
        push_str(&mut s, "none");
    } else if !has_mic {
        push_str(&mut s, "aac (system synchronized to master; tempo ");
        s.append(system_tempo);
        push_str(&mut s, ")");
    } else if !has_system {
        push_str(&mut s, "aac (microphone synchronized to master; tempo ");
        s.append(mic_tempo);
        push_str(&mut s, "; microphone gain ");
        push_decimal(&mut s, microphone_gain_percent as u128);
        push_str(&mut s, " percent; limiter 0.95)");
    } else {
        push_str(&mut s, "aac (system + microphone synchronized to ");
        s.append(master_duration);
        push_str(&mut s, "s master; system tempo ");
        s.append(system_tempo);
        push_str(&mut s, "; microphone tempo ");
        s.append(mic_tempo);
        push_str(&mut s, "; microphone gain ");
        push_decimal(&mut s, microphone_gain_percent as u128);
        push_str(&mut s, " percent; limiter 0.95; video timestamp scale ");
        s.append(video_scale);
        push_str(&mut s, ")");
    }
    s
}

/// A reported success always names the output file and carries no error;
/// a reported failure names no output file and always says why.
pub proof fn law_mux_success_and_error_exclusive(run: MuxRun)
    ensures
        mux_succeeded(run) <==> mux_error(run) is None,
{
}

} // verus!
