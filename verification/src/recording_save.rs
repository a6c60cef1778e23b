use vstd::prelude::*;
use std::collections::HashMap;
use crate::payload::{decode_chunk, spec_decode_chunk};
use crate::text::{
    decimal, first_chars, push_decimal, push_owned, push_str, spec_utf8_lossy, string_views,
    take_chars, truncate_with_marker, truncated_with_marker, utf8_lossy,
};

verus! {

broadcast use vstd::std_specs::hash::group_hash_axioms;

/// A save in progress: where the file is, the name shown for it, and how
/// many bytes have been written to it so far.
pub struct SaveSession {
    pub path: String,
    pub file_name: Option<String>,
    pub bytes_written: u64,
}

/// The open save sessions, keyed by the id each was handed out under, and
/// the id the next session will get.
pub struct RecordingSaveState {
    next_id: u64,
    sessions: HashMap<u64, SaveSession>,
}

/// The abstract state: the next id and the open sessions.
pub type SaveModel = (u64, Map<u64, SaveSession>);

impl View for RecordingSaveState {
    type V = SaveModel;

    closed spec fn view(&self) -> SaveModel {
        (self.next_id, self.sessions@)
    }
}

/// Every open session's id is below the next id to be handed out.
pub open spec fn ids_below_next(m: SaveModel) -> bool {
    forall|k: u64| #[trigger] m.1.contains_key(k) ==> k < m.0
}

/// The id after `id`, wrapping as an atomic `fetch_add` does.
pub open spec fn following_id(id: u64) -> u64 {
    if id == u64::MAX {
        0
    } else {
        (id + 1) as u64
    }
}

/// `s` with its byte count replaced by `total`.
pub open spec fn with_written(s: SaveSession, total: u64) -> SaveSession {
    SaveSession { path: s.path, file_name: s.file_name, bytes_written: total }
}

/// Opening a session for a file created at `path`: it gets the next id and
/// starts with nothing written.
pub open spec fn begin_model(m: SaveModel, path: String, file_name: Option<String>) -> SaveModel {
    (
        following_id(m.0),
        m.1.insert(m.0, SaveSession { path, file_name, bytes_written: 0 }),
    )
}

/// Closing session `id`, whether to finish or to abort it.
pub open spec fn close_model(m: SaveModel, id: u64) -> SaveModel {
    (m.0, m.1.remove(id))
}

/// Adding `n` written bytes to session `id`.
pub open spec fn record_model(m: SaveModel, id: u64, n: u64) -> SaveModel {
    (m.0, m.1.insert(id, with_written(m.1[id], (m.1[id].bytes_written + n) as u64)))
}

pub open spec fn unknown_chunk_session_message() -> Seq<char> {
    "Unknown save session (it may have already finished or been aborted)."@
}

pub open spec fn unknown_finish_session_message() -> Seq<char> {
    "Unknown save session."@
}

/// What appending a base64 chunk to session `id` yields before the write:
/// the bytes to write, or the decode error, or the unknown-session error.
pub open spec fn spec_prepare_chunk(m: SaveModel, id: u64, chunk_base64: Seq<char>) -> Result<
    Seq<u8>,
    Seq<char>,
> {
    match spec_decode_chunk(chunk_base64) {
        Err(e) => Err(e),
        Ok(bytes) => if m.1.contains_key(id) {
            Ok(bytes)
        } else {
            Err(unknown_chunk_session_message())
        },
    }
}

/// What the start of a save reports.
pub struct BeginSaveResult {
    pub session_id: Option<u64>,
    pub canceled: bool,
}

/// What a finished save reports.
pub struct FinishSaveResult {
    pub ok: bool,
    pub final_size: u64,
    pub saved_file_name: Option<String>,
}

/// `File size mismatch: wrote W bytes, expected E, file on disk is A bytes.`
pub open spec fn size_mismatch(written: u64, expected: u64, actual: u64) -> Seq<char> {
    "File size mismatch: wrote "@ + decimal(written as nat) + " bytes, expected "@ + decimal(
        expected as nat,
    ) + ", file on disk is "@ + decimal(actual as nat) + " bytes."@
}

impl RecordingSaveState {
    /// No open sessions; the first session gets id 1.
    pub fn new() -> (r: RecordingSaveState)
        ensures
            r@.0 == 1,
            r@.1 == Map::<u64, SaveSession>::empty(),
            ids_below_next(r@),
    {
        RecordingSaveState { next_id: 1, sessions: HashMap::new() }
    }

    /// Starts a save once the Save As dialog has been answered: `None` when
    /// it was canceled, else the created file's path and the name to report
    /// for it. A canceled dialog changes nothing.
    pub fn begin_recording_save(&mut self, chosen: Option<(String, Option<String>)>) -> (r:
        BeginSaveResult)
        ensures
            match chosen {
                None => r.session_id is None && r.canceled && final(self)@ == old(self)@,
                Some((path, file_name)) => {
                    &&& r.session_id == Some(old(self)@.0)
                    &&& !r.canceled
                    &&& final(self)@ == begin_model(old(self)@, path, file_name)
                },
            },
            ids_below_next(old(self)@) ==> !old(self)@.1.contains_key(old(self)@.0),
            ids_below_next(old(self)@) && old(self)@.0 < u64::MAX ==> ids_below_next(final(self)@),
    {
        match chosen {
            None => BeginSaveResult { session_id: None, canceled: true },
            Some((path, file_name)) => {
                let id = self.next_id;
                self.next_id = self.next_id.wrapping_add(1);
                self.sessions.insert(id, SaveSession { path, file_name, bytes_written: 0 });
                BeginSaveResult { session_id: Some(id), canceled: false }
            },
        }
    }

    /// Decodes a chunk for session `id` and checks that the session is
    /// open; the caller writes the bytes and then calls `record_written`.
    pub fn prepare_chunk(&self, session_id: u64, chunk_base64: &str) -> (r: Result<Vec<u8>, String>)
        ensures
            match (r, spec_prepare_chunk(self@, session_id, chunk_base64@)) {
                (Ok(a), Ok(b)) => a@ == b,
                (Err(a), Err(b)) => a@ == b,
                _ => false,
            },
    {
        let bytes = decode_chunk(chunk_base64)?;
        if self.sessions.contains_key(&session_id) {
            Ok(bytes)
        } else {
            let mut m = String::new();
            push_str(&mut m, "Unknown save session (it may have already finished or been aborted).");
            Err(m)
        }
    }

    /// The bytes written so far to session `id`, if it is open.
    pub fn bytes_written(&self, session_id: u64) -> (r: Option<u64>)
        ensures
            match r {
                Some(n) => self@.1.contains_key(session_id) && n == self@.1[session_id].bytes_written,
                None => !self@.1.contains_key(session_id),
            },
    {
        match self.sessions.get(&session_id) {
            Some(s) => Some(s.bytes_written),
            None => None,
        }
    }

    /// Counts `n` more bytes written to session `id` and returns the total.
    pub fn record_written(&mut self, session_id: u64, n: u64) -> (r: Result<u64, String>)
        requires
            old(self)@.1.contains_key(session_id) ==> old(self)@.1[session_id].bytes_written + n
                <= u64::MAX,
        ensures
            match r {
                Ok(total) => {
                    &&& old(self)@.1.contains_key(session_id)
                    &&& total == old(self)@.1[session_id].bytes_written + n
                    &&& final(self)@ == record_model(old(self)@, session_id, n)
                },
                Err(e) => {
                    &&& !old(self)@.1.contains_key(session_id)
                    &&& e@ == unknown_chunk_session_message()
                    &&& final(self)@ == old(self)@
                },
            },
    {
        match self.sessions.remove(&session_id) {
            Some(s) => {
                let total = s.bytes_written + n;
                self.sessions.insert(
                    session_id,
                    SaveSession { path: s.path, file_name: s.file_name, bytes_written: total },
                );
                proof {
                    assert(self@.1 =~= record_model(old(self)@, session_id, n).1);
                }
                Ok(total)
            },
            None => {
                proof {
                    assert(self@.1 =~= old(self)@.1);
                }
                let mut m = String::new();
                push_str(&mut m, "Unknown save session (it may have already finished or been aborted).");
                Err(m)
            },
        }
    }

    /// Closes session `id` to finish it, handing it back for the size check.
    pub fn take_session(&mut self, session_id: u64) -> (r: Result<SaveSession, String>)
        ensures
            match r {
                Ok(s) => {
                    &&& old(self)@.1.contains_key(session_id)
                    &&& s == old(self)@.1[session_id]
                    &&& final(self)@ == close_model(old(self)@, session_id)
                },
                Err(e) => {
                    &&& !old(self)@.1.contains_key(session_id)
                    &&& e@ == unknown_finish_session_message()
                    &&& final(self)@ == old(self)@
                },
            },
    {
        match self.sessions.remove(&session_id) {
            Some(s) => Ok(s),
            None => {
                proof {
                    assert(self@.1 =~= old(self)@.1);
                }
                let mut m = String::new();
                push_str(&mut m, "Unknown save session.");
                Err(m)
            },
        }
    }

    /// Closes session `id` to abort it, handing it back (if it was open) so
    /// that its partial file can be removed.
    pub fn abort_session(&mut self, session_id: u64) -> (r: Option<SaveSession>)
        ensures
            match r {
                Some(s) => old(self)@.1.contains_key(session_id) && s == old(self)@.1[session_id],
                None => !old(self)@.1.contains_key(session_id),
            },
            final(self)@ == close_model(old(self)@, session_id),
    {
        let r = self.sessions.remove(&session_id);
        proof {
            assert(self@.1 =~= old(self)@.1.remove(session_id));
        }
        r
    }
}

impl Default for RecordingSaveState {
    fn default() -> (r: RecordingSaveState)
        ensures
            r@.0 == 1,
            r@.1 == Map::<u64, SaveSession>::empty(),
    {
        RecordingSaveState::new()
    }
}

/// The verdict on a finished save: it succeeded only when the bytes
/// written, the bytes the frontend says it sent, and the file's size on
/// disk all agree.
pub fn finish_verdict(session: &SaveSession, expected_bytes: u64, actual_size: u64) -> (r: Result<
    FinishSaveResult,
    String,
>)
    ensures
        match r {
            Ok(f) => {
                &&& actual_size == expected_bytes
                &&& session.bytes_written == expected_bytes
                &&& f.ok
                &&& f.final_size == actual_size
                &&& f.saved_file_name == session.file_name
            },
            Err(e) => {
                &&& (actual_size != expected_bytes || session.bytes_written != expected_bytes)
                &&& e@ == size_mismatch(session.bytes_written, expected_bytes, actual_size)
            },
        },
{
    if actual_size != expected_bytes || session.bytes_written != expected_bytes {
        let mut m = String::new();
        push_str(&mut m, "File size mismatch: wrote ");
        push_decimal(&mut m, session.bytes_written as u128);
        push_str(&mut m, " bytes, expected ");
        push_decimal(&mut m, expected_bytes as u128);
        push_str(&mut m, ", file on disk is ");
        push_decimal(&mut m, actual_size as u128);
        push_str(&mut m, " bytes.");
        Err(m)
    } else {
        Ok(FinishSaveResult { ok: true, final_size: actual_size, saved_file_name: session.file_name.clone() })
    }
}

/// Session ids are fresh: while every open id is below the next one, the
/// id a new session gets is not that of any open session, and this stays
/// so until the counter wraps.
pub proof fn law_session_ids_are_fresh(m: SaveModel, path: String, file_name: Option<String>)
    requires
        ids_below_next(m),
    ensures
        !m.1.contains_key(m.0),
        m.0 < u64::MAX ==> ids_below_next(begin_model(m, path, file_name)),
{
}

/// A session that was just begun is found under the id it was given, for
/// its path, with nothing written; every other open session is unchanged.
pub proof fn law_begun_session_is_open_and_empty(
    m: SaveModel,
    path: String,
    file_name: Option<String>,
    other: u64,
)
    requires
        other != m.0,
    ensures
        begin_model(m, path, file_name).1.contains_key(m.0),
        begin_model(m, path, file_name).1[m.0].path == path,
        begin_model(m, path, file_name).1[m.0].bytes_written == 0,
        begin_model(m, path, file_name).1.contains_key(other) == m.1.contains_key(other),
        m.1.contains_key(other) ==> begin_model(m, path, file_name).1[other] == m.1[other],
{
}

/// Once a session is finished or aborted, a later chunk for it is refused
/// as unknown, and finishing it again is refused too.
pub proof fn law_closed_session_is_unknown(m: SaveModel, id: u64, chunk_base64: Seq<char>)
    ensures
        !close_model(m, id).1.contains_key(id),
        spec_decode_chunk(chunk_base64) is Ok ==> spec_prepare_chunk(close_model(m, id), id, chunk_base64)
            == Err::<Seq<u8>, Seq<char>>(unknown_chunk_session_message()),
{
}

/// The byte count of a session is the sum of the chunk sizes recorded for
/// it: recording `a` and then `b` bytes adds `a + b`.
pub proof fn law_written_bytes_accumulate(m: SaveModel, id: u64, a: u64, b: u64)
    requires
        m.1.contains_key(id),
        m.1[id].bytes_written + a + b <= u64::MAX,
    ensures
        record_model(record_model(m, id, a), id, b).1[id].bytes_written == m.1[id].bytes_written + a
            + b,
        record_model(record_model(m, id, a), id, b).1[id].path == m.1[id].path,
        record_model(record_model(m, id, a), id, b).1.dom() == m.1.dom(),
{
    assert(record_model(record_model(m, id, a), id, b).1.dom() =~= m.1.dom());
}

/// What saving a file-backed recording reports.
pub struct FileBackedSaveResult {
    pub ok: bool,
    pub canceled: bool,
    pub saved_file_name: Option<String>,
    pub saved_file_path: Option<String>,
}

/// The report of a file-backed save: `None` when the Save As dialog was
/// canceled, else the destination the recording was copied to and the name
/// shown for it.
pub fn file_backed_save_result(saved: Option<(String, Option<String>)>) -> (r: FileBackedSaveResult)
    ensures
        match saved {
            None => !r.ok && r.canceled && r.saved_file_name is None && r.saved_file_path is None,
            Some((path, name)) => r.ok && !r.canceled && r.saved_file_name == name
                && r.saved_file_path == Some(path),
        },
{
    match saved {
        None => FileBackedSaveResult {
            ok: false,
            canceled: true,
            saved_file_name: None,
            saved_file_path: None,
        },
        Some((path, name)) => FileBackedSaveResult {
            ok: true,
            canceled: false,
            saved_file_name: name,
            saved_file_path: Some(path),
        },
    }
}

/// What an edit of a pending recording reports.
pub struct EditRecordingResult {
    pub ok: bool,
    pub edited_path: Option<String>,
    pub error: Option<String>,
}

/// The edits the review editor can make.
#[derive(PartialEq, Eq, Structural, Clone, Copy)]
pub enum EditOperation {
    TrimStart,
    TrimEnd,
    CutMiddle,
}

/// The edit named `operation`, or `Unknown recording edit operation: <name>`.
pub open spec fn spec_edit_operation(operation: Seq<char>) -> Result<EditOperation, Seq<char>> {
    if operation == "trim_start"@ {
        Ok(EditOperation::TrimStart)
    } else if operation == "trim_end"@ {
        Ok(EditOperation::TrimEnd)
    } else if operation == "cut_middle"@ {
        Ok(EditOperation::CutMiddle)
    } else {
        Err("Unknown recording edit operation: "@ + operation)
    }
}

/// Reads the name of an edit operation.
pub fn parse_edit_operation(operation: &str) -> (r: Result<EditOperation, String>)
    ensures
        match (r, spec_edit_operation(operation@)) {
            (Ok(a), Ok(b)) => a == b,
            (Err(a), Err(b)) => a@ == b,
            _ => false,
        },
{
    if crate::text::str_eq(operation, "trim_start") {
        Ok(EditOperation::TrimStart)
    } else if crate::text::str_eq(operation, "trim_end") {
        Ok(EditOperation::TrimEnd)
    } else if crate::text::str_eq(operation, "cut_middle") {
        Ok(EditOperation::CutMiddle)
    } else {
        let mut m = String::new();
        push_str(&mut m, "Unknown recording edit operation: ");
        m.append(operation);
        Err(m)
    }
}

/// A created edited copy at `edited_path`.
pub fn edit_succeeded(edited_path: String) -> (r: EditRecordingResult)
    ensures
        r.ok && r.edited_path == Some(edited_path) && r.error is None,
{
    EditRecordingResult { ok: true, edited_path: Some(edited_path), error: None }
}

/// A failed single edit: FFmpeg's stderr, cut to 2000 characters with a
/// truncation marker.
pub fn edit_failed(stderr: &[u8]) -> (r: EditRecordingResult)
    ensures
        !r.ok,
        r.edited_path is None,
        r.error matches Some(e) && e@ == truncated_with_marker(spec_utf8_lossy(stderr@), 2000),
{
    let text = utf8_lossy(stderr);
    let e = truncate_with_marker(text.as_str(), 2000);
    EditRecordingResult { ok: false, edited_path: None, error: Some(e) }
}

/// A failed edit-plan render: the first 2000 characters of FFmpeg's stderr.
pub fn render_failed(stderr: &[u8]) -> (r: EditRecordingResult)
    ensures
        !r.ok,
        r.edited_path is None,
        r.error matches Some(e) && e@ == first_chars(spec_utf8_lossy(stderr@), 2000),
{
    let text = utf8_lossy(stderr);
    let e = take_chars(text.as_str(), 2000);
    EditRecordingResult { ok: false, edited_path: None, error: Some(e) }
}

/// What importing a video reports.
pub struct ImportVideoResult {
    pub ok: bool,
    pub canceled: bool,
    pub imported_path: Option<String>,
    pub suggested_name: Option<String>,
    pub error: Option<String>,
}

/// How an imported video becomes a working copy: the name suggested for
/// saving it, and whether it is copied as it is (an MP4) or re-encoded.
pub struct ImportPlan {
    pub suggested_name: String,
    pub copy_directly: bool,
}

/// `c` with an ASCII capital letter made small, as `to_ascii_lowercase`
/// does; every other character is left alone.
pub open spec fn ascii_lower(c: char) -> char {
    if 'A' <= c <= 'Z' {
        ((c as u32) + 32) as char
    } else {
        c
    }
}

/// The name suggested for an imported file with stem `stem`.
pub open spec fn spec_suggested_import_name(stem: Option<Seq<char>>) -> Seq<char> {
    match stem {
        Some(s) => s + ".mp4"@,
        None => "Imported Video.mp4"@,
    }
}

/// Whether the extension, compared ignoring ASCII case, is `mp4`.
pub open spec fn is_mp4_extension(extension: Option<Seq<char>>) -> bool {
    match extension {
        Some(e) => e.map_values(|c: char| ascii_lower(c)) == "mp4"@,
        None => false,
    }
}

/// Whether `c`, made small as ASCII, is `want`.
fn ascii_lower_is(c: char, want: char) -> (r: bool)
    ensures
        r == (ascii_lower(c) == want),
{
    if 'A' <= c && c <= 'Z' {
        let lowered: u32 = (c as u32) + 32;
        lowered == (want as u32)
    } else {
        c == want
    }
}

/// Plans the working copy of an imported video from its file stem and
/// extension (each absent when the path has none or it is not UTF-8).
pub fn import_plan(stem: Option<&str>, extension: Option<&str>) -> (r: ImportPlan)
    ensures
        r.suggested_name@ == spec_suggested_import_name(
            match stem {
                Some(s) => Some(s@),
                None => None,
            },
        ),
        r.copy_directly == is_mp4_extension(
            match extension {
                Some(e) => Some(e@),
                None => None,
            },
        ),
{
    let mut suggested_name = String::new();
    match stem {
        Some(s) => suggested_name.append(s),
        None => suggested_name.append("Imported Video"),
    }
    suggested_name.append(".mp4");
    let copy_directly = match extension {
        None => false,
        Some(e) => {
            let v = crate::text::chars_of(e);
            proof {
                reveal_strlit("mp4");
            }
            if v.len() != 3 {
                assert(e@.map_values(|c: char| ascii_lower(c)).len() != "mp4"@.len());
                false
            } else {
                let r = ascii_lower_is(v[0], 'm') && ascii_lower_is(v[1], 'p') && ascii_lower_is(
                    v[2],
                    '4',
                );
                proof {
                    let m = e@.map_values(|c: char| ascii_lower(c));
                    let want = "mp4"@;
                    assert(want.len() == 3 && want[0] == 'm' && want[1] == 'p' && want[2] == '4');
                    assert(m.len() == 3);
                    assert(m[0] == ascii_lower(v@[0]) && m[1] == ascii_lower(v@[1]) && m[2]
                        == ascii_lower(v@[2]));
                    if r {
                        assert(m =~= want);
                    } else {
                        assert(m != want);
                    }
                }
                r
            }
        },
    };
    proof {
        reveal_strlit("Imported Video");
        reveal_strlit("Imported Video.mp4");
        reveal_strlit(".mp4");
    }
    ImportPlan { suggested_name, copy_directly }
}

/// The FFmpeg arguments that normalize an imported video to MP4.
pub open spec fn spec_import_transcode_args(source: Seq<char>, destination: Seq<char>) -> Seq<
    Seq<char>,
> {
    seq![
        "-y"@,
        "-i"@,
        source,
        "-map"@,
        "0:v:0"@,
        "-map"@,
        "0:a?"@,
        "-c:v"@,
        "mpeg4"@,
        "-q:v"@,
        "5"@,
        "-c:a"@,
        "aac"@,
        "-movflags"@,
        "+faststart"@,
        destination,
    ]
}

/// Builds the FFmpeg arguments that normalize an imported video to MP4.
pub fn import_transcode_args(source: &str, destination: &str) -> (r: Vec<String>)
    ensures
        string_views(r@) == spec_import_transcode_args(source@, destination@),
{
    let mut v: Vec<String> = Vec::new();
    push_owned(&mut v, "-y");
    push_owned(&mut v, "-i");
    push_owned(&mut v, source);
    push_owned(&mut v, "-map");
    push_owned(&mut v, "0:v:0");
    push_owned(&mut v, "-map");
    push_owned(&mut v, "0:a?");
    push_owned(&mut v, "-c:v");
    push_owned(&mut v, "mpeg4");
    push_owned(&mut v, "-q:v");
    push_owned(&mut v, "5");
    push_owned(&mut v, "-c:a");
    push_owned(&mut v, "aac");
    push_owned(&mut v, "-movflags");
    push_owned(&mut v, "+faststart");
    push_owned(&mut v, destination);
    assert(string_views(v@) =~= spec_import_transcode_args(source@, destination@));
    v
}

/// The FFmpeg arguments of a single edit: the source filtered by the edit's
/// video and audio filters, re-encoded to MPEG-4 video and AAC audio.
pub open spec fn spec_edit_args(
    source: Seq<char>,
    video_filter: Seq<char>,
    audio_filter: Seq<char>,
    destination: Seq<char>,
) -> Seq<Seq<char>> {
    seq![
        "-y"@,
        "-i"@,
        source,
        "-vf"@,
        video_filter,
        "-af"@,
        audio_filter,
        "-map"@,
        "0:v:0"@,
        "-map"@,
        "0:a?"@,
        "-c:v"@,
        "mpeg4"@,
        "-q:v"@,
        "5"@,
        "-c:a"@,
        "aac"@,
        "-movflags"@,
        "+faststart"@,
        destination,
    ]
}

/// Builds the FFmpeg arguments of a single edit.
pub fn edit_args(source: &str, video_filter: &str, audio_filter: &str, destination: &str) -> (r: Vec<
    String,
>)
    ensures
        string_views(r@) == spec_edit_args(source@, video_filter@, audio_filter@, destination@),
{
    let mut v: Vec<String> = Vec::new();
    push_owned(&mut v, "-y");
    push_owned(&mut v, "-i");
    push_owned(&mut v, source);
    push_owned(&mut v, "-vf");
    push_owned(&mut v, video_filter);
    push_owned(&mut v, "-af");
    push_owned(&mut v, audio_filter);
    push_owned(&mut v, "-map");
    push_owned(&mut v, "0:v:0");
    push_owned(&mut v, "-map");
    push_owned(&mut v, "0:a?");
    push_owned(&mut v, "-c:v");
    push_owned(&mut v, "mpeg4");
    push_owned(&mut v, "-q:v");
    push_owned(&mut v, "5");
    push_owned(&mut v, "-c:a");
    push_owned(&mut v, "aac");
    push_owned(&mut v, "-movflags");
    push_owned(&mut v, "+faststart");
    push_owned(&mut v, destination);
    assert(string_views(v@) =~= spec_edit_args(source@, video_filter@, audio_filter@, destination@));
    v
}

/// The FFmpeg arguments that render an edit plan's filter graph: the video
/// output `[vout]`, and with `audio` also the audio output `[aout]` encoded
/// to AAC.
pub open spec fn spec_render_args(source: Seq<char>, destination: Seq<char>, filter: Seq<char>, audio: bool) -> Seq<
    Seq<char>,
> {
    seq!["-y"@, "-i"@, source, "-filter_complex"@, filter, "-map"@, "[vout]"@] + (if audio {
        seq!["-map"@, "[aout]"@]
    } else {
        Seq::empty()
    }) + seq!["-c:v"@, "mpeg4"@, "-q:v"@, "5"@] + (if audio {
        seq!["-c:a"@, "aac"@]
    } else {
        Seq::empty()
    }) + seq!["-movflags"@, "+faststart"@, destination]
}

/// Builds the FFmpeg arguments that render an edit plan's filter graph.
pub fn render_args(source: &str, destination: &str, filter: &str, audio: bool) -> (r: Vec<String>)
    ensures
        string_views(r@) == spec_render_args(source@, destination@, filter@, audio),
{
    let mut v: Vec<String> = Vec::new();
    push_owned(&mut v, "-y");
    push_owned(&mut v, "-i");
    push_owned(&mut v, source);
    push_owned(&mut v, "-filter_complex");
    push_owned(&mut v, filter);
    push_owned(&mut v, "-map");
    push_owned(&mut v, "[vout]");
    let ghost first = string_views(v@);
    if audio {
        push_owned(&mut v, "-map");
        push_owned(&mut v, "[aout]");
    }
    let ghost second = string_views(v@);
    push_owned(&mut v, "-c:v");
    push_owned(&mut v, "mpeg4");
    push_owned(&mut v, "-q:v");
    push_owned(&mut v, "5");
    let ghost third = string_views(v@);
    if audio {
        push_owned(&mut v, "-c:a");
        push_owned(&mut v, "aac");
    }
    let ghost fourth = string_views(v@);
    push_owned(&mut v, "-movflags");
    push_owned(&mut v, "+faststart");
    push_owned(&mut v, destination);
    proof {
        let a: Seq<Seq<char>> = if audio { seq!["-map"@, "[aout]"@] } else { Seq::empty() };
        let c: Seq<Seq<char>> = if audio { seq!["-c:a"@, "aac"@] } else { Seq::empty() };
        assert(first =~= seq!["-y"@, "-i"@, source@, "-filter_complex"@, filter@, "-map"@, "[vout]"@]);
        assert(second =~= first + a);
        assert(third =~= second + seq!["-c:v"@, "mpeg4"@, "-q:v"@, "5"@]);
        assert(fourth =~= third + c);
        assert(string_views(v@) =~= fourth + seq!["-movflags"@, "+faststart"@, destination@]);
    }
    v
}

/// An import whose file dialog was canceled.
pub fn import_canceled() -> (r: ImportVideoResult)
    ensures
        !r.ok && r.canceled && r.imported_path is None && r.suggested_name is None && r.error is None,
{
    ImportVideoResult { ok: false, canceled: true, imported_path: None, suggested_name: None, error: None }
}

/// An import whose re-encode failed: FFmpeg's stderr, cut to 1200
/// characters with a truncation marker.
pub fn import_failed(stderr: &[u8]) -> (r: ImportVideoResult)
    ensures
        !r.ok && !r.canceled && r.imported_path is None && r.suggested_name is None,
        r.error matches Some(e) && e@ == truncated_with_marker(spec_utf8_lossy(stderr@), 1200),
{
    let text = utf8_lossy(stderr);
    let e = truncate_with_marker(text.as_str(), 1200);
    ImportVideoResult { ok: false, canceled: false, imported_path: None, suggested_name: None, error: Some(e) }
}

/// A working copy created at `imported_path` for the plan `plan`.
pub fn import_succeeded(imported_path: String, plan: ImportPlan) -> (r: ImportVideoResult)
    ensures
        r.ok && !r.canceled && r.error is None,
        r.imported_path == Some(imported_path),
        r.suggested_name == Some(plan.suggested_name),
{
    ImportVideoResult {
        ok: true,
        canceled: false,
        imported_path: Some(imported_path),
        suggested_name: Some(plan.suggested_name),
        error: None,
    }
}

} // verus!
