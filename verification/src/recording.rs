use vstd::prelude::*;
use crate::audio::{ordered_disjoint, well_formed_spans, Span};
use crate::mux::MuxResult;
use crate::text::push_str;

verus! {

/// What starting a recording reports.
pub struct ProductionRecordingStartResult {
    pub started: bool,
    pub start_error: Option<String>,
}

/// The timing of a recording in progress, in nanoseconds of one monotonic
/// clock: when it started, the pauses it has had (each from its start to
/// its end), and when the current pause began, if it is paused now.
pub struct RecordingTiming {
    pub started_at: i64,
    pub pauses: Vec<Span>,
    pub paused_since: Option<i64>,
}

/// The abstract timing: start, completed pauses, open pause.
pub type TimingModel = (i64, Seq<Span>, Option<i64>);

impl View for RecordingTiming {
    type V = TimingModel;

    open spec fn view(&self) -> TimingModel {
        (self.started_at, self.pauses@, self.paused_since)
    }
}

/// The latest instant a timing has recorded.
pub open spec fn latest_instant(t: TimingModel) -> int {
    match t.2 {
        Some(p) => p as int,
        None => if t.1.len() > 0 {
            t.1.last().1 as int
        } else {
            t.0 as int
        },
    }
}

/// A timing's pauses each end no earlier than they start, follow one
/// another without overlapping, all come after the start, and an open
/// pause began no earlier than the last one ended.
pub open spec fn timing_wf(t: TimingModel) -> bool {
    &&& well_formed_spans(t.1)
    &&& ordered_disjoint(t.1)
    &&& forall|k: int| 0 <= k < t.1.len() ==> t.0 <= #[trigger] t.1[k].0
    &&& t.0 <= latest_instant(t)
    &&& t.1.len() > 0 ==> t.1.last().1 <= latest_instant(t)
}

/// The recording in progress, if there is one.
pub struct RecordingControl {
    session: Option<RecordingTiming>,
}

impl View for RecordingControl {
    type V = Option<TimingModel>;

    closed spec fn view(&self) -> Option<TimingModel> {
        match self.session {
            Some(t) => Some(t@),
            None => None,
        }
    }
}

/// Every recording in progress has a well-formed timing.
pub open spec fn control_wf(c: Option<TimingModel>) -> bool {
    match c {
        Some(t) => timing_wf(t),
        None => true,
    }
}

/// Whether `now` is no earlier than anything the control has recorded.
pub open spec fn not_before(c: Option<TimingModel>, now: i64) -> bool {
    match c {
        Some(t) => latest_instant(t) <= now,
        None => true,
    }
}

/// Pausing at `now`: a no-op when already paused.
pub open spec fn pause_model(t: TimingModel, now: i64) -> TimingModel {
    match t.2 {
        Some(_) => t,
        None => (t.0, t.1, Some(now)),
    }
}

/// Resuming at `now`: the open pause becomes a completed one; a no-op when
/// not paused.
pub open spec fn resume_model(t: TimingModel, now: i64) -> TimingModel {
    match t.2 {
        Some(p) => (t.0, t.1.push((p, now)), None),
        None => t,
    }
}

pub open spec fn already_recording_message() -> Seq<char> {
    "A native recording is already in progress."@
}

/// Why a recording could not start, after the check for one in progress.
pub enum StartFailure {
    /// The app's configuration directory could not be found; the error.
    ConfigDirectory(String),
    /// The output directory could not be created; the error.
    OutputDirectory(String),
    /// There is no primary monitor; the error.
    NoPrimaryMonitor(String),
    /// Screen capture could not be started; the error.
    CaptureStart(String),
    /// No frame arrived within the first-frame timeout.
    FirstFrameTimeout,
}

/// The seconds waited for the first frame before giving up.
pub const FIRST_FRAME_TIMEOUT_SECS: u64 = 10;

/// The message a start failure is reported with.
pub open spec fn start_failure_text(f: StartFailure) -> Seq<char> {
    match f {
        StartFailure::ConfigDirectory(e) => "Could not resolve the app config directory: "@ + e@,
        StartFailure::OutputDirectory(e) => "Could not create output directory: "@ + e@,
        StartFailure::NoPrimaryMonitor(e) => "No primary monitor available: "@ + e@,
        StartFailure::CaptureStart(e) => "Could not start native capture: "@ + e@,
        StartFailure::FirstFrameTimeout => "No video frame arrived within 10 seconds of starting capture - initialization may have failed."@,
    }
}

/// Reports a recording that could not start.
pub fn start_failed(failure: StartFailure) -> (r: ProductionRecordingStartResult)
    ensures
        !r.started,
        r.start_error matches Some(e) && e@ == start_failure_text(failure),
{
    let mut m = String::new();
    match failure {
        StartFailure::ConfigDirectory(e) => {
            push_str(&mut m, "Could not resolve the app config directory: ");
            m.append(e.as_str());
        },
        StartFailure::OutputDirectory(e) => {
            push_str(&mut m, "Could not create output directory: ");
            m.append(e.as_str());
        },
        StartFailure::NoPrimaryMonitor(e) => {
            push_str(&mut m, "No primary monitor available: ");
            m.append(e.as_str());
        },
        StartFailure::CaptureStart(e) => {
            push_str(&mut m, "Could not start native capture: ");
            m.append(e.as_str());
        },
        StartFailure::FirstFrameTimeout => {
            push_str(
                &mut m,
                "No video frame arrived within 10 seconds of starting capture - initialization may have failed.",
            );
        },
    }
    ProductionRecordingStartResult { started: false, start_error: Some(m) }
}

fn already_recording() -> (r: ProductionRecordingStartResult)
    ensures
        !r.started,
        r.start_error matches Some(e) && e@ == already_recording_message(),
{
    let mut m = String::new();
    push_str(&mut m, "A native recording is already in progress.");
    ProductionRecordingStartResult { started: false, start_error: Some(m) }
}

impl RecordingControl {
    /// No recording in progress.
    pub fn new() -> (r: RecordingControl)
        ensures
            r@ is None,
    {
        RecordingControl { session: None }
    }

    /// Whether a recording is in progress.
    pub fn is_recording(&self) -> (r: bool)
        ensures
            r == (self@ is Some),
    {
        self.session.is_some()
    }

    /// The refusal to start while a recording is already in progress.
    pub fn start_refusal(&self) -> (r: Option<ProductionRecordingStartResult>)
        ensures
            match r {
                Some(res) => self@ is Some && !res.started && (res.start_error matches Some(e)
                    && e@ == already_recording_message()),
                None => self@ is None,
            },
    {
        if self.session.is_some() {
            Some(already_recording())
        } else {
            None
        }
    }

    /// Records that capture is under way from `now`, unless a recording is
    /// already in progress, which is then left as it is.
    pub fn record_started(&mut self, now: i64) -> (r: ProductionRecordingStartResult)
        ensures
            old(self)@ is Some ==> {
                &&& final(self)@ == old(self)@
                &&& !r.started
                &&& r.start_error matches Some(e) && e@ == already_recording_message()
            },
            old(self)@ is None ==> {
                &&& final(self)@ == Some::<TimingModel>((now, Seq::<Span>::empty(), None))
                &&& r.started
                &&& r.start_error is None
            },
            control_wf(old(self)@) ==> control_wf(final(self)@),
    {
        if self.session.is_some() {
            return already_recording();
        }
        self.session = Some(RecordingTiming { started_at: now, pauses: Vec::new(), paused_since: None });
        proof {
            assert(self@ == Some::<TimingModel>((now, Seq::<Span>::empty(), None)));
        }
        ProductionRecordingStartResult { started: true, start_error: None }
    }

    /// Pauses the recording at `now`. Returns whether this started a pause
    /// (the video clock is then to stop writing frames); pausing while
    /// already paused changes nothing.
    pub fn pause(&mut self, now: i64) -> (r: Result<bool, String>)
        ensures
            match old(self)@ {
                None => final(self)@ is None && (r matches Err(e) && e@
                    == "No active native recording to pause."@),
                Some(t) => r == Ok::<bool, String>(t.2 is None) && final(self)@ == Some(
                    pause_model(t, now),
                ),
            },
            control_wf(old(self)@) && not_before(old(self)@, now) ==> control_wf(final(self)@),
    {
        match self.session.take() {
            None => {
                let mut m = String::new();
                push_str(&mut m, "No active native recording to pause.");
                Err(m)
            },
            Some(mut t) => {
                proof {
                    if timing_wf(t@) && latest_instant(t@) <= now {
                        lemma_resume_keeps_wf(t@, now);
                    }
                }
                let started = t.paused_since.is_none();
                if started {
                    t.paused_since = Some(now);
                }
                self.session = Some(t);
                Ok(started)
            },
        }
    }

    /// Resumes the recording at `now`. Returns whether a pause ended (the
    /// video clock is then to write frames again); resuming while not
    /// paused changes nothing.
    pub fn resume(&mut self, now: i64) -> (r: Result<bool, String>)
        ensures
            match old(self)@ {
                None => final(self)@ is None && (r matches Err(e) && e@
                    == "No active native recording to resume."@),
                Some(t) => r == Ok::<bool, String>(t.2 is Some) && final(self)@ == Some(
                    resume_model(t, now),
                ),
            },
            control_wf(old(self)@) && not_before(old(self)@, now) ==> control_wf(final(self)@),
    {
        match self.session.take() {
            None => {
                let mut m = String::new();
                push_str(&mut m, "No active native recording to resume.");
                Err(m)
            },
            Some(mut t) => {
                proof {
                    if timing_wf(t@) && latest_instant(t@) <= now {
                        lemma_resume_keeps_wf(t@, now);
                    }
                }
                let ended = match t.paused_since {
                    Some(p) => {
                        t.pauses.push((p, now));
                        t.paused_since = None;
                        true
                    },
                    None => false,
                };
                self.session = Some(t);
                Ok(ended)
            },
        }
    }

    /// Ends the recording at `now` and hands back its timing, with a pause
    /// still open at that moment closed there.
    pub fn stop(&mut self, now: i64) -> (r: Result<RecordingTiming, String>)
        ensures
            final(self)@ is None,
            match old(self)@ {
                None => r matches Err(e) && e@ == "No active native recording to stop."@,
                Some(t) => r matches Ok(timing) && timing@ == resume_model(t, now),
            },
            control_wf(old(self)@) && not_before(old(self)@, now) ==> match r {
                Ok(timing) => timing_wf(timing@),
                Err(_) => true,
            },
    {
        match self.session.take() {
            None => {
                let mut m = String::new();
                push_str(&mut m, "No active native recording to stop.");
                Err(m)
            },
            Some(mut t) => {
                proof {
                    if timing_wf(t@) && latest_instant(t@) <= now {
                        lemma_resume_keeps_wf(t@, now);
                    }
                }
                match t.paused_since {
                    Some(p) => {
                        t.pauses.push((p, now));
                        t.paused_since = None;
                    },
                    None => {},
                }
                Ok(t)
            },
        }
    }
}

impl Default for RecordingControl {
    fn default() -> (r: RecordingControl)
        ensures
            r@ is None,
    {
        RecordingControl::new()
    }
}

/// The total length of the completed pauses.
pub open spec fn paused_total(p: Seq<Span>) -> int
    decreases p.len(),
{
    if p.len() == 0 {
        0
    } else {
        paused_total(p.drop_last()) + (p.last().1 - p.last().0)
    }
}

proof fn lemma_paused_total_bounded(p: Seq<Span>, lo: int)
    requires
        well_formed_spans(p),
        ordered_disjoint(p),
        forall|k: int| 0 <= k < p.len() ==> lo <= #[trigger] p[k].0,
    ensures
        0 <= paused_total(p),
        p.len() > 0 ==> paused_total(p) <= p.last().1 - lo,
    decreases p.len(),
{
    if p.len() > 0 {
        let q = p.drop_last();
        assert forall|k: int| 0 <= k < q.len() implies #[trigger] q[k].0 <= q[k].1 by {
            assert(q[k] == p[k]);
        }
        assert forall|i: int, j: int| 0 <= i < j < q.len() implies #[trigger] q[i].1 <= #[trigger] q[j].0 by {
            assert(q[i] == p[i] && q[j] == p[j]);
        }
        assert forall|k: int| 0 <= k < q.len() implies lo <= #[trigger] q[k].0 by {
            assert(q[k] == p[k]);
        }
        lemma_paused_total_bounded(q, lo);
        if q.len() > 0 {
            assert(q.last() == p[p.len() - 2]);
            assert(p[p.len() - 2].1 <= p[p.len() - 1].0);
        }
        assert(p[p.len() - 1].0 <= p[p.len() - 1].1);
    }
}

/// How long a recording ran, not counting its pauses: from its start to
/// `stop_at`, less the paused time, and never below zero.
pub open spec fn active_duration(t: TimingModel, stop_at: int) -> int {
    let d = stop_at - t.0 - paused_total(t.1);
    if d < 0 {
        0
    } else {
        d
    }
}

/// Computes how long a finished recording ran, not counting its pauses.
pub fn active_duration_ns(timing: &RecordingTiming, stop_at: i64) -> (r: i128)
    requires
        timing@.1.len() < 0x8000_0000_0000_0000,
    ensures
        r == active_duration(timing@, stop_at as int),
{
    let mut total: i128 = 0;
    let mut i: usize = 0;
    while i < timing.pauses.len()
        invariant
            i <= timing.pauses.len(),
            timing@.1.len() < 0x8000_0000_0000_0000,
            total == paused_total(timing@.1.take(i as int)),
            -0x1_0000_0000_0000_0000 * (i as int) <= total <= 0x1_0000_0000_0000_0000 * (i as int),
        decreases timing.pauses.len() - i,
    {
        proof {
            assert(timing@.1.take(i + 1).drop_last() =~= timing@.1.take(i as int));
        }
        let (a, b) = timing.pauses[i];
        total = total + (b as i128 - a as i128);
        i = i + 1;
    }
    proof {
        assert(timing@.1.take(timing@.1.len() as int) =~= timing@.1);
    }
    let d: i128 = stop_at as i128 - timing.started_at as i128 - total;
    if d < 0 {
        0
    } else {
        d
    }
}

/// What becomes of a stopped recording's sources.
pub enum FinalPlan {
    /// The video did not encode: there is no final recording.
    NoVideo,
    /// No audio was kept: the source video is the final recording.
    VideoOnly,
    /// The video is muxed with the audio that was kept.
    Mux,
}

/// Decides what the final recording is made of.
pub fn final_plan(video_ok: bool, has_system_audio: bool, has_mic_audio: bool) -> (r: FinalPlan)
    ensures
        !video_ok ==> r is NoVideo,
        video_ok && !has_system_audio && !has_mic_audio ==> r is VideoOnly,
        video_ok && (has_system_audio || has_mic_audio) ==> r is Mux,
{
    if !video_ok {
        FinalPlan::NoVideo
    } else if has_system_audio || has_mic_audio {
        FinalPlan::Mux
    } else {
        FinalPlan::VideoOnly
    }
}

/// The final recording's path and which audio sources it carries.
pub struct FinalOutcome {
    pub final_muxed_path: Option<String>,
    pub system_audio_included: bool,
    pub mic_included: bool,
}

/// Concludes a stopped recording: with no video there is no final file;
/// with no audio the source video is it; otherwise the mux's output is,
/// and a source counts as included only when the mux succeeded with it.
pub fn conclude_recording(
    plan: FinalPlan,
    source_video_display: String,
    has_system_audio: bool,
    has_mic_audio: bool,
    mux: Option<&MuxResult>,
) -> (r: FinalOutcome)
    ensures
        match plan {
            FinalPlan::NoVideo => r.final_muxed_path is None && !r.system_audio_included
                && !r.mic_included,
            FinalPlan::VideoOnly => r.final_muxed_path == Some(source_video_display)
                && !r.system_audio_included && !r.mic_included,
            FinalPlan::Mux => match mux {
                Some(m) => if m.muxing_success {
                    r.final_muxed_path == m.final_muxed_path && r.system_audio_included
                        == has_system_audio && r.mic_included == has_mic_audio
                } else {
                    r.final_muxed_path is None && !r.system_audio_included && !r.mic_included
                },
                None => r.final_muxed_path is None && !r.system_audio_included && !r.mic_included,
            },
        },
{
    match plan {
        FinalPlan::NoVideo => FinalOutcome {
            final_muxed_path: None,
            system_audio_included: false,
            mic_included: false,
        },
        FinalPlan::VideoOnly => FinalOutcome {
            final_muxed_path: Some(source_video_display),
            system_audio_included: false,
            mic_included: false,
        },
        FinalPlan::Mux => match mux {
            Some(m) => if m.muxing_success {
                FinalOutcome {
                    final_muxed_path: m.final_muxed_path.clone(),
                    system_audio_included: has_system_audio,
                    mic_included: has_mic_audio,
                }
            } else {
                FinalOutcome { final_muxed_path: None, system_audio_included: false, mic_included: false }
            },
            None => FinalOutcome {
                final_muxed_path: None,
                system_audio_included: false,
                mic_included: false,
            },
        },
    }
}

/// Paused time fits inside the recording: for a stopped, well-formed
/// timing it is at least zero and at most the time from the start to the
/// stop, so the active duration is the span less the pauses, never clamped.
pub proof fn law_paused_time_within_recording(t: TimingModel, stop_at: int)
    requires
        timing_wf(t),
        t.2 is None,
        latest_instant(t) <= stop_at,
    ensures
        0 <= paused_total(t.1) <= stop_at - t.0,
        active_duration(t, stop_at) == stop_at - t.0 - paused_total(t.1),
{
    lemma_paused_total_bounded(t.1, t.0 as int);
}

/// Pausing twice is pausing once, and resuming when not paused changes
/// nothing: a double press never records an extra pause.
pub proof fn law_pause_and_resume_are_idempotent(t: TimingModel, a: i64, b: i64)
    ensures
        pause_model(pause_model(t, a), b) == pause_model(t, a),
        t.2 is None ==> resume_model(t, b) == t,
{
}

/// Every completed pause of a well-formed timing can be cut out of the
/// recorded audio: the pauses end no earlier than they start and are
/// ordered, before and after any pause, resume or stop.
pub proof fn law_timing_stays_well_formed(t: TimingModel, now: i64)
    requires
        timing_wf(t),
        latest_instant(t) <= now,
    ensures
        timing_wf(pause_model(t, now)),
        timing_wf(resume_model(t, now)),
        well_formed_spans(resume_model(t, now).1),
        ordered_disjoint(resume_model(t, now).1),
{
    lemma_resume_keeps_wf(t, now);
}

proof fn lemma_resume_keeps_wf(t: TimingModel, now: i64)
    requires
        timing_wf(t),
        latest_instant(t) <= now,
    ensures
        timing_wf(resume_model(t, now)),
        timing_wf(pause_model(t, now)),
{
    match t.2 {
        Some(p) => {
            let s = t.1.push((p, now));
            assert forall|k: int| 0 <= k < s.len() implies #[trigger] s[k].0 <= s[k].1 by {
                if k < t.1.len() {
                    assert(s[k] == t.1[k]);
                }
            }
            assert forall|i: int, j: int| 0 <= i < j < s.len() implies #[trigger] s[i].1
                <= #[trigger] s[j].0 by {
                if j < t.1.len() {
                    assert(s[i] == t.1[i] && s[j] == t.1[j]);
                } else {
                    assert(s[i] == t.1[i]);
                    assert(t.1[i].1 <= t.1.last().1) by {
                        if i < t.1.len() - 1 {
                            assert(t.1[i].1 <= t.1[t.1.len() - 1].0);
                            assert(t.1[t.1.len() - 1].0 <= t.1[t.1.len() - 1].1);
                        }
                    }
                }
            }
            assert forall|k: int| 0 <= k < s.len() implies t.0 <= #[trigger] s[k].0 by {
                if k < t.1.len() {
                    assert(s[k] == t.1[k]);
                }
            }
        },
        None => {},
    }
}

} // verus!
