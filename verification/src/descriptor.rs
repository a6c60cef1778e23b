use vstd::prelude::*;
use crate::capture_context::{context_key, spec_context_key, CaptureContext};

verus! {

/// The Capture Context Descriptor's session state: whether it is on (off
/// until the user turns it on; not kept across restarts), and the key of
/// the context it last reported, so the same context is not announced
/// twice.
pub struct DescriptorState {
    pub enabled: bool,
    pub last_key: Option<String>,
}

/// The descriptor state as Verus reasons about it: enabled, and the last
/// reported key.
pub type DescriptorModel = (bool, Option<Seq<char>>);

impl View for DescriptorState {
    type V = DescriptorModel;

    open spec fn view(&self) -> DescriptorModel {
        (self.enabled, crate::audio::opt_chars(self.last_key))
    }
}

/// One tick of the background watcher, given the key of the current
/// foreground context (`None` when there is no foreground window): the next
/// state, and whether the context is announced. Nothing happens while the
/// descriptor is off or without a foreground window, or when the key is the
/// one last reported.
pub open spec fn tick_model(s: DescriptorModel, key: Option<Seq<char>>) -> (DescriptorModel, bool) {
    if !s.0 {
        (s, false)
    } else {
        match key {
            None => (s, false),
            Some(k) => if s.1 == Some(k) {
                (s, false)
            } else {
                ((s.0, Some(k)), true)
            },
        }
    }
}

/// Turning the descriptor on or off: turning it on forgets what was last
/// reported, so the current window is described afresh.
pub open spec fn set_enabled_model(s: DescriptorModel, enabled: bool) -> DescriptorModel {
    if enabled {
        (true, None)
    } else {
        (false, s.1)
    }
}

/// Reporting a context at capture time marks its key as reported.
pub open spec fn mark_model(s: DescriptorModel, key: Seq<char>) -> DescriptorModel {
    (s.0, Some(key))
}

pub open spec fn context_result_key(context: Result<CaptureContext, String>) -> Option<Seq<char>> {
    match context {
        Ok(c) => Some(spec_context_key(c)),
        Err(_) => None,
    }
}

impl DescriptorState {
    /// The state at startup: off, nothing reported.
    pub fn new() -> (r: DescriptorState)
        ensures
            r@ == (false, None::<Seq<char>>),
    {
        DescriptorState { enabled: false, last_key: None }
    }
}

impl Default for DescriptorState {
    fn default() -> (r: DescriptorState)
        ensures
            r@ == (false, None::<Seq<char>>),
    {
        DescriptorState::new()
    }
}

/// Whether the descriptor is on.
pub fn get_descriptor_enabled(state: &DescriptorState) -> (r: bool)
    ensures
        r == state@.0,
{
    state.enabled
}

/// Turns the descriptor on or off and answers the new setting.
pub fn set_descriptor_enabled(state: &mut DescriptorState, enabled: bool) -> (r: bool)
    ensures
        r == enabled,
        final(state)@ == set_enabled_model(old(state)@, enabled),
{
    state.enabled = enabled;
    if enabled {
        state.last_key = None;
    }
    enabled
}

/// Hands back the context just read at capture time, first recording it as
/// reported so the watcher does not announce it again moments later; a
/// failure to read it is passed on and changes nothing.
pub fn get_context_and_mark_reported(state: &mut DescriptorState, context: Result<CaptureContext, String>) -> (r: Result<CaptureContext, String>)
    ensures
        r == context,
        match context {
            Ok(c) => final(state)@ == mark_model(old(state)@, spec_context_key(c)),
            Err(_) => final(state)@ == old(state)@,
        },
{
    match context {
        Ok(c) => {
            let key = context_key(&c);
            state.last_key = Some(key);
            Ok(c)
        },
        Err(e) => Err(e),
    }
}

/// One tick of the background watcher: given the current foreground
/// context (or the failure to read one), the context to announce, if any.
pub fn watcher_tick(state: &mut DescriptorState, context: Result<CaptureContext, String>) -> (r: Option<CaptureContext>)
    ensures
        final(state)@ == tick_model(old(state)@, context_result_key(context)).0,
        r is Some == tick_model(old(state)@, context_result_key(context)).1,
        r is Some ==> context == Ok::<CaptureContext, String>(r->0),
{
    if !state.enabled {
        return None;
    }
    match context {
        Err(_) => None,
        Ok(c) => {
            let key = context_key(&c);
            let same = match &state.last_key {
                Some(last) => crate::text::str_eq(last.as_str(), key.as_str()),
                None => false,
            };
            if same {
                None
            } else {
                state.last_key = Some(key);
                Some(c)
            }
        },
    }
}

/// While the descriptor is off, the watcher announces nothing and its
/// state stays as it was.
pub proof fn law_disabled_watcher_is_silent(s: DescriptorModel, key: Option<Seq<char>>)
    requires
        !s.0,
    ensures
        tick_model(s, key) == (s, false),
{
}

/// A context just announced is not announced again while it stays the
/// same: the next tick with the same key is silent.
pub proof fn law_no_repeated_announcement(s: DescriptorModel, key: Seq<char>)
    requires
        tick_model(s, Some(key)).1,
    ensures
        !tick_model(tick_model(s, Some(key)).0, Some(key)).1,
{
}

/// A tick without a foreground window (as while focus moves between
/// windows) announces nothing and leaves the state as it was, the last
/// reported context included.
pub proof fn law_missing_window_changes_nothing(s: DescriptorModel)
    ensures
        tick_model(s, None) == (s, false),
{
}

/// A context announced once is not announced again when the foreground
/// window is briefly missing and then comes back unchanged: of the three
/// ticks with `key`, none and `key` again, only the first can announce.
pub proof fn law_brief_focus_loss_not_reannounced(s: DescriptorModel, key: Seq<char>)
    ensures
        ({
            let (s1, first) = tick_model(s, Some(key));
            let (s2, second) = tick_model(s1, None);
            let (s3, third) = tick_model(s2, Some(key));
            &&& !second
            &&& !third
            &&& s3 == s1
        }),
{
}

/// Turning the descriptor on always describes the current window afresh:
/// the first tick with a foreground window announces it.
pub proof fn law_enabling_announces_current_window(s: DescriptorModel, key: Seq<char>)
    ensures
        tick_model(set_enabled_model(s, true), Some(key)).1,
{
}

/// A context reported at capture time is not announced again by the
/// watcher while it stays the same.
pub proof fn law_reported_context_not_repeated(s: DescriptorModel, key: Seq<char>)
    ensures
        !tick_model(mark_model(s, key), Some(key)).1,
{
}

/// Turning the descriptor off stops announcements until it is turned on
/// again.
pub proof fn law_disabling_silences(s: DescriptorModel, key: Option<Seq<char>>)
    ensures
        !tick_model(set_enabled_model(s, false), key).1,
{
}

} // verus!
