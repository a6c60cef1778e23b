use vstd::prelude::*;

verus! {

/// The speech rate used until the user picks another.
pub const DEFAULT_SPEECH_RATE: i32 = 2;

/// The speech volume used until the user picks another.
pub const DEFAULT_SPEECH_VOLUME: u16 = 100;

/// The slowest speech rate the voice accepts.
pub const MIN_SPEECH_RATE: i32 = -10;

/// The fastest speech rate the voice accepts.
pub const MAX_SPEECH_RATE: i32 = 10;

/// The loudest speech volume the voice accepts.
pub const MAX_SPEECH_VOLUME: u16 = 100;

/// The output channel and speech settings that persist across restarts.
#[derive(Clone, Debug)]
pub struct OutputSettings {
    pub speak_outside_app: bool,
    pub show_notifications: bool,
    pub speech_voice_id: Option<String>,
    pub speech_rate: i32,
    pub speech_volume: u16,
}

/// Notifications are shown unless a stored setting says otherwise.
pub fn default_true() -> (r: bool)
    ensures
        r,
{
    true
}

/// The rate a stored setting without one gets.
pub fn default_rate() -> (r: i32)
    ensures
        r == DEFAULT_SPEECH_RATE,
{
    DEFAULT_SPEECH_RATE
}

/// The volume a stored setting without one gets.
pub fn default_volume() -> (r: u16)
    ensures
        r == DEFAULT_SPEECH_VOLUME,
{
    DEFAULT_SPEECH_VOLUME
}

impl Default for OutputSettings {
    /// Speaking outside the app is off until the user turns it on;
    /// notifications are on; the system voice at rate 2 and volume 100.
    fn default() -> (r: OutputSettings)
        ensures
            !r.speak_outside_app,
            r.show_notifications,
            r.speech_voice_id is None,
            r.speech_rate == DEFAULT_SPEECH_RATE,
            r.speech_volume == DEFAULT_SPEECH_VOLUME,
    {
        OutputSettings {
            speak_outside_app: false,
            show_notifications: default_true(),
            speech_voice_id: None,
            speech_rate: default_rate(),
            speech_volume: default_volume(),
        }
    }
}

/// `rate` held to the voice's range, -10 to +10.
pub open spec fn clamped_rate(rate: i32) -> i32 {
    if rate < MIN_SPEECH_RATE {
        MIN_SPEECH_RATE
    } else if rate > MAX_SPEECH_RATE {
        MAX_SPEECH_RATE
    } else {
        rate
    }
}

/// `volume` held to the voice's range, 0 to 100.
pub open spec fn clamped_volume(volume: u16) -> u16 {
    if volume > MAX_SPEECH_VOLUME {
        MAX_SPEECH_VOLUME
    } else {
        volume
    }
}

/// Holds a requested speech rate to the range the voice accepts.
pub fn clamp_speech_rate(rate: i32) -> (r: i32)
    ensures
        r == clamped_rate(rate),
{
    if rate < MIN_SPEECH_RATE {
        MIN_SPEECH_RATE
    } else if rate > MAX_SPEECH_RATE {
        MAX_SPEECH_RATE
    } else {
        rate
    }
}

/// Holds a requested speech volume to the range the voice accepts.
pub fn clamp_speech_volume(volume: u16) -> (r: u16)
    ensures
        r == clamped_volume(volume),
{
    if volume > MAX_SPEECH_VOLUME {
        MAX_SPEECH_VOLUME
    } else {
        volume
    }
}

/// Turns speaking status outside the app on or off; returns the new value.
pub fn set_speak_outside_app(settings: &mut OutputSettings, enabled: bool) -> (r: bool)
    ensures
        r == enabled,
        final(settings).speak_outside_app == enabled,
        final(settings).show_notifications == old(settings).show_notifications,
        final(settings).speech_voice_id == old(settings).speech_voice_id,
        final(settings).speech_rate == old(settings).speech_rate,
        final(settings).speech_volume == old(settings).speech_volume,
{
    settings.speak_outside_app = enabled;
    settings.speak_outside_app
}

/// Turns notifications on or off; returns the new value.
pub fn set_show_notifications(settings: &mut OutputSettings, enabled: bool) -> (r: bool)
    ensures
        r == enabled,
        final(settings).show_notifications == enabled,
        final(settings).speak_outside_app == old(settings).speak_outside_app,
        final(settings).speech_voice_id == old(settings).speech_voice_id,
        final(settings).speech_rate == old(settings).speech_rate,
        final(settings).speech_volume == old(settings).speech_volume,
{
    settings.show_notifications = enabled;
    settings.show_notifications
}

/// Chooses the voice to speak with (`None` for the system default).
pub fn set_speech_voice(settings: &mut OutputSettings, voice_id: Option<String>)
    ensures
        final(settings).speech_voice_id == voice_id,
        final(settings).speak_outside_app == old(settings).speak_outside_app,
        final(settings).show_notifications == old(settings).show_notifications,
        final(settings).speech_rate == old(settings).speech_rate,
        final(settings).speech_volume == old(settings).speech_volume,
{
    settings.speech_voice_id = voice_id;
}

/// Sets the speech rate, held to -10..=10; returns the rate stored.
pub fn set_speech_rate(settings: &mut OutputSettings, rate: i32) -> (r: i32)
    ensures
        r == clamped_rate(rate),
        final(settings).speech_rate == r,
        final(settings).speak_outside_app == old(settings).speak_outside_app,
        final(settings).show_notifications == old(settings).show_notifications,
        final(settings).speech_voice_id == old(settings).speech_voice_id,
        final(settings).speech_volume == old(settings).speech_volume,
{
    let clamped = clamp_speech_rate(rate);
    settings.speech_rate = clamped;
    clamped
}

/// Sets the speech volume, held to 0..=100; returns the volume stored.
pub fn set_speech_volume(settings: &mut OutputSettings, volume: u16) -> (r: u16)
    ensures
        r == clamped_volume(volume),
        final(settings).speech_volume == r,
        final(settings).speak_outside_app == old(settings).speak_outside_app,
        final(settings).show_notifications == old(settings).show_notifications,
        final(settings).speech_voice_id == old(settings).speech_voice_id,
        final(settings).speech_rate == old(settings).speech_rate,
{
    let clamped = clamp_speech_volume(volume);
    settings.speech_volume = clamped;
    clamped
}

/// A stored rate is always in the voice's range, a rate already in range
/// is kept as it is, and clamping twice changes nothing more.
pub proof fn law_rate_clamp(rate: i32)
    ensures
        MIN_SPEECH_RATE <= clamped_rate(rate) <= MAX_SPEECH_RATE,
        MIN_SPEECH_RATE <= rate <= MAX_SPEECH_RATE ==> clamped_rate(rate) == rate,
        clamped_rate(clamped_rate(rate)) == clamped_rate(rate),
{
}

/// A stored volume is always at most 100, a volume in range is kept as it
/// is, and clamping twice changes nothing more.
pub proof fn law_volume_clamp(volume: u16)
    ensures
        clamped_volume(volume) <= MAX_SPEECH_VOLUME,
        volume <= MAX_SPEECH_VOLUME ==> clamped_volume(volume) == volume,
        clamped_volume(clamped_volume(volume)) == clamped_volume(volume),
{
}

} // verus!
