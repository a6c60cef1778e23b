use vstd::prelude::*;
use crate::text::{chars_eq_str, decimal, push_decimal, push_str, spec_lowercase, spec_char_uppercase, spec_debug_str};

verus! {

/// How far apart, in pixels, two window edges may be and still count as
/// touching: the invisible resize border of Windows 10/11 windows.
pub const EDGE_TOLERANCE_PX: i32 = 8;

/// A screen rectangle in pixels, as Win32's `RECT` gives it.
#[derive(Clone, Copy, Debug, PartialEq, Eq, Structural)]
pub struct Rect {
    pub left: i32,
    pub top: i32,
    pub right: i32,
    pub bottom: i32,
}

pub open spec fn width(r: Rect) -> int {
    r.right - r.left
}

pub open spec fn height(r: Rect) -> int {
    r.bottom - r.top
}

/// The width and height of `r` fit in an `i32`.
pub open spec fn extent_fits(r: Rect) -> bool {
    i32::MIN <= width(r) <= i32::MAX && i32::MIN <= height(r) <= i32::MAX
}

/// `a` and `b` differ by at most `tolerance`.
pub open spec fn near(a: int, b: int, tolerance: int) -> bool {
    -tolerance <= a - b <= tolerance
}

/// Whether `a` and `b` differ by at most `tolerance`.
pub fn approx_eq(a: i32, b: i32, tolerance: i32) -> (r: bool)
    requires
        i32::MIN < a - b <= i32::MAX,
    ensures
        r == near(a as int, b as int, tolerance as int),
{
    let d = a - b;
    if d < 0 {
        -d <= tolerance
    } else {
        d <= tolerance
    }
}

pub fn rect_width(rect: &Rect) -> (r: i32)
    requires
        i32::MIN <= width(*rect) <= i32::MAX,
    ensures
        r == width(*rect),
{
    rect.right - rect.left
}

pub fn rect_height(rect: &Rect) -> (r: i32)
    requires
        i32::MIN <= height(*rect) <= i32::MAX,
    ensures
        r == height(*rect),
{
    rect.bottom - rect.top
}

/// Each edge of `window` can be compared with the same edge of `monitor`
/// without overflow.
pub open spec fn edges_comparable(window: Rect, monitor: Rect) -> bool {
    &&& i32::MIN < window.left - monitor.left <= i32::MAX
    &&& i32::MIN < window.top - monitor.top <= i32::MAX
    &&& i32::MIN < window.right - monitor.right <= i32::MAX
    &&& i32::MIN < window.bottom - monitor.bottom <= i32::MAX
}

pub open spec fn at_least(x: int, lo: int) -> int {
    if x < lo { lo } else { x }
}

/// `10 * a / b` rounded to the nearest whole number, halves rounding up.
pub open spec fn rounded_tenths(a: nat, b: nat) -> int {
    ((20 * a + b) / (2 * b)) as int
}

/// The wording for "roughly N percent" of the screen.
pub open spec fn percent_words(n: nat) -> Seq<char> {
    "roughly "@ + decimal(n) + " percent"@
}

/// How much of `monitor` the window `window` covers: whether it fills
/// the screen (at least nine tenths of its area), and otherwise which half
/// or quarter it occupies (as Windows Snap places windows, within the edge
/// tolerance), or else roughly what percentage of the area it covers,
/// rounded to the nearest ten between 10 and 90.
pub open spec fn spec_describe_portion(window: Rect, monitor: Rect) -> (bool, Option<Seq<char>>) {
    let mw = at_least(width(monitor), 1);
    let mh = at_least(height(monitor), 1);
    let ww = at_least(width(window), 0);
    let wh = at_least(height(window), 0);
    if 10 * (ww * wh) >= 9 * (mw * mh) {
        (true, None)
    } else {
        let t = EDGE_TOLERANCE_PX as int;
        let is_left = near(window.left as int, monitor.left as int, t);
        let is_right = near(window.right as int, monitor.right as int, t);
        let is_top = near(window.top as int, monitor.top as int, t);
        let is_bottom = near(window.bottom as int, monitor.bottom as int, t);
        let full_height = near(wh, mh, 2 * t);
        let full_width = near(ww, mw, 2 * t);
        let half_width = near(ww, mw / 2, 2 * t);
        let half_height = near(wh, mh / 2, 2 * t);
        if half_width && full_height && is_left {
            (false, Some("the left half"@))
        } else if half_width && full_height && is_right {
            (false, Some("the right half"@))
        } else if half_height && full_width && is_top {
            (false, Some("the top half"@))
        } else if half_height && full_width && is_bottom {
            (false, Some("the bottom half"@))
        } else if half_width && half_height && (is_top || is_bottom) && (is_left || is_right) {
            let vertical = if is_top { "top"@ } else { "bottom"@ };
            let horizontal = if is_left { "left"@ } else { "right"@ };
            (false, Some("the "@ + vertical + "-"@ + horizontal + " quarter"@))
        } else {
            let r = rounded_tenths((ww * wh) as nat, (mw * mh) as nat);
            let clamped = if r < 1 { 1 } else if r > 9 { 9 } else { r };
            (false, Some(percent_words((clamped * 10) as nat)))
        }
    }
}

/// Describes how much of `monitor` the window `window` covers; see
/// `spec_describe_portion`.
pub fn describe_portion(window: &Rect, monitor: &Rect) -> (r: (bool, Option<String>))
    requires
        extent_fits(*window),
        extent_fits(*monitor),
        edges_comparable(*window, *monitor),
    ensures
        r.0 == spec_describe_portion(*window, *monitor).0,
        crate::audio::opt_chars(r.1) == spec_describe_portion(*window, *monitor).1,
{
    let mw0 = rect_width(monitor);
    let mh0 = rect_height(monitor);
    let ww0 = rect_width(window);
    let wh0 = rect_height(window);
    let mw: i32 = if mw0 < 1 { 1 } else { mw0 };
    let mh: i32 = if mh0 < 1 { 1 } else { mh0 };
    let ww: i32 = if ww0 < 0 { 0 } else { ww0 };
    let wh: i32 = if wh0 < 0 { 0 } else { wh0 };
    let wwu = ww as u128;
    let whu = wh as u128;
    let mwu = mw as u128;
    let mhu = mh as u128;
    assert(wwu * whu <= 0x4000_0000_0000_0000) by (nonlinear_arith)
        requires
            0 <= wwu <= 0x7fff_ffff,
            0 <= whu <= 0x7fff_ffff,
    ;
    assert(1 <= mwu * mhu <= 0x4000_0000_0000_0000) by (nonlinear_arith)
        requires
            1 <= mwu <= 0x7fff_ffff,
            1 <= mhu <= 0x7fff_ffff,
    ;
    let a: u128 = wwu * whu;
    let b: u128 = mwu * mhu;
    if 10 * a >= 9 * b {
        return (true, None);
    }
    let tol = EDGE_TOLERANCE_PX;
    let half_w = mw / 2;
    let half_h = mh / 2;
    let is_left = approx_eq(window.left, monitor.left, tol);
    let is_right = approx_eq(window.right, monitor.right, tol);
    let is_top = approx_eq(window.top, monitor.top, tol);
    let is_bottom = approx_eq(window.bottom, monitor.bottom, tol);
    let full_height = approx_eq(wh, mh, tol * 2);
    let full_width = approx_eq(ww, mw, tol * 2);
    let half_width_match = approx_eq(ww, half_w, tol * 2);
    let half_height_match = approx_eq(wh, half_h, tol * 2);
    if half_width_match && full_height {
        if is_left {
            return (false, Some(String::from_str("the left half")));
        }
        if is_right {
            return (false, Some(String::from_str("the right half")));
        }
    }
    if half_height_match && full_width {
        if is_top {
            return (false, Some(String::from_str("the top half")));
        }
        if is_bottom {
            return (false, Some(String::from_str("the bottom half")));
        }
    }
    if half_width_match && half_height_match && (is_top || is_bottom) && (is_left || is_right) {
        let mut s = String::new();
        push_str(&mut s, "the ");
        if is_top {
            push_str(&mut s, "top");
        } else {
            push_str(&mut s, "bottom");
        }
        push_str(&mut s, "-");
        if is_left {
            push_str(&mut s, "left");
        } else {
            push_str(&mut s, "right");
        }
        push_str(&mut s, " quarter");
        return (false, Some(s));
    }
    let rounded: u128 = (20 * a + b) / (2 * b);
    let clamped: u128 = if rounded < 1 { 1 } else if rounded > 9 { 9 } else { rounded };
    let mut s = String::new();
    push_str(&mut s, "roughly ");
    push_decimal(&mut s, clamped * 10);
    push_str(&mut s, " percent");
    (false, Some(s))
}

proof fn lemma_portion_words()
    ensures
        "the "@ + "top"@ + "-"@ + "left"@ + " quarter"@ == "the top-left quarter"@,
        "the "@ + "top"@ + "-"@ + "right"@ + " quarter"@ == "the top-right quarter"@,
        "the "@ + "bottom"@ + "-"@ + "left"@ + " quarter"@ == "the bottom-left quarter"@,
        "the "@ + "bottom"@ + "-"@ + "right"@ + " quarter"@ == "the bottom-right quarter"@,
        "the top-left quarter"@.len() == 20,
        "the top-right quarter"@.len() == 21,
        "the bottom-left quarter"@.len() == 23,
        "the bottom-right quarter"@.len() == 24,
        "the left half"@.len() == 13,
        "the right half"@.len() == 14,
        "the top half"@.len() == 12,
        "the bottom half"@.len() == 15,
        "the top-left quarter"@[0] == 't',
        "the top-right quarter"@[0] == 't',
        "the bottom-left quarter"@[0] == 't',
        "the bottom-right quarter"@[0] == 't',
        forall|n: nat| (#[trigger] percent_words(n))[0] == 'r',
{
    reveal_strlit("the ");
    reveal_strlit("top");
    reveal_strlit("bottom");
    reveal_strlit("-");
    reveal_strlit("left");
    reveal_strlit("right");
    reveal_strlit(" quarter");
    reveal_strlit("the top-left quarter");
    reveal_strlit("the top-right quarter");
    reveal_strlit("the bottom-left quarter");
    reveal_strlit("the bottom-right quarter");
    reveal_strlit("the left half");
    reveal_strlit("the right half");
    reveal_strlit("the top half");
    reveal_strlit("the bottom half");
    reveal_strlit("roughly ");
    assert("the "@ + "top"@ + "-"@ + "left"@ + " quarter"@ =~= "the top-left quarter"@);
    assert("the "@ + "top"@ + "-"@ + "right"@ + " quarter"@ =~= "the top-right quarter"@);
    assert("the "@ + "bottom"@ + "-"@ + "left"@ + " quarter"@ =~= "the bottom-left quarter"@);
    assert("the "@ + "bottom"@ + "-"@ + "right"@ + " quarter"@ =~= "the bottom-right quarter"@);
    assert forall|n: nat| (#[trigger] percent_words(n))[0] == 'r' by {
        assert(percent_words(n)[0] == ("roughly "@ + decimal(n))[0]);
    }
}

/// When a window is described as a quarter of the screen, the words name
/// the edges it touches: "left" exactly when its left edge lies within the
/// edge tolerance of the monitor's left edge (else it touches the right
/// edge), and "top" exactly when its top edge lies within the tolerance of
/// the monitor's top edge (else it touches the bottom edge).
pub proof fn law_quarter_names_touched_edges(window: Rect, monitor: Rect)
    ensures
        ({
            let t = EDGE_TOLERANCE_PX as int;
            let at_left = near(window.left as int, monitor.left as int, t);
            let at_right = near(window.right as int, monitor.right as int, t);
            let at_top = near(window.top as int, monitor.top as int, t);
            let at_bottom = near(window.bottom as int, monitor.bottom as int, t);
            let portion = spec_describe_portion(window, monitor).1;
            &&& portion == Some("the top-left quarter"@) ==> at_left && at_top
            &&& portion == Some("the top-right quarter"@) ==> !at_left && at_right && at_top
            &&& portion == Some("the bottom-left quarter"@) ==> at_left && !at_top && at_bottom
            &&& portion == Some("the bottom-right quarter"@) ==> !at_left && at_right && !at_top
                && at_bottom
        }),
{
    lemma_portion_words();
}

/// A window of half the monitor's width and height placed in one of its
/// corners (on a monitor at least 100 pixels each way) is described as
/// that corner's quarter, named by the edges it touches.
pub proof fn law_corner_window_is_that_quarter(monitor: Rect, at_left: bool, at_top: bool)
    requires
        width(monitor) >= 100,
        height(monitor) >= 100,
    ensures
        ({
            let hw = width(monitor) / 2;
            let hh = height(monitor) / 2;
            let left = if at_left { monitor.left as int } else { monitor.right - hw };
            let top = if at_top { monitor.top as int } else { monitor.bottom - hh };
            let window = Rect {
                left: left as i32,
                top: top as i32,
                right: (left + hw) as i32,
                bottom: (top + hh) as i32,
            };
            spec_describe_portion(window, monitor) == (false, Some(
                "the "@ + (if at_top { "top"@ } else { "bottom"@ }) + "-"@ + (if at_left {
                    "left"@
                } else {
                    "right"@
                }) + " quarter"@,
            ))
        }),
{
    let mw = width(monitor);
    let mh = height(monitor);
    let hw = mw / 2;
    let hh = mh / 2;
    assert(10 * (hw * hh) < 9 * (mw * mh)) by (nonlinear_arith)
        requires
            mw >= 100,
            mh >= 100,
            hw == mw / 2,
            hh == mh / 2,
    ;
}

} // verus!

verus! {

/// A concise account of the foreground window: application, title, state
/// (`minimized`, `fullscreen`, `maximized` or `restored`), which monitor it
/// is on and that monitor's size, the window's size, whether it fills the
/// screen or which portion it covers, whether it extends past the monitor,
/// and what a capture takes (always the whole monitor).
pub struct CaptureContext {
    pub app_name: String,
    pub window_title: String,
    pub state: String,
    pub monitor_number: Option<u32>,
    pub monitor_width: Option<i32>,
    pub monitor_height: Option<i32>,
    pub window_width: Option<i32>,
    pub window_height: Option<i32>,
    pub fills_screen: Option<bool>,
    pub portion: Option<String>,
    pub extends_beyond_monitor: Option<bool>,
    /// What a capture takes: always the entire monitor.
    pub capture_target: String,
}

/// How Windows reports a window's placement (`showCmd`).
#[derive(Clone, Copy, Debug, PartialEq, Eq, Structural)]
pub enum ShowState {
    Minimized,
    Maximized,
    Other,
}

/// The monitor a window is on: its position in enumeration order
/// (counting from 1) and its rectangle.
#[derive(Clone, Copy, Debug, PartialEq, Eq, Structural)]
pub struct MonitorMatch {
    pub number: u32,
    pub rect: Rect,
}

/// The window's rectangle coincides with the monitor's, within the edge
/// tolerance: a borderless full-screen window.
pub open spec fn fullscreen_geometry(window: Rect, monitor: Rect) -> bool {
    let t = EDGE_TOLERANCE_PX as int;
    near(window.left as int, monitor.left as int, t) && near(window.top as int, monitor.top as int, t)
        && near(window.right as int, monitor.right as int, t) && near(window.bottom as int, monitor.bottom as int, t)
}

/// Some edge of the window lies more than the tolerance outside the monitor.
pub open spec fn beyond_monitor(window: Rect, monitor: Rect) -> bool {
    let t = EDGE_TOLERANCE_PX as int;
    window.left < monitor.left - t || window.top < monitor.top - t || window.right > monitor.right + t
        || window.bottom > monitor.bottom + t
}

/// The inputs can be measured and compared without overflow.
pub open spec fn context_inputs_ok(window: Rect, monitor: Option<MonitorMatch>) -> bool {
    &&& extent_fits(window)
    &&& match monitor {
        Some(m) => {
            &&& extent_fits(m.rect)
            &&& edges_comparable(window, m.rect)
            &&& m.rect.left - EDGE_TOLERANCE_PX >= i32::MIN
            &&& m.rect.top - EDGE_TOLERANCE_PX >= i32::MIN
            &&& m.rect.right + EDGE_TOLERANCE_PX <= i32::MAX
            &&& m.rect.bottom + EDGE_TOLERANCE_PX <= i32::MAX
        },
        None => true,
    }
}

/// The state word for a window that is not minimized.
pub open spec fn state_word(show: ShowState, window: Rect, monitor: Option<MonitorMatch>) -> Seq<char> {
    if show == ShowState::Minimized {
        "minimized"@
    } else if monitor matches Some(m) && fullscreen_geometry(window, m.rect) {
        "fullscreen"@
    } else if show == ShowState::Maximized {
        "maximized"@
    } else {
        "restored"@
    }
}

/// Assembles the capture context of a foreground window from what Windows
/// reports about it. A minimized window is described by name, title and
/// state alone; otherwise its sizes and its placement on its monitor are
/// filled in (the monitor's part only when its monitor was found).
pub fn capture_context_from_window(
    app_name: String,
    window_title: String,
    show_state: ShowState,
    window_rect: Rect,
    monitor: Option<MonitorMatch>,
) -> (r: CaptureContext)
    requires
        context_inputs_ok(window_rect, monitor),
    ensures
        r.app_name == app_name,
        r.window_title == window_title,
        r.state@ == state_word(show_state, window_rect, monitor),
        r.capture_target@ == "entire monitor"@,
        show_state == ShowState::Minimized ==> {
            &&& r.monitor_number is None && r.monitor_width is None && r.monitor_height is None
            &&& r.window_width is None && r.window_height is None && r.fills_screen is None
            &&& r.portion is None && r.extends_beyond_monitor is None
        },
        show_state != ShowState::Minimized ==> {
            &&& r.window_width == Some(width(window_rect) as i32)
            &&& r.window_height == Some(height(window_rect) as i32)
            &&& match monitor {
                None => r.monitor_number is None && r.monitor_width is None && r.monitor_height is None
                    && r.fills_screen is None && r.portion is None && r.extends_beyond_monitor is None,
                Some(m) => {
                    &&& r.monitor_number == Some(m.number)
                    &&& r.monitor_width == Some(width(m.rect) as i32)
                    &&& r.monitor_height == Some(height(m.rect) as i32)
                    &&& r.fills_screen == Some(spec_describe_portion(window_rect, m.rect).0 || fullscreen_geometry(window_rect, m.rect))
                    &&& crate::audio::opt_chars(r.portion) == spec_describe_portion(window_rect, m.rect).1
                    &&& r.extends_beyond_monitor == Some(beyond_monitor(window_rect, m.rect))
                },
            }
        },
{
    if show_state == ShowState::Minimized {
        return CaptureContext {
            app_name,
            window_title,
            state: String::from_str("minimized"),
            monitor_number: None,
            monitor_width: None,
            monitor_height: None,
            window_width: None,
            window_height: None,
            fills_screen: None,
            portion: None,
            extends_beyond_monitor: None,
            capture_target: String::from_str("entire monitor"),
        };
    }
    let t = EDGE_TOLERANCE_PX;
    let is_fullscreen_geometry = match &monitor {
        Some(m) => approx_eq(window_rect.left, m.rect.left, t) && approx_eq(window_rect.top, m.rect.top, t)
            && approx_eq(window_rect.right, m.rect.right, t) && approx_eq(window_rect.bottom, m.rect.bottom, t),
        None => false,
    };
    let state = if is_fullscreen_geometry {
        String::from_str("fullscreen")
    } else if show_state == ShowState::Maximized {
        String::from_str("maximized")
    } else {
        String::from_str("restored")
    };
    let (monitor_number, monitor_width, monitor_height, fills_screen, portion, extends_beyond_monitor) = match &monitor {
        Some(m) => {
            let (fills, portion) = describe_portion(&window_rect, &m.rect);
            let beyond = window_rect.left < m.rect.left - t || window_rect.top < m.rect.top - t
                || window_rect.right > m.rect.right + t || window_rect.bottom > m.rect.bottom + t;
            (Some(m.number), Some(rect_width(&m.rect)), Some(rect_height(&m.rect)), Some(fills || is_fullscreen_geometry), portion, Some(beyond))
        },
        None => (None, None, None, None, None, None),
    };
    CaptureContext {
        app_name,
        window_title,
        state,
        monitor_number,
        monitor_width,
        monitor_height,
        window_width: Some(rect_width(&window_rect)),
        window_height: Some(rect_height(&window_rect)),
        fills_screen,
        portion,
        extends_beyond_monitor,
        capture_target: String::from_str("entire monitor"),
    }
}

/// `{:?}` of an `Option<u32>`.
pub open spec fn debug_opt_u32(o: Option<u32>) -> Seq<char> {
    match o {
        Some(n) => "Some("@ + decimal(n as nat) + ")"@,
        None => "None"@,
    }
}

/// `{:?}` of an `Option<bool>`.
pub open spec fn debug_opt_bool(o: Option<bool>) -> Seq<char> {
    match o {
        Some(true) => "Some(true)"@,
        Some(false) => "Some(false)"@,
        None => "None"@,
    }
}

/// `{:?}` of an `Option<String>`.
pub open spec fn debug_opt_string(o: Option<Seq<char>>) -> Seq<char> {
    match o {
        Some(s) => "Some("@ + spec_debug_str(s) + ")"@,
        None => "None"@,
    }
}

/// The change key of a context: application, title, state, monitor,
/// whether it fills the screen, and the portion it covers, joined by `|`.
pub open spec fn spec_context_key(c: CaptureContext) -> Seq<char> {
    c.app_name@ + "|"@ + c.window_title@ + "|"@ + c.state@ + "|"@ + debug_opt_u32(c.monitor_number) + "|"@
        + debug_opt_bool(c.fills_screen) + "|"@ + debug_opt_string(crate::audio::opt_chars(c.portion))
}

/// A comparable key covering only the fields whose change is worth a fresh
/// announcement: not the window's raw size or position, which change
/// constantly while it is dragged or resized.
pub fn context_key(context: &CaptureContext) -> (r: String)
    ensures
        r@ == spec_context_key(*context),
{
    let mut s = context.app_name.clone();
    push_str(&mut s, "|");
    s.append(context.window_title.as_str());
    push_str(&mut s, "|");
    s.append(context.state.as_str());
    push_str(&mut s, "|");
    match context.monitor_number {
        Some(n) => {
            push_str(&mut s, "Some(");
            push_decimal(&mut s, n as u128);
            push_str(&mut s, ")");
        },
        None => push_str(&mut s, "None"),
    }
    push_str(&mut s, "|");
    match context.fills_screen {
        Some(true) => push_str(&mut s, "Some(true)"),
        Some(false) => push_str(&mut s, "Some(false)"),
        None => push_str(&mut s, "None"),
    }
    push_str(&mut s, "|");
    match &context.portion {
        Some(p) => {
            push_str(&mut s, "Some(");
            let d = crate::text::debug_str(p.as_str());
            s.append(d.as_str());
            push_str(&mut s, ")");
        },
        None => push_str(&mut s, "None"),
    }
    assert(s@ =~= spec_context_key(*context));
    s
}

/// Two contexts that agree on application, title, state, monitor,
/// screen filling and portion have the same key, however their window and
/// monitor sizes, overflow or capture target differ.
pub proof fn law_context_key_ignores_geometry(a: CaptureContext, b: CaptureContext)
    requires
        a.app_name@ == b.app_name@,
        a.window_title@ == b.window_title@,
        a.state@ == b.state@,
        a.monitor_number == b.monitor_number,
        a.fills_screen == b.fills_screen,
        crate::audio::opt_chars(a.portion) == crate::audio::opt_chars(b.portion),
    ensures
        spec_context_key(a) == spec_context_key(b),
{
}

} // verus!

verus! {

/// The product name for a known executable, by its lowercased file stem.
pub open spec fn known_app_name(lower: Seq<char>) -> Option<Seq<char>> {
    if lower == "chrome"@ {
        Some("Chrome"@)
    } else if lower == "msedge"@ {
        Some("Edge"@)
    } else if lower == "firefox"@ {
        Some("Firefox"@)
    } else if lower == "winword"@ {
        Some("Word"@)
    } else if lower == "excel"@ {
        Some("Excel"@)
    } else if lower == "powerpnt"@ {
        Some("PowerPoint"@)
    } else if lower == "outlook"@ {
        Some("Outlook"@)
    } else if lower == "explorer"@ {
        Some("File Explorer"@)
    } else if lower == "notepad"@ {
        Some("Notepad"@)
    } else if lower == "code"@ {
        Some("Visual Studio Code"@)
    } else if lower == "accessible-screen-capture"@ || lower == "accessiblescreencapture"@ {
        Some("AccessibleScreenCapture"@)
    } else {
        None
    }
}

/// The name announced for an executable stem: its product name when known,
/// else the stem with its first character upper-cased, else
/// `Unknown application` for an empty stem.
pub open spec fn spec_friendly_app_name(stem: Seq<char>) -> Seq<char> {
    match known_app_name(spec_lowercase(stem)) {
        Some(name) => name,
        None => if stem.len() == 0 {
            "Unknown application"@
        } else {
            spec_char_uppercase(stem[0]) + stem.drop_first()
        },
    }
}

fn known_name(lower: &Vec<char>) -> (r: Option<&'static str>)
    ensures
        match (r, known_app_name(lower@)) {
            (Some(a), Some(b)) => a@ == b,
            (None, None) => true,
            _ => false,
        },
{
    if chars_eq_str(lower, "chrome") {
        Some("Chrome")
    } else if chars_eq_str(lower, "msedge") {
        Some("Edge")
    } else if chars_eq_str(lower, "firefox") {
        Some("Firefox")
    } else if chars_eq_str(lower, "winword") {
        Some("Word")
    } else if chars_eq_str(lower, "excel") {
        Some("Excel")
    } else if chars_eq_str(lower, "powerpnt") {
        Some("PowerPoint")
    } else if chars_eq_str(lower, "outlook") {
        Some("Outlook")
    } else if chars_eq_str(lower, "explorer") {
        Some("File Explorer")
    } else if chars_eq_str(lower, "notepad") {
        Some("Notepad")
    } else if chars_eq_str(lower, "code") {
        Some("Visual Studio Code")
    } else if chars_eq_str(lower, "accessible-screen-capture") || chars_eq_str(lower, "accessiblescreencapture") {
        Some("AccessibleScreenCapture")
    } else {
        None
    }
}

/// The name announced for the executable stem `exe_stem`.
pub fn friendly_app_name(exe_stem: &str) -> (r: String)
    ensures
        r@ == spec_friendly_app_name(exe_stem@),
{
    let lower_string = crate::text::lowercase(exe_stem);
    let lower = crate::text::chars_of(lower_string.as_str());
    match known_name(&lower) {
        Some(name) => String::from_str(name),
        None => {
            let chars = crate::text::chars_of(exe_stem);
            if chars.len() == 0 {
                String::from_str("Unknown application")
            } else {
                let mut s = crate::text::char_uppercase(chars[0]);
                let rest = crate::text::string_of_range(&chars, 1, chars.len());
                s.append(rest.as_str());
                assert(chars@.subrange(1, chars@.len() as int) =~= chars@.drop_first());
                s
            }
        },
    }
}

/// The part of a path after its last `\` or `/`.
pub open spec fn after_last_separator(path: Seq<char>) -> Seq<char>
    decreases path.len(),
{
    if path.len() == 0 {
        path
    } else if path.last() == '\\' || path.last() == '/' {
        Seq::empty()
    } else {
        after_last_separator(path.drop_last()).push(path.last())
    }
}

/// `s` with every trailing `.exe` removed, as `trim_end_matches(".exe")`
/// gives it.
pub open spec fn strip_exe(s: Seq<char>) -> Seq<char>
    decreases s.len(),
{
    if s.len() >= 4 && s.subrange(s.len() - 4, s.len() as int) == ".exe"@ {
        strip_exe(s.subrange(0, s.len() - 4))
    } else {
        s
    }
}

/// The length of `strip_exe(chars[..n])`.
fn strip_exe_len(chars: &Vec<char>, n: usize) -> (r: usize)
    requires
        n <= chars.len(),
    ensures
        r <= n,
        chars@.subrange(0, r as int) == strip_exe(chars@.subrange(0, n as int)),
    decreases n,
{
    let dot_exe = crate::text::chars_of(".exe");
    if n >= 4 {
        let mut same = true;
        let mut k: usize = 0;
        while k < 4
            invariant
                n >= 4,
                n <= chars.len(),
                dot_exe@ == ".exe"@,
                0 <= k <= 4,
                same == (forall|j: int| 0 <= j < k ==> chars@[n - 4 + j] == dot_exe@[j]),
            decreases 4 - k,
        {
            proof { reveal_strlit(".exe"); }
            if chars[n - 4 + k] != dot_exe[k] {
                same = false;
            }
            k = k + 1;
        }
        let ghost s = chars@.subrange(0, n as int);
        proof {
            reveal_strlit(".exe");
            if same {
                assert(s.subrange(s.len() - 4, s.len() as int) =~= ".exe"@);
            } else {
                let j = choose|j: int| 0 <= j < 4 && chars@[n - 4 + j] != dot_exe@[j];
                assert(s.subrange(s.len() - 4, s.len() as int)[j] != ".exe"@[j]);
            }
            assert(s.subrange(0, s.len() - 4) =~= chars@.subrange(0, n - 4));
        }
        if same {
            return strip_exe_len(chars, n - 4);
        }
    }
    n
}

/// The executable's stem for a full image path: the file name after the
/// last separator, with every trailing `.exe` removed.
pub fn exe_stem(path: &str) -> (r: String)
    ensures
        r@ == strip_exe(after_last_separator(path@)),
{
    let chars = crate::text::chars_of(path);
    let mut start: usize = chars.len();
    assert(chars@.subrange(0, chars@.len() as int) =~= chars@);
    assert(chars@.subrange(chars@.len() as int, chars@.len() as int) =~= Seq::<char>::empty());
    assert(after_last_separator(chars@) =~= after_last_separator(chars@) + Seq::<char>::empty());
    while start > 0 && chars[start - 1] != '\\' && chars[start - 1] != '/'
        invariant
            0 <= start <= chars.len(),
            after_last_separator(chars@) == after_last_separator(chars@.subrange(0, start as int)) + chars@.subrange(start as int, chars@.len() as int),
        decreases start,
    {
        let ghost pre = chars@.subrange(0, start as int);
        assert(pre.drop_last() =~= chars@.subrange(0, start - 1));
        assert(chars@.subrange(start - 1, chars@.len() as int) =~= seq![pre.last()] + chars@.subrange(start as int, chars@.len() as int));
        start = start - 1;
    }
    proof {
        let pre = chars@.subrange(0, start as int);
        assert(after_last_separator(pre) =~= Seq::empty());
        assert(chars@.subrange(0, chars@.len() as int) =~= chars@);
    }
    let mut tail: Vec<char> = Vec::new();
    let mut k = start;
    while k < chars.len()
        invariant
            start <= k <= chars.len(),
            tail@ == chars@.subrange(start as int, k as int),
        decreases chars.len() - k,
    {
        tail.push(chars[k]);
        k = k + 1;
    }
    let n = strip_exe_len(&tail, tail.len());
    assert(tail@.subrange(0, tail@.len() as int) =~= tail@);
    crate::text::string_of_range(&tail, 0, n)
}

/// The application name announced for a process whose executable image is
/// at `image_path`; without a path (no process, or it could not be
/// queried), `Unknown application`.
pub fn app_name_for_image(image_path: Option<&str>) -> (r: String)
    ensures
        r@ == match image_path {
            Some(p) => spec_friendly_app_name(strip_exe(after_last_separator(p@))),
            None => "Unknown application"@,
        },
{
    match image_path {
        Some(p) => {
            let stem = exe_stem(p);
            friendly_app_name(stem.as_str())
        },
        None => String::from_str("Unknown application"),
    }
}

} // verus!
