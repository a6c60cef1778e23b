use accessible_screen_capture::capture_context::{
    app_name_for_image, approx_eq, capture_context_from_window, context_key, describe_portion,
    exe_stem, friendly_app_name, rect_height, rect_width, CaptureContext, MonitorMatch, Rect,
    ShowState,
};
use accessible_screen_capture::descriptor::{
    get_context_and_mark_reported, get_descriptor_enabled, set_descriptor_enabled, watcher_tick,
    DescriptorState,
};

fn rect(left: i32, top: i32, right: i32, bottom: i32) -> Rect {
    Rect { left, top, right, bottom }
}

fn screen() -> Rect {
    rect(0, 0, 1920, 1080)
}

fn context(app: &str, title: &str) -> CaptureContext {
    capture_context_from_window(
        app.to_string(),
        title.to_string(),
        ShowState::Other,
        rect(0, 0, 960, 1080),
        Some(MonitorMatch { number: 1, rect: screen() }),
    )
}

#[test]
fn tolerance_comparison() {
    assert!(approx_eq(100, 108, 8));
    assert!(approx_eq(108, 100, 8));
    assert!(!approx_eq(100, 109, 8));
}

#[test]
fn rectangle_sizes() {
    assert_eq!(rect_width(&rect(10, 20, 110, 70)), 100);
    assert_eq!(rect_height(&rect(10, 20, 110, 70)), 50);
}

#[test]
fn window_filling_the_screen() {
    assert_eq!(describe_portion(&screen(), &screen()), (true, None));
    assert_eq!(describe_portion(&rect(0, 0, 1900, 1000), &screen()), (true, None));
}

#[test]
fn snapped_halves() {
    assert_eq!(describe_portion(&rect(0, 0, 960, 1080), &screen()), (false, Some("the left half".to_string())));
    assert_eq!(describe_portion(&rect(960, 0, 1920, 1080), &screen()), (false, Some("the right half".to_string())));
    assert_eq!(describe_portion(&rect(0, 0, 1920, 540), &screen()), (false, Some("the top half".to_string())));
    assert_eq!(describe_portion(&rect(-7, 540, 1927, 1087), &screen()), (false, Some("the bottom half".to_string())));
}

#[test]
fn snapped_quarters() {
    assert_eq!(describe_portion(&rect(960, 0, 1920, 540), &screen()), (false, Some("the top-right quarter".to_string())));
    assert_eq!(describe_portion(&rect(0, 540, 960, 1080), &screen()), (false, Some("the bottom-left quarter".to_string())));
}

#[test]
fn floating_window_is_described_by_area() {
    // 800 x 600 of 1920 x 1080 is about 23 percent.
    assert_eq!(describe_portion(&rect(100, 100, 900, 700), &screen()), (false, Some("roughly 20 percent".to_string())));
    // A tiny window still reports at least 10 percent.
    assert_eq!(describe_portion(&rect(0, 0, 10, 10), &screen()), (false, Some("roughly 10 percent".to_string())));
    // 1800 x 960 is about 83 percent.
    assert_eq!(describe_portion(&rect(60, 60, 1860, 1020), &screen()), (false, Some("roughly 80 percent".to_string())));
}

#[test]
fn minimized_window_context() {
    let c = capture_context_from_window(
        "Word".to_string(),
        "Report.docx".to_string(),
        ShowState::Minimized,
        rect(0, 0, 10, 10),
        Some(MonitorMatch { number: 2, rect: screen() }),
    );
    assert_eq!(c.state, "minimized");
    assert_eq!(c.monitor_number, None);
    assert_eq!(c.window_width, None);
    assert_eq!(c.portion, None);
    assert_eq!(c.capture_target, "entire monitor");
}

#[test]
fn full_screen_geometry_counts_as_fullscreen() {
    let c = capture_context_from_window(
        "Chrome".to_string(),
        "Video".to_string(),
        ShowState::Other,
        rect(-4, -4, 1924, 1084),
        Some(MonitorMatch { number: 1, rect: screen() }),
    );
    assert_eq!(c.state, "fullscreen");
    assert_eq!(c.fills_screen, Some(true));
    assert_eq!(c.extends_beyond_monitor, Some(false));
    assert_eq!(c.monitor_width, Some(1920));
    assert_eq!(c.window_width, Some(1928));
}

#[test]
fn maximized_and_restored_windows() {
    let maximized = capture_context_from_window(
        "Excel".to_string(),
        "Book1".to_string(),
        ShowState::Maximized,
        rect(0, 0, 1920, 1040),
        None,
    );
    assert_eq!(maximized.state, "maximized");
    assert_eq!(maximized.monitor_number, None);
    assert_eq!(maximized.fills_screen, None);
    let restored = context("Notepad", "a.txt");
    assert_eq!(restored.state, "restored");
    assert_eq!(restored.portion, Some("the left half".to_string()));
    assert_eq!(restored.fills_screen, Some(false));
}

#[test]
fn window_beyond_its_monitor() {
    let c = capture_context_from_window(
        "Code".to_string(),
        "main.rs".to_string(),
        ShowState::Other,
        rect(1500, 100, 2500, 900),
        Some(MonitorMatch { number: 1, rect: screen() }),
    );
    assert_eq!(c.extends_beyond_monitor, Some(true));
}

#[test]
fn context_key_lists_the_meaningful_fields() {
    let c = context("Notepad", "a \"quoted\" title");
    assert_eq!(
        context_key(&c),
        "Notepad|a \"quoted\" title|restored|Some(1)|Some(false)|Some(\"the left half\")"
    );
    let minimized = capture_context_from_window("X".to_string(), "".to_string(), ShowState::Minimized, rect(0, 0, 1, 1), None);
    assert_eq!(context_key(&minimized), "X||minimized|None|None|None");
}

#[test]
fn context_key_ignores_window_size() {
    let a = context("Notepad", "a.txt");
    let mut b = context("Notepad", "a.txt");
    b.window_width = Some(100);
    b.window_height = Some(100);
    b.extends_beyond_monitor = Some(true);
    assert_eq!(context_key(&a), context_key(&b));
}

#[test]
fn friendly_names() {
    assert_eq!(friendly_app_name("chrome"), "Chrome");
    assert_eq!(friendly_app_name("CHROME"), "Chrome");
    assert_eq!(friendly_app_name("WinWord"), "Word");
    assert_eq!(friendly_app_name("accessible-screen-capture"), "AccessibleScreenCapture");
    assert_eq!(friendly_app_name("myTool"), "MyTool");
    assert_eq!(friendly_app_name("ßtool"), "SStool");
    assert_eq!(friendly_app_name(""), "Unknown application");
}

#[test]
fn executable_stems() {
    assert_eq!(exe_stem("C:\\Program Files\\App\\tool.exe"), "tool");
    assert_eq!(exe_stem("C:/apps/double.exe.exe"), "double");
    assert_eq!(exe_stem("plain"), "plain");
    assert_eq!(exe_stem("C:\\dir\\"), "");
}

#[test]
fn application_names_for_images() {
    assert_eq!(app_name_for_image(Some("C:\\Windows\\explorer.exe")), "File Explorer");
    assert_eq!(app_name_for_image(Some("C:\\Tools\\zip.exe")), "Zip");
    assert_eq!(app_name_for_image(None), "Unknown application");
}

#[test]
fn descriptor_starts_off() {
    let state = DescriptorState::default();
    assert!(!get_descriptor_enabled(&state));
    assert_eq!(state.last_key, None);
}

#[test]
fn disabled_watcher_is_silent() {
    let mut state = DescriptorState::new();
    assert!(watcher_tick(&mut state, Ok(context("Notepad", "a.txt"))).is_none());
    assert_eq!(state.last_key, None);
}

#[test]
fn watcher_announces_each_change_once() {
    let mut state = DescriptorState::new();
    assert!(set_descriptor_enabled(&mut state, true));
    let first = watcher_tick(&mut state, Ok(context("Notepad", "a.txt")));
    assert_eq!(first.map(|c| c.app_name), Some("Notepad".to_string()));
    assert!(watcher_tick(&mut state, Ok(context("Notepad", "a.txt"))).is_none());
    assert!(watcher_tick(&mut state, Err("No active window was found.".to_string())).is_none());
    assert!(watcher_tick(&mut state, Ok(context("Notepad", "b.txt"))).is_some());
}

#[test]
fn enabling_again_describes_the_current_window() {
    let mut state = DescriptorState::new();
    set_descriptor_enabled(&mut state, true);
    assert!(watcher_tick(&mut state, Ok(context("Notepad", "a.txt"))).is_some());
    assert!(!set_descriptor_enabled(&mut state, false));
    assert!(watcher_tick(&mut state, Ok(context("Word", "b"))).is_none());
    set_descriptor_enabled(&mut state, true);
    assert!(watcher_tick(&mut state, Ok(context("Notepad", "a.txt"))).is_some());
}

#[test]
fn context_reported_at_capture_is_not_repeated() {
    let mut state = DescriptorState::new();
    set_descriptor_enabled(&mut state, true);
    let reported = get_context_and_mark_reported(&mut state, Ok(context("Excel", "Book1"))).unwrap();
    assert_eq!(reported.app_name, "Excel");
    assert!(watcher_tick(&mut state, Ok(context("Excel", "Book1"))).is_none());
    let err = get_context_and_mark_reported(&mut state, Err("No active window was found.".to_string()));
    assert_eq!(err.err(), Some("No active window was found.".to_string()));
}
