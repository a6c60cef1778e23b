use accessible_screen_capture::debug_log::{
    frontend_log_message, local_timestamp, log_line, log_needs_reset, session_id,
    tray_menu_action, LocalTime, LogSequence, TrayMenuAction,
};
use accessible_screen_capture::shortcuts::{
    action_event_name, check_shortcut_change, complete_shortcut_change, default_descriptor_combo,
    parse_combo, registration_failures, ComboKey, ParsedCombo, ShortcutAction, ShortcutBindings,
    ShortcutChange,
};

fn combo(ctrl: bool, alt: bool, shift: bool, super_key: bool, key: ComboKey) -> ParsedCombo {
    ParsedCombo { ctrl, alt, shift, super_key, key }
}

#[test]
fn actions_and_their_names() {
    assert_eq!(
        ShortcutAction::all(),
        [ShortcutAction::Screenshot, ShortcutAction::RecordToggle, ShortcutAction::Descriptor]
    );
    assert_eq!(ShortcutAction::Screenshot.key(), "screenshot");
    assert_eq!(ShortcutAction::RecordToggle.key(), "recordToggle");
    assert_eq!(ShortcutAction::Descriptor.key(), "descriptor");
    assert_eq!(ShortcutAction::Screenshot.default_combo(), "ctrl+alt+space");
    assert_eq!(ShortcutAction::RecordToggle.default_combo(), "ctrl+alt+r");
    assert_eq!(ShortcutAction::Descriptor.default_combo(), "ctrl+alt+d");
    assert_eq!(default_descriptor_combo(), "ctrl+alt+d");
}

#[test]
fn action_keys_round_trip() {
    for action in ShortcutAction::all() {
        assert_eq!(ShortcutAction::from_key(action.key()), Ok(action));
    }
    assert_eq!(ShortcutAction::from_key("zoom"), Err("Unknown shortcut action: zoom".to_string()));
}

#[test]
fn event_names() {
    assert_eq!(action_event_name(ShortcutAction::Screenshot), "global-shortcut-screenshot");
    assert_eq!(action_event_name(ShortcutAction::RecordToggle), "global-shortcut-record-toggle");
    assert_eq!(action_event_name(ShortcutAction::Descriptor), "global-shortcut-descriptor");
}

#[test]
fn combos_are_parsed() {
    assert_eq!(parse_combo("ctrl+alt+r"), Ok(combo(true, true, false, false, ComboKey::Letter(17))));
    assert_eq!(parse_combo(" Ctrl + Shift + Space "), Ok(combo(true, false, true, false, ComboKey::Space)));
    assert_eq!(parse_combo("control+WIN+Z"), Ok(combo(true, false, false, true, ComboKey::Letter(25))));
    assert_eq!(parse_combo("windows+super+a+b"), Ok(combo(false, false, false, true, ComboKey::Letter(1))));
}

#[test]
fn bad_combos_are_refused() {
    assert_eq!(parse_combo("ctrl+alt"), Err("Shortcut combo has no key.".to_string()));
    assert_eq!(parse_combo("ctrl+alt+f1"), Err("Unsupported shortcut token: f1".to_string()));
    assert_eq!(parse_combo("ctrl+1"), Err("Unsupported shortcut key: 1".to_string()));
    assert_eq!(parse_combo(""), Err("Unsupported shortcut token: ".to_string()));
    assert_eq!(parse_combo("ctrl+é"), Err("Unsupported shortcut token: é".to_string()));
    assert_eq!(parse_combo("bogus+r"), Err("Unsupported shortcut token: bogus".to_string()));
}

#[test]
fn default_bindings_are_distinct() {
    let b = ShortcutBindings::default();
    assert_eq!(b.get(ShortcutAction::Screenshot), "ctrl+alt+space");
    assert_eq!(b.get(ShortcutAction::RecordToggle), "ctrl+alt+r");
    assert_eq!(b.get(ShortcutAction::Descriptor), "ctrl+alt+d");
    assert_ne!(b.screenshot, b.record_toggle);
    assert_ne!(b.screenshot, b.descriptor);
    assert_ne!(b.record_toggle, b.descriptor);
}

#[test]
fn setting_one_binding_keeps_the_others() {
    let mut b = ShortcutBindings::defaults();
    b.set(ShortcutAction::RecordToggle, "ctrl+shift+r".to_string());
    assert_eq!(b.get(ShortcutAction::RecordToggle), "ctrl+shift+r");
    assert_eq!(b.get(ShortcutAction::Screenshot), "ctrl+alt+space");
    assert_eq!(b.get(ShortcutAction::Descriptor), "ctrl+alt+d");
    let copy = b.duplicate();
    assert_eq!(copy.record_toggle, "ctrl+shift+r");
}

#[test]
fn unknown_action_change_is_an_error() {
    let b = ShortcutBindings::defaults();
    assert_eq!(
        check_shortcut_change(&b, "zoom", "ctrl+alt+z").err(),
        Some("Unknown shortcut action: zoom".to_string())
    );
}

#[test]
fn invalid_combo_change_is_rejected() {
    let b = ShortcutBindings::defaults();
    match check_shortcut_change(&b, "screenshot", "ctrl+alt+f5") {
        Ok(ShortcutChange::Rejected(resp)) => {
            assert!(!resp.ok);
            assert_eq!(resp.reason, Some("invalid".to_string()));
            assert_eq!(resp.bindings.screenshot, "ctrl+alt+space");
        }
        _ => panic!("expected a rejection"),
    }
}

#[test]
fn duplicate_combo_change_is_rejected() {
    let b = ShortcutBindings::defaults();
    match check_shortcut_change(&b, "screenshot", "ctrl+alt+r") {
        Ok(ShortcutChange::Rejected(resp)) => {
            assert_eq!(resp.reason, Some("duplicate".to_string()));
            assert_eq!(resp.bindings.record_toggle, "ctrl+alt+r");
        }
        _ => panic!("expected a rejection"),
    }
}

#[test]
fn new_combo_change_is_to_be_registered() {
    let b = ShortcutBindings::defaults();
    match check_shortcut_change(&b, "screenshot", "ctrl+alt+s") {
        Ok(ShortcutChange::Register { action, previous_combo, unregister_previous }) => {
            assert_eq!(action, ShortcutAction::Screenshot);
            assert_eq!(previous_combo, "ctrl+alt+space");
            assert!(unregister_previous);
        }
        _ => panic!("expected a registration"),
    }
    match check_shortcut_change(&b, "descriptor", "ctrl+alt+d") {
        Ok(ShortcutChange::Register { unregister_previous, .. }) => assert!(!unregister_previous),
        _ => panic!("expected a registration"),
    }
}

#[test]
fn registration_outcome_updates_or_keeps_bindings() {
    let mut b = ShortcutBindings::defaults();
    let ok = complete_shortcut_change(&mut b, ShortcutAction::Screenshot, "ctrl+alt+s".to_string(), true);
    assert!(ok.ok);
    assert_eq!(ok.reason, None);
    assert_eq!(ok.bindings.screenshot, "ctrl+alt+s");
    assert_eq!(b.screenshot, "ctrl+alt+s");

    let refused = complete_shortcut_change(&mut b, ShortcutAction::Screenshot, "ctrl+alt+x".to_string(), false);
    assert!(!refused.ok);
    assert_eq!(refused.reason, Some("conflict".to_string()));
    assert_eq!(b.screenshot, "ctrl+alt+s");
}

#[test]
fn registration_failures_are_named_by_action() {
    let results = vec![Ok(()), Err("already registered".to_string()), Err("bad".to_string())];
    assert_eq!(
        registration_failures(&results),
        vec![
            ("recordToggle".to_string(), "already registered".to_string()),
            ("descriptor".to_string(), "bad".to_string()),
        ]
    );
    assert_eq!(registration_failures(&vec![Ok(()), Ok(()), Ok(())]), Vec::<(String, String)>::new());
}

#[test]
fn log_lines_are_numbered() {
    let mut seq = LogSequence::new();
    assert_eq!(seq.take(), 0);
    assert_eq!(seq.take(), 1);
    assert_eq!(
        log_line("2026-08-19 14:03:07.045", "4242-1787000000000", 7, "recording save: begin"),
        "[2026-08-19 14:03:07.045] [session 4242-1787000000000] [7] recording save: begin\n"
    );
    assert_eq!(frontend_log_message("clicked"), "JS: clicked");
}

#[test]
fn log_timestamps_are_zero_padded() {
    let t = LocalTime { year: 2026, month: 8, day: 9, hour: 4, minute: 3, second: 7, millisecond: 5 };
    assert_eq!(local_timestamp(&t), "2026-08-09 04:03:07.005");
    let t = LocalTime { year: 12345, month: 12, day: 31, hour: 23, minute: 59, second: 59, millisecond: 999 };
    assert_eq!(local_timestamp(&t), "12345-12-31 23:59:59.999");
}

#[test]
fn session_ids_name_process_and_start() {
    assert_eq!(session_id(4242, 1787000000000), "4242-1787000000000");
    assert_eq!(session_id(0, 0), "0-0");
}

#[test]
fn log_sequence_wraps() {
    let mut seq = LogSequence { next: u64::MAX };
    assert_eq!(seq.take(), u64::MAX);
    assert_eq!(seq.take(), 0);
}

#[test]
fn log_is_reset_past_its_limit() {
    assert!(!log_needs_reset(200_000));
    assert!(log_needs_reset(200_001));
}

#[test]
fn tray_menu_items() {
    assert_eq!(tray_menu_action("show"), TrayMenuAction::ShowWindow);
    assert_eq!(tray_menu_action("quit"), TrayMenuAction::Quit);
    assert_eq!(tray_menu_action("other"), TrayMenuAction::Ignore);
}
