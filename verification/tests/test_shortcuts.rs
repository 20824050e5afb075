use pot_gtk::config_window::{
    capture_key, initial_shortcut, keyval_to_shortcut_key, shortcut_from_key_event, CaptureOutcome, KEY_ESCAPE,
};
use pot_gtk::config::ConfigStore;
use pot_gtk::json::Json;
use pot_gtk::shortcut::{normalize_shortcut_text, ShortcutModifiers};

const KEY_F8: u32 = 0xffc5;

fn ctrl_shift() -> ShortcutModifiers {
    ShortcutModifiers { ctrl: true, alt: false, shift: true, super_key: false }
}

#[test]
fn normalizes_shortcut_text_aliases() {
    assert_eq!(
        normalize_shortcut_text("control + option + page_down"),
        Some("Ctrl+Alt+PageDown".into())
    );
}

#[test]
fn rejects_modifier_only_shortcuts() {
    assert_eq!(normalize_shortcut_text("Ctrl+Shift"), None);
}

#[test]
fn formats_key_events_to_backend_shortcut_strings() {
    assert_eq!(
        shortcut_from_key_event(KEY_F8, None, ctrl_shift()),
        Some("Ctrl+Shift+F8".into())
    );
}

#[test]
fn key_press_letters_become_uppercase_keys() {
    assert_eq!(keyval_to_shortcut_key(0x61, Some('a')), Some("A".to_string()));
    assert_eq!(keyval_to_shortcut_key(0x20, Some(' ')), Some("Space".to_string()));
    assert_eq!(keyval_to_shortcut_key(0xff0d, None), Some("Enter".to_string()));
    assert_eq!(keyval_to_shortcut_key(0xffe1, None), None);
}

#[test]
fn capture_stops_on_escape_and_records_shortcuts() {
    assert!(matches!(capture_key(false, KEY_F8, None, ctrl_shift()), CaptureOutcome::Pass));
    assert!(matches!(capture_key(true, KEY_ESCAPE, None, ctrl_shift()), CaptureOutcome::Cancel));
    match capture_key(true, KEY_F8, None, ctrl_shift()) {
        CaptureOutcome::Recorded(s) => assert_eq!(s, "Ctrl+Shift+F8"),
        _ => panic!("expected a recorded shortcut"),
    }
    assert!(matches!(capture_key(true, 0xffe1, None, ctrl_shift()), CaptureOutcome::Ignored));
}

#[test]
fn initial_shortcut_falls_back_to_default() {
    let mut store = ConfigStore::new();
    assert_eq!(initial_shortcut(&store, "hotkey_input_translate", "Ctrl+Shift+I"), "Ctrl+Shift+I");
    store.set("hotkey_input_translate", Json::Str("  ".to_string()));
    assert_eq!(initial_shortcut(&store, "hotkey_input_translate", "Ctrl+Shift+I"), "Ctrl+Shift+I");
    store.set("hotkey_input_translate", Json::Str("control+alt+k".to_string()));
    assert_eq!(initial_shortcut(&store, "hotkey_input_translate", "Ctrl+Shift+I"), "Ctrl+Alt+K");
    store.set("hotkey_input_translate", Json::Str("Ctrl+Shift".to_string()));
    assert_eq!(initial_shortcut(&store, "hotkey_input_translate", "Ctrl+Shift+I"), "Ctrl+Shift+I");
}

#[test]
fn normalized_shortcuts_stay_normalized() {
    for text in ["control + option + page_down", "ctrl+shift+s", " meta + f12 ", "Shift+a", "alt+enter"] {
        let once = normalize_shortcut_text(text).expect("a shortcut");
        assert_eq!(normalize_shortcut_text(&once), Some(once.clone()));
    }
    assert_eq!(normalize_shortcut_text(" meta + f12 "), Some("Super+F12".to_string()));
    assert_eq!(normalize_shortcut_text("ctrl+f13"), None);
}
