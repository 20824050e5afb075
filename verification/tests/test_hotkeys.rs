use pot_gtk::config::ConfigStore;
use pot_gtk::hotkey::{
    backend_order, detect_session_type, get_shortcut_defs, is_gnome_desktop, keycode_map_from, load_shortcut_config,
    looks_like_keyboard, matching_evdev_shortcuts, normalize_desktop_key, parse_evdev_shortcut,
    parse_portal_shortcut_id, portal_activation, portal_shortcuts, shortcut_to_gnome_binding,
    shortcut_to_portal_trigger, x11_action_for, x11_bindings, x11_grab_masks, DuplicateFilter, HotkeyBackend,
    KEY_LEFTCTRL, KEY_LEFTSHIFT,
};
use pot_gtk::http_server::AppAction;
use pot_gtk::json::Json;

#[test]
fn default_shortcuts_and_stored_overrides() {
    let defs = get_shortcut_defs();
    assert_eq!(defs.len(), 4);
    assert_eq!(defs[0].default_key, "Ctrl+Shift+S");
    let mut store = ConfigStore::new();
    store.set("hotkey_input_translate", Json::Str("Alt+I".to_string()));
    store.set("hotkey_ocr_translate", Json::Str("   ".to_string()));
    let loaded = load_shortcut_config(&store);
    assert_eq!(loaded[0].shortcut, "Ctrl+Shift+S");
    assert_eq!(loaded[1].shortcut, "Alt+I");
    assert_eq!(loaded[3].shortcut, "Ctrl+Shift+T");
}

#[test]
fn desktop_key_names() {
    assert_eq!(normalize_desktop_key(" Esc "), "Escape");
    assert_eq!(normalize_desktop_key("enter"), "Return");
    assert_eq!(normalize_desktop_key("S"), "s");
    assert_eq!(normalize_desktop_key("F5"), "F5");
}

#[test]
fn gnome_and_portal_forms() {
    assert_eq!(shortcut_to_gnome_binding("Ctrl+Shift+S"), Some("<Control><Shift>s".to_string()));
    assert_eq!(shortcut_to_gnome_binding("Hyper+S"), None);
    assert_eq!(shortcut_to_portal_trigger("Ctrl+Super+space"), Some("CTRL+LOGO+space".to_string()));
}

#[test]
fn session_detection() {
    assert_eq!(detect_session_type("Wayland", "", ""), "wayland");
    assert_eq!(detect_session_type("", "wayland-0", ":0"), "wayland");
    assert_eq!(detect_session_type("tty", "", ":0"), "x11");
    assert_eq!(detect_session_type("tty", "", ""), "tty");
    assert!(is_gnome_desktop("ubuntu:GNOME", ""));
    assert!(!is_gnome_desktop("KDE", "plasma"));
    assert_eq!(backend_order("x11"), vec![HotkeyBackend::X11]);
    assert_eq!(backend_order("tty"), vec![HotkeyBackend::X11, HotkeyBackend::Wayland]);
}

#[test]
fn x11_grabs_and_lookup() {
    assert_eq!(x11_grab_masks(5), vec![5, 21, 7, 133, 23, 149, 135, 151]);
    let keysyms: Vec<u32> = vec![0x61, 0x41, 0x73, 0x53];
    let map = keycode_map_from(38, &keysyms, 2);
    let loaded = load_shortcut_config(&ConfigStore::new());
    let bindings = x11_bindings(&loaded, &map);
    assert_eq!(bindings.len(), 1);
    assert_eq!(bindings[0].keycode, 39);
    assert_eq!(bindings[0].mask, 5);
    assert!(matches!(x11_action_for(&bindings, 5 | 16, 39), Some(AppAction::SelectionTranslate)));
    assert!(x11_action_for(&bindings, 4, 39).is_none());
}

#[test]
fn evdev_matching() {
    let s = parse_evdev_shortcut("Ctrl+Shift+S", AppAction::SelectionTranslate).expect("a shortcut");
    assert!(s.ctrl && s.shift && !s.alt);
    let shortcuts = vec![s];
    let fired = matching_evdev_shortcuts(&vec![KEY_LEFTCTRL, KEY_LEFTSHIFT], s_key(), &shortcuts);
    assert_eq!(fired.len(), 1);
    assert!(matching_evdev_shortcuts(&vec![KEY_LEFTCTRL], s_key(), &shortcuts).is_empty());
    assert!(!looks_like_keyboard(&vec![1, 2]));
}

fn s_key() -> u16 {
    31
}

#[test]
fn duplicate_events_are_dropped_within_the_window() {
    let mut f = DuplicateFilter::new();
    assert!(f.should_send("selection_translate", 1000));
    assert!(!f.should_send("selection_translate", 1500));
    assert!(f.should_send("input_translate", 1500));
    assert!(f.should_send("selection_translate", 1800));
}

#[test]
fn portal_shortcut_ids_and_activation() {
    let loaded = load_shortcut_config(&ConfigStore::new());
    let ps = portal_shortcuts(&loaded);
    assert_eq!(ps.len(), 4);
    assert_eq!(ps[0].trigger, "CTRL+SHIFT+s");
    assert_eq!(parse_portal_shortcut_id(&ps[2].id), Some(2));
    match portal_activation(&loaded, &ps[1].id, Some("tok".to_string()), 7) {
        Some(e) => {
            assert!(matches!(e.action, AppAction::InputTranslate));
            assert_eq!(e.ctx.startup_id, Some("tok".to_string()));
            assert_eq!(e.ctx.timestamp, Some(7));
        }
        None => panic!("expected an activation"),
    }
    assert!(portal_activation(&loaded, "nope", None, 0).is_none());
}
