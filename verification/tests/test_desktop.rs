use base64::Engine;
use pot_gtk::app_control::{
    app_update, cli_action_arg, icon_search_paths, locale_candidates, pick_locale_dir, startup_language,
    startup_theme, theme_scheme, to_gettext_locale, translate_window_placement, tray_menu, AppEffect, AppMsg,
    ColorScheme, Placement, TrayEntry,
};
use pot_gtk::config::ConfigStore;
use pot_gtk::desktop::{set_proxy, ClipboardEvent};
use pot_gtk::http_server::{ActionEvent, ActivationContext, AppAction};
use pot_gtk::json::Json;
use pot_gtk::plugin::archive_entry_allowed;
use pot_gtk::recognize::{RecognizeRequest, SystemTesseract};

fn args(v: &[&str]) -> Vec<String> {
    v.iter().map(|s| s.to_string()).collect()
}

#[test]
fn set_proxy_empty_host_returns_err() {
    let mut store = ConfigStore::new();
    store.set("proxy_host", Json::Str("".to_string()));
    let result = set_proxy(&store);
    assert!(result.is_err(), "set_proxy with empty host should return Err");
}

#[test]
fn set_proxy_builds_the_address() {
    let mut store = ConfigStore::new();
    store.set("proxy_host", Json::Str("127.0.0.1".to_string()));
    store.set("proxy_port", Json::PosInt(7890));
    match set_proxy(&store) {
        Ok(p) => assert_eq!(p.proxy, "http://127.0.0.1:7890"),
        Err(_) => panic!("expected a proxy"),
    }
}

#[test]
fn base64_roundtrip() {
    let original = b"test image data";
    let encoded = base64::engine::general_purpose::STANDARD.encode(original);
    let req = RecognizeRequest { image_base64: encoded, language: "auto".to_string(), config: Json::Null };
    let decoded = SystemTesseract.decode_image(&req).ok().unwrap();
    assert_eq!(decoded, original);
}

#[test]
fn base64_empty_input() {
    let encoded = base64::engine::general_purpose::STANDARD.encode(b"");
    let req = RecognizeRequest { image_base64: encoded, language: "auto".to_string(), config: Json::Null };
    let decoded = SystemTesseract.decode_image(&req).ok().unwrap();
    assert!(decoded.is_empty());
}

#[test]
fn command_line_actions() {
    assert_eq!(cli_action_arg(&args(&["--pot-action", "config"])), Some("config".to_string()));
    assert_eq!(cli_action_arg(&args(&["-v", "--action=ocr-translate"])), Some("ocr-translate".to_string()));
    assert_eq!(cli_action_arg(&args(&["--pot-action=input"])), Some("input".to_string()));
    assert_eq!(cli_action_arg(&args(&["--action"])), None);
    assert_eq!(cli_action_arg(&args(&["x", "y"])), None);
}

#[test]
fn languages_and_themes_at_start() {
    assert_eq!(to_gettext_locale("zh_cn"), "zh_CN");
    assert_eq!(to_gettext_locale("pt_br"), "pt_BR");
    assert_eq!(to_gettext_locale("ja"), "ja");
    let mut store = ConfigStore::new();
    assert_eq!(startup_language(&store), None);
    assert_eq!(startup_theme(&store), "system");
    store.set("app_language", Json::Str("auto".to_string()));
    assert_eq!(startup_language(&store), None);
    store.set("app_language", Json::Str("zh_tw".to_string()));
    assert_eq!(startup_language(&store), Some("zh_TW".to_string()));
    assert!(matches!(theme_scheme("dark"), ColorScheme::ForceDark));
    assert!(matches!(theme_scheme("system"), ColorScheme::Default));
}

#[test]
fn install_layout_paths() {
    let paths = icon_search_paths(Some("/opt/pot/bin"), "/src/pot");
    assert_eq!(paths.len(), 14);
    assert_eq!(paths[0], "/opt/pot/bin/icons");
    assert_eq!(paths[1], "/opt/pot/bin/icons/scalable/apps");
    assert_eq!(paths[7], "/src/pot/data/icons");
    let c = locale_candidates(Some("/opt/pot/bin"), Some("/opt/pot"), "/src/pot");
    assert_eq!(c, vec!["/opt/pot/bin/locales", "/opt/pot/share/locale", "/src/pot/data/po"]);
    assert_eq!(pick_locale_dir(&c, &vec![false, true, true]), "/opt/pot/share/locale");
    assert_eq!(pick_locale_dir(&c, &vec![false, false, false]), "/usr/share/locale");
}

#[test]
fn messages_lead_to_effects() {
    let e = app_update(AppMsg::Action(ActionEvent::new(AppAction::InputTranslate)), false);
    assert!(matches!(e, AppEffect::ShowTranslate { ref text, .. } if text.is_empty()));
    let e = app_update(AppMsg::Action(ActionEvent::new(AppAction::OcrRecognize { screenshot: true })), false);
    assert!(matches!(e, AppEffect::StartCapture));
    let e = app_update(AppMsg::Clipboard(ClipboardEvent::NewText("x".to_string())), false);
    assert!(matches!(e, AppEffect::Nothing));
    let e = app_update(AppMsg::Clipboard(ClipboardEvent::NewText("x".to_string())), true);
    assert!(matches!(e, AppEffect::ShowTranslate { ref text, .. } if text == "x"));
    let e = app_update(AppMsg::LanguageChanged("ja".to_string()), true);
    assert!(matches!(e, AppEffect::UpdateTrayLanguage(ref l) if l == "ja"));
}

#[test]
fn translate_window_goes_near_the_pointer_on_x11() {
    let ctx = ActivationContext { startup_id: None, timestamp: None };
    match translate_window_placement("x11", ctx, Some((100, 1000)), 400, 500) {
        Placement::MoveTo { x, y } => assert_eq!((x, y), (0, 750)),
        _ => panic!("expected a move"),
    }
    let ctx = ActivationContext { startup_id: Some("tok".to_string()), timestamp: Some(0x1_0000_0005) };
    match translate_window_placement("wayland", ctx, None, 400, 500) {
        Placement::Wayland { startup_id, time } => {
            assert_eq!(startup_id, Some("tok".to_string()));
            assert_eq!(time, Some(5));
        }
        _ => panic!("expected Wayland placement"),
    }
    let ctx = ActivationContext { startup_id: None, timestamp: None };
    assert!(matches!(translate_window_placement("tty", ctx, Some((1, 1)), 400, 500), Placement::Present));
}

#[test]
fn tray_menu_entries() {
    let menu = tray_menu();
    assert_eq!(menu.len(), 10);
    assert!(matches!(menu[2], TrayEntry::Separator));
    assert!(matches!(menu[9], TrayEntry::Item { label: "Quit", action: AppAction::Quit, .. }));
}

#[test]
fn archive_entries_may_not_climb_out() {
    assert!(archive_entry_allowed("main.js"));
    assert!(archive_entry_allowed("dir/info.json"));
    assert!(!archive_entry_allowed("../evil.js"));
    assert!(!archive_entry_allowed("a/../../b"));
    assert!(archive_entry_allowed("a/..b"));
}
