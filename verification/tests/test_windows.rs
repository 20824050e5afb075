use pot_gtk::config::ConfigStore;
use pot_gtk::config_window::{
    apply_setting, autostart_switch, proxy_port_entry, selected_theme, selected_ui_language, setting_switch,
    ConfigMsg, SettingEffect,
};
use pot_gtk::error::AppError;
use pot_gtk::json::Json;
use pot_gtk::recognize::RecognizeResult;
use pot_gtk::recognize_window::{
    initial_ocr_service, ocr_output, ocr_request, selected_position, OcrCommandOutput, RecognizeEffect,
    RecognizeMsg, RecognizeState,
};

#[test]
fn settings_are_stored_and_applied() {
    let mut store = ConfigStore::new();
    let e = apply_setting(&mut store, ConfigMsg::SetString("app_theme".to_string(), "dark".to_string()));
    assert!(matches!(e, SettingEffect::ApplyTheme(ref t) if t == "dark"));
    let e = apply_setting(&mut store, ConfigMsg::SetString("app_language".to_string(), "ja".to_string()));
    assert!(matches!(e, SettingEffect::LanguageChanged(ref l) if l == "ja"));
    let e = apply_setting(&mut store, ConfigMsg::SetInt("server_port".to_string(), -3));
    assert!(matches!(e, SettingEffect::Nothing));
    assert_eq!(store.get("server_port").and_then(|v| v.as_i64()), Some(-3));
    assert_eq!(selected_ui_language(&store), Some(3));
    assert_eq!(selected_theme(&store), Some(2));
}

#[test]
fn controls_start_from_stored_values() {
    let mut store = ConfigStore::new();
    assert_eq!(selected_ui_language(&store), Some(0));
    assert_eq!(selected_theme(&store), Some(0));
    assert!(setting_switch(&store, "translate_close_on_blur", true));
    assert!(autostart_switch(&store, true));
    store.set("autostart_enabled", Json::Str("yes".to_string()));
    assert!(!autostart_switch(&store, true));
    assert_eq!(proxy_port_entry(&store), None);
    store.set("proxy_port", Json::PosInt(7890));
    assert_eq!(proxy_port_entry(&store), Some("7890".to_string()));
}

#[test]
fn recognize_window_steps() {
    let mut store = ConfigStore::new();
    assert_eq!(initial_ocr_service(&store), "tesseract");
    store.set(
        "recognize_service_list",
        Json::Array(vec![Json::Str("custom".to_string())]),
    );
    assert_eq!(initial_ocr_service(&store), "custom");
    let names = vec!["a".to_string(), "custom".to_string()];
    assert_eq!(selected_position(&names, "custom"), Some(1));
    let mut st = RecognizeState::new("custom".to_string());
    assert!(matches!(st.update(RecognizeMsg::Show), RecognizeEffect::LoadImageThenRecognize));
    assert!(st.loading);
    assert!(matches!(st.update(RecognizeMsg::Recognize), RecognizeEffect::RunOcr { ref service } if service == "custom"));
    st.update_cmd(OcrCommandOutput { text: "read".to_string(), error: false });
    assert!(!st.loading);
    assert!(matches!(st.update(RecognizeMsg::TranslateText), RecognizeEffect::Translate(ref t) if t == "read"));
    st.update(RecognizeMsg::Pin);
    assert!(st.pinned);
}

#[test]
fn ocr_texts_for_missing_images_and_errors() {
    match ocr_request(Ok(String::new()), "No image to recognize.", "Image read error") {
        Err(o) => {
            assert_eq!(o.text, "No image to recognize.");
            assert!(o.error);
        }
        Ok(_) => panic!("expected no request"),
    }
    match ocr_request(Err(AppError::Custom("gone".to_string())), "none", "Image read error") {
        Err(o) => assert_eq!(o.text, "Image read error: gone"),
        Ok(_) => panic!("expected no request"),
    }
    match ocr_request(Ok("aGk=".to_string()), "none", "err") {
        Ok(q) => assert_eq!(q.language, "auto"),
        Err(_) => panic!("expected a request"),
    }
    let o = ocr_output(Err(AppError::Custom("bad".to_string())), "OCR error");
    assert_eq!(o.text, "OCR error: bad");
    let o = ocr_output(Ok(RecognizeResult { text: "t".to_string() }), "OCR error");
    assert_eq!(o.text, "t");
}
