use pot_gtk::json::Json;
use pot_gtk::registry::Named;
use pot_gtk::services::{DictionaryResult, Explain, Explanation, ServiceError, TranslateRequest, TranslateResult};
use pot_gtk::translate::{create_registry, translation_service, TranslateRegistry, TranslateService};
use pot_gtk::translate_window::{translate_result_to_text, translation_item, translation_job};
use pot_gtk::translators::{GoogleTranslate, LingvaTranslate, OpenAITranslate};
use pot_gtk::config::ConfigStore;

#[test]
fn registry_empty_get_returns_none() {
    let reg = TranslateRegistry::new();
    assert!(reg.get("google").is_none());
}

#[test]
fn registry_list_empty() {
    let reg = TranslateRegistry::new();
    assert!(reg.list().is_empty());
}

#[test]
fn registry_translate_unknown_returns_error() {
    let reg = TranslateRegistry::new();
    assert!(translation_service(&reg, "nonexistent").is_err());
}

#[test]
fn translate_request_fields() {
    let req = TranslateRequest {
        text: "hello".into(),
        from: "en".into(),
        to: "zh-CN".into(),
        config: Json::Object(vec![("key".to_string(), Json::Str("value".to_string()))]),
    };
    assert_eq!(req.text, "hello");
    assert_eq!(req.from, "en");
    assert_eq!(req.to, "zh-CN");
}

#[test]
fn translate_result_text_variant() {
    let result = TranslateResult::Text("translated".into());
    match result {
        TranslateResult::Text(t) => assert_eq!(t, "translated"),
        TranslateResult::Dictionary(_) => panic!("expected Text variant"),
    }
}

#[test]
fn translate_result_dictionary_variant() {
    let result = TranslateResult::Dictionary(DictionaryResult {
        pronunciations: vec![],
        explanations: vec![],
        associations: vec![],
        sentences: vec![],
    });
    assert!(matches!(result, TranslateResult::Dictionary(_)));
}

#[test]
fn create_registry_has_all_backends() {
    let reg = TranslateRegistry::new();
    assert!(reg.list().is_empty());
    let full = create_registry();
    assert_eq!(full.list(), vec!["baidu", "bing", "deepl", "google", "lingva", "openai", "youdao"]);
}

#[test]
fn google_name_and_default_config() {
    let svc = GoogleTranslate;
    assert_eq!(svc.name(), "google");
    assert!(svc.default_config().get("custom_url").is_some());
}

#[test]
fn lingva_name_and_default_config() {
    let svc = LingvaTranslate;
    assert_eq!(svc.name(), "lingva");
    assert!(svc.default_config().get("custom_url").is_some());
}

#[test]
fn openai_name_and_default_config() {
    let svc = OpenAITranslate;
    assert_eq!(svc.name(), "openai");
    assert_eq!(svc.default_config().get("model").unwrap().as_str().unwrap(), "gpt-3.5-turbo");
}

#[test]
fn registry_translate_missing_service() {
    let reg = TranslateRegistry::new();
    let err = match translation_service(&reg, "nonexistent") {
        Err(e) => e,
        Ok(_) => panic!("expected an error"),
    };
    assert!(err.message.contains("not found"));
}

#[test]
fn registry_register_and_list() {
    let mut reg = TranslateRegistry::new();
    reg.register(TranslateService::Google(GoogleTranslate));
    reg.register(TranslateService::Lingva(LingvaTranslate));
    reg.register(TranslateService::OpenAI(OpenAITranslate));
    assert_eq!(reg.list().len(), 3);
    assert!(reg.get("google").is_some());
    assert!(reg.get("lingva").is_some());
    assert!(reg.get("openai").is_some());
    assert!(reg.get("baidu").is_none());
}

#[test]
fn registering_again_replaces_the_service() {
    let mut reg = TranslateRegistry::new();
    reg.register(TranslateService::Google(GoogleTranslate));
    reg.register(TranslateService::Google(GoogleTranslate));
    assert_eq!(reg.list().len(), 1);
    assert_eq!(reg.get("google").map(|s| s.name()), Some("google".to_string()));
}

#[test]
fn result_rows_show_text_dictionary_and_errors() {
    let (t, e) = translate_result_to_text(Ok(TranslateResult::Text("hi".into())), "(dictionary)", "Error");
    assert_eq!((t.as_str(), e), ("hi", false));
    let dict = DictionaryResult {
        pronunciations: vec![],
        explanations: vec![
            Explanation {
                trait_name: "n.".into(),
                explains: vec![Explain { text: "a".into() }, Explain { text: "b".into() }],
            },
            Explanation { trait_name: "v.".into(), explains: vec![Explain { text: "c".into() }] },
        ],
        associations: vec![],
        sentences: vec![],
    };
    let (t, e) = translate_result_to_text(Ok(TranslateResult::Dictionary(dict)), "(dictionary)", "Error");
    assert_eq!((t.as_str(), e), ("n.: a, b\nv.: c", false));
    let empty = DictionaryResult { pronunciations: vec![], explanations: vec![], associations: vec![], sentences: vec![] };
    let (t, _) = translate_result_to_text(Ok(TranslateResult::Dictionary(empty)), "(dictionary)", "Error");
    assert_eq!(t, "(dictionary)");
    let (t, e) = translate_result_to_text(Err(ServiceError::new("x", "boom")), "(dictionary)", "Error");
    assert_eq!((t.as_str(), e), ("Error: boom", true));
}

#[test]
fn translation_jobs_use_stored_or_default_settings() {
    let reg = create_registry();
    let mut store = ConfigStore::new();
    let job = translation_job(&store, &reg, "openai@1", "hello", "en", "zh_cn");
    assert_eq!(job.service_name, "openai");
    assert_eq!(job.display_name, "AI");
    assert_eq!(job.request.config.get("model").and_then(|m| m.as_str()), Some("gpt-3.5-turbo"));
    store.set(
        "openai@1",
        Json::Object(vec![("instanceName".to_string(), Json::Str("Mine".to_string()))]),
    );
    let job = translation_job(&store, &reg, "openai@1", "hello", "en", "zh_cn");
    assert_eq!(job.display_name, "Mine");
    assert!(job.request.config.get("model").is_none());
    let item = translation_item(job, Ok(TranslateResult::Text("你好".into())), "(dictionary)", "Error");
    assert_eq!(item.instance_key, "openai@1");
    assert_eq!(item.text, "你好");
    assert!(!item.is_error);
}
