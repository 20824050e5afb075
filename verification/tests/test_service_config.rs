use pot_gtk::config::{ConfigStore, ServiceCategory};
use pot_gtk::json::Json;
use pot_gtk::service_config::{
    add_instance, addable_services, build_fields, delete_instance, display_instance_key, is_locked_default_instance,
    model_list_request, model_list_url, models_from_response, move_instance, saved_settings, service_display_name,
    service_page_keys, toggle_enable, FieldType, Label, ServiceRegistries,
};

fn registries() -> ServiceRegistries {
    ServiceRegistries {
        translate: pot_gtk::translate::create_registry(),
        recognize: pot_gtk::recognize::create_registry(),
        tts: pot_gtk::tts::create_registry(),
        collection: pot_gtk::collection::create_registry(),
    }
}

fn obj(entries: Vec<(&str, Json)>) -> Json {
    Json::Object(entries.into_iter().map(|(k, v)| (k.to_string(), v)).collect())
}

fn s(t: &str) -> Json {
    Json::Str(t.to_string())
}

#[test]
fn locked_default_instances_are_google_and_bing() {
    assert!(is_locked_default_instance(ServiceCategory::Translate, "google@abc123"));
    assert!(is_locked_default_instance(ServiceCategory::Translate, "bing@def456"));
    assert!(!is_locked_default_instance(ServiceCategory::Translate, "deepl@ghi789"));
}

#[test]
fn add_dialog_filters_locked_default_translate_services() {
    let available = vec!["google".to_string(), "bing".to_string(), "deepl".to_string(), "openai".to_string()];
    let filtered = addable_services(ServiceCategory::Translate, &available);
    assert_eq!(filtered, vec!["deepl".to_string(), "openai".to_string()]);
}

#[test]
fn service_page_keys_append_missing_locked_defaults() {
    let mut store = ConfigStore::new();
    store.set_service_list(ServiceCategory::Translate, &vec!["deepl@demo".to_string(), "openai@demo".to_string()]);
    let keys = service_page_keys(&store, ServiceCategory::Translate);
    assert_eq!(
        keys,
        vec!["deepl@demo".to_string(), "openai@demo".to_string(), "google".to_string(), "bing".to_string()]
    );
}

#[test]
fn service_page_keys_keep_locked_defaults_when_user_list_is_empty() {
    let mut store = ConfigStore::new();
    store.set_service_list(ServiceCategory::Translate, &Vec::<String>::new());
    let keys = service_page_keys(&store, ServiceCategory::Translate);
    assert_eq!(keys, vec!["google".to_string(), "bing".to_string()]);
}

#[test]
fn service_page_keys_keep_locked_defaults_after_deleting_custom_service() {
    let mut store = ConfigStore::new();
    store.set_service_list(ServiceCategory::Translate, &vec!["openai@demo".to_string()]);
    let mut list = store.get_service_list(ServiceCategory::Translate);
    list.retain(|key| key != "openai@demo");
    store.set_service_list(ServiceCategory::Translate, &list);
    let keys = service_page_keys(&store, ServiceCategory::Translate);
    assert_eq!(keys, vec!["google".to_string(), "bing".to_string()]);
}

#[test]
fn display_instance_key_uses_ai_prefix_for_openai() {
    assert_eq!(display_instance_key("openai@b4438e9d"), "ai@b4438e9d");
    assert_eq!(display_instance_key("openai"), "ai");
    assert_eq!(display_instance_key("deepl@demo"), "deepl@demo");
}

#[test]
fn non_translate_categories_do_not_filter_google_or_bing() {
    let available = vec!["google".to_string(), "bing".to_string()];
    let filtered = addable_services(ServiceCategory::Tts, &available);
    assert_eq!(filtered, available);
}

#[test]
fn display_names_of_services() {
    assert_eq!(service_display_name("openai"), "AI");
    assert_eq!(service_display_name("lingva_tts"), "Lingva TTS");
    assert_eq!(service_display_name("deepl"), "deepl");
    assert_eq!(display_instance_key("a@b@c"), "a@b@c");
}

#[test]
fn deleting_a_custom_instance_removes_it_and_its_settings() {
    let mut store = ConfigStore::new();
    store.set_service_list(ServiceCategory::Translate, &vec!["deepl@x".to_string(), "google@y".to_string()]);
    store.set("deepl@x", obj(vec![("enable", Json::Bool(true))]));
    assert!(delete_instance(&mut store, ServiceCategory::Translate, "deepl@x"));
    assert_eq!(store.get_service_list(ServiceCategory::Translate), vec!["google@y".to_string()]);
    assert!(store.get("deepl@x").is_none());
    assert!(!delete_instance(&mut store, ServiceCategory::Translate, "google@y"));
    assert_eq!(store.get_service_list(ServiceCategory::Translate), vec!["google@y".to_string()]);
}

#[test]
fn moving_up_then_down_restores_the_list() {
    let mut store = ConfigStore::new();
    let original = vec!["a@1".to_string(), "b@2".to_string(), "c@3".to_string()];
    store.set_service_list(ServiceCategory::Recognize, &original);
    move_instance(&mut store, ServiceCategory::Recognize, "b@2", true);
    assert_eq!(
        store.get_service_list(ServiceCategory::Recognize),
        vec!["b@2".to_string(), "a@1".to_string(), "c@3".to_string()]
    );
    move_instance(&mut store, ServiceCategory::Recognize, "b@2", false);
    assert_eq!(store.get_service_list(ServiceCategory::Recognize), original);
    move_instance(&mut store, ServiceCategory::Recognize, "a@1", true);
    assert_eq!(store.get_service_list(ServiceCategory::Recognize), original);
}

#[test]
fn toggling_an_instance_sets_enable() {
    let mut store = ConfigStore::new();
    toggle_enable(&mut store, "deepl@x", false);
    match store.get("deepl@x") {
        Some(v) => assert_eq!(v.get("enable").and_then(|b| b.as_bool()), Some(false)),
        None => panic!("settings expected"),
    }
}

#[test]
fn adding_an_instance_lists_it_with_defaults() {
    let regs = registries();
    let mut store = ConfigStore::new();
    let key = add_instance(&mut store, &regs, ServiceCategory::Translate, "openai");
    assert!(key.starts_with("openai@"));
    assert_eq!(store.get_service_list(ServiceCategory::Translate), vec![key.clone()]);
    let cfg = store.get(&key).expect("settings stored");
    assert_eq!(cfg.get("instanceName").and_then(|v| v.as_str()), Some("AI"));
    assert_eq!(cfg.get("enable").and_then(|v| v.as_bool()), Some(true));
    assert_eq!(cfg.get("model").and_then(|v| v.as_str()), Some("gpt-3.5-turbo"));
}

#[test]
fn edit_fields_of_deepl_and_generic_services() {
    let regs = registries();
    let config = obj(vec![("instanceName", s("Mine")), ("type", s("api"))]);
    let fields = build_fields("deepl", &config, ServiceCategory::Translate, &regs);
    let keys: Vec<&str> = fields.iter().map(|f| f.key.as_str()).collect();
    assert_eq!(keys, vec!["instanceName", "type", "auth_key", "custom_url"]);
    assert_eq!(fields[0].value.as_str(), Some("Mine"));
    assert_eq!(fields[1].value.as_str(), Some("api"));
    assert!(matches!(fields[2].widget_type, FieldType::Password));
    match &fields[1].widget_type {
        FieldType::Dropdown { options } => {
            assert_eq!(options.len(), 3);
            assert_eq!(options[2].0, "deeplx");
            assert!(matches!(&options[2].1, Label::Plain(t) if t == "DeepLX"));
        }
        _ => panic!("expected a drop-down"),
    }
    let fields = build_fields("anki", &Json::Null, ServiceCategory::Collection, &regs);
    assert_eq!(fields.len(), 4);
    assert_eq!(fields[2].value.as_str(), Some("Pot"));
    let fields = build_fields("lingva_tts", &Json::Null, ServiceCategory::Tts, &regs);
    assert_eq!(fields[1].key, "requestPath");
    assert_eq!(fields[1].value.as_str(), Some("lingva.pot-app.com"));
}

#[test]
fn saved_settings_keep_hidden_fields() {
    let values = vec![("instanceName".to_string(), s("New")), ("api_key".to_string(), s("k"))];
    let existing = obj(vec![("instanceName", s("Old")), ("enable", Json::Bool(false))]);
    let saved = saved_settings(&values, Some(&existing));
    assert_eq!(saved.get("instanceName").and_then(|v| v.as_str()), Some("New"));
    assert_eq!(saved.get("api_key").and_then(|v| v.as_str()), Some("k"));
    assert_eq!(saved.get("enable").and_then(|v| v.as_bool()), Some(false));
}

#[test]
fn model_list_urls() {
    assert_eq!(model_list_url("openai_compatible", ""), "https://api.openai.com/v1/models");
    assert_eq!(model_list_url("anthropic", "  "), "https://api.anthropic.com/v1/models");
    assert_eq!(
        model_list_url("openai_compatible", "https://x.example/v1/chat/completions/"),
        "https://x.example/v1/models"
    );
    assert_eq!(model_list_url("anthropic", "https://a.example/v1/messages"), "https://a.example/v1/models");
    assert_eq!(model_list_url("openai_compatible", "https://x.example/v1"), "https://x.example/v1/models");
    assert_eq!(model_list_url("openai_compatible", "/proxy"), "https://api.openai.com/proxy");
    assert_eq!(model_list_url("openai_compatible", "host.example"), "host.example");
}

#[test]
fn model_list_request_needs_a_key() {
    assert_eq!(model_list_request("openai_compatible", "", "  ").err(), Some("API key is required".to_string()));
    let req = model_list_request("anthropic", "", "sk").ok().expect("request");
    assert_eq!(req.url, "https://api.anthropic.com/v1/models");
    assert_eq!(req.headers[0], ("x-api-key".to_string(), "sk".to_string()));
    let req = model_list_request("openai_compatible", "", "sk").ok().expect("request");
    assert_eq!(req.headers[0], ("Authorization".to_string(), "Bearer sk".to_string()));
}

#[test]
fn models_are_sorted_and_unique() {
    let resp = obj(vec![(
        "data",
        Json::Array(vec![obj(vec![("id", s("b"))]), obj(vec![("id", s("a"))]), obj(vec![("id", s("b"))])]),
    )]);
    assert_eq!(models_from_response(200, &resp, "none").ok(), Some(vec!["a".to_string(), "b".to_string()]));
    assert_eq!(models_from_response(200, &Json::Null, "none").err(), Some("none".to_string()));
    let err = obj(vec![("error", obj(vec![("message", s("bad key"))]))]);
    assert_eq!(models_from_response(401, &err, "none").err(), Some("bad key".to_string()));
    assert_eq!(models_from_response(500, &Json::Null, "none").err(), Some("HTTP 500".to_string()));
}
