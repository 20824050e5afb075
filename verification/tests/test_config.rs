use pot_gtk::config::{
    generate_instance_key, hydrate_secret_fields, sanitize_secret_fields, ConfigStore, PluginLists, SecretOp,
    ServiceCategory,
};
use pot_gtk::json::Json;

fn store() -> ConfigStore {
    ConfigStore::new()
}

#[test]
fn get_returns_none_for_missing_key() {
    let s = store();
    assert!(s.get("nonexistent_key_xyz").is_none());
}

#[test]
fn set_and_get_string() {
    let mut s = store();
    s.set("test_key", Json::Str("hello".to_string()));
    assert_eq!(s.get("test_key").and_then(|v| v.as_str().map(String::from)), Some("hello".into()));
}

#[test]
fn set_and_get_bool() {
    let mut s = store();
    s.set("test_bool", Json::Bool(true));
    assert_eq!(s.get("test_bool").and_then(|v| v.as_bool()), Some(true));
}

#[test]
fn set_and_get_int() {
    let mut s = store();
    s.set("test_int", Json::PosInt(42));
    assert_eq!(s.get("test_int").and_then(|v| v.as_i64()), Some(42));
}

#[test]
fn set_overwrites() {
    let mut s = store();
    s.set("key", Json::Str("first".to_string()));
    s.set("key", Json::Str("second".to_string()));
    assert_eq!(s.get("key").and_then(|v| v.as_str().map(String::from)), Some("second".into()));
}

#[test]
fn remove_deletes_key_from_memory_and_config_file() {
    let mut s = store();
    s.set(
        "openai@demo",
        Json::Object(vec![("instanceName".to_string(), Json::Str("AI".to_string()))]),
    );
    s.remove("openai@demo");
    assert!(s.get("openai@demo").is_none());
    assert!(s.entries().iter().all(|(k, _)| k != "openai@demo"));
}

#[test]
fn generate_instance_key_format() {
    let key = generate_instance_key("google");
    assert!(key.starts_with("google@"));
    assert!(key.len() > "google@".len());
}

#[test]
fn generate_instance_key_unique() {
    let k1 = generate_instance_key("bing");
    let k2 = generate_instance_key("bing");
    assert_ne!(k1, k2);
}

#[test]
fn effective_translate_service_list_includes_google_and_bing_by_default() {
    let s = store();
    assert_eq!(
        s.effective_service_list(ServiceCategory::Translate),
        vec!["google".to_string(), "bing".to_string()]
    );
}

#[test]
fn effective_translate_service_list_does_not_duplicate_locked_instance_service() {
    let mut s = store();
    s.set_service_list(ServiceCategory::Translate, &vec!["bing@custom".to_string()]);
    assert_eq!(
        s.effective_service_list(ServiceCategory::Translate),
        vec!["bing@custom".to_string(), "google".to_string()]
    );
}

#[test]
fn effective_non_translate_service_list_passes_through_unchanged() {
    let mut s = store();
    s.set_service_list(ServiceCategory::Recognize, &vec!["tesseract@local".to_string()]);
    assert_eq!(
        s.effective_service_list(ServiceCategory::Recognize),
        vec!["tesseract@local".to_string()]
    );
}

#[test]
fn service_category_list_key() {
    assert_eq!(ServiceCategory::Translate.list_key(), "translate_service_list");
    assert_eq!(ServiceCategory::Recognize.list_key(), "recognize_service_list");
    assert_eq!(ServiceCategory::Tts.list_key(), "tts_service_list");
    assert_eq!(ServiceCategory::Collection.list_key(), "collection_service_list");
}

#[test]
fn service_category_list_keys() {
    assert_eq!(ServiceCategory::Translate.list_key(), "translate_service_list");
    assert_eq!(ServiceCategory::Recognize.list_key(), "recognize_service_list");
    assert_eq!(ServiceCategory::Tts.list_key(), "tts_service_list");
    assert_eq!(ServiceCategory::Collection.list_key(), "collection_service_list");
}

#[test]
fn service_category_from_str() {
    let cat = ServiceCategory::Translate;
    assert_eq!(cat.list_key(), "translate_service_list");
}

#[test]
fn config_set_and_get_json_array() {
    let mut s = store();
    s.set(
        "translate_service_list",
        Json::Array(vec![Json::Str("google@abc".to_string()), Json::Str("bing@def".to_string())]),
    );
    let retrieved = s.get_service_list(ServiceCategory::Translate);
    assert_eq!(retrieved.len(), 2);
    assert_eq!(retrieved[0], "google@abc");
}

#[test]
fn generate_instance_key_contains_service_name() {
    let key = generate_instance_key("deepl");
    assert!(key.starts_with("deepl@"));
}

#[test]
fn generate_instance_keys_different_for_same_service() {
    let mut keys: Vec<String> = Vec::new();
    for _ in 0..10 {
        keys.push(generate_instance_key("test"));
    }
    let unique: std::collections::HashSet<_> = keys.iter().collect();
    assert_eq!(unique.len(), 10, "all generated keys should be unique");
}

#[test]
fn config_store_empty_on_new_key() {
    let s = store();
    assert!(s.get("brand_new_key_12345").is_none());
}

#[test]
fn config_store_overwrite_value() {
    let mut s = store();
    s.set("test_overwrite", Json::Str("v1".to_string()));
    s.set("test_overwrite", Json::Str("v2".to_string()));
    let val = s.get("test_overwrite").and_then(|v| v.as_str().map(String::from)).unwrap();
    assert_eq!(val, "v2");
}

#[test]
fn config_store_complex_json() {
    let mut s = store();
    let complex = Json::Object(vec![(
        "nested".to_string(),
        Json::Object(vec![
            ("key".to_string(), Json::Array(vec![Json::PosInt(1), Json::PosInt(2), Json::PosInt(3)])),
            ("bool".to_string(), Json::Bool(true)),
        ]),
    )]);
    s.set("complex_key", complex);
    let retrieved = s.get("complex_key").unwrap();
    let nested = retrieved.get("nested").unwrap();
    assert_eq!(nested.get("key").and_then(|k| k.at(1)).and_then(|v| v.as_i64()), Some(2));
    assert_eq!(nested.get("bool").and_then(|v| v.as_bool()), Some(true));
}

#[test]
fn check_service_available_prunes_unknown() {
    let mut s = store();
    s.set(
        "translate_service_list",
        Json::Array(vec![
            Json::Str("google@abc".to_string()),
            Json::Str("unknown_service@def".to_string()),
            Json::Str("bing@ghi".to_string()),
        ]),
    );
    let plugins = PluginLists { translate: vec![], recognize: vec![], tts: vec![], collection: vec![] };
    let _ = s.check_service_available(&plugins);
    let list = s.get_service_list(ServiceCategory::Translate);
    for item in &list {
        let name = item.split('@').next().unwrap();
        assert_ne!(name, "unknown_service", "unknown services should be pruned");
    }
}

#[test]
fn secrets_written_are_read_back() {
    let value = Json::Object(vec![
        ("instanceName".to_string(), Json::Str("Mine".to_string())),
        ("api_key".to_string(), Json::Str("sk-1".to_string())),
    ]);
    let (stored, ops) = sanitize_secret_fields(value);
    assert!(stored.get("api_key").is_none());
    assert_eq!(stored.get("instanceName").and_then(|v| v.as_str()), Some("Mine"));
    let mut secrets = Vec::new();
    for op in ops {
        match op {
            SecretOp::Store(f, s) => secrets.push((f, s)),
            SecretOp::Delete(_) => {}
        }
    }
    assert_eq!(secrets, vec![("api_key".to_string(), "sk-1".to_string())]);
    let read = hydrate_secret_fields(stored, &secrets);
    assert_eq!(read.get("api_key").and_then(|v| v.as_str()), Some("sk-1"));
    assert_eq!(read.get("instanceName").and_then(|v| v.as_str()), Some("Mine"));
}
