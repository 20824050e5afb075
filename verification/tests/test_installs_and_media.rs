use pot_gtk::config::{
    generate_instance_key, hydrate_secret_fields, sanitize_secret_fields, secret_fields_to_read, unused_instance_key,
    ConfigStore, SecretOp,
};
use pot_gtk::json::to_json_text;
use pot_gtk::screenshot::{
    after_full_capture, after_region_capture, scaled_cut_dimensions, scaled_cut_region, selection_region, CaptureNext,
};
use pot_gtk::history::HistoryStore;
use pot_gtk::json::Json;
use pot_gtk::plugin::{create_translate_adapters, install_archive, PluginCandidate, PluginInfo, PluginManager};
use pot_gtk::screenshot::{cut_image, get_base64};
use pot_gtk::service_config::instance_row_title;
use pot_gtk::translators::{google_response_readable, BingTokenCache, BingTokenStep, BingTranslate};
use pot_gtk::tts::{tts_audio_bytes, TtsResult};
use std::collections::HashMap;
use std::io::Write;

fn ok<T, E>(r: Result<T, E>) -> T {
    match r {
        Ok(v) => v,
        Err(_) => panic!("expected Ok"),
    }
}

/// Writes what a write of `value` under `key` keeps, and reads it back.
fn write_then_read(value: Json) -> (Json, Json) {
    let (stored, ops) = sanitize_secret_fields(value);
    let mut keyring: HashMap<String, String> = HashMap::new();
    for op in ops {
        match op {
            SecretOp::Store(f, s) => {
                keyring.insert(f, s);
            }
            SecretOp::Delete(f) => {
                keyring.remove(&f);
            }
        }
    }
    let mut secrets = Vec::new();
    for f in secret_fields_to_read(&stored) {
        if let Some(s) = keyring.get(&f) {
            secrets.push((f, s.clone()));
        }
    }
    let kept = stored.deep_clone();
    (kept, hydrate_secret_fields(stored, &secrets))
}

#[test]
fn token_fields_are_read_back_trimmed() {
    let value = Json::Object(vec![
        ("type".to_string(), Json::Str("api".to_string())),
        ("auth_key".to_string(), Json::Str(" abc ".to_string())),
        ("access_token".to_string(), Json::Str("t1".to_string())),
    ]);
    let (kept, read) = write_then_read(value);
    assert!(kept.get("auth_key").is_none());
    assert!(kept.get("access_token").is_none());
    assert_eq!(read.get("type").and_then(|v| v.as_str()), Some("api"));
    assert_eq!(read.get("auth_key").and_then(|v| v.as_str()), Some("abc"));
    assert_eq!(read.get("access_token").and_then(|v| v.as_str()), Some("t1"));
    assert!(read.get("__secret_fields").is_none());
}

#[test]
fn plain_secret_objects_are_stored_without_a_field_list() {
    let (kept, read) = write_then_read(Json::Object(vec![("api_key".to_string(), Json::Str("k".to_string()))]));
    assert!(matches!(kept, Json::Object(ref es) if es.is_empty()));
    assert_eq!(read.get("api_key").and_then(|v| v.as_str()), Some("k"));
}

#[test]
fn history_refuses_a_foreign_table() {
    let dir = tempfile::tempdir().unwrap();
    let path = dir.path().join("foreign.db");
    {
        let c = rusqlite::Connection::open(&path).unwrap();
        c.execute_batch("CREATE TABLE history (id INTEGER, source TEXT, target TEXT, from_lang TEXT, to_lang TEXT, service TEXT, timestamp INTEGER);")
            .unwrap();
    }
    assert!(HistoryStore::open_at(path.to_str().unwrap()).is_err());
}

#[test]
fn history_reopens_its_own_table() {
    let dir = tempfile::tempdir().unwrap();
    let path = dir.path().join("own.db");
    {
        let mut db = ok(HistoryStore::open_at(path.to_str().unwrap()));
        assert!(db.insert("a", "b", "en", "zh_cn", "google", 5).is_ok());
    }
    let db = ok(HistoryStore::open_at(path.to_str().unwrap()));
    assert_eq!(ok(db.count()), 1);
}

#[test]
fn history_pages_follow_time_order() {
    let mut db = ok(HistoryStore::open_in_memory());
    for i in 0..5 {
        assert!(db.insert(&format!("t{}", i), "x", "en", "zh_cn", "test", 100 + i).is_ok());
    }
    let p1 = ok(db.list(1, 2));
    let p2 = ok(db.list(2, 2));
    let p3 = ok(db.list(3, 2));
    let stamps: Vec<i64> = p1.iter().chain(p2.iter()).chain(p3.iter()).map(|e| e.timestamp).collect();
    assert_eq!(stamps, vec![104, 103, 102, 101, 100]);
}

fn zip_bytes(entries: &[(&str, &[u8])]) -> Vec<u8> {
    let mut w = zip::ZipWriter::new(std::io::Cursor::new(Vec::new()));
    let opts = zip::write::SimpleFileOptions::default().compression_method(zip::CompressionMethod::Stored);
    for (name, data) in entries {
        w.start_file(*name, opts).unwrap();
        w.write_all(data).unwrap();
    }
    w.finish().unwrap().into_inner()
}

#[test]
fn plugin_archive_is_planned_without_escaping_entries() {
    let bytes = zip_bytes(&[
        ("info.json", br#"{"name":"demo","plugin_type":"translate"}"#),
        ("main.js", b"let result = 1;"),
        ("../evil.js", b"bad"),
        ("lib/a/../../../x.js", b"bad"),
    ]);
    let plan = ok(install_archive("plugin_demo.potext", &bytes));
    assert_eq!(plan.name, "plugin_demo");
    assert_eq!(plan.info_json, br#"{"name":"demo","plugin_type":"translate"}"#.to_vec());
    let names: Vec<&str> = plan.files.iter().map(|f| f.0.as_str()).collect();
    assert_eq!(names, vec!["info.json", "main.js"]);
    assert_eq!(plan.files[1].2, b"let result = 1;".to_vec());
}

#[test]
fn plugin_archive_errors() {
    let no_info = zip_bytes(&[("main.js", b"x")]);
    assert_eq!(
        install_archive("plugin_demo.potext", &no_info).err().map(|e| e.message()),
        Some("Plugin missing info.json".to_string())
    );
    let e = install_archive("plugin_demo.potext", &vec![1, 2, 3]).err().map(|e| e.message()).unwrap_or_default();
    assert!(e.starts_with("Invalid plugin archive: "));
    assert_eq!(
        install_archive("demo.zip", &no_info).err().map(|e| e.message()),
        Some("Plugin file must be named plugin*.potext".to_string())
    );
}

#[test]
fn screenshot_region_is_cut_and_encoded() {
    let img = image::DynamicImage::ImageRgb8(image::RgbImage::new(8, 6));
    let mut png = std::io::Cursor::new(Vec::new());
    img.write_to(&mut png, image::ImageFormat::Png).unwrap();
    let cut = ok(cut_image(&png.into_inner(), 2, 1, 4, 3));
    let back = image::load_from_memory(&cut).unwrap();
    assert_eq!((back.width(), back.height()), (4, 3));
    assert!(cut_image(&vec![0, 1, 2], 0, 0, 1, 1).is_err());
    assert_eq!(get_base64(&vec![1, 2, 3]), "AQID");
}

#[test]
fn speech_audio_is_decoded() {
    let r = TtsResult { audio_base64: "AQID".to_string() };
    assert_eq!(ok(tts_audio_bytes(&r)), vec![1, 2, 3]);
    assert!(tts_audio_bytes(&TtsResult { audio_base64: "!!".to_string() }).is_err());
}

#[test]
fn google_dictionary_readability() {
    let group = |n: usize| Json::Array((0..n).map(|_| Json::Null).collect());
    let body = |g: Json| Json::Array(vec![Json::Null, Json::Array(vec![g])]);
    assert!(google_response_readable(&body(group(3))));
    assert!(google_response_readable(&body(group(1))));
    assert!(!google_response_readable(&body(group(2))));
    assert!(google_response_readable(&Json::Array(vec![Json::Null])));
}

#[test]
fn bing_token_is_reused_only_for_its_url_and_time() {
    let svc = BingTranslate;
    let cfg = |u: &str| Json::Object(vec![("auth_url".to_string(), Json::Str(u.to_string()))]);
    let mut cache = BingTokenCache::new();
    match svc.token_step(&cache, &cfg("http://a/auth"), 0) {
        BingTokenStep::Fetch(req) => {
            assert_eq!(req.url, "http://a/auth");
            cache.store(&req.url, "t-a", 0);
        }
        BingTokenStep::Cached(_) => panic!("nothing cached yet"),
    }
    assert!(matches!(svc.token_step(&cache, &cfg("http://a/auth"), 539_999), BingTokenStep::Cached(ref t) if t == "t-a"));
    assert!(matches!(svc.token_step(&cache, &cfg("http://a/auth"), 540_000), BingTokenStep::Fetch(_)));
    assert!(matches!(svc.token_step(&cache, &cfg("http://b/auth"), 1), BingTokenStep::Fetch(_)));
}

#[test]
fn service_rows_are_titled_by_instance_name() {
    let mut store = ConfigStore::new();
    store.set("deepl@x", Json::Object(vec![("instanceName".to_string(), Json::Str("Work".to_string()))]));
    store.set("openai@y", Json::Object(vec![("instanceName".to_string(), Json::Str(String::new()))]));
    assert_eq!(instance_row_title(&store, "deepl@x"), "Work");
    assert_eq!(instance_row_title(&store, "openai@y"), "openai");
    assert_eq!(instance_row_title(&store, "bing@z"), "bing");
}

#[test]
fn translate_adapters_follow_the_plugin_list() {
    let info = |n: &str| PluginInfo { name: n.to_string(), plugin_type: "translate".to_string(), display: vec![], language: vec![] };
    let cand = |n: &str| PluginCandidate {
        plugin_type: "translate".to_string(),
        name: n.to_string(),
        is_dir: true,
        path: format!("/p/{}", n),
        info: Some(info(&format!("{} shown", n))),
    };
    let mut m = PluginManager::new();
    m.discover_all(&vec![cand("plugin_b"), cand("plugin_a")]);
    let names = m.list("translate");
    let adapters = create_translate_adapters(&m);
    assert_eq!(adapters.len(), names.len());
    for (a, n) in adapters.iter().zip(names.iter()) {
        assert_eq!(a.name(), format!("{} shown", n));
    }
}

fn same_json(a: &Json, b: &Json) -> bool {
    to_json_text(a) == to_json_text(b)
}

#[test]
fn fields_named_like_the_marker_read_back_unchanged() {
    let value = Json::Object(vec![
        ("__secret_fields".to_string(), Json::Array(vec![])),
        ("__secret_fields_".to_string(), Json::PosInt(1)),
        ("access_token".to_string(), Json::Str("t".to_string())),
        ("x".to_string(), Json::Bool(true)),
    ]);
    let expected = value.deep_clone();
    let (_, read) = write_then_read(value);
    let mut got: Vec<(String, String)> = match &read {
        Json::Object(es) => es.iter().map(|(k, v)| (k.clone(), to_json_text(v))).collect(),
        _ => panic!("expected an object"),
    };
    let mut want: Vec<(String, String)> = match &expected {
        Json::Object(es) => es.iter().map(|(k, v)| (k.clone(), to_json_text(v))).collect(),
        _ => unreachable!(),
    };
    got.sort();
    want.sort();
    assert_eq!(got, want);
    let plain = Json::Object(vec![("__secret_fields".to_string(), Json::Array(vec![]))]);
    let (_, read) = write_then_read(plain.deep_clone());
    assert!(same_json(&read, &plain));
}

#[test]
fn unused_instance_keys_differ_from_taken_ones() {
    let mut taken: Vec<String> = Vec::new();
    for _ in 0..10 {
        let k = unused_instance_key("test", &taken);
        assert!(k.starts_with("test@"));
        assert!(!taken.contains(&k));
        taken.push(k);
    }
    let k = generate_instance_key("bing");
    let other = unused_instance_key("bing", &vec![k.clone()]);
    assert_ne!(other, k);
}

#[test]
fn capture_fallback_and_selection_size() {
    assert!(matches!(after_region_capture(true, true), CaptureNext::Captured));
    assert!(matches!(after_region_capture(true, false), CaptureNext::Cancelled));
    assert!(matches!(after_region_capture(false, false), CaptureNext::ShowOverlay));
    assert!(matches!(after_full_capture(true), CaptureNext::ShowOverlay));
    assert!(matches!(after_full_capture(false), CaptureNext::Cancelled));
    assert_eq!(selection_region(30, 40, 10, 20), Some((10, 20, 20, 20)));
    assert_eq!(selection_region(10, 10, 15, 40), None);
    assert_eq!(selection_region(10, 10, 16, 16), Some((10, 10, 6, 6)));
}

#[test]
fn history_accepts_a_table_written_otherwise_and_refuses_a_view() {
    let dir = tempfile::tempdir().unwrap();
    let path = dir.path().join("spaced.db");
    {
        let c = rusqlite::Connection::open(&path).unwrap();
        c.execute_batch("create table history(id integer primary key autoincrement, source text not null, target text not null, from_lang text not null, to_lang text not null, service text not null, timestamp integer not null);")
            .unwrap();
    }
    let mut db = ok(HistoryStore::open_at(path.to_str().unwrap()));
    assert!(db.insert("a", "b", "en", "zh_cn", "google", 1).is_ok());
    let view_path = dir.path().join("view.db");
    {
        let c = rusqlite::Connection::open(&view_path).unwrap();
        c.execute_batch("CREATE TABLE t (id INTEGER); CREATE VIEW history AS SELECT id FROM t;").unwrap();
    }
    assert!(HistoryStore::open_at(view_path.to_str().unwrap()).is_err());
}

#[test]
fn json_text_matches_serde_json_for_ordered_objects() {
    let j = Json::Object(vec![
        ("a".to_string(), Json::Str("q\"uote\n\u{1}é".to_string())),
        ("b".to_string(), Json::Array(vec![Json::PosInt(1), Json::NegInt(-2), Json::Null, Json::Bool(false)])),
        ("c".to_string(), Json::Object(vec![("d".to_string(), Json::Str(String::new()))])),
    ]);
    let mut inner = serde_json::Map::new();
    inner.insert("d".to_string(), serde_json::Value::String(String::new()));
    let mut m = serde_json::Map::new();
    m.insert("a".to_string(), serde_json::Value::String("q\"uote\n\u{1}é".to_string()));
    m.insert(
        "b".to_string(),
        serde_json::Value::Array(vec![1.into(), (-2).into(), serde_json::Value::Null, false.into()]),
    );
    m.insert("c".to_string(), serde_json::Value::Object(inner));
    assert_eq!(to_json_text(&j), serde_json::to_string(&serde_json::Value::Object(m)).unwrap());
}

#[test]
fn scaled_cut_checks() {
    assert!(scaled_cut_dimensions(800, 600, 1600, 1200).is_ok());
    assert_eq!(
        scaled_cut_dimensions(0, 600, 1600, 1200).err().map(|e| e.message()),
        Some("Invalid screenshot dimensions".to_string())
    );
    assert!(scaled_cut_dimensions(800, 600, 1600, 0).is_err());
    assert_eq!(ok(scaled_cut_region(10, 20, 50, 80)), (10, 20, 40, 60));
    assert_eq!(
        scaled_cut_region(50, 20, 50, 80).err().map(|e| e.message()),
        Some("Empty screenshot selection".to_string())
    );
    assert!(scaled_cut_region(60, 20, 50, 80).is_err());
}

#[test]
fn history_keeps_its_file_and_survives_failed_statements() {
    let dir = tempfile::tempdir().unwrap();
    let path = dir.path().join("kept.db");
    {
        let mut db = ok(HistoryStore::open_at(path.to_str().unwrap()));
        assert!(db.insert("a", "b", "en", "zh_cn", "google", 7).is_ok());
    }
    assert!(path.exists());
    let db = ok(HistoryStore::open_at(path.to_str().unwrap()));
    assert_eq!(ok(db.count()), 1);
}
