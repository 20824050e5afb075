use pot_gtk::json::Json;
use pot_gtk::updater::{is_newer_version, release_result_from_json, UpdaterLabels, UpdaterModel};

fn obj(entries: Vec<(&str, Json)>) -> Json {
    Json::Object(entries.into_iter().map(|(k, v)| (k.to_string(), v)).collect())
}

#[test]
fn compares_versions_numerically() {
    assert!(is_newer_version("0.10.0", "0.9.9"));
    assert!(is_newer_version("v1.0.1", "1.0.0"));
    assert!(!is_newer_version("0.1.0", "0.1.0"));
    assert!(!is_newer_version("0.1.0", "0.2.0"));
}

#[test]
fn parses_github_release_json() {
    let json = obj(vec![
        ("tag_name", Json::Str("v0.2.0".to_string())),
        ("html_url", Json::Str("https://github.com/Geek0x0/pot-desktop-linux/releases/tag/v0.2.0".to_string())),
        ("body", Json::Str("hello".to_string())),
    ]);
    let result = release_result_from_json("0.1.0", &json, "No release found.", "No release notes.");
    assert!(result.available);
    assert_eq!(result.latest, "0.2.0");
    assert_eq!(result.notes, "hello");
}

#[test]
fn updater_status_lines() {
    let labels = UpdaterLabels {
        checking: "Checking".to_string(),
        update_available: "Update available".to_string(),
        up_to_date: "You are up to date".to_string(),
        current_version: "Current version".to_string(),
    };
    let mut m = UpdaterModel::new("0.1.0".to_string());
    assert_eq!(m.view_state(&labels).status, "Current version: 0.1.0");
    m.begin_check();
    let v = m.view_state(&labels);
    assert!(v.spinner && !v.check_enabled);
    let json = obj(vec![("tag_name", Json::Str("v0.2.0".to_string())), ("body", Json::Str("notes".to_string()))]);
    m.finish_check(release_result_from_json("0.1.0", &json, "none", "no notes"));
    let v = m.view_state(&labels);
    assert_eq!(v.status, "Update available: 0.1.0 -> 0.2.0");
    assert!(v.update_visible && v.notes_visible);
}
