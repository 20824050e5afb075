use pot_gtk::desktop::{autostart_change, autostart_file, is_enabled, AutostartChange, ClipboardEvent, ClipboardMonitor, AUTOSTART_DESKTOP_ENTRY};
use pot_gtk::json::Json;
use pot_gtk::plugin::{
    create_translate_adapters, execute_plugin_with_input, join_path, plugin_install_name, Plugin, PluginCandidate,
    PluginInfo, PluginManager, PluginTranslateService,
};
use pot_gtk::error::AppError;
use pot_gtk::services::{TranslateRequest, TranslateResult};

fn ok<T, E>(r: Result<T, E>) -> T {
    match r {
        Ok(v) => v,
        Err(_) => panic!("expected Ok"),
    }
}

fn err<T, E>(r: Result<T, E>) -> E {
    match r {
        Ok(_) => panic!("expected Err"),
        Err(e) => e,
    }
}

fn info(name: &str, t: &str) -> PluginInfo {
    PluginInfo {
        name: name.to_string(),
        plugin_type: t.to_string(),
        display: vec![("en".to_string(), "Demo".to_string())],
        language: vec![("en".to_string(), "en".to_string())],
    }
}

fn candidate(t: &str, name: &str, is_dir: bool, with_info: bool) -> PluginCandidate {
    PluginCandidate {
        plugin_type: t.to_string(),
        name: name.to_string(),
        is_dir,
        path: format!("/plugins/{}/{}", t, name),
        info: if with_info { Some(info(name, t)) } else { None },
    }
}

#[test]
fn discovery_keeps_only_plugin_directories_with_descriptions() {
    let mut m = PluginManager::new();
    m.discover_all(&vec![
        candidate("translate", "plugin_demo", true, true),
        candidate("translate", "notes", true, true),
        candidate("translate", "plugin_file", false, true),
        candidate("translate", "plugin_broken", true, false),
        candidate("weather", "plugin_sun", true, true),
        candidate("tts", "plugin_voice", true, true),
    ]);
    assert_eq!(m.list("translate"), vec!["plugin_demo".to_string()]);
    assert_eq!(m.get_plugin_list("tts"), vec!["plugin_voice".to_string()]);
    assert!(m.get("weather", "plugin_sun").is_none());
    let p = m.get("translate", "plugin_demo").expect("plugin_demo is listed");
    assert_eq!(p.path, "/plugins/translate/plugin_demo");
    assert_eq!(p.main_js_path(), "/plugins/translate/plugin_demo/main.js");
}

#[test]
fn uninstall_forgets_only_that_plugin() {
    let mut m = PluginManager::new();
    m.discover_all(&vec![candidate("translate", "plugin_a", true, true), candidate("translate", "plugin_b", true, true)]);
    m.uninstall("translate", "plugin_a");
    assert!(m.get("translate", "plugin_a").is_none());
    assert!(m.get("translate", "plugin_b").is_some());
    assert_eq!(m.list("translate"), vec!["plugin_b".to_string()]);
}

#[test]
fn translate_adapters_cover_translate_plugins() {
    let mut m = PluginManager::new();
    m.discover_all(&vec![candidate("translate", "plugin_a", true, true), candidate("tts", "plugin_b", true, true)]);
    let adapters = create_translate_adapters(&m);
    assert_eq!(adapters.len(), 1);
    assert_eq!(adapters[0].name(), "plugin_a");
    assert!(matches!(adapters[0].default_config(), Json::Null));
}

#[test]
fn install_name_requires_plugin_prefix_and_extension() {
    assert_eq!(ok(plugin_install_name("plugin_demo.potext")), "plugin_demo");
    let e = err(plugin_install_name("demo.potext"));
    assert_eq!(e.message(), "Plugin file must be named plugin*.potext");
    assert!(plugin_install_name("plugin_demo.zip").is_err());
}

#[test]
fn join_path_inserts_one_separator() {
    assert_eq!(join_path("/a", "b"), "/a/b");
    assert_eq!(join_path("/a/", "b"), "/a/b");
    assert_eq!(join_path("", "b"), "b");
}

#[test]
fn plugin_script_is_wrapped_and_errors_pass_through() {
    let p = Plugin { info: info("plugin_demo", "translate"), path: "/p".to_string() };
    let wrapped = ok(execute_plugin_with_input(&p, Ok("let result = 1;".to_string())));
    assert_eq!(wrapped, "(function() {\nlet result = 1;\nreturn result;\n})()");
    let failed = err(execute_plugin_with_input(&p, Err(AppError::Custom("no main.js".to_string()))));
    assert_eq!(failed, "no main.js");
}

#[test]
fn plugin_service_arguments_and_results() {
    let svc = PluginTranslateService::new(Plugin { info: info("plugin_demo", "translate"), path: "/p".to_string() });
    let req = TranslateRequest { text: "hi".into(), from: "en".into(), to: "zh_cn".into(), config: Json::Null };
    assert_eq!(svc.script_args(&req), r#"{"config":null,"from":"en","text":"hi","to":"zh_cn"}"#);
    match ok(svc.result(Ok("你好".to_string()))) {
        TranslateResult::Text(t) => assert_eq!(t, "你好"),
        _ => panic!("expected Text variant"),
    }
    let e = err(svc.result(Err("boom".to_string())));
    assert_eq!(e.service, "plugin_demo");
    assert_eq!(e.message, "boom");
}

#[test]
fn clipboard_reports_new_text_once() {
    let mut m = ClipboardMonitor::new();
    assert!(!m.is_enabled());
    assert!(m.poll(Some("hello".to_string())).is_none());
    m.set_enabled(true);
    match m.poll(Some("hello".to_string())) {
        Some(ClipboardEvent::NewText(t)) => assert_eq!(t, "hello"),
        None => panic!("expected new text"),
    }
    assert!(m.poll(Some("hello".to_string())).is_none());
    assert!(m.poll(Some(String::new())).is_none());
    assert!(m.poll(None).is_none());
    assert!(m.poll(Some("world".to_string())).is_some());
    assert_eq!(m.last_text, "world");
}

#[test]
fn autostart_entry_is_written_or_removed() {
    assert_eq!(autostart_file("/home/u/.config"), "/home/u/.config/autostart/com.pot-app.pot-gtk.desktop");
    assert!(is_enabled(Some(true)));
    assert!(!is_enabled(None));
    match ok(autostart_change(Some("/c"), true, false)) {
        AutostartChange::Write { dir, path, content } => {
            assert_eq!(dir, "/c/autostart");
            assert_eq!(path, "/c/autostart/com.pot-app.pot-gtk.desktop");
            assert_eq!(content, AUTOSTART_DESKTOP_ENTRY);
        }
        _ => panic!("expected a write"),
    }
    assert!(matches!(ok(autostart_change(Some("/c"), false, true)), AutostartChange::Remove { .. }));
    assert!(matches!(ok(autostart_change(Some("/c"), false, false)), AutostartChange::Keep));
    let e = err(autostart_change(None, true, false));
    assert_eq!(e.message(), "cannot determine autostart directory");
}
