use pot_gtk::json::Json;
use pot_gtk::services::{HttpMethod, TranslateRequest, TranslateResult};
use pot_gtk::translators::{BingTokenCache, BingTranslate, GoogleTranslate, LingvaTranslate, OpenAITranslate};
use serde_json::Value;

fn ok<T, E>(r: Result<T, E>) -> T {
    match r {
        Ok(v) => v,
        Err(_) => panic!("expected Ok"),
    }
}

fn err<T, E>(r: Result<T, E>) -> E {
    match r {
        Ok(_) => panic!("expected Err"),
        Err(e) => e,
    }
}

fn from_value(v: &Value) -> Json {
    match v {
        Value::Null => Json::Null,
        Value::Bool(b) => Json::Bool(*b),
        Value::Number(n) => {
            if let Some(u) = n.as_u64() {
                Json::PosInt(u)
            } else if let Some(i) = n.as_i64() {
                Json::NegInt(i)
            } else {
                Json::Float(n.to_string())
            }
        }
        Value::String(s) => Json::Str(s.clone()),
        Value::Array(a) => Json::Array(a.iter().map(from_value).collect()),
        Value::Object(o) => Json::Object(o.iter().map(|(k, v)| (k.clone(), from_value(v))).collect()),
    }
}

fn parse(text: &str) -> Json {
    from_value(&serde_json::from_str::<Value>(text).expect("valid JSON"))
}

fn config(pairs: &[(&str, Json)]) -> Json {
    Json::Object(pairs.iter().map(|(k, v)| (k.to_string(), v.deep_clone())).collect())
}

fn text_of(r: TranslateResult) -> String {
    match r {
        TranslateResult::Text(t) => t,
        TranslateResult::Dictionary(d) => {
            panic!("expected Text variant, got Dictionary with {} explanations", d.explanations.len())
        }
    }
}

const MOCK: &str = "http://127.0.0.1:8080";

#[test]
fn google_translate_text() {
    let svc = GoogleTranslate;
    let req = TranslateRequest {
        text: "hello".into(),
        from: "en".into(),
        to: "zh-CN".into(),
        config: config(&[("custom_url", Json::Str(MOCK.to_string()))]),
    };
    let http = svc.request(&req);
    assert!(matches!(http.method, HttpMethod::Get));
    assert!(http.url.starts_with(MOCK));
    let result = ok(svc.response(&parse(r#"[[["你好","hello",null,null,10]],"en"]"#)));
    assert_eq!(text_of(result), "你好");
}

#[test]
fn google_translate_requests_text_segments() {
    let svc = GoogleTranslate;
    let req = TranslateRequest {
        text: "hello".into(),
        from: "auto".into(),
        to: "zh_cn".into(),
        config: config(&[("custom_url", Json::Str(MOCK.to_string()))]),
    };
    let http = svc.request(&req);
    assert!(http.url.contains("dt=t"));
    let body = if http.url.contains("dt=t") {
        r#"[[["你好","hello",null,null,10]],null,"en",null,null,null,null,[]]"#
    } else {
        r#"[null,null,"",null,null,null,null,[]]"#
    };
    let result = ok(svc.response(&parse(body)));
    assert_eq!(text_of(result), "你好");
}

#[test]
fn bing_translate_maps_auto_and_chinese_language_codes() {
    let svc = BingTranslate;
    let req = TranslateRequest {
        text: "hello".into(),
        from: "auto".into(),
        to: "zh_cn".into(),
        config: config(&[
            ("auth_url", Json::Str(format!("{}/auth", MOCK))),
            ("request_url", Json::Str(format!("{}/translate", MOCK))),
        ]),
    };
    let auth = svc.auth_request(&req.config);
    assert_eq!(auth.url, format!("{}/auth", MOCK));
    let http = svc.request(&req, "mock-token");
    assert!(!http.url.contains("from=auto"));
    assert!(http.url.contains("to=zh-Hans"));
    let body = if http.url.contains("from=auto") || http.url.contains("to=zh_cn") {
        r#"{"error":{"code":400035,"message":"The source or target language is not valid."}}"#
    } else {
        r#"[{"translations":[{"text":"你好","to":"zh-Hans"}]}]"#
    };
    let result = ok(svc.response(&parse(body)));
    assert_eq!(text_of(result), "你好");
}

#[test]
fn bing_refetches_token_when_auth_url_changes() {
    let svc = BingTranslate;
    let mut cache = BingTokenCache::new();
    let mut hits_one = 0;
    let mut hits_two = 0;
    let one = format!("{}/auth", MOCK);
    let two = "http://127.0.0.1:9090/auth".to_string();
    let mut results = Vec::new();
    for (auth_url, text, answer) in [(&one, "hello", "你好"), (&two, "world", "世界")] {
        let req = TranslateRequest {
            text: text.into(),
            from: "auto".into(),
            to: "zh_cn".into(),
            config: config(&[("auth_url", Json::Str(auth_url.clone()))]),
        };
        let now = 1_000;
        let token = match cache.get(auth_url, now) {
            Some(t) => t,
            None => {
                let auth = svc.auth_request(&req.config);
                let token = if auth.url == one {
                    hits_one += 1;
                    "token-one"
                } else {
                    hits_two += 1;
                    "token-two"
                };
                cache.store(&auth.url, token, now);
                token.to_string()
            }
        };
        let http = svc.request(&req, &token);
        assert!(http.headers.iter().any(|(k, v)| k == "Authorization" && v == &format!("Bearer {}", token)));
        let body = format!(r#"[{{"translations":[{{"text":"{}","to":"zh-Hans"}}]}}]"#, answer);
        results.push(ok(svc.response(&parse(&body))));
    }
    assert_eq!(hits_one, 1);
    assert_eq!(hits_two, 1);
    assert!(matches!(results[0], TranslateResult::Text(_)));
    assert!(matches!(results[1], TranslateResult::Text(_)));
}

#[test]
fn lingva_translate_text() {
    let svc = LingvaTranslate;
    let req = TranslateRequest {
        text: "hello world".into(),
        from: "en".into(),
        to: "zh-CN".into(),
        config: config(&[("custom_url", Json::Str(MOCK.to_string()))]),
    };
    let http = svc.request(&req);
    assert!(http.url.starts_with(MOCK));
    let result = ok(svc.response(&parse(r#"{"translation":"你好世界"}"#)));
    assert_eq!(text_of(result), "你好世界");
}

fn openai_config(key: &str) -> Json {
    config(&[
        ("api_key", Json::Str(key.to_string())),
        ("model", Json::Str("gpt-3.5-turbo".to_string())),
        ("request_path", Json::Str(MOCK.to_string())),
        ("service", Json::Str("openai".to_string())),
        ("prompt", Json::Array(vec![])),
        ("request_arguments", Json::Object(vec![])),
    ])
}

#[test]
fn openai_translate_text() {
    let svc = OpenAITranslate;
    let req = TranslateRequest {
        text: "hello".into(),
        from: "en".into(),
        to: "zh-CN".into(),
        config: openai_config("test-key"),
    };
    let http = ok(svc.request(&req));
    assert_eq!(http.url, MOCK);
    let body = r#"{"id":"chatcmpl-123","object":"chat.completion","choices":[{"index":0,"message":{"role":"assistant","content":"你好"},"finish_reason":"stop"}]}"#;
    let result = ok(svc.response(svc.is_anthropic(&req.config), 200, &parse(body)));
    assert_eq!(text_of(result), "你好");
}

#[test]
fn openai_error_response() {
    let svc = OpenAITranslate;
    let req = TranslateRequest {
        text: "hello".into(),
        from: "en".into(),
        to: "zh-CN".into(),
        config: openai_config("bad-key"),
    };
    assert!(svc.request(&req).is_ok());
    let body = r#"{"error":{"message":"Invalid API key","type":"invalid_request_error"}}"#;
    let failed = err(svc.response(false, 401, &parse(body)));
    assert_eq!(failed.message, "Invalid API key");
}
