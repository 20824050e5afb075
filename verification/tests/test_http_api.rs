use pot_gtk::http_server::{
    check_local_response, local_action_request, route_request, translate_body_action, AppAction, RateLimiter, Route,
};
use pot_gtk::json::Json;

const AUTH: Option<&str> = Some("Bearer tok");

#[test]
fn health_needs_no_token() {
    assert!(matches!(route_request("/", None, "tok"), Route::Health));
}

#[test]
fn requests_without_the_token_are_refused() {
    assert!(matches!(route_request("/config", None, "tok"), Route::Unauthorized));
    assert!(matches!(route_request("/config", Some("Bearer other"), "tok"), Route::Unauthorized));
    assert!(matches!(route_request("/config?token=tok", None, "tok"), Route::Unauthorized));
}

#[test]
fn endpoints_map_to_actions() {
    assert!(matches!(route_request("/translate", AUTH, "tok"), Route::Translate));
    assert!(matches!(route_request("/config", AUTH, "tok"), Route::Action(AppAction::ShowConfig)));
    assert!(matches!(route_request("/selection_translate", AUTH, "tok"), Route::Action(AppAction::SelectionTranslate)));
    assert!(matches!(route_request("/input_translate", AUTH, "tok"), Route::Action(AppAction::InputTranslate)));
    assert!(matches!(
        route_request("/ocr_recognize", AUTH, "tok"),
        Route::Action(AppAction::OcrRecognize { screenshot: true })
    ));
    assert!(matches!(
        route_request("/ocr_translate?screenshot=false", AUTH, "tok"),
        Route::Action(AppAction::OcrTranslate { screenshot: false })
    ));
    assert!(matches!(route_request("/nope", AUTH, "tok"), Route::NotFound));
}

#[test]
fn translate_bodies_become_text_actions() {
    assert!(matches!(translate_body_action("hi".to_string()), Some(AppAction::TranslateText(ref t)) if t == "hi"));
    assert!(translate_body_action(String::new()).is_none());
}

#[test]
fn local_actions_are_sent_with_the_token() {
    let token = Json::Str("tok".to_string());
    let req = local_action_request("ocr-translate", Some(&token), None).ok().expect("request");
    assert_eq!(req.connect_port, 60828);
    assert_eq!(
        req.text,
        "GET /ocr_translate?screenshot=true HTTP/1.1\r\nHost: 127.0.0.1:60828\r\nAuthorization: Bearer tok\r\nConnection: close\r\n\r\n"
    );
    assert!(local_action_request("dance", Some(&token), None).is_err());
    assert!(local_action_request("config", None, None).is_err());
    assert!(check_local_response("HTTP/1.1 200 OK\r\n\r\nok").is_ok());
    assert!(check_local_response("HTTP/1.1 401 Unauthorized\r\n").is_err());
}

#[test]
fn rate_limit_allows_one_hundred_twenty_per_minute() {
    let mut limiter = RateLimiter::new(0);
    for _ in 0..120 {
        assert!(limiter.check(10));
    }
    assert!(!limiter.check(20));
    assert!(limiter.check(60_000));
}
