use md5::Md5;
use pot_gtk::config_window::search_query;
use pot_gtk::desktop::detect;
use pot_gtk::json::Json;
use pot_gtk::recognize::{RecognizeRequest, SystemTesseract};
use pot_gtk::service_config::prettify_label;
use pot_gtk::services::TranslateRequest;
use pot_gtk::translators::{BaiduTranslate, GoogleTranslate, YoudaoTranslate};
use sha2::{Digest, Sha256};

fn request(text: &str, config: Json) -> TranslateRequest {
    TranslateRequest { text: text.to_string(), from: "en".to_string(), to: "zh_cn".to_string(), config }
}

fn settings(pairs: &[(&str, &str)]) -> Json {
    Json::Object(pairs.iter().map(|(k, v)| (k.to_string(), Json::Str(v.to_string()))).collect())
}

fn hex(bytes: &[u8]) -> String {
    bytes.iter().map(|b| format!("{:02x}", b)).collect()
}

#[test]
fn google_request_percent_encodes_the_text() {
    let r = GoogleTranslate.request(&request("hello world 你", Json::Null));
    assert!(r.url.ends_with("&q=hello%20world%20%E4%BD%A0"), "{}", r.url);
    assert!(r.url.starts_with("https://translate.google.com/translate_a/single?client=gtx&sl=en&tl=zh_cn"));
}

#[test]
fn baidu_request_is_signed_with_md5() {
    let cfg = settings(&[("appid", "id1"), ("secret", "sec")]);
    let r = BaiduTranslate.request_with_salt(&request("hi", cfg), "123").ok().expect("request");
    let mut h = Md5::new();
    h.update(b"id1hi123sec");
    let sign = hex(&h.finalize());
    assert!(r.url.ends_with(&format!("&salt=123&sign={}", sign)), "{}", r.url);
    assert!(r.url.contains("&to=zh&"));
}

#[test]
fn youdao_request_is_signed_with_sha256() {
    let cfg = settings(&[("appkey", "k1"), ("key", "s1")]);
    let r = YoudaoTranslate.request_with(&request("hi", cfg), "salt", "1700000000").ok().expect("request");
    let mut h = Sha256::new();
    h.update(b"k1hisalt1700000000s1");
    let sign = hex(&h.finalize());
    assert!(r.url.contains(&format!("&sign={}&signType=v3&curtime=1700000000", sign)), "{}", r.url);
}

#[test]
fn baidu_request_needs_its_keys() {
    assert!(BaiduTranslate.request_with_salt(&request("hi", Json::Null), "1").is_err());
}

#[test]
fn search_queries_are_lowercased() {
    assert_eq!(search_query("  Proxy HOST "), "proxy host");
}

#[test]
fn labels_are_capitalized() {
    assert_eq!(prettify_label("api_key"), "Api Key");
    assert_eq!(prettify_label("requestPath"), "RequestPath");
    assert_eq!(prettify_label("a__b"), "A  B");
}

#[test]
fn detects_the_language_of_a_text() {
    assert_eq!(detect("This is a sentence written in plain English about the weather today."), Some("en".to_string()));
    assert_eq!(detect("这是一个用中文写的句子，讲的是今天的天气。"), Some("zh_cn".to_string()));
}

#[test]
fn decodes_base64_images_and_reports_bad_input() {
    let req = RecognizeRequest { image_base64: "aGk=".to_string(), language: "auto".to_string(), config: Json::Null };
    assert_eq!(SystemTesseract.decode_image(&req).ok(), Some(b"hi".to_vec()));
    let bad = RecognizeRequest { image_base64: "!!".to_string(), language: "auto".to_string(), config: Json::Null };
    match SystemTesseract.decode_image(&bad) {
        Err(e) => assert!(e.message().starts_with("Base64 decode failed: ")),
        Ok(_) => panic!("expected a decoding failure"),
    }
}
