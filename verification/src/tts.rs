//! Text to speech: the Lingva backend's request and answer, and the registry.

use vstd::prelude::*;
use crate::error::AppError;
use crate::json::{Json, JsonView, view_field, opt_str, field_str_or};
use crate::registry::{Named, Registry};
use crate::services::{HttpMethod, HttpRequest, HttpRequestView, url_encode, url_encoded};
use crate::text::{str_eq, has_prefix, starts_with};
use crate::recognize::{base64_decoded, decode_base64};

verus! {

/// A text to speak, its language and the service instance's settings.
pub struct TtsRequest {
    pub text: String,
    pub language: String,
    pub config: Json,
}

/// The spoken audio, base64-encoded.
pub struct TtsResult {
    pub audio_base64: String,
}

/// The audio bytes of spoken speech: its base64 text decoded, or the decoder's
/// message.
pub fn tts_audio_bytes(r: &TtsResult) -> (b: Result<Vec<u8>, String>)
    ensures
        match base64_decoded(r.audio_base64@) {
            Ok(bytes) => b matches Ok(v) && v@ == bytes,
            Err(m) => b matches Err(x) && x@ == m,
        },
{
    decode_base64(r.audio_base64.as_str())
}

/// Speech from a Lingva server.
pub struct LingvaTts;

/// Lingva's language for speech: Chinese and Portuguese without their variants, the
/// other supported languages as they are, English otherwise.
pub open spec fn tts_language(l: Seq<char>) -> Seq<char> {
    if l == "zh_cn"@ || l == "zh_tw"@ {
        "zh"@
    } else if l == "pt_pt"@ || l == "pt_br"@ {
        "pt"@
    } else if l == "en"@ || l == "ja"@ || l == "ko"@ || l == "fr"@ || l == "de"@ || l == "es"@ || l
        == "ru"@ || l == "it"@ || l == "tr"@ || l == "ar"@ {
        l
    } else {
        "en"@
    }
}

pub fn map_language(l: &str) -> (r: String)
    ensures
        r@ == tts_language(l@),
{
    if str_eq(l, "zh_cn") || str_eq(l, "zh_tw") {
        "zh".to_string()
    } else if str_eq(l, "pt_pt") || str_eq(l, "pt_br") {
        "pt".to_string()
    } else if str_eq(l, "en") || str_eq(l, "ja") || str_eq(l, "ko") || str_eq(l, "fr") || str_eq(l, "de")
        || str_eq(l, "es") || str_eq(l, "ru") || str_eq(l, "it") || str_eq(l, "tr") || str_eq(l, "ar") {
        l.to_string()
    } else {
        "en".to_string()
    }
}

/// A GET of `<host>/api/v1/audio/<language>/<text>`, with `https://` before a host
/// given without a scheme.
pub open spec fn lingva_tts_request_of(config: JsonView, text: Seq<char>, language: Seq<char>) -> HttpRequestView {
    let host = field_str_or(config, "requestPath"@, "lingva.pot-app.com"@);
    let scheme = if has_prefix(host, "http://"@) || has_prefix(host, "https://"@) {
        Seq::empty()
    } else {
        "https://"@
    };
    HttpRequestView {
        method: HttpMethod::Get,
        url: scheme + host + "/api/v1/audio/"@ + tts_language(language) + "/"@ + url_encoded(text),
        headers: Seq::empty(),
        body: None,
    }
}

/// The answer: a failure for a status outside 2xx (with the status as shown), else
/// the `audio` text, a failure when it is missing.
pub open spec fn lingva_tts_outcome(success: bool, status: Seq<char>, resp: JsonView) -> Result<Seq<char>, Seq<char>> {
    if !success {
        Err("TTS API returned status "@ + status)
    } else {
        match opt_str(view_field(resp, "audio"@)) {
            Some(a) => Ok(a),
            None => Err("TTS response missing 'audio' field"@),
        }
    }
}

pub open spec fn tts_outcome_view(r: Result<TtsResult, AppError>) -> Result<Seq<char>, Seq<char>> {
    match r {
        Ok(t) => Ok(t.audio_base64@),
        Err(e) => Err(e.message_view()),
    }
}

impl LingvaTts {
    pub fn name(&self) -> (r: &'static str)
        ensures
            r@ == "lingva_tts"@,
    {
        "lingva_tts"
    }

    pub fn request(&self, req: &TtsRequest) -> (r: HttpRequest)
        ensures
            r@ == lingva_tts_request_of(req.config@, req.text@, req.language@),
    {
        proof {
            reveal_strlit("");
            assert(""@ =~= Seq::<char>::empty());
        }
        let host = crate::translators::config_str(&req.config, "requestPath", "lingva.pot-app.com");
        let mut url = if starts_with(host.as_str(), "http://") || starts_with(host.as_str(), "https://") {
            String::new()
        } else {
            "https://".to_string()
        };
        url.append(host.as_str());
        url.append("/api/v1/audio/");
        let lang = map_language(req.language.as_str());
        url.append(lang.as_str());
        url.append("/");
        let enc = url_encode(req.text.as_str());
        url.append(enc.as_str());
        let r = HttpRequest { method: HttpMethod::Get, url, headers: Vec::new(), body: None };
        assert(r@.headers =~= Seq::<(Seq<char>, Seq<char>)>::empty());
        r
    }

    /// The result from the answer's status (success, and as shown) and body.
    pub fn response(&self, success: bool, status: &str, resp: &Json) -> (r: Result<TtsResult, AppError>)
        ensures
            tts_outcome_view(r) == lingva_tts_outcome(success, status@, resp@),
            r is Err ==> r->Err_0 is Custom,
    {
        if !success {
            let mut m = "TTS API returned status ".to_string();
            m.append(status);
            return Err(AppError::Custom(m));
        }
        match resp.get("audio") {
            Some(a) => match a.as_str() {
                Some(s) => Ok(TtsResult { audio_base64: s.to_string() }),
                None => Err(AppError::Custom("TTS response missing 'audio' field".to_string())),
            },
            None => Err(AppError::Custom("TTS response missing 'audio' field".to_string())),
        }
    }

    pub fn default_config(&self) -> (r: Json)
        ensures
            r@ == JsonView::Object(seq![("requestPath"@, JsonView::Str("lingva.pot-app.com"@))]),
    {
        let mut es: Vec<(String, Json)> = Vec::new();
        es.push(("requestPath".to_string(), Json::Str("lingva.pot-app.com".to_string())));
        proof {
            crate::json::lemma_entries_view(es@);
            assert(crate::json::json_entries_view(es@) =~= seq![("requestPath"@, JsonView::Str("lingva.pot-app.com"@))]);
        }
        Json::Object(es)
    }
}

/// The speech services.
pub enum TtsService {
    Lingva(LingvaTts),
}

impl Named for TtsService {
    open spec fn spec_name(&self) -> Seq<char> {
        match self {
            TtsService::Lingva(_) => "lingva_tts"@,
        }
    }

    fn name(&self) -> (r: String) {
        match self {
            TtsService::Lingva(s) => s.name().to_string(),
        }
    }
}

impl TtsService {
    /// The settings a new instance of the service starts with.
    pub open spec fn defaults(&self) -> JsonView {
        JsonView::Object(seq![("requestPath"@, JsonView::Str("lingva.pot-app.com"@))])
    }

    pub fn default_config(&self) -> (r: Json)
        ensures
            r@ == self.defaults(),
    {
        match self {
            TtsService::Lingva(s) => s.default_config(),
        }
    }
}

/// The speech services by name.
pub type TtsRegistry = Registry<TtsService>;

/// The registry with the built-in speech service.
pub fn create_registry() -> (r: TtsRegistry)
    ensures
        r.entries() == seq![("lingva_tts"@, TtsService::Lingva(LingvaTts))],
{
    let mut r: TtsRegistry = Registry::new();
    r.register(TtsService::Lingva(LingvaTts));
    proof {
        crate::json::lemma_first_index_none(Seq::<(Seq<char>, TtsService)>::empty(), "lingva_tts"@);
    }
    assert(r.entries() =~= seq![("lingva_tts"@, TtsService::Lingva(LingvaTts))]);
    r
}

/// The service to speak with, or the error for an unknown name.
pub fn speech_service<'a>(reg: &'a TtsRegistry, name: &str) -> (r: Result<&'a TtsService, AppError>)
    ensures
        match crate::json::lookup(reg.entries(), name@) {
            Some(s) => r matches Ok(x) && *x == s,
            None => r matches Err(e) && e is Custom && e.message_view() == "Unknown TTS service: "@ + name@,
        },
{
    match reg.get(name) {
        Some(s) => Ok(s),
        None => {
            let mut m = "Unknown TTS service: ".to_string();
            m.append(name);
            Err(AppError::Custom(m))
        },
    }
}

} // verus!
