//! Collecting a word and its translation: the AnkiConnect backend's request and
//! answer, and the registry.

use vstd::prelude::*;
use crate::error::AppError;
use crate::json::{Json, JsonView, json_text, to_json_text, view_field, opt_str, field_str_or};
use crate::registry::{Named, Registry};
use crate::services::{HttpMethod, HttpRequest, HttpRequestView};

verus! {

/// A source text and its translation to keep, with their languages and the
/// service's settings.
pub struct CollectionRequest {
    pub source_text: String,
    pub result_text: String,
    pub source_lang: String,
    pub result_lang: String,
    pub config: Json,
}

/// Whether the text was kept, and what to tell the user.
pub struct CollectionResult {
    pub success: bool,
    pub message: String,
}

/// Cards added to Anki through the AnkiConnect add-on.
pub struct AnkiCollection;

/// The `addNote` call for a card: the source on the front, the translation on the
/// back, tagged `pot`, in the configured deck and note type.
pub open spec fn anki_note(config: JsonView, front: Seq<char>, back: Seq<char>) -> JsonView {
    JsonView::Object(
        seq![
            ("action"@, JsonView::Str("addNote"@)),
            (
                "params"@,
                JsonView::Object(
                    seq![
                        (
                            "note"@,
                            JsonView::Object(
                                seq![
                                    ("deckName"@, JsonView::Str(field_str_or(config, "deck"@, "Pot"@))),
                                    (
                                        "fields"@,
                                        JsonView::Object(
                                            seq![("Back"@, JsonView::Str(back)), ("Front"@, JsonView::Str(front))],
                                        ),
                                    ),
                                    ("modelName"@, JsonView::Str(field_str_or(config, "model"@, "Basic"@))),
                                    ("tags"@, JsonView::Array(seq![JsonView::Str("pot"@)])),
                                ],
                            ),
                        ),
                    ],
                ),
            ),
            ("version"@, JsonView::PosInt(6)),
        ],
    )
}

/// A POST of the call to the configured AnkiConnect address.
pub open spec fn anki_request_of(config: JsonView, front: Seq<char>, back: Seq<char>) -> HttpRequestView {
    HttpRequestView {
        method: HttpMethod::Post,
        url: field_str_or(config, "requestPath"@, "http://127.0.0.1:8765"@),
        headers: seq![("Content-Type"@, "application/json"@)],
        body: Some(json_text(anki_note(config, front, back))),
    }
}

/// The answer: not kept when it reports a non-empty error, else added.
pub open spec fn anki_outcome(resp: JsonView) -> (bool, Seq<char>) {
    match opt_str(view_field(resp, "error"@)) {
        Some(e) => if e.len() > 0 {
            (false, "Anki error: "@ + e)
        } else {
            (true, "Added to Anki"@)
        },
        None => (true, "Added to Anki"@),
    }
}

fn entries_of(es: Vec<(String, Json)>) -> (r: Json)
    ensures
        r@ == JsonView::Object(crate::json::json_entries_view(es@)),
{
    Json::Object(es)
}

impl AnkiCollection {
    pub fn name(&self) -> (r: &'static str)
        ensures
            r@ == "anki"@,
    {
        "anki"
    }

    pub fn request(&self, req: &CollectionRequest) -> (r: HttpRequest)
        ensures
            r@ == anki_request_of(req.config@, req.source_text@, req.result_text@),
    {
        let host = crate::translators::config_str(&req.config, "requestPath", "http://127.0.0.1:8765");
        let deck = crate::translators::config_str(&req.config, "deck", "Pot");
        let model = crate::translators::config_str(&req.config, "model", "Basic");
        let mut fields: Vec<(String, Json)> = Vec::new();
        fields.push(("Back".to_string(), Json::Str(req.result_text.clone())));
        fields.push(("Front".to_string(), Json::Str(req.source_text.clone())));
        let mut tags: Vec<Json> = Vec::new();
        tags.push(Json::Str("pot".to_string()));
        let mut note: Vec<(String, Json)> = Vec::new();
        note.push(("deckName".to_string(), Json::Str(deck)));
        let ghost fv = crate::json::json_entries_view(fields@);
        note.push(("fields".to_string(), entries_of(fields)));
        note.push(("modelName".to_string(), Json::Str(model)));
        let ghost tv = crate::json::json_seq_view(tags@);
        note.push(("tags".to_string(), Json::Array(tags)));
        let mut params: Vec<(String, Json)> = Vec::new();
        let ghost nv = crate::json::json_entries_view(note@);
        params.push(("note".to_string(), entries_of(note)));
        let mut call: Vec<(String, Json)> = Vec::new();
        call.push(("action".to_string(), Json::Str("addNote".to_string())));
        let ghost pv = crate::json::json_entries_view(params@);
        call.push(("params".to_string(), entries_of(params)));
        call.push(("version".to_string(), Json::PosInt(6)));
        let body = Json::Object(call);
        proof {
            crate::json::lemma_entries_view(call@);
            crate::json::lemma_entries_view(params@);
            crate::json::lemma_entries_view(note@);
            crate::json::lemma_entries_view(fields@);
            crate::json::lemma_seq_view(tags@);
            assert(fv =~= seq![("Back"@, JsonView::Str(req.result_text@)), ("Front"@, JsonView::Str(req.source_text@))]);
            assert(tv =~= seq![JsonView::Str("pot"@)]);
            assert(nv =~~= seq![
                ("deckName"@, JsonView::Str(field_str_or(req.config@, "deck"@, "Pot"@))),
                ("fields"@, JsonView::Object(seq![("Back"@, JsonView::Str(req.result_text@)), ("Front"@, JsonView::Str(req.source_text@))])),
                ("modelName"@, JsonView::Str(field_str_or(req.config@, "model"@, "Basic"@))),
                ("tags"@, JsonView::Array(seq![JsonView::Str("pot"@)])),
            ]);
            assert(pv =~~= seq![("note"@, JsonView::Object(nv))]);
            assert(crate::json::json_entries_view(call@) =~~= seq![
                ("action"@, JsonView::Str("addNote"@)),
                ("params"@, JsonView::Object(pv)),
                ("version"@, JsonView::PosInt(6)),
            ]);
            assert(body@ =~~= anki_note(req.config@, req.source_text@, req.result_text@));
        }
        let mut hs: Vec<(String, String)> = Vec::new();
        hs.push(("Content-Type".to_string(), "application/json".to_string()));
        let r = HttpRequest { method: HttpMethod::Post, url: host, headers: hs, body: Some(to_json_text(&body)) };
        assert(r@.headers =~= seq![("Content-Type"@, "application/json"@)]);
        r
    }

    pub fn response(&self, resp: &Json) -> (r: CollectionResult)
        ensures
            (r.success, r.message@) == anki_outcome(resp@),
    {
        match resp.get("error") {
            Some(e) => match e.as_str() {
                Some(s) => if s.unicode_len() > 0 {
                    let mut m = "Anki error: ".to_string();
                    m.append(s);
                    return CollectionResult { success: false, message: m };
                },
                None => {},
            },
            None => {},
        }
        CollectionResult { success: true, message: "Added to Anki".to_string() }
    }

    pub fn default_config(&self) -> (r: Json)
        ensures
            r@ == JsonView::Object(
                seq![
                    ("deck"@, JsonView::Str("Pot"@)),
                    ("model"@, JsonView::Str("Basic"@)),
                    ("requestPath"@, JsonView::Str("http://127.0.0.1:8765"@)),
                ],
            ),
    {
        let mut es: Vec<(String, Json)> = Vec::new();
        es.push(("deck".to_string(), Json::Str("Pot".to_string())));
        es.push(("model".to_string(), Json::Str("Basic".to_string())));
        es.push(("requestPath".to_string(), Json::Str("http://127.0.0.1:8765".to_string())));
        proof {
            crate::json::lemma_entries_view(es@);
            assert(crate::json::json_entries_view(es@) =~= seq![
                ("deck"@, JsonView::Str("Pot"@)),
                ("model"@, JsonView::Str("Basic"@)),
                ("requestPath"@, JsonView::Str("http://127.0.0.1:8765"@)),
            ]);
        }
        Json::Object(es)
    }
}

/// The collection services.
pub enum CollectionService {
    Anki(AnkiCollection),
}

impl Named for CollectionService {
    open spec fn spec_name(&self) -> Seq<char> {
        match self {
            CollectionService::Anki(_) => "anki"@,
        }
    }

    fn name(&self) -> (r: String) {
        match self {
            CollectionService::Anki(s) => s.name().to_string(),
        }
    }
}

impl CollectionService {
    /// The settings a new instance of the service starts with.
    pub open spec fn defaults(&self) -> JsonView {
        JsonView::Object(
            seq![
                ("deck"@, JsonView::Str("Pot"@)),
                ("model"@, JsonView::Str("Basic"@)),
                ("requestPath"@, JsonView::Str("http://127.0.0.1:8765"@)),
            ],
        )
    }

    pub fn default_config(&self) -> (r: Json)
        ensures
            r@ == self.defaults(),
    {
        match self {
            CollectionService::Anki(s) => s.default_config(),
        }
    }
}

/// The collection services by name.
pub type CollectionRegistry = Registry<CollectionService>;

/// The registry with the built-in collection service.
pub fn create_registry() -> (r: CollectionRegistry)
    ensures
        r.entries() == seq![("anki"@, CollectionService::Anki(AnkiCollection))],
{
    let mut r: CollectionRegistry = Registry::new();
    r.register(CollectionService::Anki(AnkiCollection));
    proof {
        crate::json::lemma_first_index_none(Seq::<(Seq<char>, CollectionService)>::empty(), "anki"@);
    }
    assert(r.entries() =~= seq![("anki"@, CollectionService::Anki(AnkiCollection))]);
    r
}

/// The service to collect with, or the error for an unknown name.
pub fn collection_service<'a>(reg: &'a CollectionRegistry, name: &str) -> (r: Result<&'a CollectionService, AppError>)
    ensures
        match crate::json::lookup(reg.entries(), name@) {
            Some(s) => r matches Ok(x) && *x == s,
            None => r matches Err(e) && e is Custom && e.message_view() == "Unknown collection service: "@ + name@,
        },
{
    match reg.get(name) {
        Some(s) => Ok(s),
        None => {
            let mut m = "Unknown collection service: ".to_string();
            m.append(name);
            Err(AppError::Custom(m))
        },
    }
}

} // verus!
