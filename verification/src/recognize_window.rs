//! The text recognition window's decisions: which service it starts with, what
//! each message does to its state, and how an image and the service's answer
//! become the text it shows.

use vstd::prelude::*;
use crate::config::{ConfigStore, map_get, as_string_list, string_list};
use crate::error::AppError;
use crate::json::{Json, JsonView};
use crate::recognize::{RecognizeRequest, RecognizeResult};
use crate::text::{views, str_eq};

verus! {

/// The service the window starts with: the first of the stored recognition list
/// (when it is a list of texts with one), else `tesseract`.
pub open spec fn initial_service_of(store: Map<Seq<char>, JsonView>) -> Seq<char> {
    match map_get(store, "recognize_service_list"@) {
        Some(v) => match as_string_list(v) {
            Some(l) => if l.len() > 0 {
                l[0]
            } else {
                "tesseract"@
            },
            None => "tesseract"@,
        },
        None => "tesseract"@,
    }
}

pub fn initial_ocr_service(store: &ConfigStore) -> (r: String)
    ensures
        r@ == initial_service_of(store@),
{
    match store.get("recognize_service_list") {
        Some(v) => match string_list(&v) {
            Some(l) => {
                if l.len() > 0 {
                    l[0].clone()
                } else {
                    "tesseract".to_string()
                }
            },
            None => "tesseract".to_string(),
        },
        None => "tesseract".to_string(),
    }
}

/// The position of a service in the offered list.
pub open spec fn service_position(names: Seq<Seq<char>>, name: Seq<char>) -> Option<int>
    decreases names.len(),
{
    if names.len() == 0 {
        None
    } else if names[0] == name {
        Some(0)
    } else {
        match service_position(names.drop_first(), name) {
            Some(p) => Some(p + 1),
            None => None,
        }
    }
}

/// The drop-down position of the service the window uses.
pub fn selected_position(names: &Vec<String>, name: &str) -> (r: Option<usize>)
    ensures
        match service_position(views(names@), name@) {
            Some(p) => r == Some(p as usize),
            None => r is None,
        },
{
    let ghost nv = views(names@);
    let mut i: usize = 0;
    assert(nv.skip(0) =~= nv);
    while i < names.len()
        invariant
            nv == views(names@),
            nv.len() == names@.len(),
            i <= names@.len(),
            service_position(nv, name@) == match service_position(nv.skip(i as int), name@) {
                Some(p) => Some(p + i),
                None => None,
            },
        decreases names@.len() - i,
    {
        proof {
            assert(nv.skip(i as int)[0] == names@[i as int]@);
            assert(nv.skip(i as int).drop_first() =~= nv.skip(i + 1));
        }
        if str_eq(names[i].as_str(), name) {
            return Some(i);
        }
        i = i + 1;
    }
    None
}

/// What the window is told.
pub enum RecognizeMsg {
    Show,
    Recognize,
    SetRecognizedText(String),
    CopyText,
    TranslateText,
    Pin,
    Close,
    SetOcrService(String),
}

/// What the window does besides changing its state.
pub enum RecognizeEffect {
    /// Load the cut image into the preview, then recognize it.
    LoadImageThenRecognize,
    /// Read the cut image and have the service recognize it.
    RunOcr { service: String },
    /// Put the text on the clipboard.
    CopyToClipboard(String),
    /// Ask for the text to be translated.
    Translate(String),
    /// Tell the application the window closed.
    Closed,
    Nothing,
}

/// The window's state: the text shown, whether recognition runs, whether the
/// window is pinned, and the service it uses.
pub struct RecognizeState {
    pub recognized_text: String,
    pub loading: bool,
    pub pinned: bool,
    pub ocr_service: String,
}

pub type RecognizeStateView = (Seq<char>, bool, bool, Seq<char>);

pub enum RecognizeEffectView {
    LoadImageThenRecognize,
    RunOcr(Seq<char>),
    CopyToClipboard(Seq<char>),
    Translate(Seq<char>),
    Closed,
    Nothing,
}

impl View for RecognizeEffect {
    type V = RecognizeEffectView;

    open spec fn view(&self) -> RecognizeEffectView {
        match self {
            RecognizeEffect::LoadImageThenRecognize => RecognizeEffectView::LoadImageThenRecognize,
            RecognizeEffect::RunOcr { service } => RecognizeEffectView::RunOcr(service@),
            RecognizeEffect::CopyToClipboard(t) => RecognizeEffectView::CopyToClipboard(t@),
            RecognizeEffect::Translate(t) => RecognizeEffectView::Translate(t@),
            RecognizeEffect::Closed => RecognizeEffectView::Closed,
            RecognizeEffect::Nothing => RecognizeEffectView::Nothing,
        }
    }
}

/// The state after a message, and what the window does.
pub open spec fn recognize_step(s: RecognizeStateView, m: RecognizeMsg) -> (RecognizeStateView, RecognizeEffectView) {
    let (text, loading, pinned, service) = s;
    match m {
        RecognizeMsg::Show => ((text, true, pinned, service), RecognizeEffectView::LoadImageThenRecognize),
        RecognizeMsg::Recognize => ((text, true, pinned, service), RecognizeEffectView::RunOcr(service)),
        RecognizeMsg::SetRecognizedText(t) => ((t@, loading, pinned, service), RecognizeEffectView::Nothing),
        RecognizeMsg::CopyText => (s, RecognizeEffectView::CopyToClipboard(text)),
        RecognizeMsg::TranslateText => (s, RecognizeEffectView::Translate(text)),
        RecognizeMsg::Pin => ((text, loading, !pinned, service), RecognizeEffectView::Nothing),
        RecognizeMsg::Close => (s, RecognizeEffectView::Closed),
        RecognizeMsg::SetOcrService(n) => ((text, loading, pinned, n@), RecognizeEffectView::Nothing),
    }
}

impl View for RecognizeState {
    type V = RecognizeStateView;

    open spec fn view(&self) -> RecognizeStateView {
        (self.recognized_text@, self.loading, self.pinned, self.ocr_service@)
    }
}

impl RecognizeState {
    /// The state of a new window using a service.
    pub fn new(ocr_service: String) -> (r: Self)
        ensures
            r@ == (Seq::<char>::empty(), false, false, ocr_service@),
    {
        RecognizeState { recognized_text: String::new(), loading: false, pinned: false, ocr_service }
    }

    pub fn update(&mut self, msg: RecognizeMsg) -> (r: RecognizeEffect)
        ensures
            (final(self)@, r@) == recognize_step(old(self)@, msg),
    {
        match msg {
            RecognizeMsg::Show => {
                self.loading = true;
                RecognizeEffect::LoadImageThenRecognize
            },
            RecognizeMsg::Recognize => {
                self.loading = true;
                RecognizeEffect::RunOcr { service: self.ocr_service.clone() }
            },
            RecognizeMsg::SetRecognizedText(t) => {
                self.recognized_text = t;
                RecognizeEffect::Nothing
            },
            RecognizeMsg::CopyText => RecognizeEffect::CopyToClipboard(self.recognized_text.clone()),
            RecognizeMsg::TranslateText => RecognizeEffect::Translate(self.recognized_text.clone()),
            RecognizeMsg::Pin => {
                self.pinned = !self.pinned;
                RecognizeEffect::Nothing
            },
            RecognizeMsg::Close => RecognizeEffect::Closed,
            RecognizeMsg::SetOcrService(n) => {
                self.ocr_service = n;
                RecognizeEffect::Nothing
            },
        }
    }

    /// Recognition finished with a text: it is shown and loading stops.
    pub fn update_cmd(&mut self, out: OcrCommandOutput)
        ensures
            final(self)@ == (out.text@, false, old(self)@.2, old(self)@.3),
    {
        self.loading = false;
        self.recognized_text = out.text;
    }
}

/// The text recognition gave and whether it is a failure to read the image.
pub struct OcrCommandOutput {
    pub text: String,
    pub error: bool,
}

/// The request for the cut image, or the text shown when there is none to read:
/// `no_image` for an empty file, `read_error_label: message` for one that could
/// not be read.
pub fn ocr_request(
    image: Result<String, AppError>,
    no_image: &str,
    read_error_label: &str,
) -> (r: Result<RecognizeRequest, OcrCommandOutput>)
    ensures
        match image {
            Ok(b) => if b@.len() > 0 {
                r matches Ok(q) && q.image_base64@ == b@ && q.language@ == "auto"@ && q.config@ == JsonView::Null
            } else {
                r matches Err(o) && o.text@ == no_image@ && o.error
            },
            Err(e) => r matches Err(o) && o.text@ == read_error_label@ + ": "@ + e.message_view() && o.error,
        },
{
    match image {
        Ok(b) => {
            if b.unicode_len() > 0 {
                Ok(RecognizeRequest { image_base64: b, language: "auto".to_string(), config: Json::Null })
            } else {
                Err(OcrCommandOutput { text: no_image.to_string(), error: true })
            }
        },
        Err(e) => {
            let mut t = read_error_label.to_string();
            t.append(": ");
            let m = e.message();
            t.append(m.as_str());
            Err(OcrCommandOutput { text: t, error: true })
        },
    }
}

/// The text shown for the service's answer: the text read, or
/// `ocr_error_label: message`.
pub fn ocr_output(result: Result<RecognizeResult, AppError>, ocr_error_label: &str) -> (r: OcrCommandOutput)
    ensures
        !r.error,
        match result {
            Ok(res) => r.text@ == res.text@,
            Err(e) => r.text@ == ocr_error_label@ + ": "@ + e.message_view(),
        },
{
    match result {
        Ok(res) => OcrCommandOutput { text: res.text, error: false },
        Err(e) => {
            let mut t = ocr_error_label.to_string();
            t.append(": ");
            let m = e.message();
            t.append(m.as_str());
            OcrCommandOutput { text: t, error: false }
        },
    }
}

} // verus!
