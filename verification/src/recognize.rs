//! Text recognition: the Tesseract backend's decoding, command and answer, and the
//! registry.

use vstd::prelude::*;
use crate::error::AppError;
use crate::json::{Json, JsonView};
use crate::registry::{Named, Registry};
use crate::text::{str_eq, views};
use base64::Engine;

verus! {

/// An image to read (base64-encoded), its language and the service's settings.
pub struct RecognizeRequest {
    pub image_base64: String,
    pub language: String,
    pub config: Json,
}

/// The text read from an image.
pub struct RecognizeResult {
    pub text: String,
}

/// The bytes a base64 text stands for under the standard alphabet with padding, or
/// the decoder's message for a text that is not such an encoding.
pub uninterp spec fn base64_decoded(s: Seq<char>) -> Result<Seq<u8>, Seq<char>>;

/// `base64`'s `STANDARD.decode`, its error written with `Display`; the result is
/// named [`base64_decoded`].
#[verifier::external_body]
pub(crate) fn decode_base64(s: &str) -> (r: Result<Vec<u8>, String>)
    ensures
        match base64_decoded(s@) {
            Ok(b) => r matches Ok(v) && v@ == b,
            Err(m) => r matches Err(x) && x@ == m,
        },
{
    base64::engine::general_purpose::STANDARD.decode(s).map_err(|e| e.to_string())
}

/// The standard base64 encoding (with padding) of bytes.
pub uninterp spec fn base64_encoded(b: Seq<u8>) -> Seq<char>;

/// `base64`'s `STANDARD.encode`; the result is named [`base64_encoded`].
#[verifier::external_body]
pub(crate) fn encode_base64(b: &Vec<u8>) -> (r: String)
    ensures
        r@ == base64_encoded(b@),
{
    base64::engine::general_purpose::STANDARD.encode(b.as_slice())
}

/// The system's `tesseract` command.
pub struct SystemTesseract;

/// The command's arguments: the image, `stdout`, and `-l <language>` unless the
/// language is `auto` or empty.
pub open spec fn tesseract_args_of(image: Seq<char>, language: Seq<char>) -> Seq<Seq<char>> {
    if language != "auto"@ && language.len() > 0 {
        seq![image, "stdout"@, "-l"@, language]
    } else {
        seq![image, "stdout"@]
    }
}

impl SystemTesseract {
    pub fn name(&self) -> (r: &'static str)
        ensures
            r@ == "tesseract"@,
    {
        "tesseract"
    }

    /// The image's bytes, or a failure for a text that is no base64.
    pub fn decode_image(&self, req: &RecognizeRequest) -> (r: Result<Vec<u8>, AppError>)
        ensures
            match base64_decoded(req.image_base64@) {
                Ok(b) => r matches Ok(v) && v@ == b,
                Err(m) => r matches Err(e) && e is Custom && e.message_view() == "Base64 decode failed: "@ + m,
            },
    {
        match decode_base64(req.image_base64.as_str()) {
            Ok(v) => Ok(v),
            Err(m) => {
                let mut s = "Base64 decode failed: ".to_string();
                s.append(m.as_str());
                Err(AppError::Custom(s))
            },
        }
    }

    /// The name of the temporary image file for an identifier.
    pub fn image_file_name(&self, id: &str) -> (r: String)
        ensures
            r@ == "ocr_input_"@ + id@ + ".png"@,
    {
        let mut r = "ocr_input_".to_string();
        r.append(id);
        r.append(".png");
        r
    }

    /// The command's arguments.
    pub fn command_args(&self, image: &str, language: &str) -> (r: Vec<String>)
        ensures
            views(r@) == tesseract_args_of(image@, language@),
    {
        let mut r: Vec<String> = Vec::new();
        r.push(image.to_string());
        r.push("stdout".to_string());
        if !str_eq(language, "auto") && language.unicode_len() > 0 {
            r.push("-l".to_string());
            r.push(language.to_string());
        }
        proof {
            if language@ != "auto"@ && language@.len() > 0 {
                assert(views(r@) =~= seq![image@, "stdout"@, "-l"@, language@]);
            } else {
                assert(views(r@) =~= seq![image@, "stdout"@]);
            }
        }
        r
    }

    /// The result of the command: its output when it succeeded, else a failure with
    /// its error output.
    pub fn outcome(&self, success: bool, stdout: &str, stderr: &str) -> (r: Result<RecognizeResult, AppError>)
        ensures
            success ==> (r matches Ok(x) && x.text@ == stdout@),
            !success ==> (r matches Err(e) && e is Custom && e.message_view() == "Tesseract failed: "@ + stderr@),
    {
        if success {
            Ok(RecognizeResult { text: stdout.to_string() })
        } else {
            let mut m = "Tesseract failed: ".to_string();
            m.append(stderr);
            Err(AppError::Custom(m))
        }
    }

    /// A recognition service has no default settings.
    pub fn default_config(&self) -> (r: Json)
        ensures
            r@ == JsonView::Null,
    {
        Json::Null
    }
}

/// The recognition services.
pub enum RecognizeService {
    Tesseract(SystemTesseract),
}

impl Named for RecognizeService {
    open spec fn spec_name(&self) -> Seq<char> {
        match self {
            RecognizeService::Tesseract(_) => "tesseract"@,
        }
    }

    fn name(&self) -> (r: String) {
        match self {
            RecognizeService::Tesseract(s) => s.name().to_string(),
        }
    }
}

impl RecognizeService {
    /// The settings a new instance of the service starts with.
    pub open spec fn defaults(&self) -> JsonView {
        JsonView::Null
    }

    pub fn default_config(&self) -> (r: Json)
        ensures
            r@ == self.defaults(),
    {
        match self {
            RecognizeService::Tesseract(s) => s.default_config(),
        }
    }
}

/// The recognition services by name.
pub type RecognizeRegistry = Registry<RecognizeService>;

/// The registry with the built-in recognition service.
pub fn create_registry() -> (r: RecognizeRegistry)
    ensures
        r.entries() == seq![("tesseract"@, RecognizeService::Tesseract(SystemTesseract))],
{
    let mut r: RecognizeRegistry = Registry::new();
    r.register(RecognizeService::Tesseract(SystemTesseract));
    proof {
        crate::json::lemma_first_index_none(Seq::<(Seq<char>, RecognizeService)>::empty(), "tesseract"@);
    }
    assert(r.entries() =~= seq![("tesseract"@, RecognizeService::Tesseract(SystemTesseract))]);
    r
}

/// The service to recognize with, or the error for an unknown name.
pub fn recognition_service<'a>(reg: &'a RecognizeRegistry, name: &str) -> (r: Result<&'a RecognizeService, AppError>)
    ensures
        match crate::json::lookup(reg.entries(), name@) {
            Some(s) => r matches Ok(x) && *x == s,
            None => r matches Err(e) && e is Custom && e.message_view() == "Unknown OCR service: "@ + name@,
        },
{
    match reg.get(name) {
        Some(s) => Ok(s),
        None => {
            let mut m = "Unknown OCR service: ".to_string();
            m.append(name);
            Err(AppError::Custom(m))
        },
    }
}

} // verus!
