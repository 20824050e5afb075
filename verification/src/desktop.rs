//! Small pieces of desktop integration: the clipboard watcher's decisions, the
//! autostart entry, the proxy settings, and the language detection of a text.

use vstd::prelude::*;
use crate::config::{ConfigStore, map_get};
use crate::error::AppError;
use crate::json::{Json, JsonView, view_str};
use crate::plugin::{join_path, joined_path};
use crate::text::{str_eq, digits, u64_to_base, has_infix};
use crate::http_server::signed_decimal;

verus! {

// ---------------------------------------------------------------------------
// Clipboard.
// ---------------------------------------------------------------------------

/// What the clipboard watcher reports.
pub enum ClipboardEvent {
    NewText(String),
}

/// The clipboard watcher's state: whether it is on, and the text it saw last.
pub struct ClipboardMonitor {
    pub last_text: String,
    pub enabled: bool,
}

impl ClipboardMonitor {
    /// A watcher that is off and has seen nothing.
    pub fn new() -> (r: Self)
        ensures
            !r.enabled,
            r.last_text@ == Seq::<char>::empty(),
    {
        ClipboardMonitor { last_text: String::new(), enabled: false }
    }

    pub fn set_enabled(&mut self, enabled: bool)
        ensures
            final(self).enabled == enabled,
            final(self).last_text == old(self).last_text,
    {
        self.enabled = enabled;
    }

    pub fn is_enabled(&self) -> (r: bool)
        ensures
            r == self.enabled,
    {
        self.enabled
    }

    /// One look at the clipboard, which held `text` (`None` when it could not be
    /// read): see [`poll_step`].
    pub fn poll(&mut self, text: Option<String>) -> (r: Option<ClipboardEvent>)
        ensures
            final(self).enabled == old(self).enabled,
            ({
                let (ev, last) = poll_step(old(self).enabled, old(self).last_text@, opt_view(text));
                &&& final(self).last_text@ == last
                &&& match ev {
                    Some(t) => r matches Some(ClipboardEvent::NewText(x)) && x@ == t,
                    None => r is None,
                }
            }),
    {
        if !self.enabled {
            return None;
        }
        match text {
            Some(t) => {
                if t.unicode_len() > 0 && !str_eq(t.as_str(), self.last_text.as_str()) {
                    self.last_text = t.clone();
                    Some(ClipboardEvent::NewText(t))
                } else {
                    None
                }
            },
            None => None,
        }
    }
}

pub open spec fn opt_view(o: Option<String>) -> Option<Seq<char>> {
    match o {
        Some(s) => Some(s@),
        None => None,
    }
}

/// One look at the clipboard: while the watcher is on, a non-empty text other than
/// the last one seen is reported and becomes the last one seen; otherwise nothing is
/// reported and nothing changes.
pub open spec fn poll_step(enabled: bool, last: Seq<char>, text: Option<Seq<char>>) -> (Option<Seq<char>>, Seq<char>) {
    match text {
        Some(t) => if enabled && t.len() > 0 && t != last {
            (Some(t), t)
        } else {
            (None, last)
        },
        None => (None, last),
    }
}

/// The same clipboard text seen twice in a row is reported at most once.
pub proof fn law_clipboard_reports_once(enabled: bool, last: Seq<char>, t: Seq<char>)
    ensures
        poll_step(enabled, poll_step(enabled, last, Some(t)).1, Some(t)).0 is None,
{
}

// ---------------------------------------------------------------------------
// Autostart.
// ---------------------------------------------------------------------------

pub const DESKTOP_FILE_NAME: &'static str = "com.pot-app.pot-gtk.desktop";

/// The desktop entry that starts the application with the session.
pub const AUTOSTART_DESKTOP_ENTRY: &'static str =
    "[Desktop Entry]\nType=Application\nName=Pot GTK\nExec=pot-gtk\nIcon=com.pot-app.pot-gtk\nTerminal=false\nX-GNOME-Autostart-enabled=true\nHidden=false\n";

/// The autostart entry's path under the user's configuration directory.
pub open spec fn autostart_file_of(config_dir: Seq<char>) -> Seq<char> {
    joined_path(joined_path(config_dir, "autostart"@), DESKTOP_FILE_NAME@)
}

pub fn autostart_file(config_dir: &str) -> (r: String)
    ensures
        r@ == autostart_file_of(config_dir@),
{
    let d = join_path(config_dir, "autostart");
    join_path(d.as_str(), DESKTOP_FILE_NAME)
}

/// Whether starting with the session is on: the entry exists (`None` when there is
/// no configuration directory).
pub fn is_enabled(entry_exists: Option<bool>) -> (r: bool)
    ensures
        r == autostart_on(entry_exists),
{
    match entry_exists {
        Some(b) => b,
        None => false,
    }
}

/// Whether starting with the session is on, from whether the entry exists (`None`
/// when there is no configuration directory).
pub open spec fn autostart_on(entry_exists: Option<bool>) -> bool {
    match entry_exists {
        Some(b) => b,
        None => false,
    }
}

/// Whether the autostart entry exists after the change for turning autostart on
/// or off is carried out: written when turning on, removed when turning off and it
/// existed, as it was otherwise.
pub open spec fn entry_exists_after(enabled: bool, existed: bool) -> bool {
    if enabled {
        true
    } else if existed {
        false
    } else {
        existed
    }
}

/// Reading autostart after the change for turning it on or off was carried out
/// gives what was asked: on after turning on, off after turning off.
pub proof fn law_autostart_reads_as_set(enabled: bool, existed: bool)
    ensures
        autostart_on(Some(entry_exists_after(enabled, existed))) == enabled,
{
}

/// What turning autostart on or off does.
pub enum AutostartChange {
    /// Create the directory and write the entry.
    Write { dir: String, path: String, content: String },
    /// Remove the entry.
    Remove { path: String },
    /// Nothing to do.
    Keep,
}

/// The change for turning autostart on (writing the entry) or off (removing it when
/// it exists); an error when there is no configuration directory.
pub fn autostart_change(config_dir: Option<&str>, enabled: bool, entry_exists: bool) -> (r: Result<AutostartChange, AppError>)
    ensures
        match config_dir {
            None => r matches Err(e) && e.message_view() == "cannot determine autostart directory"@,
            Some(d) => (if enabled {
                r matches Ok(AutostartChange::Write { dir, path, content }) && dir@ == joined_path(d@, "autostart"@)
                    && path@ == autostart_file_of(d@) && content@ == AUTOSTART_DESKTOP_ENTRY@
            } else if entry_exists {
                r matches Ok(AutostartChange::Remove { path }) && path@ == autostart_file_of(d@)
            } else {
                r matches Ok(AutostartChange::Keep)
            }) && entry_exists_after(enabled, entry_exists) == (r matches Ok(AutostartChange::Write { .. }) || (
            r matches Ok(AutostartChange::Keep) && entry_exists)),
        },
{
    match config_dir {
        None => Err(AppError::Custom("cannot determine autostart directory".to_string())),
        Some(d) => {
            let dir = join_path(d, "autostart");
            let path = join_path(dir.as_str(), DESKTOP_FILE_NAME);
            if enabled {
                Ok(AutostartChange::Write { dir, path, content: AUTOSTART_DESKTOP_ENTRY.to_string() })
            } else if entry_exists {
                Ok(AutostartChange::Remove { path })
            } else {
                Ok(AutostartChange::Keep)
            }
        },
    }
}

// ---------------------------------------------------------------------------
// Proxy.
// ---------------------------------------------------------------------------

/// The proxy to set from the settings: `http://<host>:<port>` and the hosts that
/// bypass it, or an error when no host is set.
pub struct ProxySettings {
    pub proxy: String,
    pub no_proxy: String,
}

/// The port setting as text: a string as it is, a number in decimal, else empty.
pub open spec fn port_text(v: Option<JsonView>) -> Seq<char> {
    match v {
        Some(JsonView::Str(s)) => s,
        Some(JsonView::PosInt(n)) => digits(n as nat, 10),
        Some(JsonView::NegInt(n)) => signed_decimal(n as int),
        Some(JsonView::Float(s)) => s,
        _ => Seq::empty(),
    }
}

pub open spec fn proxy_of(store: Map<Seq<char>, JsonView>) -> Result<(Seq<char>, Seq<char>), Seq<char>> {
    match map_get(store, "proxy_host"@) {
        None => Err("proxy_host is not set"@),
        Some(h) => {
            let host = match view_str(h) {
                Some(s) => s,
                None => Seq::empty(),
            };
            if host.len() == 0 {
                Err("proxy_host is not set"@)
            } else {
                Ok(
                    (
                        "http://"@ + host + ":"@ + port_text(map_get(store, "proxy_port"@)),
                        match map_get(store, "no_proxy"@) {
                            Some(v) => match view_str(v) {
                                Some(s) => s,
                                None => Seq::empty(),
                            },
                            None => Seq::empty(),
                        },
                    ),
                )
            }
        },
    }
}

/// The text of a stored proxy port.
pub fn port_entry_text(v: Option<Json>) -> (r: String)
    ensures
        r@ == port_text(
            match v {
                Some(j) => Some(j@),
                None => None,
            },
        ),
{
    match v {
        Some(Json::Str(s)) => s,
        Some(Json::PosInt(n)) => u64_to_base(n, 10),
        Some(Json::NegInt(n)) => crate::http_server::i64_to_decimal(n),
        Some(Json::Float(s)) => s,
        _ => String::new(),
    }
}

pub fn set_proxy(store: &ConfigStore) -> (r: Result<ProxySettings, String>)
    ensures
        match proxy_of(store@) {
            Ok((p, n)) => r matches Ok(s) && s.proxy@ == p && s.no_proxy@ == n,
            Err(m) => r matches Err(x) && x@ == m,
        },
{
    let host = match store.get("proxy_host") {
        Some(v) => match v.as_str() {
            Some(s) => s.to_string(),
            None => String::new(),
        },
        None => return Err("proxy_host is not set".to_string()),
    };
    if host.unicode_len() == 0 {
        return Err("proxy_host is not set".to_string());
    }
    let port = port_entry_text(store.get("proxy_port"));
    let no_proxy = match store.get("no_proxy") {
        Some(v) => match v.as_str() {
            Some(s) => s.to_string(),
            None => String::new(),
        },
        None => String::new(),
    };
    let mut proxy = "http://".to_string();
    proxy.append(host.as_str());
    proxy.append(":");
    proxy.append(port.as_str());
    Ok(ProxySettings { proxy, no_proxy })
}

// ---------------------------------------------------------------------------
// Language detection.
// ---------------------------------------------------------------------------

/// The ISO 639-1 codes of the languages the application detects, in order:
/// Chinese, Japanese, English, Korean, French, Spanish, German, Russian, Italian,
/// Portuguese, Turkish, Arabic, Vietnamese, Thai, Indonesian, Malay, Hindi,
/// Mongolian, Bokmal, Nynorsk, Persian, Ukrainian.
pub open spec fn supported_codes() -> Seq<Seq<char>> {
    seq![
        "zh"@, "ja"@, "en"@, "ko"@, "fr"@, "es"@, "de"@, "ru"@, "it"@, "pt"@, "tr"@,
        "ar"@, "vi"@, "th"@, "id"@, "ms"@, "hi"@, "mn"@, "nb"@, "nn"@, "fa"@, "uk"@,
    ]
}

/// The ISO 639-1 codes of the languages the application detects.
pub fn supported_languages() -> (r: Vec<String>)
    ensures
        crate::text::views(r@) == supported_codes(),
{
    let r = vec![
        "zh".to_string(), "ja".to_string(), "en".to_string(), "ko".to_string(), "fr".to_string(),
        "es".to_string(), "de".to_string(), "ru".to_string(), "it".to_string(), "pt".to_string(),
        "tr".to_string(), "ar".to_string(), "vi".to_string(), "th".to_string(), "id".to_string(),
        "ms".to_string(), "hi".to_string(), "mn".to_string(), "nb".to_string(), "nn".to_string(),
        "fa".to_string(), "uk".to_string(),
    ];
    assert(crate::text::views(r@) =~= supported_codes());
    r
}

/// The ISO 639-1 code of the language that `lingua`, restricted to the languages
/// of `codes`, detects for a text (`None` when it cannot tell).
pub uninterp spec fn detected_iso_code(codes: Seq<Seq<char>>, text: Seq<char>) -> Option<Seq<char>>;

/// `lingua`'s `LanguageDetector::detect_language_of`, with a detector built
/// (`LanguageDetectorBuilder::from_languages`) from the languages whose ISO 639-1
/// codes are given (each read with `IsoCode639_1`'s `FromStr` and
/// `Language::from_iso_code_639_1`); the language written as its ISO 639-1 code.
/// The codes must be of languages this build of `lingua` has, and there must be
/// one at least, else `lingua` panics. The result is named [`detected_iso_code`].
#[verifier::external_body]
pub(crate) fn detect_iso_code(codes: &Vec<String>, text: &str) -> (r: Option<String>)
    requires
        codes@.len() > 0,
        forall|i: int| 0 <= i < codes@.len() ==> supported_codes().contains(#[trigger] codes@[i]@),
    ensures
        match detected_iso_code(crate::text::views(codes@), text@) {
            Some(c) => r matches Some(s) && s@ == c,
            None => r is None,
        },
{
    let langs: Vec<lingua::Language> = codes.iter()
        .map(|c| lingua::Language::from_iso_code_639_1(&c.parse::<lingua::IsoCode639_1>().unwrap()))
        .collect();
    let detector = lingua::LanguageDetectorBuilder::from_languages(&langs).build();
    detector.detect_language_of(text).map(|l| l.iso_code_639_1().to_string())
}

/// The application's code for a detected language: `zh_cn` for Chinese, `no` for
/// Nynorsk, the ISO code for the other supported languages, English otherwise.
pub open spec fn app_language_code(iso: Seq<char>) -> Seq<char> {
    if iso == "zh"@ {
        "zh_cn"@
    } else if iso == "nn"@ {
        "no"@
    } else if iso == "ja"@ || iso == "en"@ || iso == "ko"@ || iso == "fr"@ || iso == "es"@ || iso == "de"@
        || iso == "ru"@ || iso == "it"@ || iso == "pt"@ || iso == "tr"@ || iso == "ar"@ || iso == "vi"@
        || iso == "th"@ || iso == "id"@ || iso == "ms"@ || iso == "hi"@ || iso == "mn"@ || iso == "nb"@
        || iso == "fa"@ || iso == "uk"@ {
        iso
    } else {
        "en"@
    }
}

/// The application's code for a detected ISO code.
pub fn language_code_for(iso: &str) -> (r: String)
    ensures
        r@ == app_language_code(iso@),
{
    if str_eq(iso, "zh") {
        "zh_cn".to_string()
    } else if str_eq(iso, "nn") {
        "no".to_string()
    } else if str_eq(iso, "ja") || str_eq(iso, "en") || str_eq(iso, "ko") || str_eq(iso, "fr") || str_eq(iso, "es")
        || str_eq(iso, "de") || str_eq(iso, "ru") || str_eq(iso, "it") || str_eq(iso, "pt") || str_eq(iso, "tr")
        || str_eq(iso, "ar") || str_eq(iso, "vi") || str_eq(iso, "th") || str_eq(iso, "id") || str_eq(iso, "ms")
        || str_eq(iso, "hi") || str_eq(iso, "mn") || str_eq(iso, "nb") || str_eq(iso, "fa") || str_eq(iso, "uk") {
        iso.to_string()
    } else {
        "en".to_string()
    }
}

/// The language of a text, by the application's codes; `None` when it cannot be
/// told.
pub fn detect(text: &str) -> (r: Option<String>)
    ensures
        match detected_iso_code(supported_codes(), text@) {
            Some(c) => r matches Some(s) && s@ == app_language_code(c),
            None => r is None,
        },
{
    let codes = supported_languages();
    assert(codes@.len() == crate::text::views(codes@).len());
    assert forall|i: int| 0 <= i < codes@.len() implies supported_codes().contains(#[trigger] codes@[i]@) by {
        assert(crate::text::views(codes@)[i] == codes@[i]@);
    }
    match detect_iso_code(&codes, text) {
        Some(c) => Some(language_code_for(c.as_str())),
        None => None,
    }
}

} // verus!
