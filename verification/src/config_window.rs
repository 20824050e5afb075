//! The settings window's decisions: storing a changed setting and what follows
//! from it, the values its controls start with, the options they offer, and the
//! shortcut a key press records.

use vstd::prelude::*;
use crate::config::{ConfigStore, map_get};
use crate::json::{Json, JsonView, view_str, view_bool};
use crate::shortcut::{ShortcutModifiers, format_shortcut, formatted_shortcut, normalize_shortcut_text, normalized_shortcut};
use crate::text::{views, str_eq, trim, trim_str, is_ascii_alnum, ascii_upper, char_ascii_upper};
use crate::hotkey::configured_text;

verus! {

// ---------------------------------------------------------------------------
// Storing a setting.
// ---------------------------------------------------------------------------

/// A setting changed in the window.
pub enum ConfigMsg {
    SetBool(String, bool),
    SetString(String, String),
    SetInt(String, i64),
}

/// What follows from a stored setting: the theme or the language applied.
pub enum SettingEffect {
    Nothing,
    ApplyTheme(String),
    /// Switch the message catalogue and tell the application.
    LanguageChanged(String),
}

pub enum SettingEffectView {
    Nothing,
    ApplyTheme(Seq<char>),
    LanguageChanged(Seq<char>),
}

impl View for SettingEffect {
    type V = SettingEffectView;

    open spec fn view(&self) -> SettingEffectView {
        match self {
            SettingEffect::Nothing => SettingEffectView::Nothing,
            SettingEffect::ApplyTheme(t) => SettingEffectView::ApplyTheme(t@),
            SettingEffect::LanguageChanged(l) => SettingEffectView::LanguageChanged(l@),
        }
    }
}

/// A whole number as a JSON value.
pub open spec fn int_json(v: i64) -> JsonView {
    if v >= 0 {
        JsonView::PosInt(v as u64)
    } else {
        JsonView::NegInt(v)
    }
}

/// The key and value a message stores.
pub open spec fn stored_setting(m: ConfigMsg) -> (Seq<char>, JsonView) {
    match m {
        ConfigMsg::SetBool(k, b) => (k@, JsonView::Bool(b)),
        ConfigMsg::SetString(k, s) => (k@, JsonView::Str(s@)),
        ConfigMsg::SetInt(k, v) => (k@, int_json(v)),
    }
}

/// What follows a message: a new theme is applied, a new language switched to.
pub open spec fn setting_effect(m: ConfigMsg) -> SettingEffectView {
    match m {
        ConfigMsg::SetString(k, s) => if k@ == "app_theme"@ {
            SettingEffectView::ApplyTheme(s@)
        } else if k@ == "app_language"@ {
            SettingEffectView::LanguageChanged(s@)
        } else {
            SettingEffectView::Nothing
        },
        _ => SettingEffectView::Nothing,
    }
}

/// Stores a changed setting.
pub fn apply_setting(store: &mut ConfigStore, msg: ConfigMsg) -> (r: SettingEffect)
    ensures
        final(store)@ == old(store)@.insert(stored_setting(msg).0, stored_setting(msg).1),
        r@ == setting_effect(msg),
{
    match msg {
        ConfigMsg::SetBool(k, b) => {
            store.set(k.as_str(), Json::Bool(b));
            SettingEffect::Nothing
        },
        ConfigMsg::SetString(k, s) => {
            store.set(k.as_str(), Json::Str(s.clone()));
            if str_eq(k.as_str(), "app_theme") {
                SettingEffect::ApplyTheme(s)
            } else if str_eq(k.as_str(), "app_language") {
                SettingEffect::LanguageChanged(s)
            } else {
                SettingEffect::Nothing
            }
        },
        ConfigMsg::SetInt(k, v) => {
            let j = if v >= 0 {
                Json::PosInt(v as u64)
            } else {
                Json::NegInt(v)
            };
            store.set(k.as_str(), j);
            SettingEffect::Nothing
        },
    }
}

// ---------------------------------------------------------------------------
// The options the controls offer.
// ---------------------------------------------------------------------------

/// The interface languages offered, by code.
pub open spec fn ui_language_codes() -> Seq<Seq<char>> {
    seq!["en"@, "zh_cn"@, "zh_tw"@, "ja"@, "ko"@, "fr"@, "de"@, "es"@, "ru"@]
}

/// The interface languages' names, in the order of their codes.
pub open spec fn ui_language_labels() -> Seq<Seq<char>> {
    seq![
        "English"@,
        "简体中文"@,
        "繁體中文"@,
        "日本語"@,
        "한국어"@,
        "Français"@,
        "Deutsch"@,
        "Español"@,
        "Русский"@,
    ]
}

pub fn ui_languages() -> (r: Vec<(&'static str, &'static str)>)
    ensures
        r@.len() == 9,
        forall|i: int| 0 <= i < 9 ==> #[trigger] r@[i].0@ == ui_language_codes()[i] && r@[i].1@ == ui_language_labels()[i],
{
    vec![
        ("en", "English"),
        ("zh_cn", "简体中文"),
        ("zh_tw", "繁體中文"),
        ("ja", "日本語"),
        ("ko", "한국어"),
        ("fr", "Français"),
        ("de", "Deutsch"),
        ("es", "Español"),
        ("ru", "Русский"),
    ]
}

/// The themes offered, by value; their labels are the messages `System`, `Light`
/// and `Dark`.
pub open spec fn theme_values() -> Seq<Seq<char>> {
    seq!["system"@, "light"@, "dark"@]
}

pub fn themes() -> (r: Vec<(&'static str, &'static str)>)
    ensures
        r@.len() == 3,
        forall|i: int| 0 <= i < 3 ==> #[trigger] r@[i].0@ == theme_values()[i],
        r@[0].1@ == "System"@,
        r@[1].1@ == "Light"@,
        r@[2].1@ == "Dark"@,
{
    vec![("system", "System"), ("light", "Light"), ("dark", "Dark")]
}

/// The position of a value among the options.
pub open spec fn option_position(values: Seq<Seq<char>>, v: Seq<char>) -> Option<int>
    decreases values.len(),
{
    if values.len() == 0 {
        None
    } else if values[0] == v {
        Some(0)
    } else {
        match option_position(values.drop_first(), v) {
            Some(p) => Some(p + 1),
            None => None,
        }
    }
}

fn position_in(values: &Vec<(&'static str, &'static str)>, v: &str) -> (r: Option<usize>)
    ensures
        match option_position(values@.map_values(|p: (&'static str, &'static str)| p.0@), v@) {
            Some(p) => r == Some(p as usize),
            None => r is None,
        },
{
    let ghost vs = values@.map_values(|p: (&'static str, &'static str)| p.0@);
    let mut i: usize = 0;
    assert(vs.skip(0) =~= vs);
    while i < values.len()
        invariant
            vs == values@.map_values(|p: (&'static str, &'static str)| p.0@),
            i <= values@.len(),
            option_position(vs, v@) == match option_position(vs.skip(i as int), v@) {
                Some(p) => Some(p + i),
                None => None,
            },
        decreases values@.len() - i,
    {
        proof {
            assert(vs.skip(i as int)[0] == values@[i as int].0@);
            assert(vs.skip(i as int).drop_first() =~= vs.skip(i + 1));
        }
        if str_eq(values[i].0, v) {
            return Some(i);
        }
        i = i + 1;
    }
    None
}

/// The stored text under `key`, or `default` when there is none.
pub open spec fn text_or(store: Map<Seq<char>, JsonView>, key: Seq<char>, default: Seq<char>) -> Seq<char> {
    match map_get(store, key) {
        Some(v) => match view_str(v) {
            Some(s) => s,
            None => default,
        },
        None => default,
    }
}

pub fn setting_text_or(store: &ConfigStore, key: &str, default: &str) -> (r: String)
    ensures
        r@ == text_or(store@, key@, default@),
{
    match store.get(key) {
        Some(v) => match v.as_str() {
            Some(s) => s.to_string(),
            None => default.to_string(),
        },
        None => default.to_string(),
    }
}

/// The language option selected when the window opens (the stored language, `en`
/// by default), when it is offered.
pub fn selected_ui_language(store: &ConfigStore) -> (r: Option<usize>)
    ensures
        match option_position(ui_language_codes(), text_or(store@, "app_language"@, "en"@)) {
            Some(p) => r == Some(p as usize),
            None => r is None,
        },
{
    let langs = ui_languages();
    let current = setting_text_or(store, "app_language", "en");
    assert(langs@.map_values(|p: (&'static str, &'static str)| p.0@) =~= ui_language_codes());
    position_in(&langs, current.as_str())
}

/// The theme option selected when the window opens (`system` by default).
pub fn selected_theme(store: &ConfigStore) -> (r: Option<usize>)
    ensures
        match option_position(theme_values(), text_or(store@, "app_theme"@, "system"@)) {
            Some(p) => r == Some(p as usize),
            None => r is None,
        },
{
    let ts = themes();
    let current = setting_text_or(store, "app_theme", "system");
    assert(ts@.map_values(|p: (&'static str, &'static str)| p.0@) =~= theme_values());
    position_in(&ts, current.as_str())
}

// ---------------------------------------------------------------------------
// The values the controls start with.
// ---------------------------------------------------------------------------

/// A switch's state: the stored boolean; `default` when nothing, or no boolean,
/// is stored.
pub open spec fn switch_state(store: Map<Seq<char>, JsonView>, key: Seq<char>, default: bool) -> bool {
    match map_get(store, key) {
        Some(v) => match view_bool(v) {
            Some(b) => b,
            None => default,
        },
        None => default,
    }
}

pub fn setting_switch(store: &ConfigStore, key: &str, default: bool) -> (r: bool)
    ensures
        r == switch_state(store@, key@, default),
{
    match store.get(key) {
        Some(v) => match v.as_bool() {
            Some(b) => b,
            None => default,
        },
        None => default,
    }
}

/// The autostart switch: the stored setting (off unless it is `true`), else
/// whether the autostart entry exists.
pub open spec fn autostart_state(store: Map<Seq<char>, JsonView>, entry_exists: bool) -> bool {
    match map_get(store, "autostart_enabled"@) {
        Some(v) => view_bool(v) == Some(true),
        None => entry_exists,
    }
}

pub fn autostart_switch(store: &ConfigStore, entry_exists: bool) -> (r: bool)
    ensures
        r == autostart_state(store@, entry_exists),
{
    match store.get("autostart_enabled") {
        Some(v) => match v.as_bool() {
            Some(b) => b,
            None => false,
        },
        None => entry_exists,
    }
}

/// The text an entry starts with: the stored text, when there is one.
pub fn setting_entry_text(store: &ConfigStore, key: &str) -> (r: Option<String>)
    ensures
        match map_get(store@, key@) {
            Some(v) => match view_str(v) {
                Some(s) => r matches Some(t) && t@ == s,
                None => r is None,
            },
            None => r is None,
        },
{
    match store.get(key) {
        Some(v) => match v.as_str() {
            Some(s) => Some(s.to_string()),
            None => None,
        },
        None => None,
    }
}

/// The proxy port entry's text, when a port is stored: a text as it is, a number
/// in decimal, anything else empty.
pub fn proxy_port_entry(store: &ConfigStore) -> (r: Option<String>)
    ensures
        match map_get(store@, "proxy_port"@) {
            Some(v) => r matches Some(t) && t@ == crate::desktop::port_text(Some(v)),
            None => r is None,
        },
{
    match store.get("proxy_port") {
        Some(v) => Some(crate::desktop::port_entry_text(Some(v))),
        None => None,
    }
}

/// The rows of the shortcut page: the setting, its label and its default.
pub open spec fn hotkey_rows() -> Seq<(Seq<char>, Seq<char>, Seq<char>)> {
    seq![
        ("hotkey_selection_translate"@, "Selection Translate:"@, "Ctrl+Shift+S"@),
        ("hotkey_input_translate"@, "Input Translate:"@, "Ctrl+Shift+I"@),
        ("hotkey_ocr_recognize"@, "OCR Recognize:"@, "Ctrl+Shift+O"@),
        ("hotkey_ocr_translate"@, "OCR Translate:"@, "Ctrl+Shift+T"@),
    ]
}

pub fn hotkey_page_rows() -> (r: Vec<(&'static str, &'static str, &'static str)>)
    ensures
        r@.map_values(|t: (&'static str, &'static str, &'static str)| (t.0@, t.1@, t.2@)) == hotkey_rows(),
{
    let r = vec![
        ("hotkey_selection_translate", "Selection Translate:", "Ctrl+Shift+S"),
        ("hotkey_input_translate", "Input Translate:", "Ctrl+Shift+I"),
        ("hotkey_ocr_recognize", "OCR Recognize:", "Ctrl+Shift+O"),
        ("hotkey_ocr_translate", "OCR Translate:", "Ctrl+Shift+T"),
    ];
    assert(r@.map_values(|t: (&'static str, &'static str, &'static str)| (t.0@, t.1@, t.2@)) =~= hotkey_rows());
    r
}

/// A default shortcut in canonical form (as written when it has none).
pub open spec fn canonical_default(default: Seq<char>) -> Seq<char> {
    match normalized_shortcut(default) {
        Some(n) => n,
        None => default,
    }
}

/// The shortcut a row shows first: the stored one in canonical form, when it is
/// a non-blank text that reads as a shortcut, else the default.
pub open spec fn initial_shortcut_of(store: Map<Seq<char>, JsonView>, key: Seq<char>, default: Seq<char>) -> Seq<char> {
    match map_get(store, key) {
        Some(v) => match view_str(v) {
            Some(s) => if trim(s).len() > 0 {
                match normalized_shortcut(s) {
                    Some(n) => n,
                    None => canonical_default(default),
                }
            } else {
                canonical_default(default)
            },
            None => canonical_default(default),
        },
        None => canonical_default(default),
    }
}

pub fn default_shortcut(default: &str) -> (r: String)
    ensures
        r@ == canonical_default(default@),
{
    match normalize_shortcut_text(default) {
        Some(n) => n,
        None => default.to_string(),
    }
}

pub fn initial_shortcut(store: &ConfigStore, key: &str, default: &str) -> (r: String)
    ensures
        r@ == initial_shortcut_of(store@, key@, default@),
{
    match store.get(key) {
        Some(v) => match v.as_str() {
            Some(s) => {
                let t = trim_str(s);
                if t.unicode_len() > 0 {
                    match normalize_shortcut_text(s) {
                        Some(n) => n,
                        None => default_shortcut(default),
                    }
                } else {
                    default_shortcut(default)
                }
            },
            None => default_shortcut(default),
        },
        None => default_shortcut(default),
    }
}

// ---------------------------------------------------------------------------
// Recording a shortcut from a key press.
// ---------------------------------------------------------------------------

/// Key values (X keysyms) of the keys a shortcut can end with besides characters.
pub const KEY_RETURN: u32 = 0xff0d;
pub const KEY_TAB: u32 = 0xff09;
pub const KEY_BACKSPACE: u32 = 0xff08;
pub const KEY_DELETE: u32 = 0xffff;
pub const KEY_INSERT: u32 = 0xff63;
pub const KEY_HOME: u32 = 0xff50;
pub const KEY_END: u32 = 0xff57;
pub const KEY_PAGE_UP: u32 = 0xff55;
pub const KEY_PAGE_DOWN: u32 = 0xff56;
pub const KEY_LEFT: u32 = 0xff51;
pub const KEY_UP: u32 = 0xff52;
pub const KEY_RIGHT: u32 = 0xff53;
pub const KEY_DOWN: u32 = 0xff54;
pub const KEY_F1: u32 = 0xffbe;
pub const KEY_F12: u32 = 0xffc9;
pub const KEY_ESCAPE: u32 = 0xff1b;

/// The digits of a number from 1 to 12.
pub open spec fn small_number(n: nat) -> Seq<char> {
    crate::text::digits(n, 10)
}

/// The name of a named key.
pub open spec fn named_key(keyval: u32) -> Option<Seq<char>> {
    if keyval == KEY_RETURN {
        Some("Enter"@)
    } else if keyval == KEY_TAB {
        Some("Tab"@)
    } else if keyval == KEY_BACKSPACE {
        Some("Backspace"@)
    } else if keyval == KEY_DELETE {
        Some("Delete"@)
    } else if keyval == KEY_INSERT {
        Some("Insert"@)
    } else if keyval == KEY_HOME {
        Some("Home"@)
    } else if keyval == KEY_END {
        Some("End"@)
    } else if keyval == KEY_PAGE_UP {
        Some("PageUp"@)
    } else if keyval == KEY_PAGE_DOWN {
        Some("PageDown"@)
    } else if keyval == KEY_LEFT {
        Some("Left"@)
    } else if keyval == KEY_RIGHT {
        Some("Right"@)
    } else if keyval == KEY_UP {
        Some("Up"@)
    } else if keyval == KEY_DOWN {
        Some("Down"@)
    } else if KEY_F1 <= keyval <= KEY_F12 {
        Some("F"@ + small_number((keyval - KEY_F1 + 1) as nat))
    } else {
        None
    }
}

/// The key part of a shortcut for a key press: `Space` for a space, a letter or
/// digit in uppercase, else the name of a named key; none for other keys.
pub open spec fn shortcut_key_of(keyval: u32, unicode: Option<char>) -> Option<Seq<char>> {
    match unicode {
        Some(c) => if c == ' ' {
            Some("Space"@)
        } else if is_ascii_alnum(c) {
            Some(seq![ascii_upper(c)])
        } else {
            named_key(keyval)
        },
        None => named_key(keyval),
    }
}

pub fn keyval_to_shortcut_key(keyval: u32, unicode: Option<char>) -> (r: Option<String>)
    ensures
        match shortcut_key_of(keyval, unicode) {
            Some(k) => r matches Some(s) && s@ == k,
            None => r is None,
        },
{
    match unicode {
        Some(c) => {
            if c == ' ' {
                return Some("Space".to_string());
            }
            if ('0' <= c && c <= '9') || ('a' <= c && c <= 'z') || ('A' <= c && c <= 'Z') {
                let mut s = String::new();
                crate::text::push_char(&mut s, char_ascii_upper(c));
                return Some(s);
            }
        },
        None => {},
    }
    if keyval == KEY_RETURN {
        Some("Enter".to_string())
    } else if keyval == KEY_TAB {
        Some("Tab".to_string())
    } else if keyval == KEY_BACKSPACE {
        Some("Backspace".to_string())
    } else if keyval == KEY_DELETE {
        Some("Delete".to_string())
    } else if keyval == KEY_INSERT {
        Some("Insert".to_string())
    } else if keyval == KEY_HOME {
        Some("Home".to_string())
    } else if keyval == KEY_END {
        Some("End".to_string())
    } else if keyval == KEY_PAGE_UP {
        Some("PageUp".to_string())
    } else if keyval == KEY_PAGE_DOWN {
        Some("PageDown".to_string())
    } else if keyval == KEY_LEFT {
        Some("Left".to_string())
    } else if keyval == KEY_RIGHT {
        Some("Right".to_string())
    } else if keyval == KEY_UP {
        Some("Up".to_string())
    } else if keyval == KEY_DOWN {
        Some("Down".to_string())
    } else if KEY_F1 <= keyval && keyval <= KEY_F12 {
        let mut s = "F".to_string();
        let d = crate::text::u64_to_base((keyval - KEY_F1 + 1) as u64, 10);
        s.append(d.as_str());
        Some(s)
    } else {
        None
    }
}

/// The modifiers held in a key press: Ctrl, Alt and Shift, and Super for Super
/// or Meta.
pub open spec fn held_modifiers(ctrl: bool, alt: bool, shift: bool, super_key: bool, meta: bool) -> ShortcutModifiers {
    ShortcutModifiers { ctrl, alt, shift, super_key: super_key || meta }
}

/// The modifiers of a key press from its modifier state.
pub fn key_event_modifiers(ctrl: bool, alt: bool, shift: bool, super_key: bool, meta: bool) -> (r: ShortcutModifiers)
    ensures
        r == held_modifiers(ctrl, alt, shift, super_key, meta),
{
    ShortcutModifiers { ctrl, alt, shift, super_key: super_key || meta }
}

/// The shortcut a key press records.
pub open spec fn shortcut_of_key_event(
    keyval: u32,
    unicode: Option<char>,
    mods: ShortcutModifiers,
) -> Option<Seq<char>> {
    match shortcut_key_of(keyval, unicode) {
        Some(k) => formatted_shortcut(mods, k),
        None => None,
    }
}

pub fn shortcut_from_key_event(keyval: u32, unicode: Option<char>, mods: ShortcutModifiers) -> (r: Option<String>)
    ensures
        match shortcut_of_key_event(keyval, unicode, mods) {
            Some(s) => r matches Some(t) && t@ == s,
            None => r is None,
        },
{
    match keyval_to_shortcut_key(keyval, unicode) {
        Some(k) => format_shortcut(mods, k.as_str()),
        None => None,
    }
}

/// What a key press does to a shortcut row.
pub enum CaptureOutcome {
    /// The row is not recording: the key goes on to other handlers.
    Pass,
    /// Escape: recording stops and the shortcut stays.
    Cancel,
    /// The shortcut is recorded (and stored), and recording stops.
    Recorded(String),
    /// A key that makes no shortcut: recording goes on.
    Ignored,
}

pub fn capture_key(recording: bool, keyval: u32, unicode: Option<char>, mods: ShortcutModifiers) -> (r: CaptureOutcome)
    ensures
        !recording ==> r is Pass,
        recording && keyval == KEY_ESCAPE ==> r is Cancel,
        recording && keyval != KEY_ESCAPE ==> match shortcut_of_key_event(keyval, unicode, mods) {
            Some(s) => r matches CaptureOutcome::Recorded(t) && t@ == s,
            None => r is Ignored,
        },
{
    if !recording {
        return CaptureOutcome::Pass;
    }
    if keyval == KEY_ESCAPE {
        return CaptureOutcome::Cancel;
    }
    match shortcut_from_key_event(keyval, unicode, mods) {
        Some(s) => CaptureOutcome::Recorded(s),
        None => CaptureOutcome::Ignored,
    }
}

// ---------------------------------------------------------------------------
// Searching the settings.
// ---------------------------------------------------------------------------

/// A row's visibility under a search: shown when its own text or a child's
/// matches the (trimmed, lower-cased) query; every row is shown for an empty one.
pub open spec fn row_matches(query: Seq<char>, own_text: Seq<char>, child_matches: bool) -> bool {
    crate::text::has_infix(crate::text::lowercase(own_text), query) || child_matches
}

/// The query a search entry's text stands for.
pub fn search_query(text: &str) -> (r: String)
    ensures
        r@ == crate::text::lowercase(trim(text@)),
{
    let t = trim_str(text);
    crate::text::to_lower(t.as_str())
}

/// Whether a settings row stays visible for a query.
pub fn settings_row_visible(query: &str, own_text: &str, child_matches: bool) -> (r: bool)
    ensures
        r == row_matches(query@, own_text@, child_matches),
{
    let lower = crate::text::to_lower(own_text);
    crate::text::contains_str(lower.as_str(), query) || child_matches
}

} // verus!
