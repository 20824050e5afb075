//! Global hotkeys: the configured shortcuts and their translation into what each
//! backend understands (X11 key grabs, GNOME custom keybindings, the desktop portal's
//! triggers, Linux input key codes), and the choice of backend.

use vstd::prelude::*;
use crate::config::{ConfigStore, map_get};
use crate::http_server::{AppAction, ActionEvent};
use crate::json::{Json, JsonView, view_str};
use crate::shortcut::{
    shortcut_parts, shortcut_parts_of, modifier_of, modifier_of_part, Modifier, modifiers_of,
    ShortcutModifiers, modifiers_of_parts,
};
use crate::text::{
    split_char, split_on, trim, trim_str, lowercase, to_lower, uppercase, to_upper, str_eq,
    string_from_chars, join, views, join_strings, replace_all, replace_str, push_char, digits,
    u64_to_base, has_infix, contains_str, has_prefix, starts_with, lemma_split_char_len,
    parse_unsigned, parse_u64, chars_of,
};

verus! {

// ---------------------------------------------------------------------------
// The configured shortcuts.
// ---------------------------------------------------------------------------

/// A shortcut the application offers, with its configuration key and default.
pub struct ShortcutDef {
    pub config_key: &'static str,
    pub default_key: &'static str,
    pub label: &'static str,
    pub action: AppAction,
}

/// The four shortcuts, in order: selection translate, input translate, OCR recognize,
/// OCR translate.
pub open spec fn shortcut_table() -> Seq<(Seq<char>, Seq<char>, Seq<char>, AppAction)> {
    seq![
        ("hotkey_selection_translate"@, "Ctrl+Shift+S"@, "Selection Translate"@, AppAction::SelectionTranslate),
        ("hotkey_input_translate"@, "Ctrl+Shift+I"@, "Input Translate"@, AppAction::InputTranslate),
        ("hotkey_ocr_recognize"@, "Ctrl+Shift+O"@, "OCR Recognize"@, AppAction::OcrRecognize { screenshot: true }),
        ("hotkey_ocr_translate"@, "Ctrl+Shift+T"@, "OCR Translate"@, AppAction::OcrTranslate { screenshot: true }),
    ]
}

pub open spec fn def_view(d: ShortcutDef) -> (Seq<char>, Seq<char>, Seq<char>, AppAction) {
    (d.config_key@, d.default_key@, d.label@, d.action)
}

pub fn get_shortcut_defs() -> (r: Vec<ShortcutDef>)
    ensures
        r@.map_values(|d: ShortcutDef| def_view(d)) == shortcut_table(),
{
    let r = vec![
        ShortcutDef {
            config_key: "hotkey_selection_translate",
            default_key: "Ctrl+Shift+S",
            label: "Selection Translate",
            action: AppAction::SelectionTranslate,
        },
        ShortcutDef {
            config_key: "hotkey_input_translate",
            default_key: "Ctrl+Shift+I",
            label: "Input Translate",
            action: AppAction::InputTranslate,
        },
        ShortcutDef {
            config_key: "hotkey_ocr_recognize",
            default_key: "Ctrl+Shift+O",
            label: "OCR Recognize",
            action: AppAction::OcrRecognize { screenshot: true },
        },
        ShortcutDef {
            config_key: "hotkey_ocr_translate",
            default_key: "Ctrl+Shift+T",
            label: "OCR Translate",
            action: AppAction::OcrTranslate { screenshot: true },
        },
    ];
    assert(r@.map_values(|d: ShortcutDef| def_view(d)) =~= shortcut_table());
    r
}

/// A shortcut as configured: its text, its label and its action.
pub struct ConfiguredShortcut {
    pub shortcut: String,
    pub label: String,
    pub action: AppAction,
}

/// The shortcut text in effect for a key: the stored string unless it is blank,
/// else the default.
pub open spec fn configured_text(v: Option<JsonView>, default: Seq<char>) -> Seq<char> {
    match v {
        Some(j) => match view_str(j) {
            Some(s) => if trim(s).len() > 0 {
                s
            } else {
                default
            },
            None => default,
        },
        None => default,
    }
}

pub open spec fn configured_view(c: ConfiguredShortcut) -> (Seq<char>, Seq<char>, AppAction) {
    (c.shortcut@, c.label@, c.action)
}

/// The shortcuts in effect for a configuration: text, label and action of each.
pub open spec fn loaded_shortcuts(store: Map<Seq<char>, JsonView>) -> Seq<(Seq<char>, Seq<char>, AppAction)> {
    Seq::new(
        4,
        |i: int|
            (
                configured_text(map_get(store, shortcut_table()[i].0), shortcut_table()[i].1),
                shortcut_table()[i].2,
                shortcut_table()[i].3,
            ),
    )
}

/// The shortcuts in effect, from the configuration.
pub fn load_shortcut_config(store: &ConfigStore) -> (r: Vec<ConfiguredShortcut>)
    ensures
        shortcut_views(r@) == loaded_shortcuts(store@),
        r@.len() == 4,
        forall|i: int|
            0 <= i < 4 ==> #[trigger] configured_view(r@[i]) == (
                configured_text(map_get(store@, shortcut_table()[i].0), shortcut_table()[i].1),
                shortcut_table()[i].2,
                shortcut_table()[i].3,
            ),
{
    let defs = get_shortcut_defs();
    let mut out: Vec<ConfiguredShortcut> = Vec::new();
    let mut i: usize = 0;
    assert(defs@.len() == defs@.map_values(|d: ShortcutDef| def_view(d)).len());
    while i < defs.len()
        invariant
            defs@.map_values(|d: ShortcutDef| def_view(d)) == shortcut_table(),
            defs@.len() == 4,
            i <= 4,
            out@.len() == i,
            forall|k: int|
                0 <= k < i ==> #[trigger] configured_view(out@[k]) == (
                    configured_text(map_get(store@, shortcut_table()[k].0), shortcut_table()[k].1),
                    shortcut_table()[k].2,
                    shortcut_table()[k].3,
                ),
        decreases 4 - i,
    {
        let d = &defs[i];
        proof {
            assert(def_view(defs@[i as int]) == shortcut_table()[i as int]);
        }
        let text: String = match store.get(d.config_key) {
            Some(v) => match v.as_str() {
                Some(s) => {
                    let t = trim_str(s);
                    if t.unicode_len() > 0 {
                        s.to_string()
                    } else {
                        d.default_key.to_string()
                    }
                },
                None => d.default_key.to_string(),
            },
            None => d.default_key.to_string(),
        };
        let action = copy_action(&d.action);
        out.push(ConfiguredShortcut { shortcut: text, label: d.label.to_string(), action });
        i = i + 1;
    }
    assert(shortcut_views(out@) =~= loaded_shortcuts(store@));
    out
}

/// A copy of an action.
pub fn copy_action(a: &AppAction) -> (r: AppAction)
    ensures
        r == *a,
{
    match a {
        AppAction::TranslateText(t) => AppAction::TranslateText(t.clone()),
        AppAction::InputTranslate => AppAction::InputTranslate,
        AppAction::SelectionTranslate => AppAction::SelectionTranslate,
        AppAction::OcrRecognize { screenshot } => AppAction::OcrRecognize { screenshot: *screenshot },
        AppAction::OcrTranslate { screenshot } => AppAction::OcrTranslate { screenshot: *screenshot },
        AppAction::ShowConfig => AppAction::ShowConfig,
        AppAction::ShowUpdater => AppAction::ShowUpdater,
        AppAction::Quit => AppAction::Quit,
    }
}

/// The number of shortcuts whose text is not blank.
pub open spec fn configured_count(s: Seq<(Seq<char>, Seq<char>, AppAction)>) -> nat
    decreases s.len(),
{
    if s.len() == 0 {
        0
    } else {
        configured_count(s.drop_last()) + if trim(s.last().0).len() > 0 {
            1nat
        } else {
            0nat
        }
    }
}

pub fn count_configured(s: &Vec<ConfiguredShortcut>) -> (r: usize)
    ensures
        r == configured_count(shortcut_views(s@)),
{
    let ghost sv = shortcut_views(s@);
    let mut n: usize = 0;
    let mut i: usize = 0;
    while i < s.len()
        invariant
            sv == shortcut_views(s@),
            i <= s@.len(),
            n == configured_count(sv.take(i as int)),
            n <= i,
        decreases s@.len() - i,
    {
        proof {
            assert(sv.take(i + 1).drop_last() =~= sv.take(i as int));
            assert(sv.take(i + 1).last() == configured_view(s@[i as int]));
        }
        let t = trim_str(s[i].shortcut.as_str());
        if t.unicode_len() > 0 {
            n = n + 1;
        }
        i = i + 1;
    }
    assert(sv.take(s@.len() as int) =~= sv);
    n
}

// ---------------------------------------------------------------------------
// Actions by name.
// ---------------------------------------------------------------------------

pub open spec fn action_key_of(a: AppAction) -> Seq<char> {
    match a {
        AppAction::TranslateText(_) => "translate_text"@,
        AppAction::InputTranslate => "input_translate"@,
        AppAction::SelectionTranslate => "selection_translate"@,
        AppAction::OcrRecognize { screenshot } => if screenshot {
            "ocr_recognize_screenshot"@
        } else {
            "ocr_recognize"@
        },
        AppAction::OcrTranslate { screenshot } => if screenshot {
            "ocr_translate_screenshot"@
        } else {
            "ocr_translate"@
        },
        AppAction::ShowConfig => "show_config"@,
        AppAction::ShowUpdater => "show_updater"@,
        AppAction::Quit => "quit"@,
    }
}

/// The name under which repeated triggers of an action are recognised.
pub fn action_key(a: &AppAction) -> (r: &'static str)
    ensures
        r@ == action_key_of(*a),
{
    match a {
        AppAction::TranslateText(_) => "translate_text",
        AppAction::InputTranslate => "input_translate",
        AppAction::SelectionTranslate => "selection_translate",
        AppAction::OcrRecognize { screenshot } => if *screenshot {
            "ocr_recognize_screenshot"
        } else {
            "ocr_recognize"
        },
        AppAction::OcrTranslate { screenshot } => if *screenshot {
            "ocr_translate_screenshot"
        } else {
            "ocr_translate"
        },
        AppAction::ShowConfig => "show_config",
        AppAction::ShowUpdater => "show_updater",
        AppAction::Quit => "quit",
    }
}

pub open spec fn action_cli_arg_of(a: AppAction) -> Option<Seq<char>> {
    match a {
        AppAction::SelectionTranslate => Some("selection-translate"@),
        AppAction::InputTranslate => Some("input-translate"@),
        AppAction::OcrRecognize { screenshot } => if screenshot {
            Some("ocr-recognize"@)
        } else {
            None
        },
        AppAction::OcrTranslate { screenshot } => if screenshot {
            Some("ocr-translate"@)
        } else {
            None
        },
        _ => None,
    }
}

/// The `--pot-action` argument that asks a running instance for an action.
pub fn action_cli_arg(a: &AppAction) -> (r: Option<&'static str>)
    ensures
        match r {
            Some(s) => action_cli_arg_of(*a) == Some(s@),
            None => action_cli_arg_of(*a) is None,
        },
{
    match a {
        AppAction::SelectionTranslate => Some("selection-translate"),
        AppAction::InputTranslate => Some("input-translate"),
        AppAction::OcrRecognize { screenshot } => if *screenshot {
            Some("ocr-recognize")
        } else {
            None
        },
        AppAction::OcrTranslate { screenshot } => if *screenshot {
            Some("ocr-translate")
        } else {
            None
        },
        _ => None,
    }
}

pub open spec fn gnome_binding_id_of(a: AppAction) -> Option<Seq<char>> {
    match a {
        AppAction::SelectionTranslate => Some("pot-gtk-selection-translate"@),
        AppAction::InputTranslate => Some("pot-gtk-input-translate"@),
        AppAction::OcrRecognize { screenshot } => if screenshot {
            Some("pot-gtk-ocr-recognize"@)
        } else {
            None
        },
        AppAction::OcrTranslate { screenshot } => if screenshot {
            Some("pot-gtk-ocr-translate"@)
        } else {
            None
        },
        _ => None,
    }
}

/// The identifier of an action's GNOME custom keybinding.
pub fn gnome_binding_id(a: &AppAction) -> (r: Option<&'static str>)
    ensures
        match r {
            Some(s) => gnome_binding_id_of(*a) == Some(s@),
            None => gnome_binding_id_of(*a) is None,
        },
{
    match a {
        AppAction::SelectionTranslate => Some("pot-gtk-selection-translate"),
        AppAction::InputTranslate => Some("pot-gtk-input-translate"),
        AppAction::OcrRecognize { screenshot } => if *screenshot {
            Some("pot-gtk-ocr-recognize")
        } else {
            None
        },
        AppAction::OcrTranslate { screenshot } => if *screenshot {
            Some("pot-gtk-ocr-translate")
        } else {
            None
        },
        _ => None,
    }
}

// ---------------------------------------------------------------------------
// GNOME keybindings and portal triggers.
// ---------------------------------------------------------------------------

/// A key name as GNOME and the desktop portal write it.
pub open spec fn desktop_key(key: Seq<char>) -> Seq<char> {
    let l = lowercase(trim(key));
    if l == "esc"@ {
        "Escape"@
    } else if l == "return"@ || l == "enter"@ {
        "Return"@
    } else if l == "space"@ {
        "space"@
    } else if l.len() == 1 && (l[0] as u32) < 128 {
        l
    } else {
        trim(key)
    }
}

pub fn normalize_desktop_key(key: &str) -> (r: String)
    ensures
        r@ == desktop_key(key@),
{
    let t = trim_str(key);
    let l = to_lower(t.as_str());
    if str_eq(l.as_str(), "esc") {
        "Escape".to_string()
    } else if str_eq(l.as_str(), "return") || str_eq(l.as_str(), "enter") {
        "Return".to_string()
    } else if str_eq(l.as_str(), "space") {
        "space".to_string()
    } else if l.unicode_len() == 1 && (l.as_str().get_char(0) as u32) < 128 {
        l
    } else {
        t
    }
}

/// The GNOME accelerator for a modifier.
pub open spec fn gnome_modifier(m: Modifier) -> Seq<char> {
    match m {
        Modifier::Ctrl => "<Control>"@,
        Modifier::Shift => "<Shift>"@,
        Modifier::Alt => "<Alt>"@,
        Modifier::Super => "<Super>"@,
    }
}

/// The accelerators of the modifier parts, or `None` when one of them is no modifier.
pub open spec fn gnome_prefix(parts: Seq<Seq<char>>) -> Option<Seq<char>>
    decreases parts.len(),
{
    if parts.len() == 0 {
        Some(Seq::empty())
    } else {
        match gnome_prefix(parts.drop_last()) {
            None => None,
            Some(p) => match modifier_of(parts.last()) {
                None => None,
                Some(m) => Some(p + gnome_modifier(m)),
            },
        }
    }
}

/// A shortcut as a GNOME keybinding (`<Control><Shift>s`).
pub open spec fn gnome_binding(s: Seq<char>) -> Option<Seq<char>> {
    let ps = shortcut_parts(s);
    if ps.len() == 0 {
        None
    } else {
        match gnome_prefix(ps.drop_last()) {
            None => None,
            Some(p) => Some(p + desktop_key(ps.last())),
        }
    }
}

pub fn shortcut_to_gnome_binding(shortcut: &str) -> (r: Option<String>)
    ensures
        match r {
            Some(b) => gnome_binding(shortcut@) == Some(b@),
            None => gnome_binding(shortcut@) is None,
        },
{
    let parts = shortcut_parts_of(shortcut);
    if parts.len() == 0 {
        return None;
    }
    let n = parts.len() - 1;
    let mut binding = String::new();
    let mut i: usize = 0;
    while i < n
        invariant
            n + 1 == parts@.len(),
            views(parts@) == shortcut_parts(shortcut@),
            i <= n,
            gnome_prefix(views(parts@).take(i as int)) == Some(binding@),
        decreases n - i,
    {
        proof {
            assert(views(parts@).take(i + 1).drop_last() =~= views(parts@).take(i as int));
        }
        match modifier_of_part(parts[i].as_str()) {
            None => {
                proof {
                    lemma_gnome_prefix_none_extends(views(parts@), i + 1, n as int);
                    assert(views(parts@).take(n as int) =~= views(parts@).drop_last());
                }
                return None;
            },
            Some(Modifier::Ctrl) => binding.append("<Control>"),
            Some(Modifier::Shift) => binding.append("<Shift>"),
            Some(Modifier::Alt) => binding.append("<Alt>"),
            Some(Modifier::Super) => binding.append("<Super>"),
        }
        i = i + 1;
    }
    assert(views(parts@).take(n as int) =~= views(parts@).drop_last());
    let k = normalize_desktop_key(parts[n].as_str());
    binding.append(k.as_str());
    Some(binding)
}

pub proof fn lemma_gnome_prefix_none_extends(parts: Seq<Seq<char>>, i: int, n: int)
    requires
        0 <= i <= n <= parts.len(),
        gnome_prefix(parts.take(i)) is None,
    ensures
        gnome_prefix(parts.take(n)) is None,
    decreases n - i,
{
    if i < n {
        assert(parts.take(i + 1).drop_last() =~= parts.take(i));
        lemma_gnome_prefix_none_extends(parts, i + 1, n);
    }
}

/// The portal's name for a modifier.
pub open spec fn portal_modifier(m: Modifier) -> Seq<char> {
    match m {
        Modifier::Ctrl => "CTRL"@,
        Modifier::Alt => "ALT"@,
        Modifier::Shift => "SHIFT"@,
        Modifier::Super => "LOGO"@,
    }
}

/// The portal names of the modifier parts, or `None` when one of them is no modifier.
pub open spec fn portal_modifiers(parts: Seq<Seq<char>>) -> Option<Seq<Seq<char>>>
    decreases parts.len(),
{
    if parts.len() == 0 {
        Some(Seq::empty())
    } else {
        match portal_modifiers(parts.drop_last()) {
            None => None,
            Some(p) => match modifier_of(parts.last()) {
                None => None,
                Some(m) => Some(p.push(portal_modifier(m))),
            },
        }
    }
}

/// A shortcut as a desktop portal trigger (`CTRL+SHIFT+s`).
pub open spec fn portal_trigger(s: Seq<char>) -> Option<Seq<char>> {
    let ps = shortcut_parts(s);
    if ps.len() == 0 {
        None
    } else {
        match portal_modifiers(ps.drop_last()) {
            None => None,
            Some(p) => Some(join(p.push(desktop_key(ps.last())), "+"@)),
        }
    }
}

pub proof fn lemma_portal_none_extends(parts: Seq<Seq<char>>, i: int, n: int)
    requires
        0 <= i <= n <= parts.len(),
        portal_modifiers(parts.take(i)) is None,
    ensures
        portal_modifiers(parts.take(n)) is None,
    decreases n - i,
{
    if i < n {
        assert(parts.take(i + 1).drop_last() =~= parts.take(i));
        lemma_portal_none_extends(parts, i + 1, n);
    }
}

pub fn shortcut_to_portal_trigger(shortcut: &str) -> (r: Option<String>)
    ensures
        match r {
            Some(b) => portal_trigger(shortcut@) == Some(b@),
            None => portal_trigger(shortcut@) is None,
        },
{
    let parts = shortcut_parts_of(shortcut);
    if parts.len() == 0 {
        return None;
    }
    let n = parts.len() - 1;
    let mut out: Vec<String> = Vec::new();
    let mut i: usize = 0;
    while i < n
        invariant
            n + 1 == parts@.len(),
            views(parts@) == shortcut_parts(shortcut@),
            i <= n,
            portal_modifiers(views(parts@).take(i as int)) == Some(views(out@)),
        decreases n - i,
    {
        proof {
            assert(views(parts@).take(i + 1).drop_last() =~= views(parts@).take(i as int));
        }
        let name = match modifier_of_part(parts[i].as_str()) {
            None => {
                proof {
                    lemma_portal_none_extends(views(parts@), i + 1, n as int);
                    assert(views(parts@).take(n as int) =~= views(parts@).drop_last());
                }
                return None;
            },
            Some(Modifier::Ctrl) => "CTRL".to_string(),
            Some(Modifier::Alt) => "ALT".to_string(),
            Some(Modifier::Shift) => "SHIFT".to_string(),
            Some(Modifier::Super) => "LOGO".to_string(),
        };
        let ghost before = views(out@);
        out.push(name);
        assert(views(out@) =~= before.push(name@));
        i = i + 1;
    }
    assert(views(parts@).take(n as int) =~= views(parts@).drop_last());
    let k = normalize_desktop_key(parts[n].as_str());
    let ghost before = views(out@);
    let ghost kv = k@;
    out.push(k);
    assert(views(out@) =~= before.push(kv));
    Some(join_strings(&out, "+"))
}

} // verus!

verus! {

// ---------------------------------------------------------------------------
// GNOME custom keybindings through gsettings.
// ---------------------------------------------------------------------------

/// The quoted pieces of a gsettings string list: every other piece between single quotes,
/// starting with the second, when not empty.
pub open spec fn quoted_pieces(ps: Seq<Seq<char>>) -> Seq<Seq<char>>
    decreases ps.len(),
{
    if ps.len() == 0 {
        Seq::empty()
    } else {
        let r = quoted_pieces(ps.drop_last());
        if (ps.len() - 1) % 2 == 1 && ps.last().len() > 0 {
            r.push(ps.last())
        } else {
            r
        }
    }
}

/// The paths in gsettings' printed list (`['/a/', '/b/']`).
pub open spec fn gsettings_paths(raw: Seq<char>) -> Seq<Seq<char>> {
    quoted_pieces(split_char(raw, '\''))
}

pub fn parse_gsettings_path_list(raw: &str) -> (r: Vec<String>)
    ensures
        views(r@) == gsettings_paths(raw@),
{
    let ps = split_on(raw, '\'');
    let ghost sp = split_char(raw@, '\'');
    let mut out: Vec<String> = Vec::new();
    let mut i: usize = 0;
    while i < ps.len()
        invariant
            sp == split_char(raw@, '\''),
            ps@.len() == sp.len(),
            forall|k: int| 0 <= k < ps@.len() ==> #[trigger] ps@[k]@ == sp[k],
            i <= ps@.len(),
            views(out@) == quoted_pieces(sp.take(i as int)),
        decreases ps@.len() - i,
    {
        proof {
            assert(sp.take(i + 1).drop_last() =~= sp.take(i as int));
        }
        if i % 2 == 1 && ps[i].len() > 0 {
            let s = string_from_chars(ps[i].as_slice());
            let ghost before = views(out@);
            out.push(s);
            assert(views(out@) =~= before.push(sp[i as int]));
        }
        i = i + 1;
    }
    assert(sp.take(ps@.len() as int) =~= sp);
    out
}

/// A path quoted for a gsettings list: in single quotes, its quotes escaped.
pub open spec fn gsettings_quoted(p: Seq<char>) -> Seq<char> {
    "'"@ + replace_all(p, "'"@, "\\'"@) + "'"@
}

/// The gsettings list of `paths`: `[` the quoted paths joined by `, ` `]`.
pub open spec fn gsettings_list(paths: Seq<Seq<char>>) -> Seq<char> {
    "["@ + join(paths.map_values(|p: Seq<char>| gsettings_quoted(p)), ", "@) + "]"@
}

pub fn format_gsettings_path_list(paths: &Vec<String>) -> (r: String)
    ensures
        r@ == gsettings_list(views(paths@)),
{
    let mut quoted: Vec<String> = Vec::new();
    let mut i: usize = 0;
    while i < paths.len()
        invariant
            i <= paths@.len(),
            views(quoted@) == views(paths@).take(i as int).map_values(|p: Seq<char>| gsettings_quoted(p)),
        decreases paths@.len() - i,
    {
        proof {
            reveal_strlit("'");
        }
        let mut q = "'".to_string();
        let e = replace_str(paths[i].as_str(), "'", "\\'");
        q.append(e.as_str());
        q.append("'");
        let ghost before = views(quoted@);
        quoted.push(q);
        assert(views(quoted@) =~= before.push(gsettings_quoted(views(paths@)[i as int])));
        assert(views(paths@).take(i + 1).map_values(|p: Seq<char>| gsettings_quoted(p)) =~= views(
            paths@,
        ).take(i as int).map_values(|p: Seq<char>| gsettings_quoted(p)).push(
            gsettings_quoted(views(paths@)[i as int]),
        ));
        i = i + 1;
    }
    assert(views(paths@).take(paths@.len() as int) =~= views(paths@));
    let j = join_strings(&quoted, ", ");
    let mut r = "[".to_string();
    r.append(j.as_str());
    r.append("]");
    r
}

/// Characters that a shell word may hold without quoting.
pub open spec fn shell_safe(c: char) -> bool {
    crate::text::is_ascii_alnum(c) || c == '/' || c == '.' || c == '_' || c == '-' || c == ':'
}

/// `v` as one shell word: unchanged when every character is safe, else single-quoted
/// with each quote written `'\''`.
pub open spec fn shell_quoted(v: Seq<char>) -> Seq<char> {
    if forall|i: int| 0 <= i < v.len() ==> shell_safe(#[trigger] v[i]) {
        v
    } else {
        "'"@ + replace_all(v, "'"@, "'\\''"@) + "'"@
    }
}

pub fn shell_quote(value: &str) -> (r: String)
    ensures
        r@ == shell_quoted(value@),
{
    let v = chars_of(value);
    let mut i: usize = 0;
    let mut safe = true;
    while i < v.len() && safe
        invariant
            v@ == value@,
            i <= v@.len(),
            safe ==> forall|k: int| 0 <= k < i ==> shell_safe(#[trigger] v@[k]),
            !safe ==> i > 0 && !shell_safe(v@[i - 1]),
        decreases v@.len() - i,
    {
        let c = v[i];
        if !(('0' <= c && c <= '9') || ('a' <= c && c <= 'z') || ('A' <= c && c <= 'Z') || c == '/'
            || c == '.' || c == '_' || c == '-' || c == ':') {
            safe = false;
        }
        i = i + 1;
    }
    if safe {
        value.to_string()
    } else {
        proof {
            reveal_strlit("'");
        }
        let mut r = "'".to_string();
        let e = replace_str(value, "'", "'\\''");
        r.append(e.as_str());
        r.append("'");
        r
    }
}

pub const GNOME_MEDIA_KEYS_SCHEMA: &'static str = "org.gnome.settings-daemon.plugins.media-keys";
pub const GNOME_CUSTOM_KEYBINDING_SCHEMA: &'static str =
    "org.gnome.settings-daemon.plugins.media-keys.custom-keybinding";
pub const GNOME_CUSTOM_KEYBINDING_BASE: &'static str =
    "/org/gnome/settings-daemon/plugins/media-keys/custom-keybindings/";

/// One `gsettings set <schema> <key> <value>` call.
pub struct GsettingsSet {
    pub schema: String,
    pub key: String,
    pub value: String,
}

pub open spec fn set_view(s: GsettingsSet) -> (Seq<char>, Seq<char>, Seq<char>) {
    (s.schema@, s.key@, s.value@)
}

/// The path of an action's keybinding.
pub open spec fn binding_path(id: Seq<char>) -> Seq<char> {
    GNOME_CUSTOM_KEYBINDING_BASE@ + id + "/"@
}

/// Registering the shortcuts one by one, from the known paths: the paths afterwards
/// and the calls made. A shortcut is skipped when its action has no command-line name
/// or keybinding identifier, or its text is no GNOME keybinding; otherwise its path is
/// added when new, and its name, command and binding are set.
pub open spec fn gnome_plan(
    shortcuts: Seq<(Seq<char>, Seq<char>, AppAction)>,
    exe: Seq<char>,
    paths: Seq<Seq<char>>,
) -> (Seq<Seq<char>>, Seq<(Seq<char>, Seq<char>, Seq<char>)>)
    decreases shortcuts.len(),
{
    if shortcuts.len() == 0 {
        (paths, Seq::empty())
    } else {
        let (ps, sets) = gnome_plan(shortcuts.drop_last(), exe, paths);
        let (text, label, action) = shortcuts.last();
        match (action_cli_arg_of(action), gnome_binding(text), gnome_binding_id_of(action)) {
            (Some(arg), Some(binding), Some(id)) => {
                let path = binding_path(id);
                let ps2 = if ps.contains(path) {
                    ps
                } else {
                    ps.push(path)
                };
                let schema = GNOME_CUSTOM_KEYBINDING_SCHEMA@ + ":"@ + path;
                let command = shell_quoted(exe) + " --pot-action "@ + arg;
                (
                    ps2,
                    sets + seq![
                        (schema, "name"@, "Pot "@ + label),
                        (schema, "command"@, command),
                        (schema, "binding"@, binding),
                    ],
                )
            },
            _ => (ps, sets),
        }
    }
}

/// The calls that register the shortcuts as GNOME custom keybindings, given the
/// executable's path and what `gsettings get` printed for the current list; the last
/// call stores the list of paths. The calls are made in order until one fails.
pub open spec fn gnome_registration(
    shortcuts: Seq<(Seq<char>, Seq<char>, AppAction)>,
    exe: Seq<char>,
    current: Seq<char>,
) -> Seq<(Seq<char>, Seq<char>, Seq<char>)> {
    let (ps, sets) = gnome_plan(shortcuts, exe, gsettings_paths(current));
    sets.push((GNOME_MEDIA_KEYS_SCHEMA@, "custom-keybindings"@, gsettings_list(ps)))
}

pub open spec fn shortcut_views(s: Seq<ConfiguredShortcut>) -> Seq<(Seq<char>, Seq<char>, AppAction)> {
    s.map_values(|c: ConfiguredShortcut| configured_view(c))
}

pub fn gnome_registration_plan(shortcuts: &Vec<ConfiguredShortcut>, exe: &str, current: &str) -> (r:
    Vec<GsettingsSet>)
    ensures
        r@.map_values(|s: GsettingsSet| set_view(s)) == gnome_registration(
            shortcut_views(shortcuts@),
            exe@,
            current@,
        ),
{
    let mut paths = parse_gsettings_path_list(current);
    let quoted_exe = shell_quote(exe);
    let ghost sv = shortcut_views(shortcuts@);
    let mut sets: Vec<GsettingsSet> = Vec::new();
    let mut i: usize = 0;
    while i < shortcuts.len()
        invariant
            sv == shortcut_views(shortcuts@),
            quoted_exe@ == shell_quoted(exe@),
            i <= shortcuts@.len(),
            gnome_plan(sv.take(i as int), exe@, gsettings_paths(current@)) == (
                views(paths@),
                sets@.map_values(|s: GsettingsSet| set_view(s)),
            ),
        decreases shortcuts@.len() - i,
    {
        proof {
            assert(sv.take(i + 1).drop_last() =~= sv.take(i as int));
            assert(sv.take(i + 1).last() == configured_view(shortcuts@[i as int]));
        }
        let sc = &shortcuts[i];
        let arg = action_cli_arg(&sc.action);
        let binding = shortcut_to_gnome_binding(sc.shortcut.as_str());
        let id = gnome_binding_id(&sc.action);
        match (arg, binding, id) {
            (Some(arg), Some(binding), Some(id)) => {
                let mut path = GNOME_CUSTOM_KEYBINDING_BASE.to_string();
                path.append(id);
                path.append("/");
                let ghost ps0 = views(paths@);
                if !crate::config::list_contains(&paths, path.as_str()) {
                    paths.push(path.clone());
                    assert(views(paths@) =~= ps0.push(path@));
                }
                let mut schema = GNOME_CUSTOM_KEYBINDING_SCHEMA.to_string();
                schema.append(":");
                schema.append(path.as_str());
                let mut command = quoted_exe.clone();
                command.append(" --pot-action ");
                command.append(arg);
                let mut name = "Pot ".to_string();
                name.append(sc.label.as_str());
                let ghost s0 = sets@.map_values(|s: GsettingsSet| set_view(s));
                let a = GsettingsSet { schema: schema.clone(), key: "name".to_string(), value: name };
                let b = GsettingsSet { schema: schema.clone(), key: "command".to_string(), value: command };
                let c = GsettingsSet { schema: schema, key: "binding".to_string(), value: binding };
                sets.push(a);
                sets.push(b);
                sets.push(c);
                assert(sets@.map_values(|s: GsettingsSet| set_view(s)) =~= s0 + seq![
                    set_view(a),
                    set_view(b),
                    set_view(c),
                ]);
            },
            _ => {},
        }
        i = i + 1;
    }
    assert(sv.take(shortcuts@.len() as int) =~= sv);
    let ghost s0 = sets@.map_values(|s: GsettingsSet| set_view(s));
    let list = format_gsettings_path_list(&paths);
    let last = GsettingsSet {
        schema: GNOME_MEDIA_KEYS_SCHEMA.to_string(),
        key: "custom-keybindings".to_string(),
        value: list,
    };
    sets.push(last);
    assert(sets@.map_values(|s: GsettingsSet| set_view(s)) =~= s0.push(set_view(last)));
    sets
}

// ---------------------------------------------------------------------------
// X11: key names, key grabs and key presses.
// ---------------------------------------------------------------------------

/// The name the X11 backend gives a keysym: the letter (capital) or digit it types,
/// the names of the editing, arrow and function keys and of the modifiers, `space`,
/// and nothing for the others.
pub open spec fn keysym_name(k: u32) -> Seq<char> {
    if 0x61 <= k <= 0x7a {
        seq![((k - 32) as u8) as char]
    } else if (0x41 <= k <= 0x5a) || (0x30 <= k <= 0x39) {
        seq![(k as u8) as char]
    } else if k == 0xff08 {
        "Backspace"@
    } else if k == 0xff09 {
        "Tab"@
    } else if k == 0xff0d {
        "Return"@
    } else if k == 0xff1b {
        "Escape"@
    } else if k == 0xff50 {
        "Home"@
    } else if k == 0xff51 {
        "Left"@
    } else if k == 0xff52 {
        "Up"@
    } else if k == 0xff53 {
        "Right"@
    } else if k == 0xff54 {
        "Down"@
    } else if k == 0xff55 {
        "Page_Up"@
    } else if k == 0xff56 {
        "Page_Down"@
    } else if k == 0xff57 {
        "End"@
    } else if k == 0xff63 {
        "Insert"@
    } else if k == 0xffff {
        "Delete"@
    } else if 0xffbe <= k <= 0xffd0 {
        "F"@ + digits((k - 0xffbe + 1) as nat, 10)
    } else if k == 0xffe1 {
        "Shift_L"@
    } else if k == 0xffe2 {
        "Shift_R"@
    } else if k == 0xffe3 {
        "Control_L"@
    } else if k == 0xffe4 {
        "Control_R"@
    } else if k == 0xffe9 {
        "Alt_L"@
    } else if k == 0xffea {
        "Alt_R"@
    } else if k == 0xffeb {
        "Super_L"@
    } else if k == 0xffec {
        "Super_R"@
    } else if k == 0x20 {
        "space"@
    } else {
        Seq::empty()
    }
}

pub fn keysym_to_string(k: u32) -> (r: String)
    ensures
        r@ == keysym_name(k),
{
    if 0x61 <= k && k <= 0x7a {
        let mut s = String::new();
        push_char(&mut s, ((k - 32) as u8) as char);
        s
    } else if (0x41 <= k && k <= 0x5a) || (0x30 <= k && k <= 0x39) {
        let mut s = String::new();
        push_char(&mut s, (k as u8) as char);
        s
    } else if k == 0xff08 {
        "Backspace".to_string()
    } else if k == 0xff09 {
        "Tab".to_string()
    } else if k == 0xff0d {
        "Return".to_string()
    } else if k == 0xff1b {
        "Escape".to_string()
    } else if k == 0xff50 {
        "Home".to_string()
    } else if k == 0xff51 {
        "Left".to_string()
    } else if k == 0xff52 {
        "Up".to_string()
    } else if k == 0xff53 {
        "Right".to_string()
    } else if k == 0xff54 {
        "Down".to_string()
    } else if k == 0xff55 {
        "Page_Up".to_string()
    } else if k == 0xff56 {
        "Page_Down".to_string()
    } else if k == 0xff57 {
        "End".to_string()
    } else if k == 0xff63 {
        "Insert".to_string()
    } else if k == 0xffff {
        "Delete".to_string()
    } else if 0xffbe <= k && k <= 0xffd0 {
        let mut s = "F".to_string();
        let d = u64_to_base((k - 0xffbe + 1) as u64, 10);
        s.append(d.as_str());
        s
    } else if k == 0xffe1 {
        "Shift_L".to_string()
    } else if k == 0xffe2 {
        "Shift_R".to_string()
    } else if k == 0xffe3 {
        "Control_L".to_string()
    } else if k == 0xffe4 {
        "Control_R".to_string()
    } else if k == 0xffe9 {
        "Alt_L".to_string()
    } else if k == 0xffea {
        "Alt_R".to_string()
    } else if k == 0xffeb {
        "Super_L".to_string()
    } else if k == 0xffec {
        "Super_R".to_string()
    } else if k == 0x20 {
        "space".to_string()
    } else {
        String::new()
    }
}

/// The key names of the keyboard: row `i` names the keysyms of keycode `min + i`.
pub struct KeyCodeMap {
    pub min: u8,
    pub names: Vec<Vec<String>>,
}

pub open spec fn keycode_rows(m: KeyCodeMap) -> Seq<Seq<Seq<char>>> {
    m.names@.map_values(|r: Vec<String>| views(r@))
}

/// The keysyms cut into rows of `n` (the last may be shorter), each keysym named.
pub open spec fn keysym_rows(ks: Seq<u32>, n: nat) -> Seq<Seq<Seq<char>>>
    decreases ks.len(),
{
    if ks.len() == 0 || n == 0 {
        Seq::empty()
    } else {
        let w = if n < ks.len() {
            n as int
        } else {
            ks.len() as int
        };
        seq![ks.take(w).map_values(|k: u32| keysym_name(k))] + keysym_rows(ks.skip(w), n)
    }
}

/// The keyboard map from the keysyms that the X server reports, `per_keycode` of
/// them for each keycode from `min` on.
pub fn keycode_map_from(min: u8, keysyms: &Vec<u32>, per_keycode: usize) -> (r: KeyCodeMap)
    requires
        per_keycode > 0,
    ensures
        r.min == min,
        keycode_rows(r) == keysym_rows(keysyms@, per_keycode as nat),
{
    let mut names: Vec<Vec<String>> = Vec::new();
    let mut pos: usize = 0;
    let n = keysyms.len();
    proof {
        assert(keysyms@.skip(0) =~= keysyms@);
        assert(names@.map_values(|r: Vec<String>| views(r@)) + keysym_rows(keysyms@, per_keycode as nat)
            =~= keysym_rows(keysyms@, per_keycode as nat));
    }
    while pos < n
        invariant
            n == keysyms@.len(),
            per_keycode > 0,
            pos <= n,
            names@.map_values(|r: Vec<String>| views(r@)) + keysym_rows(keysyms@.skip(pos as int),
                per_keycode as nat) == keysym_rows(keysyms@, per_keycode as nat),
        decreases n - pos,
    {
        let end = if per_keycode < n - pos {
            pos + per_keycode
        } else {
            n
        };
        let mut row: Vec<String> = Vec::new();
        let mut j: usize = pos;
        while j < end
            invariant
                pos <= j <= end <= n,
                n == keysyms@.len(),
                views(row@) == keysyms@.subrange(pos as int, j as int).map_values(
                    |k: u32| keysym_name(k),
                ),
            decreases end - j,
        {
            let name = keysym_to_string(keysyms[j]);
            let ghost before = views(row@);
            row.push(name);
            proof {
                assert(keysyms@.subrange(pos as int, j + 1).map_values(|k: u32| keysym_name(k))
                    =~= before.push(keysym_name(keysyms@[j as int])));
                assert(views(row@) =~= before.push(keysym_name(keysyms@[j as int])));
            }
            j = j + 1;
        }
        proof {
            let rest = keysyms@.skip(pos as int);
            let w = (end - pos) as int;
            assert(rest.take(w) =~= keysyms@.subrange(pos as int, end as int));
            assert(rest.skip(w) =~= keysyms@.skip(end as int));
            assert(keysym_rows(rest, per_keycode as nat) == seq![rest.take(w).map_values(
                |k: u32| keysym_name(k),
            )] + keysym_rows(rest.skip(w), per_keycode as nat));
        }
        let ghost before = names@.map_values(|r: Vec<String>| views(r@));
        names.push(row);
        proof {
            let rv = views(names@.last()@);
            assert(names@.map_values(|r: Vec<String>| views(r@)) =~= before.push(rv));
            let rest = keysyms@.skip(pos as int);
            let w = (end - pos) as int;
            assert(before + (seq![rv] + keysym_rows(rest.skip(w), per_keycode as nat)) =~= before.push(
                rv,
            ) + keysym_rows(rest.skip(w), per_keycode as nat));
        }
        pos = end;
    }
    proof {
        assert(keysyms@.skip(n as int).len() == 0);
        assert(names@.map_values(|r: Vec<String>| views(r@)) + Seq::<Seq<Seq<char>>>::empty()
            =~= names@.map_values(|r: Vec<String>| views(r@)));
    }
    KeyCodeMap { min, names }
}

/// The X11 modifier mask of a set of modifiers: Shift 1, Control 4, Mod1 (Alt) 8,
/// Mod4 (Super) 64.
pub open spec fn x11_mask(m: ShortcutModifiers) -> u16 {
    ((if m.shift {
        1int
    } else {
        0int
    }) + (if m.ctrl {
        4int
    } else {
        0int
    }) + (if m.alt {
        8int
    } else {
        0int
    }) + (if m.super_key {
        64int
    } else {
        0int
    })) as u16
}

/// The modifiers named among `parts` (each trimmed); parts that name none are ignored.
pub open spec fn x11_modifiers(parts: Seq<Seq<char>>) -> ShortcutModifiers
    decreases parts.len(),
{
    if parts.len() == 0 {
        crate::shortcut::no_modifiers()
    } else {
        let m = x11_modifiers(parts.drop_last());
        match modifier_of(trim(parts.last())) {
            Some(k) => crate::shortcut::with_modifier(m, k),
            None => m,
        }
    }
}

/// Whether a row holds a name equal to `target`, compared in lowercase when `fold`.
pub open spec fn row_has(row: Seq<Seq<char>>, target: Seq<char>, fold: bool) -> bool {
    exists|j: int|
        0 <= j < row.len() && (if fold {
            lowercase(#[trigger] row[j])
        } else {
            row[j]
        }) == target
}

/// The first row that holds `target`.
pub open spec fn row_index(rows: Seq<Seq<Seq<char>>>, target: Seq<char>, fold: bool) -> Option<int>
    decreases rows.len(),
{
    if rows.len() == 0 {
        None
    } else {
        match row_index(rows.drop_last(), target, fold) {
            Some(i) => Some(i),
            None => if row_has(rows.last(), target, fold) {
                Some(rows.len() - 1)
            } else {
                None
            },
        }
    }
}

pub proof fn lemma_row_index_bound(rows: Seq<Seq<Seq<char>>>, target: Seq<char>, fold: bool)
    ensures
        match row_index(rows, target, fold) {
            Some(i) => 0 <= i < rows.len() && row_has(rows[i], target, fold),
            None => true,
        },
    decreases rows.len(),
{
    if rows.len() > 0 {
        lemma_row_index_bound(rows.drop_last(), target, fold);
    }
}

pub proof fn lemma_row_index_prefix(rows: Seq<Seq<Seq<char>>>, target: Seq<char>, fold: bool, j: int)
    requires
        0 <= j <= rows.len(),
        row_index(rows.take(j), target, fold) is Some,
    ensures
        row_index(rows, target, fold) == row_index(rows.take(j), target, fold),
    decreases rows.len(),
{
    if j < rows.len() {
        assert(rows.drop_last().take(j) =~= rows.take(j));
        lemma_row_index_prefix(rows.drop_last(), target, fold, j);
    } else {
        assert(rows.take(j) =~= rows);
    }
}

/// The key grab for a shortcut: the mask of the modifiers before the last `+` and the
/// keycode of the first row naming the key (trimmed) in lowercase, else of the first
/// row naming it exactly in uppercase.
pub open spec fn x11_shortcut(s: Seq<char>, min: u8, rows: Seq<Seq<Seq<char>>>) -> Option<(u16, u8)> {
    let parts = split_char(s, '+');
    let key = trim(parts.last());
    let mask = x11_mask(x11_modifiers(parts.drop_last()));
    match row_index(rows, lowercase(key), true) {
        Some(i) => Some((mask, (min + i) as u8)),
        None => match row_index(rows, uppercase(key), false) {
            Some(i) => Some((mask, (min + i) as u8)),
            None => None,
        },
    }
}

fn row_matches(row: &Vec<String>, target: &str, fold: bool) -> (r: bool)
    ensures
        r == row_has(views(row@), target@, fold),
{
    let mut j: usize = 0;
    while j < row.len()
        invariant
            j <= row@.len(),
            forall|k: int|
                0 <= k < j ==> (if fold {
                    lowercase(#[trigger] views(row@)[k])
                } else {
                    views(row@)[k]
                }) != target@,
        decreases row@.len() - j,
    {
        let hit = if fold {
            let l = to_lower(row[j].as_str());
            str_eq(l.as_str(), target)
        } else {
            str_eq(row[j].as_str(), target)
        };
        if hit {
            assert(views(row@)[j as int] == row@[j as int]@);
            return true;
        }
        assert(views(row@)[j as int] == row@[j as int]@);
        j = j + 1;
    }
    false
}

fn find_row(rows: &Vec<Vec<String>>, target: &str, fold: bool) -> (r: Option<usize>)
    ensures
        match r {
            Some(i) => i < rows@.len() && row_index(rows@.map_values(|r: Vec<String>| views(r@)),
                target@, fold) == Some(i as int),
            None => row_index(rows@.map_values(|r: Vec<String>| views(r@)), target@, fold) is None,
        },
{
    proof {
        lemma_row_index_bound(rows@.map_values(|r: Vec<String>| views(r@)), target@, fold);
    }
    let ghost all = rows@.map_values(|r: Vec<String>| views(r@));
    let mut i: usize = 0;
    while i < rows.len()
        invariant
            all == rows@.map_values(|r: Vec<String>| views(r@)),
            i <= rows@.len(),
            row_index(all.take(i as int), target@, fold) is None,
        decreases rows@.len() - i,
    {
        let hit = row_matches(&rows[i], target, fold);
        proof {
            assert(all.take(i + 1).drop_last() =~= all.take(i as int));
            assert(all.take(i + 1).last() == views(rows@[i as int]@));
        }
        if hit {
            proof {
                lemma_row_index_prefix(all, target@, fold, i + 1);
            }
            return Some(i);
        }
        i = i + 1;
    }
    assert(all.take(rows@.len() as int) =~= all);
    None
}

/// The modifier mask and keycode to grab for a shortcut, or `None` when no key of the
/// keyboard has its name.
pub fn parse_x11_shortcut(shortcut: &str, keycodes: &KeyCodeMap) -> (r: Option<(u16, u8)>)
    requires
        keycodes.min + keycodes.names@.len() <= 256,
    ensures
        r == x11_shortcut(shortcut@, keycodes.min, keycode_rows(*keycodes)),
{
    let parts = split_on(shortcut, '+');
    let ghost sp = split_char(shortcut@, '+');
    proof {
        lemma_split_char_len(shortcut@, '+');
    }
    let n = parts.len() - 1;
    let mut m = ShortcutModifiers { ctrl: false, alt: false, shift: false, super_key: false };
    let mut i: usize = 0;
    while i < n
        invariant
            sp == split_char(shortcut@, '+'),
            parts@.len() == sp.len(),
            n == sp.len() - 1,
            forall|k: int| 0 <= k < parts@.len() ==> #[trigger] parts@[k]@ == sp[k],
            i <= n,
            m == x11_modifiers(sp.take(i as int)),
        decreases n - i,
    {
        proof {
            assert(sp.take(i + 1).drop_last() =~= sp.take(i as int));
            assert(sp.take(i + 1).last() == parts@[i as int]@);
        }
        let t = crate::text::trim_chars(parts[i].as_slice());
        let ts = string_from_chars(t.as_slice());
        match modifier_of_part(ts.as_str()) {
            Some(Modifier::Ctrl) => m.ctrl = true,
            Some(Modifier::Alt) => m.alt = true,
            Some(Modifier::Shift) => m.shift = true,
            Some(Modifier::Super) => m.super_key = true,
            None => {},
        }
        i = i + 1;
    }
    assert(sp.take(n as int) =~= sp.drop_last());
    let mask: u16 = (if m.shift {
        1u16
    } else {
        0u16
    }) + (if m.ctrl {
        4u16
    } else {
        0u16
    }) + (if m.alt {
        8u16
    } else {
        0u16
    }) + (if m.super_key {
        64u16
    } else {
        0u16
    });
    let kt = crate::text::trim_chars(parts[n].as_slice());
    let key = string_from_chars(kt.as_slice());
    let lower = to_lower(key.as_str());
    assert(mask == x11_mask(m));
    match find_row(&keycodes.names, lower.as_str(), true) {
        Some(i) => {
            assert(keycodes.min + (i as u8) == (keycodes.min + i) as u8);
            return Some((mask, keycodes.min + (i as u8)));
        },
        None => {},
    }
    let upper = to_upper(key.as_str());
    match find_row(&keycodes.names, upper.as_str(), false) {
        Some(i) => {
            assert(keycodes.min + (i as u8) == (keycodes.min + i) as u8);
            Some((mask, keycodes.min + (i as u8)))
        },
        None => None,
    }
}

/// The masks grabbed for a shortcut: its own, and with each combination of Num Lock
/// (Mod2, 16), Caps Lock (2) and Mod5 (128) added, so that those locks do not hide it.
pub open spec fn grab_masks(m: u16) -> Seq<u16> {
    seq![m, m | 16, m | 2, m | 128, m | 18, m | 144, m | 130, m | 146]
}

pub fn x11_grab_masks(m: u16) -> (r: Vec<u16>)
    ensures
        r@ == grab_masks(m),
{
    let mut r: Vec<u16> = Vec::new();
    r.push(m);
    r.push(m | 16);
    r.push(m | 2);
    r.push(m | 128);
    r.push(m | 18);
    r.push(m | 144);
    r.push(m | 130);
    r.push(m | 146);
    r
}

/// A key press's modifier state without the lock modifiers (Num Lock, Caps Lock, Mod5).
pub open spec fn clean_state(state: u16) -> u16 {
    state & !146u16
}

/// A grabbed key and the action it triggers.
pub struct X11Binding {
    pub mask: u16,
    pub keycode: u8,
    pub action: AppAction,
}

pub open spec fn binding_view(b: X11Binding) -> (u16, u8, AppAction) {
    (b.mask, b.keycode, b.action)
}

/// The grabs for the configured shortcuts, in order: one for each non-empty shortcut
/// whose key the keyboard has.
pub open spec fn x11_binding_list(
    shortcuts: Seq<(Seq<char>, Seq<char>, AppAction)>,
    min: u8,
    rows: Seq<Seq<Seq<char>>>,
) -> Seq<(u16, u8, AppAction)>
    decreases shortcuts.len(),
{
    if shortcuts.len() == 0 {
        Seq::empty()
    } else {
        let before = x11_binding_list(shortcuts.drop_last(), min, rows);
        let (text, _label, action) = shortcuts.last();
        if text.len() == 0 {
            before
        } else {
            match x11_shortcut(text, min, rows) {
                Some((mask, code)) => before.push((mask, code, action)),
                None => before,
            }
        }
    }
}

pub fn x11_bindings(shortcuts: &Vec<ConfiguredShortcut>, keycodes: &KeyCodeMap) -> (r: Vec<X11Binding>)
    requires
        keycodes.min + keycodes.names@.len() <= 256,
    ensures
        r@.map_values(|b: X11Binding| binding_view(b)) == x11_binding_list(
            shortcut_views(shortcuts@),
            keycodes.min,
            keycode_rows(*keycodes),
        ),
{
    let ghost sv = shortcut_views(shortcuts@);
    let mut out: Vec<X11Binding> = Vec::new();
    let mut i: usize = 0;
    while i < shortcuts.len()
        invariant
            sv == shortcut_views(shortcuts@),
            keycodes.min + keycodes.names@.len() <= 256,
            i <= shortcuts@.len(),
            out@.map_values(|b: X11Binding| binding_view(b)) == x11_binding_list(
                sv.take(i as int),
                keycodes.min,
                keycode_rows(*keycodes),
            ),
        decreases shortcuts@.len() - i,
    {
        proof {
            assert(sv.take(i + 1).drop_last() =~= sv.take(i as int));
            assert(sv.take(i + 1).last() == configured_view(shortcuts@[i as int]));
        }
        let sc = &shortcuts[i];
        if sc.shortcut.unicode_len() > 0 {
            match parse_x11_shortcut(sc.shortcut.as_str(), keycodes) {
                Some((mask, code)) => {
                    let ghost before = out@.map_values(|b: X11Binding| binding_view(b));
                    let b = X11Binding { mask, keycode: code, action: copy_action(&sc.action) };
                    out.push(b);
                    assert(out@.map_values(|b: X11Binding| binding_view(b)) =~= before.push(
                        binding_view(b),
                    ));
                },
                None => {},
            }
        }
        i = i + 1;
    }
    assert(sv.take(shortcuts@.len() as int) =~= sv);
    out
}

/// The action of the last binding for a mask and keycode (a later grab of the same
/// keys replaces an earlier one).
pub open spec fn bound_action(bs: Seq<(u16, u8, AppAction)>, mask: u16, code: u8) -> Option<AppAction>
    decreases bs.len(),
{
    if bs.len() == 0 {
        None
    } else if bs.last().0 == mask && bs.last().1 == code {
        Some(bs.last().2)
    } else {
        bound_action(bs.drop_last(), mask, code)
    }
}

/// The action a key press triggers: the binding for its keycode and its modifier
/// state without the lock modifiers.
pub fn x11_action_for(bindings: &Vec<X11Binding>, state: u16, keycode: u8) -> (r: Option<AppAction>)
    ensures
        r == bound_action(
            bindings@.map_values(|b: X11Binding| binding_view(b)),
            clean_state(state),
            keycode,
        ),
{
    let mask = state & !146u16;
    let ghost bv = bindings@.map_values(|b: X11Binding| binding_view(b));
    let mut found: Option<AppAction> = None;
    let mut i: usize = 0;
    while i < bindings.len()
        invariant
            bv == bindings@.map_values(|b: X11Binding| binding_view(b)),
            mask == clean_state(state),
            i <= bindings@.len(),
            found == bound_action(bv.take(i as int), mask, keycode),
        decreases bindings@.len() - i,
    {
        proof {
            assert(bv.take(i + 1).drop_last() =~= bv.take(i as int));
        }
        if bindings[i].mask == mask && bindings[i].keycode == keycode {
            found = Some(copy_action(&bindings[i].action));
        }
        i = i + 1;
    }
    assert(bv.take(bindings@.len() as int) =~= bv);
    found
}

// ---------------------------------------------------------------------------
// Linux input devices.
// ---------------------------------------------------------------------------

/// The Linux input key code of a key name (already trimmed and in lowercase).
pub open spec fn evdev_code(k: Seq<char>) -> Option<u16> {
    if k == "a"@ {
        Some(30u16)
    } else if k == "b"@ {
        Some(48u16)
    } else if k == "c"@ {
        Some(46u16)
    } else if k == "d"@ {
        Some(32u16)
    } else if k == "e"@ {
        Some(18u16)
    } else if k == "f"@ {
        Some(33u16)
    } else if k == "g"@ {
        Some(34u16)
    } else if k == "h"@ {
        Some(35u16)
    } else if k == "i"@ {
        Some(23u16)
    } else if k == "j"@ {
        Some(36u16)
    } else if k == "k"@ {
        Some(37u16)
    } else if k == "l"@ {
        Some(38u16)
    } else if k == "m"@ {
        Some(50u16)
    } else if k == "n"@ {
        Some(49u16)
    } else if k == "o"@ {
        Some(24u16)
    } else if k == "p"@ {
        Some(25u16)
    } else if k == "q"@ {
        Some(16u16)
    } else if k == "r"@ {
        Some(19u16)
    } else if k == "s"@ {
        Some(31u16)
    } else if k == "t"@ {
        Some(20u16)
    } else if k == "u"@ {
        Some(22u16)
    } else if k == "v"@ {
        Some(47u16)
    } else if k == "w"@ {
        Some(17u16)
    } else if k == "x"@ {
        Some(45u16)
    } else if k == "y"@ {
        Some(21u16)
    } else if k == "z"@ {
        Some(44u16)
    } else if k == "0"@ {
        Some(11u16)
    } else if k == "1"@ {
        Some(2u16)
    } else if k == "2"@ {
        Some(3u16)
    } else if k == "3"@ {
        Some(4u16)
    } else if k == "4"@ {
        Some(5u16)
    } else if k == "5"@ {
        Some(6u16)
    } else if k == "6"@ {
        Some(7u16)
    } else if k == "7"@ {
        Some(8u16)
    } else if k == "8"@ {
        Some(9u16)
    } else if k == "9"@ {
        Some(10u16)
    } else if k == "f1"@ {
        Some(59u16)
    } else if k == "f2"@ {
        Some(60u16)
    } else if k == "f3"@ {
        Some(61u16)
    } else if k == "f4"@ {
        Some(62u16)
    } else if k == "f5"@ {
        Some(63u16)
    } else if k == "f6"@ {
        Some(64u16)
    } else if k == "f7"@ {
        Some(65u16)
    } else if k == "f8"@ {
        Some(66u16)
    } else if k == "f9"@ {
        Some(67u16)
    } else if k == "f10"@ {
        Some(68u16)
    } else if k == "f11"@ {
        Some(87u16)
    } else if k == "f12"@ {
        Some(88u16)
    } else if k == "return"@ || k == "enter"@ {
        Some(28u16)
    } else if k == "escape"@ || k == "esc"@ {
        Some(1u16)
    } else if k == "space"@ {
        Some(57u16)
    } else if k == "tab"@ {
        Some(15u16)
    } else if k == "backspace"@ {
        Some(14u16)
    } else if k == "delete"@ {
        Some(111u16)
    } else if k == "insert"@ {
        Some(110u16)
    } else if k == "home"@ {
        Some(102u16)
    } else if k == "end"@ {
        Some(107u16)
    } else if k == "pageup"@ || k == "page_up"@ {
        Some(104u16)
    } else if k == "pagedown"@ || k == "page_down"@ {
        Some(109u16)
    } else if k == "left"@ {
        Some(105u16)
    } else if k == "right"@ {
        Some(106u16)
    } else if k == "up"@ {
        Some(103u16)
    } else if k == "down"@ {
        Some(108u16)
    } else {
        None
    }
}

/// The Linux input key code of a key name, by its trimmed lowercase form.
pub fn evdev_key(key: &str) -> (r: Option<u16>)
    ensures
        r == evdev_code(lowercase(trim(key@))),
{
    let t = trim_str(key);
    let l = to_lower(t.as_str());
    let s = l.as_str();
    if str_eq(s, "a") {
        Some(30u16)
    } else if str_eq(s, "b") {
        Some(48u16)
    } else if str_eq(s, "c") {
        Some(46u16)
    } else if str_eq(s, "d") {
        Some(32u16)
    } else if str_eq(s, "e") {
        Some(18u16)
    } else if str_eq(s, "f") {
        Some(33u16)
    } else if str_eq(s, "g") {
        Some(34u16)
    } else if str_eq(s, "h") {
        Some(35u16)
    } else if str_eq(s, "i") {
        Some(23u16)
    } else if str_eq(s, "j") {
        Some(36u16)
    } else if str_eq(s, "k") {
        Some(37u16)
    } else if str_eq(s, "l") {
        Some(38u16)
    } else if str_eq(s, "m") {
        Some(50u16)
    } else if str_eq(s, "n") {
        Some(49u16)
    } else if str_eq(s, "o") {
        Some(24u16)
    } else if str_eq(s, "p") {
        Some(25u16)
    } else if str_eq(s, "q") {
        Some(16u16)
    } else if str_eq(s, "r") {
        Some(19u16)
    } else if str_eq(s, "s") {
        Some(31u16)
    } else if str_eq(s, "t") {
        Some(20u16)
    } else if str_eq(s, "u") {
        Some(22u16)
    } else if str_eq(s, "v") {
        Some(47u16)
    } else if str_eq(s, "w") {
        Some(17u16)
    } else if str_eq(s, "x") {
        Some(45u16)
    } else if str_eq(s, "y") {
        Some(21u16)
    } else if str_eq(s, "z") {
        Some(44u16)
    } else if str_eq(s, "0") {
        Some(11u16)
    } else if str_eq(s, "1") {
        Some(2u16)
    } else if str_eq(s, "2") {
        Some(3u16)
    } else if str_eq(s, "3") {
        Some(4u16)
    } else if str_eq(s, "4") {
        Some(5u16)
    } else if str_eq(s, "5") {
        Some(6u16)
    } else if str_eq(s, "6") {
        Some(7u16)
    } else if str_eq(s, "7") {
        Some(8u16)
    } else if str_eq(s, "8") {
        Some(9u16)
    } else if str_eq(s, "9") {
        Some(10u16)
    } else if str_eq(s, "f1") {
        Some(59u16)
    } else if str_eq(s, "f2") {
        Some(60u16)
    } else if str_eq(s, "f3") {
        Some(61u16)
    } else if str_eq(s, "f4") {
        Some(62u16)
    } else if str_eq(s, "f5") {
        Some(63u16)
    } else if str_eq(s, "f6") {
        Some(64u16)
    } else if str_eq(s, "f7") {
        Some(65u16)
    } else if str_eq(s, "f8") {
        Some(66u16)
    } else if str_eq(s, "f9") {
        Some(67u16)
    } else if str_eq(s, "f10") {
        Some(68u16)
    } else if str_eq(s, "f11") {
        Some(87u16)
    } else if str_eq(s, "f12") {
        Some(88u16)
    } else if str_eq(s, "return") || str_eq(s, "enter") {
        Some(28u16)
    } else if str_eq(s, "escape") || str_eq(s, "esc") {
        Some(1u16)
    } else if str_eq(s, "space") {
        Some(57u16)
    } else if str_eq(s, "tab") {
        Some(15u16)
    } else if str_eq(s, "backspace") {
        Some(14u16)
    } else if str_eq(s, "delete") {
        Some(111u16)
    } else if str_eq(s, "insert") {
        Some(110u16)
    } else if str_eq(s, "home") {
        Some(102u16)
    } else if str_eq(s, "end") {
        Some(107u16)
    } else if str_eq(s, "pageup") || str_eq(s, "page_up") {
        Some(104u16)
    } else if str_eq(s, "pagedown") || str_eq(s, "page_down") {
        Some(109u16)
    } else if str_eq(s, "left") {
        Some(105u16)
    } else if str_eq(s, "right") {
        Some(106u16)
    } else if str_eq(s, "up") {
        Some(103u16)
    } else if str_eq(s, "down") {
        Some(108u16)
    } else {
        None
    }
}

/// The key codes of the left and right Control, Shift, Alt and Meta keys.
pub const KEY_LEFTCTRL: u16 = 29;
pub const KEY_RIGHTCTRL: u16 = 97;
pub const KEY_LEFTSHIFT: u16 = 42;
pub const KEY_RIGHTSHIFT: u16 = 54;
pub const KEY_LEFTALT: u16 = 56;
pub const KEY_RIGHTALT: u16 = 100;
pub const KEY_LEFTMETA: u16 = 125;
pub const KEY_RIGHTMETA: u16 = 126;

/// A shortcut as the input-device backend matches it.
pub struct EvdevShortcut {
    pub key: u16,
    pub ctrl: bool,
    pub shift: bool,
    pub alt: bool,
    pub logo: bool,
    pub action: AppAction,
}

/// The key code and modifiers of a shortcut: `None` when it has no parts, its last
/// part is no known key, or a part before it is no modifier.
pub open spec fn evdev_shortcut(s: Seq<char>) -> Option<(u16, ShortcutModifiers)> {
    let parts = shortcut_parts(s);
    if parts.len() == 0 {
        None
    } else {
        match evdev_code(lowercase(trim(parts.last()))) {
            None => None,
            Some(code) => match modifiers_of(parts.drop_last()) {
                Some(m) => Some((code, m)),
                None => None,
            },
        }
    }
}

pub open spec fn evdev_view(e: EvdevShortcut) -> (u16, ShortcutModifiers, AppAction) {
    (e.key, ShortcutModifiers { ctrl: e.ctrl, alt: e.alt, shift: e.shift, super_key: e.logo }, e.action)
}

pub fn parse_evdev_shortcut(shortcut: &str, action: AppAction) -> (r: Option<EvdevShortcut>)
    ensures
        match evdev_shortcut(shortcut@) {
            Some((code, m)) => r matches Some(e) && evdev_view(e) == (code, m, action),
            None => r is None,
        },
{
    let parts = shortcut_parts_of(shortcut);
    if parts.len() == 0 {
        return None;
    }
    let n = parts.len() - 1;
    proof {
        assert(views(parts@).take(n as int) =~= views(parts@).drop_last());
        assert(views(parts@).last() == parts@[n as int]@);
    }
    let key = match evdev_key(parts[n].as_str()) {
        Some(k) => k,
        None => return None,
    };
    match modifiers_of_parts(&parts, n) {
        Some(m) => Some(
            EvdevShortcut {
                key,
                ctrl: m.ctrl,
                shift: m.shift,
                alt: m.alt,
                logo: m.super_key,
                action,
            },
        ),
        None => None,
    }
}

/// Whether a device that reports these keys is a keyboard: it has A, Z and Enter.
pub open spec fn keyboard_like(keys: Seq<u16>) -> bool {
    keys.contains(30u16) && keys.contains(44u16) && keys.contains(28u16)
}

fn has_code(v: &Vec<u16>, c: u16) -> (r: bool)
    ensures
        r == v@.contains(c),
{
    let mut i: usize = 0;
    while i < v.len()
        invariant
            i <= v@.len(),
            forall|k: int| 0 <= k < i ==> v@[k] != c,
        decreases v@.len() - i,
    {
        if v[i] == c {
            assert(v@[i as int] == c);
            return true;
        }
        i = i + 1;
    }
    false
}

pub fn looks_like_keyboard(keys: &Vec<u16>) -> (r: bool)
    ensures
        r == keyboard_like(keys@),
{
    has_code(keys, 30) && has_code(keys, 44) && has_code(keys, 28)
}

/// Whether a shortcut fires when `key` goes down while exactly the keys `pressed`
/// are held: the key is its key, and each of its modifiers is held (on either side)
/// exactly when the shortcut names it.
pub open spec fn evdev_matches(e: (u16, ShortcutModifiers, AppAction), pressed: Seq<u16>, key: u16) -> bool {
    &&& e.0 == key
    &&& e.1.ctrl == (pressed.contains(KEY_LEFTCTRL) || pressed.contains(KEY_RIGHTCTRL))
    &&& e.1.shift == (pressed.contains(KEY_LEFTSHIFT) || pressed.contains(KEY_RIGHTSHIFT))
    &&& e.1.alt == (pressed.contains(KEY_LEFTALT) || pressed.contains(KEY_RIGHTALT))
    &&& e.1.super_key == (pressed.contains(KEY_LEFTMETA) || pressed.contains(KEY_RIGHTMETA))
}

/// The actions of the shortcuts that fire, in order.
pub open spec fn evdev_fired(shortcuts: Seq<(u16, ShortcutModifiers, AppAction)>, pressed: Seq<u16>, key: u16) -> Seq<AppAction>
    decreases shortcuts.len(),
{
    if shortcuts.len() == 0 {
        Seq::empty()
    } else {
        let before = evdev_fired(shortcuts.drop_last(), pressed, key);
        if evdev_matches(shortcuts.last(), pressed, key) {
            before.push(shortcuts.last().2)
        } else {
            before
        }
    }
}

pub fn matching_evdev_shortcuts(pressed: &Vec<u16>, key: u16, shortcuts: &Vec<EvdevShortcut>) -> (r: Vec<AppAction>)
    ensures
        r@ == evdev_fired(shortcuts@.map_values(|e: EvdevShortcut| evdev_view(e)), pressed@, key),
{
    let ctrl = has_code(pressed, KEY_LEFTCTRL) || has_code(pressed, KEY_RIGHTCTRL);
    let shift = has_code(pressed, KEY_LEFTSHIFT) || has_code(pressed, KEY_RIGHTSHIFT);
    let alt = has_code(pressed, KEY_LEFTALT) || has_code(pressed, KEY_RIGHTALT);
    let logo = has_code(pressed, KEY_LEFTMETA) || has_code(pressed, KEY_RIGHTMETA);
    let ghost sv = shortcuts@.map_values(|e: EvdevShortcut| evdev_view(e));
    let mut out: Vec<AppAction> = Vec::new();
    let mut i: usize = 0;
    while i < shortcuts.len()
        invariant
            sv == shortcuts@.map_values(|e: EvdevShortcut| evdev_view(e)),
            ctrl == (pressed@.contains(KEY_LEFTCTRL) || pressed@.contains(KEY_RIGHTCTRL)),
            shift == (pressed@.contains(KEY_LEFTSHIFT) || pressed@.contains(KEY_RIGHTSHIFT)),
            alt == (pressed@.contains(KEY_LEFTALT) || pressed@.contains(KEY_RIGHTALT)),
            logo == (pressed@.contains(KEY_LEFTMETA) || pressed@.contains(KEY_RIGHTMETA)),
            i <= shortcuts@.len(),
            out@ == evdev_fired(sv.take(i as int), pressed@, key),
        decreases shortcuts@.len() - i,
    {
        proof {
            assert(sv.take(i + 1).drop_last() =~= sv.take(i as int));
            assert(sv.take(i + 1).last() == evdev_view(shortcuts@[i as int]));
        }
        let e = &shortcuts[i];
        if e.key == key && e.ctrl == ctrl && e.shift == shift && e.alt == alt && e.logo == logo {
            out.push(copy_action(&e.action));
        }
        i = i + 1;
    }
    assert(sv.take(shortcuts@.len() as int) =~= sv);
    out
}

// ---------------------------------------------------------------------------
// Dropping repeated activations.
// ---------------------------------------------------------------------------

/// How long after an action was sent the same action is dropped, in milliseconds:
/// the Wayland backends may all report one key press.
pub const DUPLICATE_WINDOW_MS: u64 = 800;

/// When each action was last sent.
pub struct DuplicateFilter {
    last_sent: Vec<(String, u64)>,
}

pub open spec fn stamp_views(v: Seq<(String, u64)>) -> Seq<(Seq<char>, u64)> {
    v.map_values(|p: (String, u64)| (p.0@, p.1))
}

/// Whether an action last sent at `last` (if ever) is let through at `now`: the time
/// since, counted as zero when the clock reads earlier, is at least the window.
pub open spec fn passes(last: Option<u64>, now: u64) -> bool {
    match last {
        Some(t) => (if now >= t {
            now - t
        } else {
            0
        }) >= DUPLICATE_WINDOW_MS,
        None => true,
    }
}

impl View for DuplicateFilter {
    type V = Seq<(Seq<char>, u64)>;

    closed spec fn view(&self) -> Seq<(Seq<char>, u64)> {
        stamp_views(self.last_sent@)
    }
}

impl DuplicateFilter {
    pub fn new() -> (r: Self)
        ensures
            r@ == Seq::<(Seq<char>, u64)>::empty(),
    {
        let r = DuplicateFilter { last_sent: Vec::new() };
        assert(r@ =~= Seq::<(Seq<char>, u64)>::empty());
        r
    }

    /// Whether the action named `key` is sent at time `now`; when it is, `now` is
    /// recorded as its last time.
    pub fn should_send(&mut self, key: &str, now: u64) -> (r: bool)
        ensures
            r == passes(crate::json::lookup(old(self)@, key@), now),
            final(self)@ == (if r {
                crate::json::entries_insert(old(self)@, key@, now)
            } else {
                old(self)@
            }),
    {
        let ghost v0 = self@;
        let mut i: usize = 0;
        let n = self.last_sent.len();
        while i < n
            invariant
                n == self.last_sent@.len(),
                v0 == stamp_views(self.last_sent@),
                v0 == old(self)@,
                i <= n,
                forall|k: int| 0 <= k < i ==> #[trigger] v0[k].0 != key@,
            decreases n - i,
        {
            if str_eq(self.last_sent[i].0.as_str(), key) {
                proof {
                    crate::json::lemma_first_index_is(v0, key@, i as int);
                }
                let last = self.last_sent[i].1;
                assert(v0[i as int].1 == last);
                let since = if now >= last {
                    now - last
                } else {
                    0
                };
                if since < DUPLICATE_WINDOW_MS {
                    return false;
                }
                let ghost kv = key@;
                self.last_sent.set(i, (key.to_string(), now));
                assert(self@ =~= v0.update(i as int, (kv, now)));
                return true;
            }
            i = i + 1;
        }
        proof {
            crate::json::lemma_first_index_none(v0, key@);
        }
        let ghost kv = key@;
        self.last_sent.push((key.to_string(), now));
        assert(self@ =~= v0.push((kv, now)));
        true
    }
}

/// Once an action is let through at `t`, the same action is dropped at any time
/// from `t` until the window has passed, and let through again from then on (when
/// nothing else was sent in between).
pub proof fn law_duplicate_window(f: Seq<(Seq<char>, u64)>, key: Seq<char>, t: u64, t2: u64)
    requires
        passes(crate::json::lookup(f, key), t),
        t <= t2,
    ensures
        passes(crate::json::lookup(crate::json::entries_insert(f, key, t), key), t2) <==> t2 - t
            >= DUPLICATE_WINDOW_MS,
{
    crate::json::lemma_lookup_insert(f, key, t, key);
}

// ---------------------------------------------------------------------------
// The session and the choice of backend.
// ---------------------------------------------------------------------------

/// The session type from `XDG_SESSION_TYPE`, `WAYLAND_DISPLAY` and `DISPLAY` (an unset
/// variable reads as empty): the first in lowercase when it is `x11` or `wayland`;
/// else `wayland` when `WAYLAND_DISPLAY` is not empty, `x11` when `DISPLAY` is not,
/// and the first in lowercase otherwise.
pub open spec fn session_type_of(xdg: Seq<char>, wayland_display: Seq<char>, display: Seq<char>) -> Seq<char> {
    let t = lowercase(xdg);
    if t == "x11"@ || t == "wayland"@ {
        t
    } else if wayland_display.len() > 0 {
        "wayland"@
    } else if display.len() > 0 {
        "x11"@
    } else {
        t
    }
}

pub fn detect_session_type(xdg: &str, wayland_display: &str, display: &str) -> (r: String)
    ensures
        r@ == session_type_of(xdg@, wayland_display@, display@),
{
    let t = to_lower(xdg);
    if str_eq(t.as_str(), "x11") || str_eq(t.as_str(), "wayland") {
        t
    } else if wayland_display.unicode_len() > 0 {
        "wayland".to_string()
    } else if display.unicode_len() > 0 {
        "x11".to_string()
    } else {
        t
    }
}

/// Whether the desktop is GNOME, from `XDG_CURRENT_DESKTOP` and `DESKTOP_SESSION`.
pub open spec fn gnome_desktop(desktop: Seq<char>, session: Seq<char>) -> bool {
    has_infix(lowercase(desktop), "gnome"@) || has_infix(lowercase(session), "gnome"@) || has_infix(
        lowercase(session),
        "ubuntu"@,
    )
}

pub fn is_gnome_desktop(desktop: &str, session: &str) -> (r: bool)
    ensures
        r == gnome_desktop(desktop@, session@),
{
    let d = to_lower(desktop);
    let s = to_lower(session);
    contains_str(d.as_str(), "gnome") || contains_str(s.as_str(), "gnome") || contains_str(
        s.as_str(),
        "ubuntu",
    )
}

/// The hotkey backends to start, in order.
#[derive(Debug, Clone, Copy, PartialEq, Eq, Structural)]
pub enum HotkeyBackend {
    X11,
    Wayland,
}

/// X11 for an X11 session, Wayland for a Wayland one; for an unknown session X11
/// first and Wayland when that fails.
pub open spec fn backend_order_of(session: Seq<char>) -> Seq<HotkeyBackend> {
    if session == "x11"@ {
        seq![HotkeyBackend::X11]
    } else if session == "wayland"@ {
        seq![HotkeyBackend::Wayland]
    } else {
        seq![HotkeyBackend::X11, HotkeyBackend::Wayland]
    }
}

pub fn backend_order(session: &str) -> (r: Vec<HotkeyBackend>)
    ensures
        r@ == backend_order_of(session@),
{
    let mut r: Vec<HotkeyBackend> = Vec::new();
    if str_eq(session, "x11") {
        r.push(HotkeyBackend::X11);
    } else if str_eq(session, "wayland") {
        r.push(HotkeyBackend::Wayland);
    } else {
        r.push(HotkeyBackend::X11);
        r.push(HotkeyBackend::Wayland);
    }
    r
}

/// Whether `gdbus introspect` of the desktop portal shows the GlobalShortcuts
/// interface: the command succeeded and its output names it.
pub open spec fn portal_has_shortcuts(success: bool, stdout: Seq<char>) -> bool {
    success && has_infix(stdout, "org.freedesktop.portal.GlobalShortcuts"@)
}

pub fn portal_introspection_has_shortcuts(success: bool, stdout: &str) -> (r: bool)
    ensures
        r == portal_has_shortcuts(success, stdout@),
{
    success && contains_str(stdout, "org.freedesktop.portal.GlobalShortcuts")
}

/// What can be found out about the Wayland backends on this machine.
pub struct WaylandProbes {
    /// A GNOME desktop with the `gsettings` command.
    pub gnome_settings: bool,
    /// The desktop portal offers GlobalShortcuts.
    pub portal: bool,
    /// Keyboards readable under `/dev/input`.
    pub keyboards: usize,
}

/// The state of the hotkey backends, as the settings window shows it.
pub struct HotkeyStatus {
    pub session_type: String,
    pub backend: String,
    pub detail: String,
    pub ok: bool,
}

pub open spec fn status_view(s: HotkeyStatus) -> (Seq<char>, Seq<char>, Seq<char>, bool) {
    (s.session_type@, s.backend@, s.detail@, s.ok)
}

/// The number of shortcuts GNOME custom keybindings can take.
pub open spec fn convertible_count(s: Seq<(Seq<char>, Seq<char>, AppAction)>) -> nat
    decreases s.len(),
{
    if s.len() == 0 {
        0
    } else {
        convertible_count(s.drop_last()) + if action_cli_arg_of(s.last().2) is Some && gnome_binding(
            s.last().0,
        ) is Some {
            1nat
        } else {
            0nat
        }
    }
}

/// The status of a Wayland session: GNOME keybindings when available, else the
/// portal, else the input devices, else none.
pub open spec fn wayland_status_of(s: Seq<(Seq<char>, Seq<char>, AppAction)>, p: WaylandProbes) -> (Seq<char>, Seq<char>, Seq<char>, bool) {
    if p.gnome_settings {
        let c = convertible_count(s);
        (
            "wayland"@,
            "GNOME custom keybindings"@,
            digits(c, 10) + " of "@ + digits(configured_count(s), 10)
                + " shortcut(s) can be registered through GNOME Settings."@,
            c > 0,
        )
    } else if p.portal {
        (
            "wayland"@,
            "xdg-desktop-portal GlobalShortcuts"@,
            digits(configured_count(s), 10) + " shortcut(s) configured"@,
            true,
        )
    } else if p.keyboards > 0 {
        (
            "wayland"@,
            "evdev /dev/input fallback"@,
            digits(p.keyboards as nat, 10) + " readable keyboard device(s) found"@,
            true,
        )
    } else {
        (
            "wayland"@,
            "No available backend"@,
            "Install a portal frontend with GlobalShortcuts support, use GNOME custom shortcuts, or grant /dev/input read permission."@,
            false,
        )
    }
}

/// The hotkey status for a session type and the configured shortcuts.
pub open spec fn status_of(session: Seq<char>, s: Seq<(Seq<char>, Seq<char>, AppAction)>, p: WaylandProbes) -> (Seq<char>, Seq<char>, Seq<char>, bool) {
    if session == "wayland"@ {
        wayland_status_of(s, p)
    } else if session == "x11"@ {
        (session, "X11"@, digits(configured_count(s), 10) + " shortcut(s) configured"@, true)
    } else {
        (
            if session.len() == 0 {
                "unknown"@
            } else {
                session
            },
            "Auto"@,
            "Session type could not be detected; Pot will try X11 first and then Wayland."@,
            false,
        )
    }
}

fn count_convertible(s: &Vec<ConfiguredShortcut>) -> (r: usize)
    ensures
        r == convertible_count(shortcut_views(s@)),
{
    let ghost sv = shortcut_views(s@);
    let mut n: usize = 0;
    let mut i: usize = 0;
    while i < s.len()
        invariant
            sv == shortcut_views(s@),
            i <= s@.len(),
            n == convertible_count(sv.take(i as int)),
            n <= i,
        decreases s@.len() - i,
    {
        proof {
            assert(sv.take(i + 1).drop_last() =~= sv.take(i as int));
            assert(sv.take(i + 1).last() == configured_view(s@[i as int]));
        }
        let a = action_cli_arg(&s[i].action);
        let b = shortcut_to_gnome_binding(s[i].shortcut.as_str());
        if a.is_some() && b.is_some() {
            n = n + 1;
        }
        i = i + 1;
    }
    assert(sv.take(s@.len() as int) =~= sv);
    n
}

fn usize_text(n: usize) -> (r: String)
    ensures
        r@ == digits(n as nat, 10),
{
    u64_to_base(n as u64, 10)
}

/// The hotkey status for the configured shortcuts in a session of the given type.
pub fn status(store: &ConfigStore, session_type: &str, probes: &WaylandProbes) -> (r: HotkeyStatus)
    ensures
        status_view(r) == status_of(session_type@, loaded_shortcuts(store@), *probes),
{
    let shortcuts = load_shortcut_config(store);
    let configured = count_configured(&shortcuts);
    if str_eq(session_type, "wayland") {
        if probes.gnome_settings {
            let c = count_convertible(&shortcuts);
            let mut d = usize_text(c);
            d.append(" of ");
            let t = usize_text(configured);
            d.append(t.as_str());
            d.append(" shortcut(s) can be registered through GNOME Settings.");
            HotkeyStatus {
                session_type: "wayland".to_string(),
                backend: "GNOME custom keybindings".to_string(),
                detail: d,
                ok: c > 0,
            }
        } else if probes.portal {
            let mut d = usize_text(configured);
            d.append(" shortcut(s) configured");
            HotkeyStatus {
                session_type: "wayland".to_string(),
                backend: "xdg-desktop-portal GlobalShortcuts".to_string(),
                detail: d,
                ok: true,
            }
        } else if probes.keyboards > 0 {
            let mut d = usize_text(probes.keyboards);
            d.append(" readable keyboard device(s) found");
            HotkeyStatus {
                session_type: "wayland".to_string(),
                backend: "evdev /dev/input fallback".to_string(),
                detail: d,
                ok: true,
            }
        } else {
            HotkeyStatus {
                session_type: "wayland".to_string(),
                backend: "No available backend".to_string(),
                detail: "Install a portal frontend with GlobalShortcuts support, use GNOME custom shortcuts, or grant /dev/input read permission.".to_string(),
                ok: false,
            }
        }
    } else if str_eq(session_type, "x11") {
        let mut d = usize_text(configured);
        d.append(" shortcut(s) configured");
        HotkeyStatus { session_type: session_type.to_string(), backend: "X11".to_string(), detail: d, ok: true }
    } else {
        let st = if session_type.unicode_len() == 0 {
            "unknown".to_string()
        } else {
            session_type.to_string()
        };
        HotkeyStatus {
            session_type: st,
            backend: "Auto".to_string(),
            detail: "Session type could not be detected; Pot will try X11 first and then Wayland.".to_string(),
            ok: false,
        }
    }
}

// ---------------------------------------------------------------------------
// The desktop portal.
// ---------------------------------------------------------------------------

/// The portal's identifier of the shortcut at position `i`.
pub open spec fn portal_id_of(i: nat) -> Seq<char> {
    "shortcut_"@ + digits(i, 10)
}

/// A shortcut as it is offered to the portal: identifier, description and the
/// preferred trigger (the portal's form when there is one, else the text as it is).
pub struct PortalShortcut {
    pub id: String,
    pub description: String,
    pub trigger: String,
}

pub open spec fn portal_view(p: PortalShortcut) -> (Seq<char>, Seq<char>, Seq<char>) {
    (p.id@, p.description@, p.trigger@)
}

pub open spec fn portal_entry(i: int, s: (Seq<char>, Seq<char>, AppAction)) -> (Seq<char>, Seq<char>, Seq<char>) {
    (
        portal_id_of(i as nat),
        s.1,
        match portal_trigger(s.0) {
            Some(t) => t,
            None => s.0,
        },
    )
}

pub fn portal_shortcuts(shortcuts: &Vec<ConfiguredShortcut>) -> (r: Vec<PortalShortcut>)
    ensures
        r@.map_values(|p: PortalShortcut| portal_view(p)) == shortcut_views(shortcuts@).map(
            |i: int, s: (Seq<char>, Seq<char>, AppAction)| portal_entry(i, s),
        ),
{
    let ghost sv = shortcut_views(shortcuts@);
    let mut out: Vec<PortalShortcut> = Vec::new();
    let mut i: usize = 0;
    while i < shortcuts.len()
        invariant
            sv == shortcut_views(shortcuts@),
            i <= shortcuts@.len(),
            out@.map_values(|p: PortalShortcut| portal_view(p)) == sv.take(i as int).map(
                |i: int, s: (Seq<char>, Seq<char>, AppAction)| portal_entry(i, s),
            ),
        decreases shortcuts@.len() - i,
    {
        let sc = &shortcuts[i];
        let mut id = "shortcut_".to_string();
        let n = usize_text(i);
        id.append(n.as_str());
        let trigger = match shortcut_to_portal_trigger(sc.shortcut.as_str()) {
            Some(t) => t,
            None => sc.shortcut.clone(),
        };
        let p = PortalShortcut { id, description: sc.label.clone(), trigger };
        let ghost before = out@.map_values(|p: PortalShortcut| portal_view(p));
        out.push(p);
        proof {
            assert(sv[i as int] == configured_view(shortcuts@[i as int]));
            assert(out@.map_values(|p: PortalShortcut| portal_view(p)) =~= before.push(portal_view(p)));
            assert(sv.take(i + 1).map(|i: int, s: (Seq<char>, Seq<char>, AppAction)| portal_entry(i, s))
                =~= sv.take(i as int).map(
                |i: int, s: (Seq<char>, Seq<char>, AppAction)| portal_entry(i, s),
            ).push(portal_entry(i as int, sv[i as int])));
        }
        i = i + 1;
    }
    assert(sv.take(shortcuts@.len() as int) =~= sv);
    out
}

/// `s` with every leading copy of `p` removed, as `str::trim_start_matches` does.
pub open spec fn strip_leading(s: Seq<char>, p: Seq<char>) -> Seq<char>
    decreases s.len(),
{
    if p.len() > 0 && has_prefix(s, p) {
        strip_leading(s.skip(p.len() as int), p)
    } else {
        s
    }
}

/// The position an activated shortcut's identifier names: the number after the
/// leading `shortcut_` prefixes, as `usize` parses it.
pub open spec fn portal_index_of(raw: Seq<char>) -> Option<nat> {
    parse_unsigned(strip_leading(raw, "shortcut_"@), usize::MAX as nat)
}

pub fn parse_portal_shortcut_id(raw: &str) -> (r: Option<usize>)
    ensures
        match portal_index_of(raw@) {
            Some(i) => r == Some(i as usize),
            None => r is None,
        },
{
    proof {
        reveal_strlit("shortcut_");
    }
    let mut rest = raw.to_string();
    while starts_with(rest.as_str(), "shortcut_")
        invariant
            strip_leading(rest@, "shortcut_"@) == strip_leading(raw@, "shortcut_"@),
            "shortcut_"@.len() == 9,
        decreases rest@.len(),
    {
        let n = rest.unicode_len();
        rest = crate::text::substring(rest.as_str(), 9, n);
    }
    match parse_u64(rest.as_str(), usize::MAX as u64) {
        Some(v) => Some(v as usize),
        None => None,
    }
}

/// The event for an activated portal shortcut: its action, the activation token
/// when the portal gave one, and the activation time; `None` when the identifier
/// names no configured shortcut.
pub open spec fn portal_event_of(
    shortcuts: Seq<ConfiguredShortcut>,
    raw: Seq<char>,
    token: Option<String>,
    ts: u64,
) -> Option<(AppAction, Option<String>, Option<u64>)> {
    match portal_index_of(raw) {
        Some(i) => if i < shortcuts.len() {
            Some((shortcuts[i as int].action, token, Some(ts)))
        } else {
            None
        },
        None => None,
    }
}

pub open spec fn event_view(e: ActionEvent) -> (AppAction, Option<String>, Option<u64>) {
    (e.action, e.ctx.startup_id, e.ctx.timestamp)
}

pub fn portal_activation(
    shortcuts: &Vec<ConfiguredShortcut>,
    raw_id: &str,
    token: Option<String>,
    ts: u64,
) -> (r: Option<ActionEvent>)
    ensures
        match portal_event_of(shortcuts@, raw_id@, token, ts) {
            Some(v) => r matches Some(e) && event_view(e) == v,
            None => r is None,
        },
{
    let idx = match parse_portal_shortcut_id(raw_id) {
        Some(i) => i,
        None => return None,
    };
    if idx >= shortcuts.len() {
        return None;
    }
    let mut event = ActionEvent::new(copy_action(&shortcuts[idx].action));
    match token {
        Some(t) => {
            event = event.with_startup_id(t);
        },
        None => {},
    }
    event = event.with_timestamp(ts);
    Some(event)
}

} // verus!
