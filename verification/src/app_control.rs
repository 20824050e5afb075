//! The application's top-level decisions: what each message leads to, where the
//! translate window goes, and what the command line, the language and theme
//! settings and the install layout ask for.

use vstd::prelude::*;
use crate::config::{ConfigStore, map_get};
use crate::desktop::ClipboardEvent;
use crate::http_server::{ActionEvent, ActivationContext, AppAction};
use crate::json::{Json, JsonView, view_str};
use crate::plugin::{join_path, joined_path};
use crate::text::{str_eq, has_prefix, starts_with};

verus! {

// ---------------------------------------------------------------------------
// Messages and what they lead to.
// ---------------------------------------------------------------------------

/// What the application is told.
pub enum AppMsg {
    Action(ActionEvent),
    Clipboard(ClipboardEvent),
    ScreenshotCaptured,
    ScreenshotCancelled,
    RecognizeTranslate(String),
    TranslateClosed,
    RecognizeClosed,
    LanguageChanged(String),
}

/// What the application does on a message.
pub enum AppEffect {
    /// Show the translate window with a text, placed for the activation.
    ShowTranslate { text: String, ctx: ActivationContext },
    /// Read the selected text, then show the translate window with it.
    ShowSelectionTranslate { ctx: ActivationContext },
    /// Take a screenshot to recognize text in.
    StartCapture,
    /// Show the recognize window.
    ShowRecognize,
    ShowConfig,
    ShowUpdater,
    Quit,
    HideTranslate,
    HideRecognize,
    /// Relabel the tray menu in a language.
    UpdateTrayLanguage(String),
    Nothing,
}

/// The model of an activation context: the token and the input time.
pub type ContextView = (Option<Seq<char>>, Option<u64>);

pub open spec fn context_view(c: ActivationContext) -> ContextView {
    (
        match c.startup_id {
            Some(t) => Some(t@),
            None => None,
        },
        c.timestamp,
    )
}

/// The model of an effect, texts by their characters.
pub enum AppEffectView {
    ShowTranslate { text: Seq<char>, ctx: ContextView },
    ShowSelectionTranslate { ctx: ContextView },
    StartCapture,
    ShowRecognize,
    ShowConfig,
    ShowUpdater,
    Quit,
    HideTranslate,
    HideRecognize,
    UpdateTrayLanguage(Seq<char>),
    Nothing,
}

impl View for AppEffect {
    type V = AppEffectView;

    open spec fn view(&self) -> AppEffectView {
        match self {
            AppEffect::ShowTranslate { text, ctx } => AppEffectView::ShowTranslate { text: text@, ctx: context_view(*ctx) },
            AppEffect::ShowSelectionTranslate { ctx } => AppEffectView::ShowSelectionTranslate { ctx: context_view(*ctx) },
            AppEffect::StartCapture => AppEffectView::StartCapture,
            AppEffect::ShowRecognize => AppEffectView::ShowRecognize,
            AppEffect::ShowConfig => AppEffectView::ShowConfig,
            AppEffect::ShowUpdater => AppEffectView::ShowUpdater,
            AppEffect::Quit => AppEffectView::Quit,
            AppEffect::HideTranslate => AppEffectView::HideTranslate,
            AppEffect::HideRecognize => AppEffectView::HideRecognize,
            AppEffect::UpdateTrayLanguage(l) => AppEffectView::UpdateTrayLanguage(l@),
            AppEffect::Nothing => AppEffectView::Nothing,
        }
    }
}

/// The effect of an action.
pub open spec fn action_effect(action: AppAction, ctx: ContextView) -> AppEffectView {
    match action {
        AppAction::TranslateText(t) => AppEffectView::ShowTranslate { text: t@, ctx },
        AppAction::InputTranslate => AppEffectView::ShowTranslate { text: Seq::empty(), ctx },
        AppAction::SelectionTranslate => AppEffectView::ShowSelectionTranslate { ctx },
        AppAction::OcrRecognize { screenshot } => if screenshot {
            AppEffectView::StartCapture
        } else {
            AppEffectView::ShowRecognize
        },
        AppAction::OcrTranslate { screenshot } => if screenshot {
            AppEffectView::StartCapture
        } else {
            AppEffectView::ShowRecognize
        },
        AppAction::ShowConfig => AppEffectView::ShowConfig,
        AppAction::ShowUpdater => AppEffectView::ShowUpdater,
        AppAction::Quit => AppEffectView::Quit,
    }
}

/// The effect of a message; clipboard text is shown only while watching is on.
pub open spec fn app_effect(msg: AppMsg, clipboard_enabled: bool) -> AppEffectView {
    match msg {
        AppMsg::Action(e) => action_effect(e.action, context_view(e.ctx)),
        AppMsg::Clipboard(ClipboardEvent::NewText(t)) => if clipboard_enabled {
            AppEffectView::ShowTranslate { text: t@, ctx: (None, None) }
        } else {
            AppEffectView::Nothing
        },
        AppMsg::ScreenshotCaptured => AppEffectView::ShowRecognize,
        AppMsg::ScreenshotCancelled => AppEffectView::Nothing,
        AppMsg::RecognizeTranslate(t) => AppEffectView::ShowTranslate { text: t@, ctx: (None, None) },
        AppMsg::TranslateClosed => AppEffectView::HideTranslate,
        AppMsg::RecognizeClosed => AppEffectView::HideRecognize,
        AppMsg::LanguageChanged(l) => AppEffectView::UpdateTrayLanguage(l@),
    }
}

/// What the application does on a message.
pub fn app_update(msg: AppMsg, clipboard_enabled: bool) -> (r: AppEffect)
    ensures
        r@ == app_effect(msg, clipboard_enabled),
{
    let r = match msg {
        AppMsg::Action(e) => {
            let ctx = e.ctx;
            match e.action {
                AppAction::TranslateText(t) => AppEffect::ShowTranslate { text: t, ctx },
                AppAction::InputTranslate => AppEffect::ShowTranslate { text: String::new(), ctx },
                AppAction::SelectionTranslate => AppEffect::ShowSelectionTranslate { ctx },
                AppAction::OcrRecognize { screenshot } => if screenshot {
                    AppEffect::StartCapture
                } else {
                    AppEffect::ShowRecognize
                },
                AppAction::OcrTranslate { screenshot } => if screenshot {
                    AppEffect::StartCapture
                } else {
                    AppEffect::ShowRecognize
                },
                AppAction::ShowConfig => AppEffect::ShowConfig,
                AppAction::ShowUpdater => AppEffect::ShowUpdater,
                AppAction::Quit => AppEffect::Quit,
            }
        },
        AppMsg::Clipboard(ClipboardEvent::NewText(t)) => {
            if clipboard_enabled {
                AppEffect::ShowTranslate { text: t, ctx: ActivationContext { startup_id: None, timestamp: None } }
            } else {
                AppEffect::Nothing
            }
        },
        AppMsg::ScreenshotCaptured => AppEffect::ShowRecognize,
        AppMsg::ScreenshotCancelled => AppEffect::Nothing,
        AppMsg::RecognizeTranslate(t) => AppEffect::ShowTranslate {
            text: t,
            ctx: ActivationContext { startup_id: None, timestamp: None },
        },
        AppMsg::TranslateClosed => AppEffect::HideTranslate,
        AppMsg::RecognizeClosed => AppEffect::HideRecognize,
        AppMsg::LanguageChanged(l) => AppEffect::UpdateTrayLanguage(l),
    };
    r
}

// ---------------------------------------------------------------------------
// Where the translate window goes.
// ---------------------------------------------------------------------------

/// How the translate window is presented.
pub enum Placement {
    /// On Wayland: with the activation token and the input time (its low 32 bits),
    /// where there are any; the compositor places the window.
    Wayland { startup_id: Option<String>, time: Option<u32> },
    /// On X11: moved to this position once mapped.
    MoveTo { x: i32, y: i32 },
    /// Presented where the desktop puts it.
    Present,
}

/// Half of a size, rounded toward zero.
pub open spec fn half(n: int) -> int {
    if n >= 0 {
        n / 2
    } else {
        -((-n) / 2)
    }
}

/// The position that centres a window of `size` on `p`, but not before 0.
pub open spec fn centred_on(p: int, size: int) -> int {
    if p - half(size) < 0 {
        0
    } else {
        p - half(size)
    }
}

fn centred(p: i32, size: i32) -> (r: i32)
    requires
        i32::MIN <= p - half(size as int) <= i32::MAX,
    ensures
        r as int == centred_on(p as int, size as int),
{
    let s: i64 = size as i64;
    let h: i64 = if s >= 0 {
        s / 2
    } else {
        -((-s) / 2)
    };
    let t: i64 = p as i64 - h;
    if t < 0 {
        0
    } else {
        t as i32
    }
}

/// Where the translate window goes for a session: on Wayland by the activation
/// hints; on X11 centred on the pointer, when it is known; else where the desktop
/// puts it.
pub fn translate_window_placement(
    session_type: &str,
    ctx: ActivationContext,
    pointer: Option<(i32, i32)>,
    width: i32,
    height: i32,
) -> (r: Placement)
    requires
        (pointer matches Some((x, y)) ==> (i32::MIN <= x - half(width as int) <= i32::MAX && i32::MIN <= y - half(
            height as int,
        ) <= i32::MAX)),
    ensures
        session_type@ == "wayland"@ ==> (r == (Placement::Wayland {
            startup_id: ctx.startup_id,
            time: match ctx.timestamp {
                Some(t) => Some((t % 0x1_0000_0000) as u32),
                None => None,
            },
        })),
        session_type@ == "x11"@ ==> (match pointer {
            Some((x, y)) => (r matches Placement::MoveTo { x: px, y: py } && px as int == centred_on(
                x as int,
                width as int,
            ) && py as int == centred_on(y as int, height as int)),
            None => (r is Present),
        }),
        (session_type@ != "wayland"@ && session_type@ != "x11"@) ==> (r is Present),
{
    proof {
        reveal_strlit("wayland");
        reveal_strlit("x11");
        assert("wayland"@.len() != "x11"@.len());
    }
    if str_eq(session_type, "wayland") {
        let time = match ctx.timestamp {
            Some(t) => Some((t % 4294967296) as u32),
            None => None,
        };
        Placement::Wayland { startup_id: ctx.startup_id, time }
    } else if str_eq(session_type, "x11") {
        assert(session_type@ != "wayland"@);
        match pointer {
            Some((x, y)) => {
                let px = centred(x, width);
                let py = centred(y, height);
                Placement::MoveTo { x: px, y: py }
            },
            None => Placement::Present,
        }
    } else {
        Placement::Present
    }
}

// ---------------------------------------------------------------------------
// The command line.
// ---------------------------------------------------------------------------

/// The action asked for on the command line (the arguments after the program's
/// name): the value after the first `--pot-action` or `--action`, or given as
/// `--pot-action=..` or `--action=..`.
pub open spec fn action_arg_of(args: Seq<Seq<char>>) -> Option<Seq<char>>
    decreases args.len(),
{
    if args.len() == 0 {
        None
    } else if args[0] == "--pot-action"@ || args[0] == "--action"@ {
        if args.len() > 1 {
            Some(args[1])
        } else {
            None
        }
    } else if has_prefix(args[0], "--pot-action="@) {
        Some(args[0].skip(13))
    } else if has_prefix(args[0], "--action="@) {
        Some(args[0].skip(9))
    } else {
        action_arg_of(args.drop_first())
    }
}

pub fn cli_action_arg(args: &Vec<String>) -> (r: Option<String>)
    ensures
        match action_arg_of(crate::text::views(args@)) {
            Some(a) => r matches Some(s) && s@ == a,
            None => r is None,
        },
{
    proof {
        reveal_strlit("--pot-action=");
        reveal_strlit("--action=");
    }
    let ghost av = crate::text::views(args@);
    let mut i: usize = 0;
    assert(av.skip(0) =~= av);
    while i < args.len()
        invariant
            av == crate::text::views(args@),
            av.len() == args@.len(),
            i <= args@.len(),
            action_arg_of(av) == action_arg_of(av.skip(i as int)),
        decreases args@.len() - i,
    {
        let a = args[i].as_str();
        proof {
            assert(av.skip(i as int)[0] == a@);
            assert(av.skip(i as int).drop_first() =~= av.skip(i + 1));
            if i + 1 < args@.len() {
                assert(av.skip(i as int)[1] == args@[i + 1]@);
            }
        }
        if str_eq(a, "--pot-action") || str_eq(a, "--action") {
            if i + 1 < args.len() {
                return Some(args[i + 1].clone());
            } else {
                return None;
            }
        }
        proof {
            reveal_strlit("--pot-action=");
            reveal_strlit("--action=");
        }
        if starts_with(a, "--pot-action=") {
            let n = a.unicode_len();
            return Some(crate::text::substring(a, 13, n));
        }
        if starts_with(a, "--action=") {
            let n = a.unicode_len();
            return Some(crate::text::substring(a, 9, n));
        }
        i = i + 1;
    }
    None
}

// ---------------------------------------------------------------------------
// Language and theme.
// ---------------------------------------------------------------------------

/// The message catalogue's name for an application language code.
pub open spec fn gettext_locale(lang: Seq<char>) -> Seq<char> {
    if lang == "zh_cn"@ {
        "zh_CN"@
    } else if lang == "zh_tw"@ {
        "zh_TW"@
    } else if lang == "pt_br"@ {
        "pt_BR"@
    } else {
        lang
    }
}

pub fn to_gettext_locale(lang: &str) -> (r: String)
    ensures
        r@ == gettext_locale(lang@),
{
    if str_eq(lang, "zh_cn") {
        "zh_CN".to_string()
    } else if str_eq(lang, "zh_tw") {
        "zh_TW".to_string()
    } else if str_eq(lang, "pt_br") {
        "pt_BR".to_string()
    } else {
        lang.to_string()
    }
}

/// The catalogue to use at start-up, from the stored `app_language`: none for
/// English, `auto`, an empty text or no text.
pub open spec fn startup_locale(store: Map<Seq<char>, JsonView>) -> Option<Seq<char>> {
    match map_get(store, "app_language"@) {
        Some(v) => match view_str(v) {
            Some(l) => if l == "en"@ || l == "auto"@ || l.len() == 0 {
                None
            } else {
                Some(gettext_locale(l))
            },
            None => None,
        },
        None => None,
    }
}

pub fn startup_language(store: &ConfigStore) -> (r: Option<String>)
    ensures
        match startup_locale(store@) {
            Some(l) => r matches Some(s) && s@ == l,
            None => r is None,
        },
{
    match store.get("app_language") {
        Some(v) => match v.as_str() {
            Some(l) => {
                if str_eq(l, "en") || str_eq(l, "auto") || l.unicode_len() == 0 {
                    None
                } else {
                    Some(to_gettext_locale(l))
                }
            },
            None => None,
        },
        None => None,
    }
}

/// The colour scheme a theme setting asks for.
pub enum ColorScheme {
    ForceLight,
    ForceDark,
    Default,
}

pub open spec fn scheme_of(theme: Seq<char>) -> ColorScheme {
    if theme == "light"@ {
        ColorScheme::ForceLight
    } else if theme == "dark"@ {
        ColorScheme::ForceDark
    } else {
        ColorScheme::Default
    }
}

pub fn theme_scheme(theme: &str) -> (r: ColorScheme)
    ensures
        r == scheme_of(theme@),
{
    if str_eq(theme, "light") {
        ColorScheme::ForceLight
    } else if str_eq(theme, "dark") {
        ColorScheme::ForceDark
    } else {
        ColorScheme::Default
    }
}

/// The stored theme (`app_theme`), `system` when there is no text.
pub open spec fn theme_setting(store: Map<Seq<char>, JsonView>) -> Seq<char> {
    match map_get(store, "app_theme"@) {
        Some(v) => match view_str(v) {
            Some(t) => t,
            None => "system"@,
        },
        None => "system"@,
    }
}

pub fn startup_theme(store: &ConfigStore) -> (r: String)
    ensures
        r@ == theme_setting(store@),
{
    match store.get("app_theme") {
        Some(v) => match v.as_str() {
            Some(t) => t.to_string(),
            None => "system".to_string(),
        },
        None => "system".to_string(),
    }
}

// ---------------------------------------------------------------------------
// Where the install keeps icons and message catalogues.
// ---------------------------------------------------------------------------

/// The icon directories under an icon root: the root, then its application icons
/// by size.
pub open spec fn icon_dirs(root: Seq<char>) -> Seq<Seq<char>> {
    seq![
        root,
        joined_path(root, "scalable/apps"@),
        joined_path(root, "128x128/apps"@),
        joined_path(root, "64x64/apps"@),
        joined_path(root, "48x48/apps"@),
        joined_path(root, "32x32/apps"@),
        joined_path(root, "16x16/apps"@),
    ]
}

fn push_icon_dirs(paths: &mut Vec<String>, root: &str)
    ensures
        crate::text::views(final(paths)@) == crate::text::views(old(paths)@) + icon_dirs(root@),
{
    let ghost before = crate::text::views(paths@);
    paths.push(root.to_string());
    paths.push(join_path(root, "scalable/apps"));
    paths.push(join_path(root, "128x128/apps"));
    paths.push(join_path(root, "64x64/apps"));
    paths.push(join_path(root, "48x48/apps"));
    paths.push(join_path(root, "32x32/apps"));
    paths.push(join_path(root, "16x16/apps"));
    assert(crate::text::views(paths@) =~= before + icon_dirs(root@));
}

/// The directories searched for the application's icons, in order.
pub fn icon_search_paths(exe_dir: Option<&str>, source_dir: &str) -> (r: Vec<String>)
    ensures
        crate::text::views(r@) == match exe_dir {
            Some(d) => icon_dirs(joined_path(d@, "icons"@)) + icon_dirs(joined_path(source_dir@, "data/icons"@)),
            None => icon_dirs(joined_path(source_dir@, "data/icons"@)),
        },
{
    let mut paths: Vec<String> = Vec::new();
    assert(crate::text::views(paths@) =~= Seq::<Seq<char>>::empty());
    match exe_dir {
        Some(d) => {
            let root = join_path(d, "icons");
            push_icon_dirs(&mut paths, root.as_str());
        },
        None => {},
    }
    let root = join_path(source_dir, "data/icons");
    push_icon_dirs(&mut paths, root.as_str());
    match exe_dir {
        Some(d) => {},
        None => {
            assert(crate::text::views(paths@) =~= icon_dirs(joined_path(source_dir@, "data/icons"@)));
        },
    }
    paths
}

/// The file whose presence marks a directory of message catalogues.
pub const LOCALE_MARKER: &'static str = "zh_CN/LC_MESSAGES/pot-gtk.mo";

/// Where the system keeps message catalogues.
pub const SYSTEM_LOCALE_DIR: &'static str = "/usr/share/locale";

/// The directories that may hold the catalogues, in order: `locales` beside the
/// program, `share/locale` under its install prefix, the source tree's `data/po`.
pub open spec fn locale_candidates_of(
    exe_dir: Option<Seq<char>>,
    prefix: Option<Seq<char>>,
    source_dir: Seq<char>,
) -> Seq<Seq<char>> {
    (match exe_dir {
        Some(d) => seq![joined_path(d, "locales"@)],
        None => Seq::empty(),
    }) + (match prefix {
        Some(p) => seq![joined_path(joined_path(p, "share"@), "locale"@)],
        None => Seq::empty(),
    }) + seq![joined_path(source_dir, "data/po"@)]
}

pub fn locale_candidates(exe_dir: Option<&str>, prefix: Option<&str>, source_dir: &str) -> (r: Vec<String>)
    ensures
        crate::text::views(r@) == locale_candidates_of(
            match exe_dir {
                Some(d) => Some(d@),
                None => None,
            },
            match prefix {
                Some(p) => Some(p@),
                None => None,
            },
            source_dir@,
        ),
{
    let mut out: Vec<String> = Vec::new();
    match exe_dir {
        Some(d) => {
            out.push(join_path(d, "locales"));
        },
        None => {},
    }
    match prefix {
        Some(p) => {
            let share = join_path(p, "share");
            out.push(join_path(share.as_str(), "locale"));
        },
        None => {},
    }
    out.push(join_path(source_dir, "data/po"));
    proof {
        let ev = match exe_dir {
            Some(d) => Some(d@),
            None => None,
        };
        let pv = match prefix {
            Some(p) => Some(p@),
            None => None,
        };
        assert(crate::text::views(out@) =~= locale_candidates_of(ev, pv, source_dir@));
    }
    out
}

/// The first candidate that holds the catalogues, else the system's directory.
pub open spec fn chosen_locale_dir(candidates: Seq<Seq<char>>, present: Seq<bool>) -> Seq<char>
    decreases candidates.len(),
{
    if candidates.len() == 0 || present.len() == 0 {
        "/usr/share/locale"@
    } else if present[0] {
        candidates[0]
    } else {
        chosen_locale_dir(candidates.drop_first(), present.drop_first())
    }
}

/// Picks the catalogue directory, given for each candidate whether its marker
/// file is there.
pub fn pick_locale_dir(candidates: &Vec<String>, present: &Vec<bool>) -> (r: String)
    ensures
        r@ == chosen_locale_dir(crate::text::views(candidates@), present@),
{
    let ghost cv = crate::text::views(candidates@);
    let mut i: usize = 0;
    assert(cv.skip(0) =~= cv);
    assert(present@.skip(0) =~= present@);
    while i < candidates.len() && i < present.len()
        invariant
            cv == crate::text::views(candidates@),
            cv.len() == candidates@.len(),
            i <= candidates@.len(),
            i <= present@.len(),
            chosen_locale_dir(cv, present@) == chosen_locale_dir(cv.skip(i as int), present@.skip(i as int)),
        decreases candidates@.len() - i,
    {
        proof {
            assert(cv.skip(i as int)[0] == candidates@[i as int]@);
            assert(present@.skip(i as int)[0] == present@[i as int]);
            assert(cv.skip(i as int).drop_first() =~= cv.skip(i + 1));
            assert(present@.skip(i as int).drop_first() =~= present@.skip(i + 1));
        }
        if present[i] {
            return candidates[i].clone();
        }
        i = i + 1;
    }
    proof {
        reveal_strlit("/usr/share/locale");
    }
    SYSTEM_LOCALE_DIR.to_string()
}

// ---------------------------------------------------------------------------
// The tray menu.
// ---------------------------------------------------------------------------

/// An entry of the tray menu: an item with its label (a message to translate),
/// icon and action, or a separator.
pub enum TrayEntry {
    Item { label: &'static str, icon: &'static str, action: AppAction },
    Separator,
}

pub enum TrayEntryView {
    Item(Seq<char>, Seq<char>, AppAction),
    Separator,
}

impl View for TrayEntry {
    type V = TrayEntryView;

    open spec fn view(&self) -> TrayEntryView {
        match self {
            TrayEntry::Item { label, icon, action } => TrayEntryView::Item(label@, icon@, *action),
            TrayEntry::Separator => TrayEntryView::Separator,
        }
    }
}

/// The tray menu: translating the selection or typed text, recognizing or
/// translating a screenshot, the settings and updates, and quitting.
pub open spec fn tray_menu_of() -> Seq<TrayEntryView> {
    seq![
        TrayEntryView::Item("Selection Translate"@, "document-edit"@, AppAction::SelectionTranslate),
        TrayEntryView::Item("Input Translate"@, "input-keyboard"@, AppAction::InputTranslate),
        TrayEntryView::Separator,
        TrayEntryView::Item("OCR Recognize"@, "document-scanner"@, AppAction::OcrRecognize { screenshot: true }),
        TrayEntryView::Item("OCR Translate"@, "edit-find-replace"@, AppAction::OcrTranslate { screenshot: true }),
        TrayEntryView::Separator,
        TrayEntryView::Item("Settings"@, "preferences-system"@, AppAction::ShowConfig),
        TrayEntryView::Item("Check for Updates"@, "software-update-available"@, AppAction::ShowUpdater),
        TrayEntryView::Separator,
        TrayEntryView::Item("Quit"@, "application-exit"@, AppAction::Quit),
    ]
}

pub fn tray_menu() -> (r: Vec<TrayEntry>)
    ensures
        r@.map_values(|e: TrayEntry| e@) == tray_menu_of(),
{
    let r = vec![
        TrayEntry::Item { label: "Selection Translate", icon: "document-edit", action: AppAction::SelectionTranslate },
        TrayEntry::Item { label: "Input Translate", icon: "input-keyboard", action: AppAction::InputTranslate },
        TrayEntry::Separator,
        TrayEntry::Item {
            label: "OCR Recognize",
            icon: "document-scanner",
            action: AppAction::OcrRecognize { screenshot: true },
        },
        TrayEntry::Item {
            label: "OCR Translate",
            icon: "edit-find-replace",
            action: AppAction::OcrTranslate { screenshot: true },
        },
        TrayEntry::Separator,
        TrayEntry::Item { label: "Settings", icon: "preferences-system", action: AppAction::ShowConfig },
        TrayEntry::Item { label: "Check for Updates", icon: "software-update-available", action: AppAction::ShowUpdater },
        TrayEntry::Separator,
        TrayEntry::Item { label: "Quit", icon: "application-exit", action: AppAction::Quit },
    ];
    assert(r@.map_values(|e: TrayEntry| e@) =~= tray_menu_of());
    r
}

} // verus!
