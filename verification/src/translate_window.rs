//! The translation window's state: the source text, the languages, the results
//! of the enabled services, and which request the shown results belong to. Every
//! change of text or languages starts a new request generation, so that answers to
//! an earlier request are dropped.

use vstd::prelude::*;
use crate::config::{
    ConfigStore, ServiceCategory, effective_list, stored_list, map_get, instance_name, instance_service_name,
};
use crate::json::{Json, JsonView, view_field, view_bool, opt_str, json_entries_view, lookup};
use crate::services::{
    TranslateRequest, TranslateResult, TranslateResultView, ServiceError, DictionaryView, outcome_view,
    dictionary_view,
};
use crate::text::{views, str_eq, trim, trim_str, join, join_strings, replace_all, replace_str};
use crate::translate::{TranslateRegistry, TranslateService};

verus! {

/// One service's result as the window shows it.
pub struct TranslationItem {
    pub instance_key: String,
    pub service_name: String,
    pub display_name: String,
    pub text: String,
    pub is_error: bool,
}

pub type ItemView = (Seq<char>, Seq<char>, Seq<char>, Seq<char>, bool);

pub open spec fn item_view(i: TranslationItem) -> ItemView {
    (i.instance_key@, i.service_name@, i.display_name@, i.text@, i.is_error)
}

pub open spec fn item_views(s: Seq<TranslationItem>) -> Seq<ItemView> {
    s.map_values(|i: TranslationItem| item_view(i))
}

fn copy_item(i: &TranslationItem) -> (r: TranslationItem)
    ensures
        item_view(r) == item_view(*i),
{
    TranslationItem {
        instance_key: i.instance_key.clone(),
        service_name: i.service_name.clone(),
        display_name: i.display_name.clone(),
        text: i.text.clone(),
        is_error: i.is_error,
    }
}

/// The answers to a request: its generation, the instance a retry was for, and
/// the results.
pub struct TranslateCommandOutput {
    pub request_id: u64,
    pub replace_instance_key: Option<String>,
    pub items: Vec<TranslationItem>,
}

/// What the window does on its input.
pub enum TranslateMsg {
    Show(String),
    Translate,
    SetSourceText(String),
    SwapLanguages,
    SetFromLang(String),
    SetToLang(String),
    RetryService(String),
    DisableFailedService(String),
    Pin,
    FocusOut,
    Close,
}

/// What the window asks of its surroundings after a message.
pub enum TranslateEffect {
    /// Nothing.
    Nothing,
    /// Translate again: the source text was shown.
    Requeue,
    /// Ask the services for a translation of generation `request_id`.
    Run {
        request_id: u64,
        replace_instance_key: Option<String>,
        services: Vec<String>,
        text: String,
        from: String,
        to: String,
    },
    /// Select the languages in the language lists.
    SyncLanguages,
    /// Close the window.
    Close,
}

/// The window's state.
pub struct TranslateState {
    pub text: String,
    pub items: Vec<TranslationItem>,
    pub pinned: bool,
    pub from_lang: String,
    pub to_lang: String,
    pub loading: bool,
    pub setting_source: bool,
    pub active_request_id: u64,
    pub results_version: u64,
}

/// The model of the window's state.
pub struct StateView {
    pub text: Seq<char>,
    pub items: Seq<ItemView>,
    pub pinned: bool,
    pub from: Seq<char>,
    pub to: Seq<char>,
    pub loading: bool,
    pub setting_source: bool,
    pub active: u64,
    pub version: u64,
}

impl View for TranslateState {
    type V = StateView;

    open spec fn view(&self) -> StateView {
        StateView {
            text: self.text@,
            items: item_views(self.items@),
            pinned: self.pinned,
            from: self.from_lang@,
            to: self.to_lang@,
            loading: self.loading,
            setting_source: self.setting_source,
            active: self.active_request_id,
            version: self.results_version,
        }
    }
}

/// The next value of a wrapping counter.
pub open spec fn next_id(a: u64) -> u64 {
    if a == u64::MAX {
        0
    } else {
        (a + 1) as u64
    }
}

fn bump(a: u64) -> (r: u64)
    ensures
        r == next_id(a),
{
    if a == u64::MAX {
        0
    } else {
        a + 1
    }
}

/// A new request generation: results cleared, nothing loading.
pub open spec fn reset(s: StateView) -> StateView {
    StateView { active: next_id(s.active), loading: false, items: Seq::empty(), version: next_id(s.version), ..s }
}

/// The model of an effect.
pub enum EffectView {
    Nothing,
    Requeue,
    Run {
        request_id: u64,
        replace: Option<Seq<char>>,
        services: Seq<Seq<char>>,
        text: Seq<char>,
        from: Seq<char>,
        to: Seq<char>,
    },
    SyncLanguages,
    Close,
}

pub open spec fn effect_view(e: TranslateEffect) -> EffectView {
    match e {
        TranslateEffect::Nothing => EffectView::Nothing,
        TranslateEffect::Requeue => EffectView::Requeue,
        TranslateEffect::Run { request_id, replace_instance_key, services, text, from, to } => EffectView::Run {
            request_id,
            replace: match replace_instance_key {
                Some(k) => Some(k@),
                None => None,
            },
            services: views(services@),
            text: text@,
            from: from@,
            to: to@,
        },
        TranslateEffect::SyncLanguages => EffectView::SyncLanguages,
        TranslateEffect::Close => EffectView::Close,
    }
}

/// The text sent for translation: line breaks as spaces and carriage returns
/// removed when the setting asks for it.
pub open spec fn sent_text(text: Seq<char>, delete_newline: bool) -> Seq<char> {
    if delete_newline {
        replace_all(replace_all(text, "\n"@, " "@), "\r"@, Seq::empty())
    } else {
        text
    }
}

/// Whether an instance is enabled: its `enable` setting, true when missing.
pub open spec fn instance_enabled(store: Map<Seq<char>, JsonView>, key: Seq<char>) -> bool {
    match map_get(store, key) {
        Some(v) => match view_field(v, "enable"@) {
            Some(JsonView::Bool(b)) => b,
            _ => true,
        },
        None => true,
    }
}

/// The enabled instances of the translation list, in order.
pub open spec fn enabled_list(store: Map<Seq<char>, JsonView>, list: Seq<Seq<char>>) -> Seq<Seq<char>>
    decreases list.len(),
{
    if list.len() == 0 {
        Seq::empty()
    } else {
        let before = enabled_list(store, list.drop_last());
        if instance_enabled(store, list.last()) {
            before.push(list.last())
        } else {
            before
        }
    }
}

pub open spec fn enabled_services(store: Map<Seq<char>, JsonView>) -> Seq<Seq<char>> {
    enabled_list(store, effective_list(ServiceCategory::Translate, stored_list(store, ServiceCategory::Translate)))
}

/// Whether the setting to remove line breaks is on.
pub open spec fn deletes_newlines(store: Map<Seq<char>, JsonView>) -> bool {
    match map_get(store, "translate_delete_newline"@) {
        Some(JsonView::Bool(b)) => b,
        _ => false,
    }
}

/// The instances of the translation list that are enabled.
pub fn enabled_translate_service_list(store: &ConfigStore) -> (r: Vec<String>)
    ensures
        views(r@) == enabled_services(store@),
{
    let list = store.effective_service_list(ServiceCategory::Translate);
    let ghost lv = views(list@);
    let mut out: Vec<String> = Vec::new();
    let mut i: usize = 0;
    while i < list.len()
        invariant
            lv == views(list@),
            i <= list@.len(),
            views(out@) == enabled_list(store@, lv.take(i as int)),
        decreases list@.len() - i,
    {
        proof {
            assert(lv.take(i + 1).drop_last() =~= lv.take(i as int));
            assert(lv.take(i + 1).last() == list@[i as int]@);
        }
        let enabled = match store.get(list[i].as_str()) {
            Some(v) => match v.get("enable") {
                Some(b) => match b.as_bool() {
                    Some(x) => x,
                    None => true,
                },
                None => true,
            },
            None => true,
        };
        if enabled {
            let ghost before = views(out@);
            out.push(list[i].clone());
            assert(views(out@) =~= before.push(list@[i as int]@));
        }
        i = i + 1;
    }
    assert(lv.take(list@.len() as int) =~= lv);
    out
}

fn delete_newline_setting(store: &ConfigStore) -> (r: bool)
    ensures
        r == deletes_newlines(store@),
{
    match store.get("translate_delete_newline") {
        Some(v) => match v.as_bool() {
            Some(b) => b,
            None => false,
        },
        None => false,
    }
}

fn text_to_send(text: &str, delete_newline: bool) -> (r: String)
    ensures
        r@ == sent_text(text@, delete_newline),
{
    if delete_newline {
        proof {
            reveal_strlit("\n");
            reveal_strlit("\r");
            reveal_strlit("");
            assert(""@ =~= Seq::<char>::empty());
        }
        let a = replace_str(text, "\n", " ");
        replace_str(a.as_str(), "\r", "")
    } else {
        text.to_string()
    }
}

/// The items without those of an instance.
pub open spec fn without_instance(items: Seq<ItemView>, key: Seq<char>) -> Seq<ItemView> {
    items.filter(|i: ItemView| i.0 != key)
}

/// The instance's settings with `enable` off (an object made when there is none).
pub open spec fn disabled_config(store: Map<Seq<char>, JsonView>, key: Seq<char>) -> JsonView {
    let entries = match map_get(store, key) {
        Some(JsonView::Object(es)) => es,
        _ => Seq::empty(),
    };
    JsonView::Object(crate::translators::ordered_insert(entries, "enable"@, JsonView::Bool(false)))
}

/// The state and effect after a message, given the enabled instances and whether
/// line breaks are removed.
pub open spec fn step(s: StateView, m: TranslateMsg, enabled: Seq<Seq<char>>, delete_newline: bool) -> (StateView, EffectView) {
    match m {
        TranslateMsg::Show(t) => {
            let s1 = if s.text != t@ {
                reset(s)
            } else {
                s
            };
            let s2 = StateView { setting_source: true, text: t@, ..s1 };
            if t@.len() > 0 {
                (s2, EffectView::Requeue)
            } else {
                (StateView { items: Seq::empty(), version: next_id(s2.version), ..s2 }, EffectView::Nothing)
            }
        },
        TranslateMsg::SetSourceText(t) => {
            let s1 = if !s.setting_source && s.text != t@ {
                StateView { text: t@, ..reset(s) }
            } else {
                s
            };
            (StateView { setting_source: false, ..s1 }, EffectView::Nothing)
        },
        TranslateMsg::Translate => {
            if s.text.len() == 0 || s.loading {
                (s, EffectView::Nothing)
            } else {
                let s1 = StateView { loading: true, ..reset(s) };
                if enabled.len() == 0 {
                    (StateView { loading: false, ..s1 }, EffectView::Nothing)
                } else {
                    (
                        s1,
                        EffectView::Run {
                            request_id: s1.active,
                            replace: None,
                            services: enabled,
                            text: sent_text(s.text, delete_newline),
                            from: s.from,
                            to: s.to,
                        },
                    )
                }
            }
        },
        TranslateMsg::RetryService(k) => {
            if s.text.len() == 0 || s.loading {
                (s, EffectView::Nothing)
            } else {
                let s1 = StateView { active: next_id(s.active), loading: true, ..s };
                (
                    s1,
                    EffectView::Run {
                        request_id: s1.active,
                        replace: Some(k@),
                        services: seq![k@],
                        text: sent_text(s.text, delete_newline),
                        from: s.from,
                        to: s.to,
                    },
                )
            }
        },
        TranslateMsg::DisableFailedService(k) => (
            StateView { items: without_instance(s.items, k@), version: next_id(s.version), ..s },
            EffectView::Nothing,
        ),
        TranslateMsg::SwapLanguages => (
            StateView { from: s.to, to: s.from, ..reset(s) },
            EffectView::SyncLanguages,
        ),
        TranslateMsg::SetFromLang(l) => (
            if s.from != l@ {
                StateView { from: l@, ..reset(s) }
            } else {
                s
            },
            EffectView::Nothing,
        ),
        TranslateMsg::SetToLang(l) => (
            if s.to != l@ {
                StateView { to: l@, ..reset(s) }
            } else {
                s
            },
            EffectView::Nothing,
        ),
        TranslateMsg::FocusOut => (
            s,
            if s.pinned {
                EffectView::Nothing
            } else {
                EffectView::Close
            },
        ),
        TranslateMsg::Pin => (StateView { pinned: !s.pinned, ..s }, EffectView::Nothing),
        TranslateMsg::Close => (s, EffectView::Close),
    }
}

/// What a successful translation leaves in the history: source text, result,
/// languages and service.
pub struct HistoryRecord {
    pub text: String,
    pub result: String,
    pub from: String,
    pub to: String,
    pub service: String,
}

pub open spec fn record_view(r: HistoryRecord) -> (Seq<char>, Seq<char>, Seq<char>, Seq<char>, Seq<char>) {
    (r.text@, r.result@, r.from@, r.to@, r.service@)
}

pub open spec fn opt_text(o: Option<String>) -> Option<Seq<char>> {
    match o {
        Some(k) => Some(k@),
        None => None,
    }
}

/// The position of the first item of an instance.
pub open spec fn item_index(items: Seq<ItemView>, key: Seq<char>) -> Option<int>
    decreases items.len(),
{
    if items.len() == 0 {
        None
    } else {
        match item_index(items.drop_last(), key) {
            Some(i) => Some(i),
            None => if items.last().0 == key {
                Some(items.len() - 1)
            } else {
                None
            },
        }
    }
}

/// The first item that is no error.
pub open spec fn first_success(items: Seq<ItemView>) -> Option<ItemView>
    decreases items.len(),
{
    if items.len() == 0 {
        None
    } else {
        match first_success(items.drop_last()) {
            Some(i) => Some(i),
            None => if !items.last().4 {
                Some(items.last())
            } else {
                None
            },
        }
    }
}

/// The items after the answers to the current request: a retry's first answer
/// replaces the instance's item (or is added), other answers replace the items.
pub open spec fn merged_items(items: Seq<ItemView>, replace: Option<Seq<char>>, answers: Seq<ItemView>) -> Seq<ItemView> {
    match replace {
        Some(k) => if answers.len() > 0 {
            match item_index(items, k) {
                Some(i) => items.update(i, answers[0]),
                None => items.push(answers[0]),
            }
        } else {
            items
        },
        None => answers,
    }
}

proof fn lemma_item_index(items: Seq<ItemView>, key: Seq<char>)
    ensures
        match item_index(items, key) {
            Some(i) => 0 <= i < items.len() && items[i].0 == key,
            None => true,
        },
    decreases items.len(),
{
    if items.len() > 0 {
        lemma_item_index(items.drop_last(), key);
    }
}

impl TranslateState {
    /// The window's state on opening, with the configured languages (`auto` and
    /// `zh_cn` by default).
    pub fn new(store: &ConfigStore) -> (r: Self)
        ensures
            r@.text == Seq::<char>::empty(),
            r@.items == Seq::<ItemView>::empty(),
            !r@.pinned && !r@.loading && !r@.setting_source,
            r@.active == 0 && r@.version == 0,
            r@.from == crate::json::field_str_or(
                JsonView::Object(seq![("k"@, map_get(store@, "translate_source_language"@).unwrap_or(JsonView::Null))]),
                "k"@,
                "auto"@,
            ),
            r@.to == crate::json::field_str_or(
                JsonView::Object(seq![("k"@, map_get(store@, "translate_target_language"@).unwrap_or(JsonView::Null))]),
                "k"@,
                "zh_cn"@,
            ),
    {
        let from = match store.get("translate_source_language") {
            Some(v) => match v.as_str() {
                Some(s) => s.to_string(),
                None => "auto".to_string(),
            },
            None => "auto".to_string(),
        };
        let to = match store.get("translate_target_language") {
            Some(v) => match v.as_str() {
                Some(s) => s.to_string(),
                None => "zh_cn".to_string(),
            },
            None => "zh_cn".to_string(),
        };
        proof {
            reveal_strlit("k");
        }
        let r = TranslateState {
            text: String::new(),
            items: Vec::new(),
            pinned: false,
            from_lang: from,
            to_lang: to,
            loading: false,
            setting_source: false,
            active_request_id: 0,
            results_version: 0,
        };
        assert(r@.items =~= Seq::<ItemView>::empty());
        r
    }

    fn start_generation(&mut self)
        ensures
            final(self)@ == reset(old(self)@),
    {
        self.active_request_id = bump(self.active_request_id);
        self.loading = false;
        self.items = Vec::new();
        self.results_version = bump(self.results_version);
        assert(self@.items =~= Seq::<ItemView>::empty());
    }

    /// Handles a message: the state changes as [`step`] says, with the enabled
    /// instances and the line-break setting of the configuration; disabling a failed
    /// service also turns its `enable` setting off.
    pub fn update(&mut self, msg: TranslateMsg, store: &mut ConfigStore) -> (r: TranslateEffect)
        ensures
            (final(self)@, effect_view(r)) == step(old(self)@, msg, enabled_services(old(store)@), deletes_newlines(old(store)@)),
            final(store)@ == match msg {
                TranslateMsg::DisableFailedService(k) => old(store)@.insert(k@, disabled_config(old(store)@, k@)),
                _ => old(store)@,
            },
    {
        let ghost s0 = self@;
        match msg {
            TranslateMsg::Show(t) => {
                self.setting_source = true;
                if !str_eq(self.text.as_str(), t.as_str()) {
                    self.start_generation();
                }
                self.text = t;
                self.setting_source = true;
                if self.text.unicode_len() > 0 {
                    TranslateEffect::Requeue
                } else {
                    self.items = Vec::new();
                    self.results_version = bump(self.results_version);
                    assert(self@.items =~= Seq::<ItemView>::empty());
                    TranslateEffect::Nothing
                }
            },
            TranslateMsg::SetSourceText(t) => {
                if !self.setting_source && !str_eq(self.text.as_str(), t.as_str()) {
                    self.start_generation();
                    self.text = t;
                }
                self.setting_source = false;
                TranslateEffect::Nothing
            },
            TranslateMsg::Translate => {
                if self.text.unicode_len() == 0 || self.loading {
                    return TranslateEffect::Nothing;
                }
                self.start_generation();
                self.loading = true;
                let services = enabled_translate_service_list(store);
                if services.len() == 0 {
                    self.loading = false;
                    return TranslateEffect::Nothing;
                }
                let dn = delete_newline_setting(store);
                let text = text_to_send(self.text.as_str(), dn);
                TranslateEffect::Run {
                    request_id: self.active_request_id,
                    replace_instance_key: None,
                    services,
                    text,
                    from: self.from_lang.clone(),
                    to: self.to_lang.clone(),
                }
            },
            TranslateMsg::RetryService(k) => {
                if self.text.unicode_len() == 0 || self.loading {
                    return TranslateEffect::Nothing;
                }
                self.active_request_id = bump(self.active_request_id);
                self.loading = true;
                let dn = delete_newline_setting(store);
                let text = text_to_send(self.text.as_str(), dn);
                let mut services: Vec<String> = Vec::new();
                services.push(k.clone());
                assert(views(services@) =~= seq![k@]);
                TranslateEffect::Run {
                    request_id: self.active_request_id,
                    replace_instance_key: Some(k),
                    services,
                    text,
                    from: self.from_lang.clone(),
                    to: self.to_lang.clone(),
                }
            },
            TranslateMsg::DisableFailedService(k) => {
                let mut entries: Vec<(String, Json)> = match store.get(k.as_str()) {
                    Some(Json::Object(es)) => es,
                    _ => Vec::new(),
                };
                proof {
                    assert(json_entries_view(Seq::<(String, Json)>::empty()) =~= Seq::empty());
                }
                crate::translators::ordered_set(&mut entries, "enable".to_string(), Json::Bool(false));
                store.set(k.as_str(), Json::Object(entries));
                let ghost before = item_views(self.items@);
                let mut kept: Vec<TranslationItem> = Vec::new();
                let mut i: usize = 0;
                while i < self.items.len()
                    invariant
                        before == item_views(self.items@),
                        i <= self.items@.len(),
                        item_views(kept@) == without_instance(before.take(i as int), k@),
                    decreases self.items@.len() - i,
                {
                    proof {
                        reveal_with_fuel(Seq::<_>::filter, 1);
                        assert(before.take(i + 1).drop_last() =~= before.take(i as int));
                        assert(before.take(i + 1).last() == item_view(self.items@[i as int]));
                    }
                    if !str_eq(self.items[i].instance_key.as_str(), k.as_str()) {
                        let ghost kv = item_views(kept@);
                        let c = copy_item(&self.items[i]);
                        kept.push(c);
                        assert(item_views(kept@) =~= kv.push(item_view(c)));
                    }
                    i = i + 1;
                }
                assert(before.take(self.items@.len() as int) =~= before);
                self.items = kept;
                self.results_version = bump(self.results_version);
                TranslateEffect::Nothing
            },
            TranslateMsg::SwapLanguages => {
                self.start_generation();
                std::mem::swap(&mut self.from_lang, &mut self.to_lang);
                TranslateEffect::SyncLanguages
            },
            TranslateMsg::SetFromLang(l) => {
                if !str_eq(self.from_lang.as_str(), l.as_str()) {
                    self.start_generation();
                    self.from_lang = l;
                }
                TranslateEffect::Nothing
            },
            TranslateMsg::SetToLang(l) => {
                if !str_eq(self.to_lang.as_str(), l.as_str()) {
                    self.start_generation();
                    self.to_lang = l;
                }
                TranslateEffect::Nothing
            },
            TranslateMsg::FocusOut => {
                if !self.pinned {
                    TranslateEffect::Close
                } else {
                    TranslateEffect::Nothing
                }
            },
            TranslateMsg::Pin => {
                self.pinned = !self.pinned;
                TranslateEffect::Nothing
            },
            TranslateMsg::Close => TranslateEffect::Close,
        }
    }

    /// Takes in the answers to a request: answers to an earlier generation are
    /// dropped and change nothing; otherwise loading ends, the answers are merged,
    /// and the first successful result is returned for the history.
    pub fn update_cmd(&mut self, out: TranslateCommandOutput) -> (r: Option<HistoryRecord>)
        ensures
            out.request_id != old(self)@.active ==> final(self)@ == old(self)@ && r is None,
            out.request_id == old(self)@.active ==> ({
                let items = merged_items(old(self)@.items, opt_text(out.replace_instance_key), item_views(out.items@));
                &&& final(self)@ == StateView {
                    loading: false,
                    items,
                    version: next_id(old(self)@.version),
                    ..old(self)@
                }
                &&& match first_success(items) {
                    Some(i) => r matches Some(h) && record_view(h) == (
                        old(self)@.text,
                        i.3,
                        old(self)@.from,
                        old(self)@.to,
                        i.1,
                    ),
                    None => r is None,
                }
            }),
    {
        if out.request_id != self.active_request_id {
            return None;
        }
        let ghost expected = merged_items(
            old(self)@.items,
            opt_text(out.replace_instance_key),
            item_views(out.items@),
        );
        self.loading = false;
        let ghost old_items = item_views(self.items@);
        match out.replace_instance_key {
            Some(k) => {
                if out.items.len() > 0 {
                    let first = copy_item(&out.items[0]);
                    let mut found: Option<usize> = None;
                    let mut i: usize = 0;
                    while i < self.items.len() && found.is_none()
                        invariant
                            old_items == item_views(self.items@),
                            i <= self.items@.len(),
                            found is None ==> item_index(old_items.take(i as int), k@) is None,
                            found matches Some(j) ==> j < self.items@.len() && item_index(old_items, k@) == Some(
                                j as int,
                            ),
                        decreases self.items@.len() - i,
                    {
                        proof {
                            assert(old_items.take(i + 1).drop_last() =~= old_items.take(i as int));
                            assert(old_items.take(i + 1).last() == item_view(self.items@[i as int]));
                        }
                        if str_eq(self.items[i].instance_key.as_str(), k.as_str()) {
                            found = Some(i);
                            proof {
                                lemma_item_prefix(old_items, k@, i + 1);
                            }
                        }
                        i = i + 1;
                    }
                    assert(out.items@.len() > 0 ==> item_views(out.items@)[0] == item_view(out.items@[0]));
                    match found {
                        Some(j) => {
                            self.items.set(j, first);
                            assert(item_views(self.items@) =~= old_items.update(j as int, item_view(first)));
                        },
                        None => {
                            assert(old_items.take(old_items.len() as int) =~= old_items);
                            self.items.push(first);
                            assert(item_views(self.items@) =~= old_items.push(item_view(first)));
                        },
                    }
                }
            },
            None => {
                self.items = out.items;
            },
        }
        self.results_version = bump(self.results_version);
        let ghost items = item_views(self.items@);
        let ghost fin = self@;
        assert(items == expected);
        assert(fin == (StateView { loading: false, items: expected, version: next_id(old(self)@.version), ..old(self)@ }));
        let mut i: usize = 0;
        while i < self.items.len()
            invariant
                items == item_views(self.items@),
                fin == self@,
                items == expected,
                expected == merged_items(old(self)@.items, opt_text(out.replace_instance_key), item_views(out.items@)),
                out.request_id == old(self)@.active,
                fin == (StateView { loading: false, items: expected, version: next_id(old(self)@.version), ..old(self)@ }),
                i <= self.items@.len(),
                first_success(items.take(i as int)) is None,
            decreases self.items@.len() - i,
        {
            proof {
                assert(items.take(i + 1).drop_last() =~= items.take(i as int));
                assert(items.take(i + 1).last() == item_view(self.items@[i as int]));
            }
            if !self.items[i].is_error {
                proof {
                    assert(items[i as int] == item_view(self.items@[i as int]));
                    assert(first_success(items.take(i + 1)) == Some(items[i as int]));
                    lemma_success_prefix(items, i + 1);
                    assert(first_success(expected) == Some(items[i as int]));
                }
                let h = HistoryRecord {
                    text: self.text.clone(),
                    result: self.items[i].text.clone(),
                    from: self.from_lang.clone(),
                    to: self.to_lang.clone(),
                    service: self.items[i].service_name.clone(),
                };
                return Some(h);
            }
            i = i + 1;
        }
        assert(items.take(items.len() as int) =~= items);
        None
    }
}

proof fn lemma_item_prefix(items: Seq<ItemView>, key: Seq<char>, j: int)
    requires
        0 <= j <= items.len(),
        item_index(items.take(j), key) is Some,
    ensures
        item_index(items, key) == item_index(items.take(j), key),
    decreases items.len(),
{
    if j < items.len() {
        assert(items.drop_last().take(j) =~= items.take(j));
        lemma_item_prefix(items.drop_last(), key, j);
    } else {
        assert(items.take(j) =~= items);
    }
}

proof fn lemma_success_prefix(items: Seq<ItemView>, j: int)
    requires
        0 <= j <= items.len(),
        first_success(items.take(j)) is Some,
    ensures
        first_success(items) == first_success(items.take(j)),
    decreases items.len(),
{
    if j < items.len() {
        assert(items.drop_last().take(j) =~= items.take(j));
        lemma_success_prefix(items.drop_last(), j);
    } else {
        assert(items.take(j) =~= items);
    }
}

/// Changing the source text or a language, or swapping the languages, starts a new
/// request generation: the answers to the request running before no longer match.
pub proof fn law_changes_start_new_generation(s: StateView, m: TranslateMsg, enabled: Seq<Seq<char>>, dn: bool)
    requires
        match m {
            TranslateMsg::SetSourceText(t) => !s.setting_source && s.text != t@,
            TranslateMsg::Show(t) => s.text != t@,
            TranslateMsg::SetFromLang(l) => s.from != l@,
            TranslateMsg::SetToLang(l) => s.to != l@,
            TranslateMsg::SwapLanguages => true,
            _ => false,
        },
    ensures
        step(s, m, enabled, dn).0.active != s.active,
        step(s, m, enabled, dn).0.items == Seq::<ItemView>::empty(),
        !step(s, m, enabled, dn).0.loading,
{
}

/// Swapping the languages twice gives the languages back.
pub proof fn law_swap_twice(s: StateView, enabled: Seq<Seq<char>>, dn: bool)
    ensures
        step(step(s, TranslateMsg::SwapLanguages, enabled, dn).0, TranslateMsg::SwapLanguages, enabled, dn).0.from
            == s.from,
        step(step(s, TranslateMsg::SwapLanguages, enabled, dn).0, TranslateMsg::SwapLanguages, enabled, dn).0.to
            == s.to,
{
}

// ---------------------------------------------------------------------------
// One service's answer as a result row.
// ---------------------------------------------------------------------------

/// A dictionary entry as text: each explanation as `part: meaning, meaning`, one
/// per line.
pub open spec fn dictionary_text(d: DictionaryView) -> Seq<char> {
    join(d.explanations.map_values(|e: (Seq<char>, Seq<Seq<char>>)| e.0 + ": "@ + join(e.1, ", "@)), "\n"@)
}

/// The row text of an answer and whether it is an error: the text; a dictionary
/// entry as text (`dictionary_label` when that is empty); `error_label: message`.
pub open spec fn result_text(
    r: Result<TranslateResultView, (Seq<char>, Seq<char>)>,
    dictionary_label: Seq<char>,
    error_label: Seq<char>,
) -> (Seq<char>, bool) {
    match r {
        Ok(TranslateResultView::Text(t)) => (t, false),
        Ok(TranslateResultView::Dictionary(d)) => (
            if dictionary_text(d).len() == 0 {
                dictionary_label
            } else {
                dictionary_text(d)
            },
            false,
        ),
        Err((_, m)) => (error_label + ": "@ + m, true),
    }
}

fn explanation_line(e: &crate::services::Explanation) -> (r: String)
    ensures
        r@ == e.trait_name@ + ": "@ + join(e.explains@.map_values(|x: crate::services::Explain| x.text@), ", "@),
{
    let mut texts: Vec<String> = Vec::new();
    let mut i: usize = 0;
    while i < e.explains.len()
        invariant
            i <= e.explains@.len(),
            views(texts@) == e.explains@.take(i as int).map_values(|x: crate::services::Explain| x.text@),
        decreases e.explains@.len() - i,
    {
        let ghost before = views(texts@);
        texts.push(e.explains[i].text.clone());
        proof {
            assert(views(texts@) =~= before.push(e.explains@[i as int].text@));
            assert(e.explains@.take(i + 1).map_values(|x: crate::services::Explain| x.text@) =~= e.explains@.take(
                i as int,
            ).map_values(|x: crate::services::Explain| x.text@).push(e.explains@[i as int].text@));
        }
        i = i + 1;
    }
    assert(e.explains@.take(e.explains@.len() as int) =~= e.explains@);
    let mut r = e.trait_name.clone();
    r.append(": ");
    let j = join_strings(&texts, ", ");
    r.append(j.as_str());
    r
}

fn dictionary_to_text(d: &crate::services::DictionaryResult) -> (r: String)
    ensures
        r@ == dictionary_text(dictionary_view(*d)),
{
    let ghost ev = dictionary_view(*d).explanations;
    let ghost f = |e: (Seq<char>, Seq<Seq<char>>)| e.0 + ": "@ + join(e.1, ", "@);
    let mut lines: Vec<String> = Vec::new();
    let mut i: usize = 0;
    while i < d.explanations.len()
        invariant
            ev == dictionary_view(*d).explanations,
            ev.len() == d.explanations@.len(),
            f == (|e: (Seq<char>, Seq<Seq<char>>)| e.0 + ": "@ + join(e.1, ", "@)),
            i <= d.explanations@.len(),
            views(lines@) == ev.take(i as int).map_values(f),
        decreases d.explanations@.len() - i,
    {
        let line = explanation_line(&d.explanations[i]);
        let ghost before = views(lines@);
        lines.push(line);
        proof {
            assert(ev[i as int] == crate::services::explanation_view(d.explanations@[i as int]));
            assert(views(lines@) =~= before.push(f(ev[i as int])));
            assert(ev.take(i + 1).map_values(f) =~= ev.take(i as int).map_values(f).push(f(ev[i as int])));
        }
        i = i + 1;
    }
    assert(ev.take(d.explanations@.len() as int) =~= ev);
    join_strings(&lines, "\n")
}

/// The row text of a service's answer and whether it is an error.
pub fn translate_result_to_text(
    result: Result<TranslateResult, ServiceError>,
    dictionary_label: &str,
    error_label: &str,
) -> (r: (String, bool))
    ensures
        (r.0@, r.1) == result_text(outcome_view(result), dictionary_label@, error_label@),
{
    match result {
        Ok(TranslateResult::Text(t)) => (t, false),
        Ok(TranslateResult::Dictionary(d)) => {
            let t = dictionary_to_text(&d);
            if t.unicode_len() == 0 {
                (dictionary_label.to_string(), false)
            } else {
                (t, false)
            }
        },
        Err(e) => {
            let mut m = error_label.to_string();
            m.append(": ");
            m.append(e.message.as_str());
            (m, true)
        },
    }
}

/// The name a result row shows for an instance: its stored `instanceName` when
/// that is a non-blank text, else the service's shown name.
pub open spec fn instance_display_name(store: Map<Seq<char>, JsonView>, key: Seq<char>, service: Seq<char>) -> Seq<char> {
    let fallback = crate::service_config::shown_service_name(service);
    match map_get(store, key) {
        Some(v) => match opt_str(view_field(v, "instanceName"@)) {
            Some(n) => if trim(n).len() > 0 {
                n
            } else {
                fallback
            },
            None => fallback,
        },
        None => fallback,
    }
}

pub fn display_name_for_instance(store: &ConfigStore, key: &str, service_name: &str) -> (r: String)
    ensures
        r@ == instance_display_name(store@, key@, service_name@),
{
    match store.get(key) {
        Some(v) => match v.get("instanceName") {
            Some(n) => match n.as_str() {
                Some(s) => {
                    let t = trim_str(s);
                    if t.unicode_len() > 0 {
                        return s.to_string();
                    }
                },
                None => {},
            },
            None => {},
        },
        None => {},
    }
    crate::service_config::service_display_name(service_name)
}

/// What one instance is asked: its key, service, shown name and the request.
pub struct TranslationJob {
    pub instance_key: String,
    pub service_name: String,
    pub display_name: String,
    pub request: TranslateRequest,
}

/// The settings an instance is asked with: its stored settings, else its
/// service's defaults, else null.
pub open spec fn job_settings(store: Map<Seq<char>, JsonView>, reg: TranslateRegistry, key: Seq<char>) -> JsonView {
    match map_get(store, key) {
        Some(v) => v,
        None => match lookup(reg.entries(), instance_name(key)) {
            Some(s) => s.defaults(),
            None => JsonView::Null,
        },
    }
}

/// The job for one instance of the request.
pub fn translation_job(
    store: &ConfigStore,
    reg: &TranslateRegistry,
    key: &str,
    text: &str,
    from: &str,
    to: &str,
) -> (r: TranslationJob)
    ensures
        r.instance_key@ == key@,
        r.service_name@ == instance_name(key@),
        r.display_name@ == instance_display_name(store@, key@, instance_name(key@)),
        r.request.text@ == text@,
        r.request.from@ == from@,
        r.request.to@ == to@,
        r.request.config@ == job_settings(store@, *reg, key@),
{
    let service_name = instance_service_name(key);
    let display_name = display_name_for_instance(store, key, service_name.as_str());
    let config = match store.get(key) {
        Some(v) => v,
        None => match reg.get(service_name.as_str()) {
            Some(s) => s.default_config(),
            None => Json::Null,
        },
    };
    TranslationJob {
        instance_key: key.to_string(),
        service_name,
        display_name,
        request: TranslateRequest { text: text.to_string(), from: from.to_string(), to: to.to_string(), config },
    }
}

/// The result row of a job from the service's answer.
pub fn translation_item(
    job: TranslationJob,
    result: Result<TranslateResult, ServiceError>,
    dictionary_label: &str,
    error_label: &str,
) -> (r: TranslationItem)
    ensures
        r.instance_key@ == job.instance_key@,
        r.service_name@ == job.service_name@,
        r.display_name@ == job.display_name@,
        (r.text@, r.is_error) == result_text(outcome_view(result), dictionary_label@, error_label@),
{
    let (text, is_error) = translate_result_to_text(result, dictionary_label, error_label);
    TranslationItem {
        instance_key: job.instance_key,
        service_name: job.service_name,
        display_name: job.display_name,
        text,
        is_error,
    }
}

// ---------------------------------------------------------------------------
// Speaking and collecting a result.
// ---------------------------------------------------------------------------

/// The first service of a stored list (when it is a list of texts with one), else
/// `default`.
pub open spec fn first_listed(store: Map<Seq<char>, JsonView>, list_key: Seq<char>, default: Seq<char>) -> Seq<char> {
    match map_get(store, list_key) {
        Some(v) => match crate::config::as_string_list(v) {
            Some(l) => if l.len() > 0 {
                l[0]
            } else {
                default
            },
            None => default,
        },
        None => default,
    }
}

fn first_listed_service(store: &ConfigStore, list_key: &str, default: &str) -> (r: String)
    ensures
        r@ == first_listed(store@, list_key@, default@),
{
    match store.get(list_key) {
        Some(v) => match crate::config::string_list(&v) {
            Some(l) => {
                if l.len() > 0 {
                    l[0].clone()
                } else {
                    default.to_string()
                }
            },
            None => default.to_string(),
        },
        None => default.to_string(),
    }
}

/// The speech service a result is read with (the first of the stored speech list,
/// else `lingva_tts`), and the request: the text in the target language, with the
/// service's stored settings, else its defaults, else null.
pub fn speech_job(
    store: &ConfigStore,
    reg: &crate::tts::TtsRegistry,
    text: &str,
    lang: &str,
) -> (r: (String, crate::tts::TtsRequest))
    ensures
        r.0@ == first_listed(store@, "tts_service_list"@, "lingva_tts"@),
        r.1.text@ == text@,
        r.1.language@ == lang@,
        r.1.config@ == match map_get(store@, r.0@) {
            Some(v) => v,
            None => match lookup(reg.entries(), r.0@) {
                Some(s) => s.defaults(),
                None => JsonView::Null,
            },
        },
{
    let name = first_listed_service(store, "tts_service_list", "lingva_tts");
    let config = match store.get(name.as_str()) {
        Some(v) => v,
        None => match reg.get(name.as_str()) {
            Some(s) => s.default_config(),
            None => Json::Null,
        },
    };
    let req = crate::tts::TtsRequest { text: text.to_string(), language: lang.to_string(), config };
    (name, req)
}

/// The collection service a result is kept with (the first of the stored
/// collection list, else `anki`), and the request: the source and result texts,
/// no languages, with the service's stored settings, else its defaults, else null.
pub fn collection_job(
    store: &ConfigStore,
    reg: &crate::collection::CollectionRegistry,
    source: &str,
    result: &str,
) -> (r: (String, crate::collection::CollectionRequest))
    ensures
        r.0@ == first_listed(store@, "collection_service_list"@, "anki"@),
        r.1.source_text@ == source@,
        r.1.result_text@ == result@,
        r.1.source_lang@ == Seq::<char>::empty(),
        r.1.result_lang@ == Seq::<char>::empty(),
        r.1.config@ == match map_get(store@, r.0@) {
            Some(v) => v,
            None => match lookup(reg.entries(), r.0@) {
                Some(s) => s.defaults(),
                None => JsonView::Null,
            },
        },
{
    let name = first_listed_service(store, "collection_service_list", "anki");
    let config = match store.get(name.as_str()) {
        Some(v) => v,
        None => match reg.get(name.as_str()) {
            Some(s) => s.default_config(),
            None => Json::Null,
        },
    };
    let req = crate::collection::CollectionRequest {
        source_text: source.to_string(),
        result_text: result.to_string(),
        source_lang: String::new(),
        result_lang: String::new(),
        config,
    };
    (name, req)
}

} // verus!
