//! The configuration store and the rules on service lists and secret fields.
//!
//! The store is the JSON object of the configuration file held in memory; reading
//! and writing the file is the application's part.

use vstd::prelude::*;
use crate::json::{
    Json, JsonView, entries_find, entries_set, entries_delete, entries_insert, entries_remove,
    json_entries_view, lemma_entries_view, lemma_first_index_is, lemma_lookup_insert,
    lemma_lookup_remove, lookup, json_seq_view, json_view, lemma_seq_view, view_str,
};
use crate::text::{
    digits, split_char, split_on, lemma_split_char_len, string_from_chars, str_eq, u64_to_base,
    views, has_prefix, has_char, starts_with, has_suffix, ends_with, trim, trim_str,
};

verus! {

/// The configuration directory name, shared with the Tauri version of the program.
pub const APP_ID: &'static str = "com.pot-app.desktop";

/// A category of services, each with its own ordered list of instances.
#[derive(Debug, Clone, Copy, PartialEq, Eq, Structural)]
pub enum ServiceCategory {
    Translate,
    Recognize,
    Tts,
    Collection,
}

pub open spec fn list_key_of(c: ServiceCategory) -> Seq<char> {
    match c {
        ServiceCategory::Translate => "translate_service_list"@,
        ServiceCategory::Recognize => "recognize_service_list"@,
        ServiceCategory::Tts => "tts_service_list"@,
        ServiceCategory::Collection => "collection_service_list"@,
    }
}

impl ServiceCategory {
    /// The configuration key under which this category's instance list is stored.
    pub fn list_key(&self) -> (r: &'static str)
        ensures
            r@ == list_key_of(*self),
    {
        match self {
            ServiceCategory::Translate => "translate_service_list",
            ServiceCategory::Recognize => "recognize_service_list",
            ServiceCategory::Tts => "tts_service_list",
            ServiceCategory::Collection => "collection_service_list",
        }
    }
}

// ---------------------------------------------------------------------------
// Instance keys.
// ---------------------------------------------------------------------------

/// The service name of an instance key `name@id`: the part before the first `@`
/// (the whole key when there is none).
pub open spec fn instance_name(key: Seq<char>) -> Seq<char> {
    split_char(key, '@')[0]
}

pub fn instance_service_name(key: &str) -> (r: String)
    ensures
        r@ == instance_name(key@),
{
    let parts = split_on(key, '@');
    proof {
        lemma_split_char_len(key@, '@');
    }
    string_from_chars(parts[0].as_slice())
}

/// The services whose instances the translation list always shows.
pub open spec fn default_translate_services() -> Seq<Seq<char>> {
    seq!["google"@, "bing"@]
}

/// Whether some instance in `list` belongs to the service `name`.
pub open spec fn has_instance_of(list: Seq<Seq<char>>, name: Seq<char>) -> bool {
    exists|i: int| 0 <= i < list.len() && instance_name(#[trigger] list[i]) == name
}

/// `list` followed by each default translation service that has no instance in it.
pub open spec fn with_defaults(list: Seq<Seq<char>>) -> Seq<Seq<char>> {
    let l1 = if has_instance_of(list, "google"@) {
        list
    } else {
        list.push("google"@)
    };
    if has_instance_of(l1, "bing"@) {
        l1
    } else {
        l1.push("bing"@)
    }
}

fn list_has_instance_of(list: &Vec<String>, name: &str) -> (r: bool)
    ensures
        r == has_instance_of(views(list@), name@),
{
    let mut i: usize = 0;
    while i < list.len()
        invariant
            i <= list@.len(),
            forall|j: int| 0 <= j < i ==> instance_name(#[trigger] views(list@)[j]) != name@,
        decreases list@.len() - i,
    {
        let n = instance_service_name(list[i].as_str());
        if str_eq(n.as_str(), name) {
            assert(instance_name(views(list@)[i as int]) == name@);
            return true;
        }
        i = i + 1;
    }
    false
}

/// Appends the default translation services that `list` has no instance of.
pub fn append_missing_default_translate_services(list: &mut Vec<String>)
    ensures
        views(final(list)@) == with_defaults(views(old(list)@)),
{
    let ghost l0 = views(list@);
    if !list_has_instance_of(list, "google") {
        list.push("google".to_string());
        assert(views(list@) =~= l0.push("google"@));
    }
    let ghost l1 = views(list@);
    if !list_has_instance_of(list, "bing") {
        list.push("bing".to_string());
        assert(views(list@) =~= l1.push("bing"@));
    }
}

/// The service list that a category's settings and windows work with: the stored list,
/// and for translation the default services appended when no instance of them is listed.
pub open spec fn effective_list(c: ServiceCategory, stored: Seq<Seq<char>>) -> Seq<Seq<char>> {
    if c == ServiceCategory::Translate {
        with_defaults(stored)
    } else {
        stored
    }
}

/// A new instance key `name@id`, where `id` is the hexadecimal form of `nanos` modulo
/// `0xFFFF_FFFF` (at most eight digits, all of which are kept).
pub open spec fn instance_key_for(name: Seq<char>, nanos: u128) -> Seq<char> {
    name + "@"@ + digits((nanos % 0xFFFF_FFFF) as nat, 16)
}

pub fn instance_key_from_nanos(name: &str, nanos: u128) -> (r: String)
    ensures
        r@ == instance_key_for(name@, nanos),
{
    let id = (nanos % 0xFFFF_FFFF) as u64;
    let hex = u64_to_base(id, 16);
    let mut r = name.to_string();
    r.append("@");
    r.append(hex.as_str());
    r
}

/// A fresh instance key for `service_name`, taken from the clock.
pub fn generate_instance_key(service_name: &str) -> (r: String)
    ensures
        exists|t: u128| r@ == instance_key_for(service_name@, t),
{
    let t = crate::util::unix_time_nanos();
    instance_key_from_nanos(service_name, t)
}

/// `n` zeros.
pub open spec fn zeros(n: nat) -> Seq<char> {
    Seq::new(n, |i: int| '0')
}

/// A fresh instance key for `service_name` that is none of `taken`: the clock's
/// key, with as many zeros appended as it takes to differ from every taken key.
pub fn unused_instance_key(service_name: &str, taken: &Vec<String>) -> (r: String)
    ensures
        !views(taken@).contains(r@),
        exists|t: u128, z: nat| r@ == instance_key_for(service_name@, t) + zeros(z),
{
    let mut key = generate_instance_key(service_name);
    let ghost t0 = choose|t: u128| key@ == instance_key_for(service_name@, t);
    let mut m: usize = 0;
    let mut i: usize = 0;
    while i < taken.len()
        invariant
            i <= taken@.len(),
            forall|j: int| 0 <= j < i ==> taken@[j]@.len() <= m,
        decreases taken@.len() - i,
    {
        let n = taken[i].as_str().unicode_len();
        if n > m {
            m = n;
        }
        i = i + 1;
    }
    let ghost mut z: nat = 0;
    assert(key@ =~= instance_key_for(service_name@, t0) + zeros(0));
    while list_contains(taken, key.as_str())
        invariant
            forall|j: int| 0 <= j < taken@.len() ==> taken@[j]@.len() <= m,
            key@ == instance_key_for(service_name@, t0) + zeros(z),
        decreases m + 1 - key@.len(),
    {
        proof {
            let j = choose|j: int| 0 <= j < views(taken@).len() && views(taken@)[j] == key@;
            assert(taken@[j]@ == key@);
        }
        let ghost before = key@;
        crate::text::push_char(&mut key, '0');
        proof {
            assert(zeros(z + 1) =~= zeros(z).push('0'));
            z = z + 1;
        }
    }
    key
}

} // verus!

verus! {

// ---------------------------------------------------------------------------
// The configuration store.
// ---------------------------------------------------------------------------

/// The key-value content of the configuration file.
pub struct ConfigStore {
    data: Vec<(String, Json)>,
}

/// The map that a sequence of entries stands for: each key to the value of its first entry.
pub open spec fn entries_map(es: Seq<(Seq<char>, JsonView)>) -> Map<Seq<char>, JsonView> {
    Map::new(|k: Seq<char>| lookup(es, k) is Some, |k: Seq<char>| lookup(es, k)->0)
}

impl View for ConfigStore {
    type V = Map<Seq<char>, JsonView>;

    closed spec fn view(&self) -> Map<Seq<char>, JsonView> {
        entries_map(json_entries_view(self.data@))
    }
}

/// A store value read by key: `Some` exactly when the key is present.
pub open spec fn map_get(m: Map<Seq<char>, JsonView>, k: Seq<char>) -> Option<JsonView> {
    if m.contains_key(k) {
        Some(m[k])
    } else {
        None
    }
}

proof fn lemma_map_insert(es: Seq<(Seq<char>, JsonView)>, k: Seq<char>, v: JsonView)
    ensures
        entries_map(entries_insert(es, k, v)) == entries_map(es).insert(k, v),
{
    assert forall|k2: Seq<char>| #[trigger] lookup(entries_insert(es, k, v), k2) == (if k2 == k {
        Some(v)
    } else {
        lookup(es, k2)
    }) by {
        lemma_lookup_insert(es, k, v, k2);
    }
    assert(entries_map(entries_insert(es, k, v)) =~= entries_map(es).insert(k, v));
}

proof fn lemma_map_remove(es: Seq<(Seq<char>, JsonView)>, k: Seq<char>)
    ensures
        entries_map(entries_remove(es, k)) == entries_map(es).remove(k),
{
    assert forall|k2: Seq<char>| #[trigger] lookup(entries_remove(es, k), k2) == (if k2 == k {
        None
    } else {
        lookup(es, k2)
    }) by {
        lemma_lookup_remove(es, k, k2);
    }
    assert(entries_map(entries_remove(es, k)) =~= entries_map(es).remove(k));
}

impl ConfigStore {
    /// An empty store.
    pub fn new() -> (r: Self)
        ensures
            r@ == Map::<Seq<char>, JsonView>::empty(),
    {
        let r = ConfigStore { data: Vec::new() };
        assert(r@ =~= Map::<Seq<char>, JsonView>::empty());
        r
    }

    /// A store holding `entries`, as read from the configuration file.
    pub fn from_entries(entries: Vec<(String, Json)>) -> (r: Self)
        ensures
            r@ == entries_map(json_entries_view(entries@)),
    {
        ConfigStore { data: entries }
    }

    /// The entries, in the order kept, to be written to the configuration file.
    pub fn entries(&self) -> (r: &Vec<(String, Json)>)
        ensures
            entries_map(json_entries_view(r@)) == self@,
    {
        &self.data
    }

    /// A copy of the value stored under `key`.
    pub fn get(&self, key: &str) -> (r: Option<Json>)
        ensures
            match r {
                Some(v) => self@.contains_key(key@) && v@ == self@[key@],
                None => !self@.contains_key(key@),
            },
    {
        proof {
            lemma_entries_view(self.data@);
        }
        match entries_find(&self.data, key) {
            Some(i) => Some(self.data[i].1.deep_clone()),
            None => None,
        }
    }

    /// Stores `value` under `key`, replacing what was there.
    pub fn set(&mut self, key: &str, value: Json)
        ensures
            final(self)@ == old(self)@.insert(key@, value@),
    {
        let ghost ev = json_entries_view(self.data@);
        let ghost vv = value@;
        entries_set(&mut self.data, key.to_string(), value);
        proof {
            lemma_map_insert(ev, key@, vv);
        }
    }

    /// Removes `key` and its value.
    pub fn remove(&mut self, key: &str)
        ensures
            final(self)@ == old(self)@.remove(key@),
    {
        let ghost ev = json_entries_view(self.data@);
        entries_delete(&mut self.data, key);
        proof {
            lemma_map_remove(ev, key@);
        }
    }

    /// Whether nothing is stored (a first run).
    pub fn is_empty(&self) -> (r: bool)
        ensures
            r == (self@.dom() == Set::<Seq<char>>::empty()),
    {
        proof {
            lemma_entries_view(self.data@);
            let ev = json_entries_view(self.data@);
            if ev.len() > 0 {
                lemma_first_index_is(ev, ev[0].0, 0);
                assert(self@.dom().contains(ev[0].0));
            } else {
                assert(self@.dom() =~= Set::<Seq<char>>::empty());
            }
        }
        self.data.len() == 0
    }
}

} // verus!

verus! {

// ---------------------------------------------------------------------------
// Service lists.
// ---------------------------------------------------------------------------

/// The strings of an array whose elements are all strings (what decoding a JSON value
/// as a list of strings accepts).
pub open spec fn as_string_list(j: JsonView) -> Option<Seq<Seq<char>>> {
    match j {
        JsonView::Array(a) => if forall|i: int| 0 <= i < a.len() ==> (#[trigger] a[i]) is Str {
            Some(a.map_values(|x: JsonView| view_str(x)->0))
        } else {
            None
        },
        _ => None,
    }
}

/// A list of strings as a JSON array.
pub open spec fn string_array(l: Seq<Seq<char>>) -> JsonView {
    JsonView::Array(l.map_values(|s: Seq<char>| JsonView::Str(s)))
}

/// The list of strings held by `j`, when it is an array of strings.
pub fn string_list(j: &Json) -> (r: Option<Vec<String>>)
    ensures
        match r {
            Some(v) => as_string_list(j@) == Some(views(v@)),
            None => as_string_list(j@) is None,
        },
{
    match j {
        Json::Array(a) => {
            proof {
                lemma_seq_view(a@);
            }
            let ghost av = json_seq_view(a@);
            assert(j@ == JsonView::Array(av));
            let mut out: Vec<String> = Vec::new();
            let mut i: usize = 0;
            while i < a.len()
                invariant
                    j@ == JsonView::Array(av),
                    av == json_seq_view(a@),
                    av.len() == a@.len(),
                    forall|k: int| 0 <= k < a@.len() ==> #[trigger] av[k] == json_view(a@[k]),
                    i <= a@.len(),
                    out@.len() == i,
                    forall|k: int| 0 <= k < i ==> (#[trigger] av[k]) is Str,
                    forall|k: int| 0 <= k < i ==> #[trigger] out@[k]@ == view_str(av[k])->0,
                decreases a@.len() - i,
            {
                match &a[i] {
                    Json::Str(s) => {
                        out.push(s.clone());
                    },
                    _ => {
                        assert(av[i as int] == json_view(a@[i as int]));
                        assert(!(av[i as int] is Str));
                        assert(j@ == JsonView::Array(av));
                        return None;
                    },
                }
                i = i + 1;
            }
            assert(views(out@) =~= av.map_values(|x: JsonView| view_str(x)->0));
            Some(out)
        },
        _ => None,
    }
}

/// A list of strings as a JSON array value.
pub fn string_array_json(list: &Vec<String>) -> (r: Json)
    ensures
        r@ == string_array(views(list@)),
{
    let mut out: Vec<Json> = Vec::new();
    let mut i: usize = 0;
    while i < list.len()
        invariant
            i <= list@.len(),
            json_seq_view(out@) == views(list@.take(i as int)).map_values(
                |s: Seq<char>| JsonView::Str(s),
            ),
        decreases list@.len() - i,
    {
        let x = Json::Str(list[i].clone());
        let ghost old_out = out@;
        proof {
            assert(old_out.push(x).drop_last() =~= old_out);
            assert(json_view(x) == JsonView::Str(list@[i as int]@));
            assert(json_seq_view(old_out.push(x)) == json_seq_view(old_out).push(json_view(x)));
            assert(views(list@.take(i + 1)).map_values(|s: Seq<char>| JsonView::Str(s))
                =~= views(list@.take(i as int)).map_values(|s: Seq<char>| JsonView::Str(s)).push(
                JsonView::Str(list@[i as int]@),
            ));
        }
        out.push(x);
        assert(out@ == old_out.push(x));
        i = i + 1;
    }
    assert(list@.take(list@.len() as int) =~= list@);
    Json::Array(out)
}

/// The list stored for category `c`: empty when absent or not a list of strings.
pub open spec fn stored_list(store: Map<Seq<char>, JsonView>, c: ServiceCategory) -> Seq<Seq<char>> {
    match map_get(store, list_key_of(c)) {
        Some(v) => match as_string_list(v) {
            Some(l) => l,
            None => Seq::empty(),
        },
        None => Seq::empty(),
    }
}

/// What is stored under a key is what reading the key gives back, and every other
/// key keeps its value.
pub proof fn law_set_then_get(store: Map<Seq<char>, JsonView>, k: Seq<char>, v: JsonView, k2: Seq<char>)
    ensures
        map_get(store.insert(k, v), k) == Some(v),
        k2 != k ==> map_get(store.insert(k, v), k2) == map_get(store, k2),
{
}

/// A removed key reads as absent, and every other key keeps its value.
pub proof fn law_remove_then_get(store: Map<Seq<char>, JsonView>, k: Seq<char>, k2: Seq<char>)
    ensures
        map_get(store.remove(k), k) is None,
        k2 != k ==> map_get(store.remove(k), k2) == map_get(store, k2),
{
}

/// A list of strings stored as a JSON array reads back as the same list.
pub proof fn lemma_string_array_list(l: Seq<Seq<char>>)
    ensures
        as_string_list(string_array(l)) == Some(l),
{
    let a = l.map_values(|s: Seq<char>| JsonView::Str(s));
    assert(forall|i: int| 0 <= i < a.len() ==> (#[trigger] a[i]) is Str);
    assert(a.map_values(|x: JsonView| view_str(x)->0) =~= l);
}

/// A category's service list reads back as it was stored.
pub proof fn law_service_list_roundtrip(store: Map<Seq<char>, JsonView>, c: ServiceCategory, l: Seq<Seq<char>>)
    ensures
        stored_list(store.insert(list_key_of(c), string_array(l)), c) == l,
{
    lemma_string_array_list(l);
}

/// The built-in services of each category.
pub open spec fn builtin_services(c: ServiceCategory) -> Seq<Seq<char>> {
    match c {
        ServiceCategory::Translate => seq![
            "openai"@,
            "baidu"@,
            "bing"@,
            "deepl"@,
            "google"@,
            "lingva"@,
            "youdao"@,
        ],
        ServiceCategory::Recognize => seq!["tesseract"@],
        ServiceCategory::Tts => seq!["lingva_tts"@],
        ServiceCategory::Collection => seq!["anki"@],
    }
}

pub fn builtin_service_names(c: ServiceCategory) -> (r: Vec<String>)
    ensures
        views(r@) == builtin_services(c),
{
    let r = match c {
        ServiceCategory::Translate => vec![
            "openai".to_string(),
            "baidu".to_string(),
            "bing".to_string(),
            "deepl".to_string(),
            "google".to_string(),
            "lingva".to_string(),
            "youdao".to_string(),
        ],
        ServiceCategory::Recognize => vec!["tesseract".to_string()],
        ServiceCategory::Tts => vec!["lingva_tts".to_string()],
        ServiceCategory::Collection => vec!["anki".to_string()],
    };
    assert(views(r@) =~= builtin_services(c));
    r
}

/// Whether `s` is one of the strings of `list`.
pub fn list_contains(list: &Vec<String>, s: &str) -> (r: bool)
    ensures
        r == views(list@).contains(s@),
{
    let mut i: usize = 0;
    while i < list.len()
        invariant
            i <= list@.len(),
            forall|j: int| 0 <= j < i ==> views(list@)[j] != s@,
        decreases list@.len() - i,
    {
        if str_eq(list[i].as_str(), s) {
            assert(views(list@)[i as int] == s@);
            return true;
        }
        i = i + 1;
    }
    false
}

/// Whether an instance entry of the list may stay: a key with `@` needs its own
/// configuration object in the store, and the service must be built in or, for a
/// name starting with `plugin`, installed as a plugin.
pub open spec fn service_available(
    store: Map<Seq<char>, JsonView>,
    svc: Seq<char>,
    builtin: Seq<Seq<char>>,
    plugins: Seq<Seq<char>>,
) -> bool {
    let name = instance_name(svc);
    let config_exists = !svc.contains('@') || (match map_get(store, svc) {
        Some(v) => v is Object,
        None => false,
    });
    config_exists && if has_prefix(name, "plugin"@) {
        plugins.contains(name)
    } else {
        builtin.contains(name)
    }
}

/// The entries of `list` that may stay, in their order.
pub open spec fn pruned(
    store: Map<Seq<char>, JsonView>,
    list: Seq<Seq<char>>,
    builtin: Seq<Seq<char>>,
    plugins: Seq<Seq<char>>,
) -> Seq<Seq<char>> {
    list.filter(|s: Seq<char>| service_available(store, s, builtin, plugins))
}

/// The installed plugins of each category, as found in the plugin directories.
pub struct PluginLists {
    pub translate: Vec<String>,
    pub recognize: Vec<String>,
    pub tts: Vec<String>,
    pub collection: Vec<String>,
}

pub open spec fn plugins_of(p: PluginLists, c: ServiceCategory) -> Seq<Seq<char>> {
    match c {
        ServiceCategory::Translate => views(p.translate@),
        ServiceCategory::Recognize => views(p.recognize@),
        ServiceCategory::Tts => views(p.tts@),
        ServiceCategory::Collection => views(p.collection@),
    }
}

/// One step of the availability check: the store after pruning category `c`'s list,
/// or `None` when that list is not a list of strings.
pub open spec fn prune_step(
    store: Map<Seq<char>, JsonView>,
    c: ServiceCategory,
    plugins: Seq<Seq<char>>,
) -> Option<Map<Seq<char>, JsonView>> {
    match map_get(store, list_key_of(c)) {
        None => Some(store),
        Some(v) => match as_string_list(v) {
            None => None,
            Some(l) => {
                let p = pruned(store, l, builtin_services(c), plugins);
                if p.len() != l.len() {
                    Some(store.insert(list_key_of(c), string_array(p)))
                } else {
                    Some(store)
                }
            },
        },
    }
}

impl ConfigStore {
    /// The list stored for category `c` (empty when absent or not a list of strings).
    pub fn get_service_list(&self, c: ServiceCategory) -> (r: Vec<String>)
        ensures
            views(r@) == stored_list(self@, c),
    {
        match self.get(c.list_key()) {
            Some(v) => match string_list(&v) {
                Some(l) => l,
                None => {
                    let e: Vec<String> = Vec::new();
                    assert(views(e@) =~= Seq::<Seq<char>>::empty());
                    e
                },
            },
            None => {
                let e: Vec<String> = Vec::new();
                assert(views(e@) =~= Seq::<Seq<char>>::empty());
                e
            },
        }
    }

    /// The list that category `c`'s settings page and windows show.
    pub fn effective_service_list(&self, c: ServiceCategory) -> (r: Vec<String>)
        ensures
            views(r@) == effective_list(c, stored_list(self@, c)),
    {
        let mut list = self.get_service_list(c);
        if c == ServiceCategory::Translate {
            append_missing_default_translate_services(&mut list);
        }
        list
    }

    /// Stores `list` as category `c`'s list.
    pub fn set_service_list(&mut self, c: ServiceCategory, list: &Vec<String>)
        ensures
            final(self)@ == old(self)@.insert(list_key_of(c), string_array(views(list@))),
    {
        let j = string_array_json(list);
        self.set(c.list_key(), j);
    }

    /// Whether `instance_key` has a configuration object of its own.
    pub fn has_service_instance_config(&self, instance_key: &str) -> (r: bool)
        ensures
            r == (match map_get(self@, instance_key@) {
                Some(v) => v is Object,
                None => false,
            }),
    {
        match self.get(instance_key) {
            Some(v) => v.is_object(),
            None => false,
        }
    }

    /// The entries of `list` that may stay (see [`service_available`]).
    pub fn prune_list(&self, list: &Vec<String>, builtin: &Vec<String>, plugins: &Vec<String>) -> (r:
        Vec<String>)
        ensures
            views(r@) == pruned(self@, views(list@), views(builtin@), views(plugins@)),
    {
        let ghost pred = |s: Seq<char>| service_available(self@, s, views(builtin@), views(plugins@));
        let mut out: Vec<String> = Vec::new();
        let mut i: usize = 0;
        while i < list.len()
            invariant
                i <= list@.len(),
                pred == (|s: Seq<char>| service_available(self@, s, views(builtin@), views(plugins@))),
                views(out@) == views(list@).take(i as int).filter(pred),
            decreases list@.len() - i,
        {
            let svc = list[i].as_str();
            let name = instance_service_name(svc);
            let config_exists = !has_char(svc, '@') || self.has_service_instance_config(svc);
            let keep = config_exists && if starts_with(name.as_str(), "plugin") {
                list_contains(plugins, name.as_str())
            } else {
                list_contains(builtin, name.as_str())
            };
            proof {
                reveal_with_fuel(Seq::<_>::filter, 1);
                assert(views(list@).take(i + 1).drop_last() =~= views(list@).take(i as int));
                assert(keep == pred(svc@));
            }
            if keep {
                out.push(list[i].clone());
                assert(views(out@) =~= views(list@).take(i as int).filter(pred).push(svc@));
            }
            i = i + 1;
        }
        assert(views(list@).take(list@.len() as int) =~= views(list@));
        out
    }

    /// One step of [`check_service_available`]: prunes category `c`'s list.
    fn prune_category(&mut self, c: ServiceCategory, plugins: &Vec<String>) -> (r: Result<(), crate::error::AppError>)
        ensures
            match prune_step(old(self)@, c, views(plugins@)) {
                Some(m) => r is Ok && final(self)@ == m,
                None => r is Err && final(self)@ == old(self)@,
            },
    {
        match self.get(c.list_key()) {
            None => Ok(()),
            Some(v) => match string_list(&v) {
                None => Err(crate::error::AppError::Serde("invalid type: expected a sequence of strings".to_string())),
                Some(l) => {
                    let builtin = builtin_service_names(c);
                    let p = self.prune_list(&l, &builtin, plugins);
                    if p.len() != l.len() {
                        self.set_service_list(c, &p);
                    }
                    Ok(())
                },
            },
        }
    }

    /// Removes from each category's list the instances whose service is no longer
    /// available; stops with an error at the first list that is not a list of strings.
    pub fn check_service_available(&mut self, plugins: &PluginLists) -> (r: Result<(), crate::error::AppError>)
        ensures
            ({
                let s0 = old(self)@;
                match prune_step(s0, ServiceCategory::Translate, plugins_of(*plugins, ServiceCategory::Translate)) {
                    None => r is Err && final(self)@ == s0,
                    Some(s1) => match prune_step(s1, ServiceCategory::Recognize, plugins_of(*plugins, ServiceCategory::Recognize)) {
                        None => r is Err && final(self)@ == s1,
                        Some(s2) => match prune_step(s2, ServiceCategory::Tts, plugins_of(*plugins, ServiceCategory::Tts)) {
                            None => r is Err && final(self)@ == s2,
                            Some(s3) => match prune_step(s3, ServiceCategory::Collection, plugins_of(*plugins, ServiceCategory::Collection)) {
                                None => r is Err && final(self)@ == s3,
                                Some(s4) => r is Ok && final(self)@ == s4,
                            },
                        },
                    },
                }
            }),
    {
        self.prune_category(ServiceCategory::Translate, &plugins.translate)?;
        self.prune_category(ServiceCategory::Recognize, &plugins.recognize)?;
        self.prune_category(ServiceCategory::Tts, &plugins.tts)?;
        self.prune_category(ServiceCategory::Collection, &plugins.collection)?;
        Ok(())
    }
}

} // verus!

verus! {

// ---------------------------------------------------------------------------
// Secret fields: kept out of the configuration file.
// ---------------------------------------------------------------------------

/// The field names whose values are secrets.
pub open spec fn secret_fields() -> Seq<Seq<char>> {
    seq!["api_key"@, "auth_key"@, "secret"@, "key"@, "appkey"@, "password"@, "token"@]
}

/// A field is secret when it is one of [`secret_fields`] or ends with `_token`.
pub open spec fn is_secret(field: Seq<char>) -> bool {
    secret_fields().contains(field) || has_suffix(field, "_token"@)
}

pub fn secret_field_names() -> (r: Vec<String>)
    ensures
        views(r@) == secret_fields(),
{
    let r = vec![
        "api_key".to_string(),
        "auth_key".to_string(),
        "secret".to_string(),
        "key".to_string(),
        "appkey".to_string(),
        "password".to_string(),
        "token".to_string(),
    ];
    assert(views(r@) =~= secret_fields());
    r
}

pub fn is_secret_field(field: &str) -> (r: bool)
    ensures
        r == is_secret(field@),
{
    let names = secret_field_names();
    list_contains(&names, field) || ends_with(field, "_token")
}

/// The identifier under which a secret is kept: `config_key::field`.
pub open spec fn secret_id(config_key: Seq<char>, field: Seq<char>) -> Seq<char> {
    config_key + "::"@ + field
}

pub fn secret_entry_id(config_key: &str, field: &str) -> (r: String)
    ensures
        r@ == secret_id(config_key@, field@),
{
    let mut r = config_key.to_string();
    r.append("::");
    r.append(field);
    r
}

/// What to do with the secret store for one field.
pub enum SecretOp {
    /// Keep `secret` for `field`.
    Store(String, String),
    /// Forget the secret of `field`.
    Delete(String),
}

pub enum SecretOpView {
    Store(Seq<char>, Seq<char>),
    Delete(Seq<char>),
}

impl View for SecretOp {
    type V = SecretOpView;

    open spec fn view(&self) -> SecretOpView {
        match self {
            SecretOp::Store(f, s) => SecretOpView::Store(f@, s@),
            SecretOp::Delete(f) => SecretOpView::Delete(f@),
        }
    }
}

/// The secret operation for one object entry with a secret field: keep the trimmed
/// text when it is a non-empty string, else forget it.
pub open spec fn secret_op_for(field: Seq<char>, v: JsonView) -> SecretOpView {
    match v {
        JsonView::Str(s) => if trim(s).len() > 0 {
            SecretOpView::Store(field, trim(s))
        } else {
            SecretOpView::Delete(field)
        },
        _ => SecretOpView::Delete(field),
    }
}

/// The secret operations for the secret fields of an object, in entry order.
pub open spec fn secret_ops(es: Seq<(Seq<char>, JsonView)>) -> Seq<SecretOpView>
    decreases es.len(),
{
    if es.len() == 0 {
        Seq::empty()
    } else if is_secret(es.last().0) {
        secret_ops(es.drop_last()).push(secret_op_for(es.last().0, es.last().1))
    } else {
        secret_ops(es.drop_last())
    }
}

/// The entries of an object without its secret fields.
pub open spec fn public_entries(es: Seq<(Seq<char>, JsonView)>) -> Seq<(Seq<char>, JsonView)> {
    es.filter(|e: (Seq<char>, JsonView)| !is_secret(e.0))
}

/// The field under which a stored object lists the secret fields, other than
/// [`secret_fields`], whose texts went to the secret store.
pub open spec fn marker_field() -> Seq<char> {
    "__secret_fields"@
}

/// The secret fields of an object, in entry order, that are not among
/// [`secret_fields`] and whose texts go to the secret store.
pub open spec fn recorded_names(es: Seq<(Seq<char>, JsonView)>) -> Seq<Seq<char>>
    decreases es.len(),
{
    if es.len() == 0 {
        Seq::empty()
    } else {
        let r = recorded_names(es.drop_last());
        let e = es.last();
        if is_secret(e.0) && !secret_fields().contains(e.0) && secret_op_for(e.0, e.1) is Store {
            r.push(e.0)
        } else {
            r
        }
    }
}

/// A list of names as a JSON array of strings.
pub open spec fn names_json(names: Seq<Seq<char>>) -> JsonView {
    JsonView::Array(names.map_values(|n: Seq<char>| JsonView::Str(n)))
}

/// Whether a field name is [`marker_field`] followed by underscores (none or more).
pub open spec fn in_marker_family(n: Seq<char>) -> bool {
    &&& n.len() >= marker_field().len()
    &&& n.take(marker_field().len() as int) == marker_field()
    &&& forall|i: int| marker_field().len() <= i < n.len() ==> n[i] == '_'
}

/// A field name as the file keeps it: a name of the marker's family gets one more
/// underscore, so that no field of the value is taken for the marker.
pub open spec fn escaped_name(n: Seq<char>) -> Seq<char> {
    if in_marker_family(n) {
        n.push('_')
    } else {
        n
    }
}

/// A field name as a read gives it back: one underscore fewer on a name of the
/// marker's family longer than the marker.
pub open spec fn unescaped_name(n: Seq<char>) -> Seq<char> {
    if in_marker_family(n) && n.len() > marker_field().len() {
        n.drop_last()
    } else {
        n
    }
}

pub open spec fn escape_entries(es: Seq<(Seq<char>, JsonView)>) -> Seq<(Seq<char>, JsonView)> {
    es.map_values(|e: (Seq<char>, JsonView)| (escaped_name(e.0), e.1))
}

pub open spec fn unescape_entries(es: Seq<(Seq<char>, JsonView)>) -> Seq<(Seq<char>, JsonView)> {
    es.map_values(|e: (Seq<char>, JsonView)| (unescaped_name(e.0), e.1))
}

/// The entries written for an object: those without secret fields (their names
/// escaped), and, when some secret field outside [`secret_fields`] went to the
/// secret store, the list of those fields under [`marker_field`].
pub open spec fn stored_entries(es: Seq<(Seq<char>, JsonView)>) -> Seq<(Seq<char>, JsonView)> {
    let names = recorded_names(es);
    if names.len() == 0 {
        escape_entries(public_entries(es))
    } else {
        escape_entries(public_entries(es)).push((marker_field(), names_json(names)))
    }
}

/// Whether a field name is of the marker's family.
fn is_marker_family_name(n: &str) -> (r: bool)
    ensures
        r == in_marker_family(n@),
{
    let cs = crate::text::chars_of(n);
    let m = crate::text::chars_of("__secret_fields");
    proof {
        reveal_strlit("__secret_fields");
    }
    if cs.len() < m.len() {
        return false;
    }
    let mut i: usize = 0;
    while i < m.len()
        invariant
            cs@ == n@,
            m@ == marker_field(),
            cs@.len() >= m@.len(),
            i <= m@.len(),
            forall|k: int| 0 <= k < i ==> cs@[k] == m@[k],
        decreases m@.len() - i,
    {
        if cs[i] != m[i] {
            assert(n@.take(marker_field().len() as int)[i as int] != marker_field()[i as int]);
            return false;
        }
        i = i + 1;
    }
    assert(n@.take(marker_field().len() as int) =~= marker_field());
    let mut j: usize = m.len();
    while j < cs.len()
        invariant
            cs@ == n@,
            m@ == marker_field(),
            m@.len() <= j <= cs@.len(),
            forall|k: int| m@.len() <= k < j ==> cs@[k] == '_',
        decreases cs@.len() - j,
    {
        if cs[j] != '_' {
            return false;
        }
        j = j + 1;
    }
    true
}

/// A field name as the file keeps it.
pub fn escape_field_name(n: &str) -> (r: String)
    ensures
        r@ == escaped_name(n@),
{
    let mut r = n.to_string();
    if is_marker_family_name(n) {
        crate::text::push_char(&mut r, '_');
    }
    r
}

/// A field name as a read gives it back.
pub fn unescape_field_name(n: &str) -> (r: String)
    ensures
        r@ == unescaped_name(n@),
{
    proof {
        reveal_strlit("__secret_fields");
    }
    let cs = crate::text::chars_of(n);
    if is_marker_family_name(n) && cs.len() > 15 {
        crate::text::string_from_chars(crate::text::chars_between(cs.as_slice(), 0, cs.len() - 1).as_slice())
    } else {
        n.to_string()
    }
}

/// The value to write to the configuration file under a key, and the secret-store
/// operations that go with it: a null value forgets every secret field of the key;
/// an object loses its secret fields, each turned into an operation (and records
/// the names a read must look up); any other value is kept as it is.
pub open spec fn sanitized(v: JsonView) -> (JsonView, Seq<SecretOpView>) {
    match v {
        JsonView::Null => (v, secret_fields().map_values(|f: Seq<char>| SecretOpView::Delete(f))),
        JsonView::Object(es) => (JsonView::Object(stored_entries(es)), secret_ops(es)),
        _ => (v, Seq::empty()),
    }
}

pub open spec fn op_views(ops: Seq<SecretOp>) -> Seq<SecretOpView> {
    ops.map_values(|o: SecretOp| o@)
}

/// Splits `value` into what the configuration file keeps and the secret operations.
pub fn sanitize_secret_fields(value: Json) -> (r: (Json, Vec<SecretOp>))
    ensures
        (r.0@, op_views(r.1@)) == sanitized(value@),
{
    match value {
        Json::Null => {
            let names = secret_field_names();
            let mut ops: Vec<SecretOp> = Vec::new();
            let mut i: usize = 0;
            while i < names.len()
                invariant
                    views(names@) == secret_fields(),
                    i <= names@.len(),
                    op_views(ops@) == views(names@).take(i as int).map_values(
                        |f: Seq<char>| SecretOpView::Delete(f),
                    ),
                decreases names@.len() - i,
            {
                let op = SecretOp::Delete(names[i].clone());
                proof {
                    assert(op_views(ops@.push(op)) =~= op_views(ops@).push(op@));
                    assert(views(names@).take(i + 1).map_values(|f: Seq<char>| SecretOpView::Delete(f))
                        =~= views(names@).take(i as int).map_values(
                        |f: Seq<char>| SecretOpView::Delete(f),
                    ).push(SecretOpView::Delete(names@[i as int]@)));
                }
                ops.push(op);
                i = i + 1;
            }
            assert(views(names@).take(names@.len() as int) =~= views(names@));
            (Json::Null, ops)
        },
        Json::Object(es) => {
            proof {
                lemma_entries_view(es@);
            }
            let ghost ev = json_entries_view(es@);
            let ghost pred = |e: (Seq<char>, JsonView)| !is_secret(e.0);
            let fixed = secret_field_names();
            let mut kept: Vec<(String, Json)> = Vec::new();
            let mut ops: Vec<SecretOp> = Vec::new();
            let mut extra: Vec<Json> = Vec::new();
            let mut i: usize = 0;
            while i < es.len()
                invariant
                    ev == json_entries_view(es@),
                    ev.len() == es@.len(),
                    forall|k: int| 0 <= k < es@.len() ==> #[trigger] ev[k] == (es@[k].0@, json_view(es@[k].1)),
                    pred == (|e: (Seq<char>, JsonView)| !is_secret(e.0)),
                    views(fixed@) == secret_fields(),
                    i <= es@.len(),
                    json_entries_view(kept@) == escape_entries(ev.take(i as int).filter(pred)),
                    op_views(ops@) == secret_ops(ev.take(i as int)),
                    crate::json::json_seq_view(extra@) == recorded_names(ev.take(i as int)).map_values(
                        |n: Seq<char>| JsonView::Str(n),
                    ),
                decreases es@.len() - i,
            {
                proof {
                    reveal_with_fuel(Seq::<_>::filter, 1);
                    assert(ev.take(i + 1).drop_last() =~= ev.take(i as int));
                    crate::json::lemma_seq_view(extra@);
                }
                if is_secret_field(es[i].0.as_str()) {
                    let mut stored = false;
                    let op = match &es[i].1 {
                        Json::Str(s) => {
                            let t = trim_str(s.as_str());
                            if t.unicode_len() > 0 {
                                stored = true;
                                SecretOp::Store(es[i].0.clone(), t)
                            } else {
                                SecretOp::Delete(es[i].0.clone())
                            }
                        },
                        _ => SecretOp::Delete(es[i].0.clone()),
                    };
                    proof {
                        assert(op@ == secret_op_for(ev[i as int].0, ev[i as int].1));
                        assert(op_views(ops@.push(op)) =~= op_views(ops@).push(op@));
                        assert(stored == (secret_op_for(ev[i as int].0, ev[i as int].1) is Store));
                    }
                    ops.push(op);
                    if stored && !list_contains(&fixed, es[i].0.as_str()) {
                        let n = Json::Str(es[i].0.clone());
                        proof {
                            assert(extra@.push(n).drop_last() =~= extra@);
                            assert(crate::json::json_seq_view(extra@.push(n)) =~= crate::json::json_seq_view(extra@).push(n@));
                            assert(recorded_names(ev.take(i + 1)) == recorded_names(ev.take(i as int)).push(ev[i as int].0));
                            assert(recorded_names(ev.take(i + 1)).map_values(|n: Seq<char>| JsonView::Str(n))
                                =~= recorded_names(ev.take(i as int)).map_values(|n: Seq<char>| JsonView::Str(n)).push(n@));
                        }
                        extra.push(n);
                    } else {
                        proof {
                            assert(recorded_names(ev.take(i + 1)) == recorded_names(ev.take(i as int)));
                        }
                    }
                } else {
                    let e = (escape_field_name(es[i].0.as_str()), es[i].1.deep_clone());
                    proof {
                        assert(kept@.push(e).drop_last() =~= kept@);
                        assert(ev.take(i + 1).filter(pred) == ev.take(i as int).filter(pred).push(ev[i as int]));
                        assert(escape_entries(ev.take(i + 1).filter(pred)) =~= escape_entries(
                            ev.take(i as int).filter(pred),
                        ).push((escaped_name(ev[i as int].0), ev[i as int].1)));
                    }
                    kept.push(e);
                    proof {
                        assert(recorded_names(ev.take(i + 1)) == recorded_names(ev.take(i as int)));
                    }
                }
                i = i + 1;
            }
            assert(ev.take(es@.len() as int) =~= ev);
            proof {
                crate::json::lemma_seq_view(extra@);
                let names = recorded_names(ev);
                assert(names.map_values(|n: Seq<char>| JsonView::Str(n)).len() == names.len());
                assert(json_entries_view(kept@) == escape_entries(public_entries(ev)));
            }
            if extra.len() > 0 {
                let ghost ex = extra@;
                let marker = ("__secret_fields".to_string(), Json::Array(extra));
                proof {
                    reveal_strlit("__secret_fields");
                    assert(crate::json::json_seq_view(ex) =~= recorded_names(ev).map_values(|n: Seq<char>| JsonView::Str(n)));
                    assert(json_view(marker.1) == names_json(recorded_names(ev)));
                    assert(marker.0@ == marker_field());
                    assert(json_entries_view(kept@.push(marker)).drop_last() =~= json_entries_view(kept@)) by {
                        lemma_entries_view(kept@.push(marker));
                        lemma_entries_view(kept@);
                    }
                    assert(kept@.push(marker).drop_last() =~= kept@);
                    assert(json_entries_view(kept@.push(marker)) == json_entries_view(kept@).push(
                        (marker_field(), names_json(recorded_names(ev))),
                    ));
                }
                kept.push(marker);
            }
            (Json::Object(kept), ops)
        },
        other => {
            let ops: Vec<SecretOp> = Vec::new();
            assert(op_views(ops@) =~= Seq::<SecretOpView>::empty());
            (other, ops)
        },
    }
}

/// Whether some entry of `es` has a secret field.
pub open spec fn any_secret(es: Seq<(Seq<char>, JsonView)>) -> bool
    decreases es.len(),
{
    if es.len() == 0 {
        false
    } else {
        is_secret(es.last().0) || any_secret(es.drop_last())
    }
}

/// Whether the stored value of a key must be rewritten to take its secrets out
/// (an object that holds a secret field).
pub open spec fn holds_secrets(v: JsonView) -> bool {
    match v {
        JsonView::Object(es) => any_secret(es),
        _ => false,
    }
}

pub fn migration_needed(value: &Json) -> (r: bool)
    ensures
        r == holds_secrets(value@),
{
    match value {
        Json::Object(es) => {
            proof {
                lemma_entries_view(es@);
            }
            let ghost ev = json_entries_view(es@);
            let mut i: usize = 0;
            while i < es.len()
                invariant
                    value@ == JsonView::Object(ev),
                    ev == json_entries_view(es@),
                    ev.len() == es@.len(),
                    forall|k: int| 0 <= k < es@.len() ==> #[trigger] ev[k] == (es@[k].0@, json_view(es@[k].1)),
                    i <= es@.len(),
                    !any_secret(ev.take(i as int)),
                decreases es@.len() - i,
            {
                proof {
                    assert(ev.take(i + 1).drop_last() =~= ev.take(i as int));
                }
                if is_secret_field(es[i].0.as_str()) {
                    assert(any_secret(ev.take(i + 1)));
                    proof {
                        lemma_any_secret_prefix(ev, i + 1);
                    }
                    return true;
                }
                i = i + 1;
            }
            assert(ev.take(es@.len() as int) =~= ev);
            false
        },
        _ => false,
    }
}

proof fn lemma_any_secret_prefix(es: Seq<(Seq<char>, JsonView)>, n: int)
    requires
        0 <= n <= es.len(),
        any_secret(es.take(n)),
    ensures
        any_secret(es),
    decreases es.len() - n,
{
    if n < es.len() {
        assert(es.take(n + 1).drop_last() =~= es.take(n));
        lemma_any_secret_prefix(es, n + 1);
    } else {
        assert(es.take(n) =~= es);
    }
}

/// The entries of an object with each `(field, secret)` of `secrets` set in it, in order.
pub open spec fn with_secrets(es: Seq<(Seq<char>, JsonView)>, secrets: Seq<(Seq<char>, Seq<char>)>) -> Seq<(Seq<char>, JsonView)>
    decreases secrets.len(),
{
    if secrets.len() == 0 {
        es
    } else {
        entries_insert(with_secrets(es, secrets.drop_last()), secrets.last().0, JsonView::Str(secrets.last().1))
    }
}

/// A stored value as a read gives it back: an object loses its list of recorded
/// secret fields, has its field names unescaped, and gets each `(field, secret)` of `secrets` set in it, in order;
/// any other value is kept.
pub open spec fn hydrated(v: JsonView, secrets: Seq<(Seq<char>, Seq<char>)>) -> JsonView {
    match v {
        JsonView::Object(es) => JsonView::Object(
            with_secrets(unescape_entries(entries_remove(es, marker_field())), secrets),
        ),
        _ => v,
    }
}

pub open spec fn pair_views(v: Seq<(String, String)>) -> Seq<(Seq<char>, Seq<char>)> {
    v.map_values(|p: (String, String)| (p.0@, p.1@))
}

/// The strings among JSON values, in order.
pub open spec fn strings_in(items: Seq<JsonView>) -> Seq<Seq<char>>
    decreases items.len(),
{
    if items.len() == 0 {
        Seq::empty()
    } else {
        let r = strings_in(items.drop_last());
        match items.last() {
            JsonView::Str(t) => r.push(t),
            _ => r,
        }
    }
}

/// The secret fields a stored object lists under [`marker_field`].
pub open spec fn recorded_in(v: JsonView) -> Seq<Seq<char>> {
    match v {
        JsonView::Object(es) => match lookup(es, marker_field()) {
            Some(JsonView::Array(items)) => strings_in(items),
            _ => Seq::empty(),
        },
        _ => Seq::empty(),
    }
}

/// The fields whose secrets a read of a stored value looks up: the
/// [`secret_fields`], then those the value lists.
pub open spec fn fields_to_read(v: JsonView) -> Seq<Seq<char>> {
    secret_fields() + recorded_in(v)
}

/// The fields whose secrets are looked up when the stored value `stored` is read.
pub fn secret_fields_to_read(stored: &Json) -> (r: Vec<String>)
    ensures
        views(r@) == fields_to_read(stored@),
{
    let mut r = secret_field_names();
    proof {
        reveal_strlit("__secret_fields");
    }
    match stored.get("__secret_fields") {
        Some(Json::Array(items)) => {
            let ghost base = views(r@);
            let ghost iv = crate::json::json_seq_view(items@);
            proof {
                crate::json::lemma_seq_view(items@);
            }
            let mut i: usize = 0;
            while i < items.len()
                invariant
                    base == secret_fields(),
                    iv == crate::json::json_seq_view(items@),
                    iv.len() == items@.len(),
                    forall|k: int| 0 <= k < items@.len() ==> #[trigger] iv[k] == json_view(items@[k]),
                    i <= items@.len(),
                    views(r@) == base + strings_in(iv.take(i as int)),
                decreases items@.len() - i,
            {
                proof {
                    assert(iv.take(i + 1).drop_last() =~= iv.take(i as int));
                    assert(iv.take(i + 1).last() == iv[i as int]);
                }
                match &items[i] {
                    Json::Str(t) => {
                        let ghost before = views(r@);
                        r.push(t.clone());
                        proof {
                            assert(views(r@) =~= before.push(t@));
                            assert(base + strings_in(iv.take(i + 1)) =~= (base + strings_in(iv.take(i as int))).push(t@));
                        }
                    },
                    _ => {},
                }
                i = i + 1;
            }
            assert(iv.take(items@.len() as int) =~= iv);
            r
        },
        _ => {
            assert(views(r@) =~= secret_fields() + Seq::<Seq<char>>::empty());
            r
        },
    }
}

/// Puts the secrets found in the secret store back into a stored object value,
/// after taking out its list of recorded secret fields.
pub fn hydrate_secret_fields(value: Json, secrets: &Vec<(String, String)>) -> (r: Json)
    ensures
        r@ == hydrated(value@, pair_views(secrets@)),
{
    match value {
        Json::Object(mut es) => {
            proof {
                reveal_strlit("__secret_fields");
            }
            entries_delete(&mut es, "__secret_fields");
            let ghost removed = json_entries_view(es@);
            proof {
                lemma_entries_view(es@);
            }
            let mut plain: Vec<(String, Json)> = Vec::new();
            let mut k: usize = 0;
            while k < es.len()
                invariant
                    removed == json_entries_view(es@),
                    removed.len() == es@.len(),
                    forall|j: int| 0 <= j < es@.len() ==> #[trigger] removed[j] == (es@[j].0@, json_view(es@[j].1)),
                    k <= es@.len(),
                    json_entries_view(plain@) == unescape_entries(removed.take(k as int)),
                decreases es@.len() - k,
            {
                let e = (unescape_field_name(es[k].0.as_str()), es[k].1.deep_clone());
                proof {
                    assert(plain@.push(e).drop_last() =~= plain@);
                    assert(removed.take(k + 1) =~= removed.take(k as int).push(removed[k as int]));
                    assert(unescape_entries(removed.take(k + 1)) =~= unescape_entries(removed.take(k as int)).push(
                        (unescaped_name(removed[k as int].0), removed[k as int].1),
                    ));
                }
                plain.push(e);
                k = k + 1;
            }
            assert(removed.take(es@.len() as int) =~= removed);
            let mut es = plain;
            let ghost e0 = json_entries_view(es@);
            let mut i: usize = 0;
            assert(pair_views(secrets@).take(0) =~= Seq::<(Seq<char>, Seq<char>)>::empty());
            while i < secrets.len()
                invariant
                    i <= secrets@.len(),
                    json_entries_view(es@) == with_secrets(e0, pair_views(secrets@).take(i as int)),
                decreases secrets@.len() - i,
            {
                proof {
                    assert(pair_views(secrets@).take(i + 1).drop_last() =~= pair_views(secrets@).take(i as int));
                }
                entries_set(&mut es, secrets[i].0.clone(), Json::Str(secrets[i].1.clone()));
                i = i + 1;
            }
            assert(pair_views(secrets@).take(secrets@.len() as int) =~= pair_views(secrets@));
            Json::Object(es)
        },
        other => other,
    }
}

// ---------------------------------------------------------------------------
// What a write keeps of secrets, a read gives back.
// ---------------------------------------------------------------------------

/// The secret store of one configuration key (field to secret) after the
/// operations of a write.
pub open spec fn apply_secret_ops(kr: Map<Seq<char>, Seq<char>>, ops: Seq<SecretOpView>) -> Map<Seq<char>, Seq<char>>
    decreases ops.len(),
{
    if ops.len() == 0 {
        kr
    } else {
        let k2 = apply_secret_ops(kr, ops.drop_last());
        match ops.last() {
            SecretOpView::Store(f, s) => k2.insert(f, s),
            SecretOpView::Delete(f) => k2.remove(f),
        }
    }
}

/// The secrets a read finds for a key: for each of `fields` in order, its secret
/// when the store holds one.
pub open spec fn secrets_found(fields: Seq<Seq<char>>, kr: Map<Seq<char>, Seq<char>>) -> Seq<(Seq<char>, Seq<char>)>
    decreases fields.len(),
{
    if fields.len() == 0 {
        Seq::empty()
    } else {
        let r = secrets_found(fields.drop_last(), kr);
        if kr.contains_key(fields.last()) {
            r.push((fields.last(), kr[fields.last()]))
        } else {
            r
        }
    }
}

/// The secret given last for a field in a list of secrets.
pub open spec fn last_secret(sec: Seq<(Seq<char>, Seq<char>)>, k: Seq<char>) -> Option<Seq<char>>
    decreases sec.len(),
{
    if sec.len() == 0 {
        None
    } else if sec.last().0 == k {
        Some(sec.last().1)
    } else {
        last_secret(sec.drop_last(), k)
    }
}

/// Looking up in entries grown by one entry.
proof fn lemma_lookup_push<V>(es: Seq<(Seq<char>, V)>, e: (Seq<char>, V), k: Seq<char>)
    ensures
        lookup(es.push(e), k) == (match lookup(es, k) {
            Some(v) => Some(v),
            None => if e.0 == k {
                Some(e.1)
            } else {
                None
            },
        }),
{
    let ns = es.push(e);
    crate::json::lemma_first_index(es, k);
    crate::json::lemma_first_index(ns, k);
    match crate::json::first_index(es, k) {
        Some(i) => {
            assert(ns[i] == es[i]);
            crate::json::lemma_first_index_is(ns, k, i);
        },
        None => {
            if e.0 == k {
                crate::json::lemma_first_index_is(ns, k, es.len() as int);
            } else {
                assert forall|j: int| 0 <= j < ns.len() implies ns[j].0 != k by {
                    if j < es.len() {
                        assert(ns[j] == es[j]);
                    }
                }
                crate::json::lemma_first_index_none(ns, k);
            }
        },
    }
}

/// Each secret field of the entries holds a text that is not blank.
pub open spec fn secrets_given(es: Seq<(Seq<char>, JsonView)>) -> bool {
    forall|i: int|
        0 <= i < es.len() && is_secret(#[trigger] es[i].0) ==> (es[i].1 matches JsonView::Str(s) && trim(s).len() > 0)
}

/// What the operations of a write do to the secret store: a secret field of the
/// object gets its operation; every other field keeps what the store held.
proof fn lemma_applied_secrets(es: Seq<(Seq<char>, JsonView)>, kr: Map<Seq<char>, Seq<char>>, f: Seq<char>)
    requires
        crate::registry::keys_unique(es),
    ensures
        ({
            let k2 = apply_secret_ops(kr, secret_ops(es));
            &&& (is_secret(f) && lookup(es, f) is Some) ==> match secret_op_for(f, lookup(es, f)->0) {
                SecretOpView::Store(_, s) => k2.contains_key(f) && k2[f] == s,
                SecretOpView::Delete(_) => !k2.contains_key(f),
            }
            &&& !(is_secret(f) && lookup(es, f) is Some) ==> (k2.contains_key(f) == kr.contains_key(f) && (
            kr.contains_key(f) ==> k2[f] == kr[f]))
        }),
    decreases es.len(),
{
    if es.len() == 0 {
        assert(secret_ops(es) =~= Seq::<SecretOpView>::empty());
    } else {
        let init = es.drop_last();
        let e = es.last();
        assert(init.push(e) =~= es);
        assert forall|i: int, j: int| 0 <= i < j < init.len() implies #[trigger] init[i].0 != #[trigger] init[j].0 by {
            assert(init[i] == es[i] && init[j] == es[j]);
        }
        lemma_applied_secrets(init, kr, f);
        lemma_lookup_push(init, e, f);
        if e.0 == f {
            crate::json::lemma_first_index(init, f);
            match crate::json::first_index(init, f) {
                Some(i) => {
                    assert(es[i].0 == es[es.len() - 1].0);
                },
                None => {},
            }
        }
        if is_secret(e.0) {
            assert(is_secret(es[es.len() - 1].0));
            let ops = secret_ops(es);
            assert(ops.drop_last() == secret_ops(init));
        } else {
            assert(secret_ops(es) == secret_ops(init));
        }
    }
}

proof fn lemma_hydrated_lookup(es0: Seq<(Seq<char>, JsonView)>, sec: Seq<(Seq<char>, Seq<char>)>, k: Seq<char>)
    ensures
        lookup(with_secrets(es0, sec), k) == match last_secret(sec, k) {
            Some(s) => Some(JsonView::Str(s)),
            None => lookup(es0, k),
        },
    decreases sec.len(),
{
    if sec.len() > 0 {
        lemma_hydrated_lookup(es0, sec.drop_last(), k);
        crate::json::lemma_lookup_insert(
            with_secrets(es0, sec.drop_last()),
            sec.last().0,
            JsonView::Str(sec.last().1),
            k,
        );
    }
}

proof fn lemma_secrets_found(fields: Seq<Seq<char>>, kr: Map<Seq<char>, Seq<char>>, k: Seq<char>)
    ensures
        last_secret(secrets_found(fields, kr), k) == (if fields.contains(k) && kr.contains_key(k) {
            Some(kr[k])
        } else {
            None
        }),
    decreases fields.len(),
{
    if fields.len() > 0 {
        let init = fields.drop_last();
        lemma_secrets_found(init, kr, k);
        assert(init.push(fields.last()) =~= fields);
        let r = secrets_found(init, kr);
        let p = (fields.last(), kr[fields.last()]);
        assert(r.push(p).drop_last() =~= r);
        assert(r.push(p).last() == p);
        assert(fields.contains(k) == (init.contains(k) || fields.last() == k)) by {
            if fields.contains(k) {
                let i = choose|i: int| 0 <= i < fields.len() && fields[i] == k;
                if i < init.len() {
                    assert(init[i] == k);
                }
            }
            if init.contains(k) {
                let i = choose|i: int| 0 <= i < init.len() && init[i] == k;
                assert(fields[i] == k);
            }
            if fields.last() == k {
                assert(fields[fields.len() - 1] == k);
            }
        }
    }
}

proof fn lemma_public_lookup(es: Seq<(Seq<char>, JsonView)>, k: Seq<char>)
    ensures
        lookup(public_entries(es), k) == (if is_secret(k) {
            None
        } else {
            lookup(es, k)
        }),
    decreases es.len(),
{
    reveal_with_fuel(Seq::<_>::filter, 1);
    if es.len() == 0 {
        assert(public_entries(es) =~= Seq::<(Seq<char>, JsonView)>::empty());
    } else {
        let init = es.drop_last();
        let e = es.last();
        assert(init.push(e) =~= es);
        lemma_public_lookup(init, k);
        lemma_lookup_push(init, e, k);
        if !is_secret(e.0) {
            lemma_lookup_push(public_entries(init), e, k);
        }
    }
}

proof fn lemma_strings_of_names(names: Seq<Seq<char>>)
    ensures
        strings_in(names.map_values(|n: Seq<char>| JsonView::Str(n))) == names,
    decreases names.len(),
{
    if names.len() > 0 {
        let m = names.map_values(|n: Seq<char>| JsonView::Str(n));
        assert(m.drop_last() =~= names.drop_last().map_values(|n: Seq<char>| JsonView::Str(n)));
        lemma_strings_of_names(names.drop_last());
        assert(names.drop_last().push(names.last()) =~= names);
    }
}

/// Every recorded name is a secret field; every secret field of the object that
/// is not among [`secret_fields`] and goes to the secret store is recorded.
proof fn lemma_recorded_names(es: Seq<(Seq<char>, JsonView)>, f: Seq<char>)
    ensures
        recorded_names(es).contains(f) ==> is_secret(f),
        (is_secret(f) && !secret_fields().contains(f) && lookup(es, f) is Some && secret_op_for(
            f,
            lookup(es, f)->0,
        ) is Store) ==> recorded_names(es).contains(f),
    decreases es.len(),
{
    if es.len() > 0 {
        let init = es.drop_last();
        let e = es.last();
        assert(init.push(e) =~= es);
        lemma_recorded_names(init, f);
        lemma_lookup_push(init, e, f);
        let r = recorded_names(init);
        if recorded_names(es).contains(f) {
            let i = choose|i: int| 0 <= i < recorded_names(es).len() && recorded_names(es)[i] == f;
            if is_secret(e.0) && !secret_fields().contains(e.0) && secret_op_for(e.0, e.1) is Store {
                if i < r.len() {
                    assert(r[i] == f);
                }
            } else {
                assert(r[i] == f);
            }
        }
        if is_secret(f) && !secret_fields().contains(f) && lookup(es, f) is Some && secret_op_for(f, lookup(es, f)->0) is Store {
            if lookup(init, f) is Some {
                let j = choose|j: int| 0 <= j < r.len() && r[j] == f;
                if is_secret(e.0) && !secret_fields().contains(e.0) && secret_op_for(e.0, e.1) is Store {
                    assert(r.push(e.0)[j] == f);
                }
            } else {
                assert(e.0 == f);
                assert(r.push(e.0)[r.len() as int] == f);
            }
        }
    }
}

/// The field that lists recorded secret fields is not itself a secret field.
proof fn lemma_marker_not_secret()
    ensures
        !is_secret(marker_field()),
{
    reveal_strlit("__secret_fields");
    reveal_strlit("_token");
    reveal_strlit("api_key");
    reveal_strlit("auth_key");
    reveal_strlit("secret");
    reveal_strlit("key");
    reveal_strlit("appkey");
    reveal_strlit("password");
    reveal_strlit("token");
    assert(marker_field().skip(marker_field().len() - 6)[0] == 'f');
    if secret_fields().contains(marker_field()) {
        let i = choose|i: int| 0 <= i < secret_fields().len() && secret_fields()[i] == marker_field();
        assert(secret_fields()[i].len() != marker_field().len());
    }
}

/// A name of the marker's family is not a secret field: it is longer than every
/// name of [`secret_fields`] and ends in `s` or `_`, not in `_token`.
proof fn lemma_family_not_secret(n: Seq<char>)
    requires
        in_marker_family(n),
    ensures
        !is_secret(n),
{
    reveal_strlit("__secret_fields");
    reveal_strlit("_token");
    reveal_strlit("api_key");
    reveal_strlit("auth_key");
    reveal_strlit("secret");
    reveal_strlit("key");
    reveal_strlit("appkey");
    reveal_strlit("password");
    reveal_strlit("token");
    let m = marker_field();
    if n.len() > m.len() {
        assert(n.last() == '_');
    } else {
        assert(n =~= m);
        assert(n.last() == 's');
    }
    if has_suffix(n, "_token"@) {
        assert(n.skip(n.len() - 6)[5] == n.last());
    }
    if secret_fields().contains(n) {
        let i = choose|i: int| 0 <= i < secret_fields().len() && secret_fields()[i] == n;
        assert(secret_fields()[i].len() < m.len());
    }
}

/// Escaping keeps a name apart from the marker, keeps whether it is secret, and
/// unescaping undoes it.
proof fn lemma_escaped_name(n: Seq<char>)
    ensures
        escaped_name(n) != marker_field(),
        unescaped_name(escaped_name(n)) == n,
        is_secret(escaped_name(n)) == is_secret(n),
{
    let m = marker_field();
    if in_marker_family(n) {
        let e = n.push('_');
        assert(e.take(m.len() as int) =~= n.take(m.len() as int));
        assert(in_marker_family(e));
        assert(e.drop_last() =~= n);
        lemma_family_not_secret(n);
        lemma_family_not_secret(e);
        assert(e.len() != m.len());
    } else {
        if n == m {
            assert(n.take(m.len() as int) =~= m);
        }
    }
}

/// The entries with escaped names: none is the marker, and unescaping gives the
/// entries back.
proof fn lemma_escape_entries(es: Seq<(Seq<char>, JsonView)>)
    ensures
        forall|j: int| 0 <= j < escape_entries(es).len() ==> #[trigger] escape_entries(es)[j].0 != marker_field(),
        forall|j: int| 0 <= j < escape_entries(es).len() ==> is_secret(#[trigger] escape_entries(es)[j].0) == is_secret(es[j].0),
        unescape_entries(escape_entries(es)) == es,
{
    assert forall|j: int| 0 <= j < escape_entries(es).len() implies #[trigger] escape_entries(es)[j].0 != marker_field() by {
        lemma_escaped_name(es[j].0);
    }
    assert forall|j: int| 0 <= j < escape_entries(es).len() implies is_secret(#[trigger] escape_entries(es)[j].0) == is_secret(es[j].0) by {
        lemma_escaped_name(es[j].0);
    }
    assert forall|j: int| 0 <= j < es.len() implies #[trigger] unescape_entries(escape_entries(es))[j] == es[j] by {
        lemma_escaped_name(es[j].0);
    }
    assert(unescape_entries(escape_entries(es)) =~= es);
}

/// Removing a key no entry has changes nothing.
proof fn lemma_remove_absent(es: Seq<(Seq<char>, JsonView)>, k: Seq<char>)
    requires
        forall|j: int| 0 <= j < es.len() ==> es[j].0 != k,
    ensures
        entries_remove(es, k) == es,
    decreases es.len(),
{
    if es.len() > 0 {
        let rest = es.drop_first();
        assert forall|j: int| 0 <= j < rest.len() implies rest[j].0 != k by {
            assert(rest[j] == es[j + 1]);
        }
        lemma_remove_absent(rest, k);
        assert(seq![es[0]] + rest =~= es);
    }
}

/// Removing the key of an entry put last, which no other entry has, gives the
/// other entries.
proof fn lemma_remove_pushed(es: Seq<(Seq<char>, JsonView)>, e: (Seq<char>, JsonView))
    requires
        forall|j: int| 0 <= j < es.len() ==> es[j].0 != e.0,
    ensures
        entries_remove(es.push(e), e.0) == es,
    decreases es.len(),
{
    if es.len() == 0 {
        let one = es.push(e);
        assert(one[0] == e);
        assert(one.drop_first() =~= Seq::<(Seq<char>, JsonView)>::empty());
        assert(entries_remove(one.drop_first(), e.0) =~= Seq::<(Seq<char>, JsonView)>::empty());
        assert(es =~= Seq::<(Seq<char>, JsonView)>::empty());
    } else {
        assert(es[0].0 != e.0);
        let rest = es.drop_first();
        assert forall|j: int| 0 <= j < rest.len() implies rest[j].0 != e.0 by {
            assert(rest[j] == es[j + 1]);
        }
        lemma_remove_pushed(rest, e);
        assert(es.push(e).drop_first() =~= rest.push(e));
        assert(es.push(e)[0] == es[0]);
        assert(seq![es[0]] + rest =~= es);
    }
}

/// What a read sees of a written object: without the marker, the escaped entries
/// without secret fields; under the marker, the recorded names when there are
/// some; no secret field.
proof fn lemma_stored(es: Seq<(Seq<char>, JsonView)>, f: Seq<char>)
    ensures
        unescape_entries(entries_remove(stored_entries(es), marker_field())) == public_entries(es),
        lookup(stored_entries(es), marker_field()) == (if recorded_names(es).len() > 0 {
            Some(names_json(recorded_names(es)))
        } else {
            None::<JsonView>
        }),
        is_secret(f) ==> lookup(stored_entries(es), f) is None,
        !is_secret(f) && f != marker_field() ==> lookup(stored_entries(es), f) == lookup(
            escape_entries(public_entries(es)),
            f,
        ),
{
    let p = public_entries(es);
    let ep = escape_entries(p);
    let names = recorded_names(es);
    lemma_escape_entries(p);
    lemma_remove_absent(ep, marker_field());
    crate::json::lemma_first_index_none(ep, marker_field());
    lemma_public_lookup(es, f);
    if is_secret(f) {
        assert forall|j: int| 0 <= j < ep.len() implies ep[j].0 != f by {
            assert(ep[j].0 == escaped_name(p[j].0));
            es.lemma_filter_pred(|e: (Seq<char>, JsonView)| !is_secret(e.0), j);
            lemma_escaped_name(p[j].0);
        }
        crate::json::lemma_first_index_none(ep, f);
    }
    if names.len() > 0 {
        lemma_remove_pushed(ep, (marker_field(), names_json(names)));
        lemma_lookup_push(ep, (marker_field(), names_json(names)), marker_field());
        lemma_lookup_push(ep, (marker_field(), names_json(names)), f);
        lemma_marker_not_secret();
    }
}

/// Looking up a name that is not of the marker's family among escaped entries is
/// looking it up among the entries.
proof fn lemma_lookup_escaped(es: Seq<(Seq<char>, JsonView)>, k: Seq<char>)
    requires
        !in_marker_family(k),
    ensures
        lookup(escape_entries(es), k) == lookup(es, k),
    decreases es.len(),
{
    if es.len() > 0 {
        let init = es.drop_last();
        let e = es.last();
        lemma_lookup_escaped(init, k);
        assert(escape_entries(es) =~= escape_entries(init).push((escaped_name(e.0), e.1)));
        assert(init.push(e) =~= es);
        lemma_lookup_push(init, e, k);
        lemma_lookup_push(escape_entries(init), (escaped_name(e.0), e.1), k);
        if in_marker_family(e.0) {
            assert(in_marker_family(e.0.push('_'))) by {
                assert(e.0.push('_').take(marker_field().len() as int) =~= e.0.take(marker_field().len() as int));
            }
        }
    }
}

/// The names a read looks up in a written object: the [`secret_fields`] and the
/// recorded ones, all of them secret fields.
proof fn lemma_fields_to_read(es: Seq<(Seq<char>, JsonView)>, f: Seq<char>)
    ensures
        fields_to_read(JsonView::Object(stored_entries(es))) == secret_fields() + recorded_names(es),
        fields_to_read(JsonView::Object(stored_entries(es))).contains(f) ==> is_secret(f),
        (secret_fields().contains(f) || recorded_names(es).contains(f)) ==> fields_to_read(
            JsonView::Object(stored_entries(es)),
        ).contains(f),
{
    let names = recorded_names(es);
    lemma_stored(es, f);
    if names.len() > 0 {
        lemma_strings_of_names(names);
    } else {
        assert(names =~= Seq::<Seq<char>>::empty());
    }
    let all = secret_fields() + names;
    lemma_recorded_names(es, f);
    if all.contains(f) {
        let i = choose|i: int| 0 <= i < all.len() && all[i] == f;
        if i >= secret_fields().len() {
            assert(names[i - secret_fields().len()] == f);
        } else {
            assert(secret_fields()[i] == f);
        }
    }
    if secret_fields().contains(f) {
        let i = choose|i: int| 0 <= i < secret_fields().len() && secret_fields()[i] == f;
        assert(all[i] == f);
    }
    if names.contains(f) {
        let i = choose|i: int| 0 <= i < names.len() && names[i] == f;
        assert(all[i + secret_fields().len()] == f);
    }
}

/// What a write of an object keeps, a read gives back: the file keeps the object
/// without its secret fields (names of the marker's family escaped, and the list of
/// the secret fields outside [`secret_fields`] under the marker) and the secret
/// store their trimmed texts; reading takes the marker out, unescapes the names and
/// puts back the secrets it finds under the fields it looks up, so each field reads
/// as written, a secret field trimmed. This holds when the keys are unique, each
/// secret field holds a text that is not blank, and the store held no secret for a
/// field the object lacks.
pub proof fn law_secrets_read_back(
    es: Seq<(Seq<char>, JsonView)>,
    kr: Map<Seq<char>, Seq<char>>,
    k: Seq<char>,
)
    requires
        crate::registry::keys_unique(es),
        secrets_given(es),
        forall|f: Seq<char>| kr.contains_key(f) ==> lookup(es, f) is Some,
    ensures
        ({
            let (stored, ops) = sanitized(JsonView::Object(es));
            let found = secrets_found(fields_to_read(stored), apply_secret_ops(kr, ops));
            crate::json::view_field(hydrated(stored, found), k) == match lookup(es, k) {
                Some(JsonView::Str(s)) => if is_secret(k) {
                    Some(JsonView::Str(trim(s)))
                } else {
                    Some(JsonView::Str(s))
                },
                other => other,
            }
        }),
{
    let ops = secret_ops(es);
    let k2 = apply_secret_ops(kr, ops);
    let stored = stored_entries(es);
    let fields = fields_to_read(JsonView::Object(stored));
    lemma_applied_secrets(es, kr, k);
    lemma_fields_to_read(es, k);
    lemma_recorded_names(es, k);
    lemma_secrets_found(fields, k2, k);
    lemma_stored(es, k);
    lemma_hydrated_lookup(public_entries(es), secrets_found(fields, k2), k);
    lemma_public_lookup(es, k);
    crate::json::lemma_first_index(es, k);
    match crate::json::first_index(es, k) {
        Some(i) => {
            if is_secret(k) {
                assert(is_secret(es[i].0));
            }
        },
        None => {},
    }
}

/// What a write of an object does: no secret field stays in what the file keeps,
/// every other field is kept (its name escaped when of the marker's family), and
/// for each secret field the secret store holds its trimmed text when that is a
/// text that is not blank, and holds nothing for it otherwise; the store's other
/// secrets are kept.
pub proof fn law_secrets_written(es: Seq<(Seq<char>, JsonView)>, kr: Map<Seq<char>, Seq<char>>, f: Seq<char>)
    requires
        crate::registry::keys_unique(es),
    ensures
        ({
            let (stored, ops) = sanitized(JsonView::Object(es));
            let k2 = apply_secret_ops(kr, ops);
            &&& is_secret(f) ==> crate::json::view_field(stored, f) is None
            &&& (!is_secret(f) && !in_marker_family(f)) ==> crate::json::view_field(stored, f) == lookup(es, f)
            &&& (is_secret(f) && lookup(es, f) is Some) ==> match lookup(es, f)->0 {
                JsonView::Str(s) => if trim(s).len() > 0 {
                    k2.contains_key(f) && k2[f] == trim(s)
                } else {
                    !k2.contains_key(f)
                },
                _ => !k2.contains_key(f),
            }
            &&& !(is_secret(f) && lookup(es, f) is Some) ==> (k2.contains_key(f) == kr.contains_key(f) && (
            kr.contains_key(f) ==> k2[f] == kr[f]))
        }),
{
    lemma_applied_secrets(es, kr, f);
    lemma_stored(es, f);
    lemma_public_lookup(es, f);
    if !in_marker_family(f) {
        lemma_lookup_escaped(public_entries(es), f);
        if f == marker_field() {
            assert(marker_field().take(marker_field().len() as int) =~= marker_field());
        }
    }
}

} // verus!
