//! The service settings page: which instances it lists, which may be added,
//! removed or moved, how an instance is named, and the fields of its edit dialog.

use vstd::prelude::*;
use crate::config::{
    ConfigStore, ServiceCategory, effective_list, stored_list, instance_name, instance_service_name,
    default_translate_services, list_key_of, string_array, map_get,
};
use crate::json::{Json, JsonView, view_field, view_str, opt_str, json_entries_view};
use crate::registry::Named;
use crate::json::{lookup, entry_keys};
use crate::services::{sorted_strictly, HttpMethod, HttpRequest, HttpRequestView};
use crate::translate::TranslateRegistry;
use crate::recognize::RecognizeRegistry;
use crate::tts::TtsRegistry;
use crate::collection::CollectionRegistry;
use crate::text::{
    views, str_eq, split_char, trim, has_prefix, has_suffix, has_infix, contains_str, starts_with, ends_with,
    lowercase, uppercase_char, char_to_upper, join, join_strings, chars_of, string_from_chars,
};
use crate::translators::{strip_trailing, strip_trailing_char, strip_trailing_of};

verus! {

// ---------------------------------------------------------------------------
// Locked instances.
// ---------------------------------------------------------------------------

/// Whether a service's instances always stay in the list (Google and Bing among the
/// translation services).
pub open spec fn locked_service(c: ServiceCategory, name: Seq<char>) -> bool {
    c == ServiceCategory::Translate && default_translate_services().contains(name)
}

pub fn is_locked_default_service(c: ServiceCategory, name: &str) -> (r: bool)
    ensures
        r == locked_service(c, name@),
{
    proof {
        reveal_strlit("google");
        reveal_strlit("bing");
    }
    let r = c == ServiceCategory::Translate && (str_eq(name, "google") || str_eq(name, "bing"));
    proof {
        if c == ServiceCategory::Translate {
            if name@ == "google"@ {
                assert(default_translate_services()[0] == name@);
            }
            if name@ == "bing"@ {
                assert(default_translate_services()[1] == name@);
            }
        }
    }
    r
}

/// The title of an instance's row in the services list: its stored `instanceName`
/// when that is a non-empty text, else the service name of the key.
pub open spec fn row_title(store: Map<Seq<char>, JsonView>, key: Seq<char>) -> Seq<char> {
    match crate::config::map_get(store, key) {
        Some(v) => match opt_str(view_field(v, "instanceName"@)) {
            Some(n) => if n.len() > 0 {
                n
            } else {
                crate::config::instance_name(key)
            },
            None => crate::config::instance_name(key),
        },
        None => crate::config::instance_name(key),
    }
}

pub fn instance_row_title(store: &crate::config::ConfigStore, key: &str) -> (r: String)
    ensures
        r@ == row_title(store@, key@),
{
    match store.get(key) {
        Some(v) => match v.get("instanceName") {
            Some(n) => match n.as_str() {
                Some(s) => {
                    if s.unicode_len() > 0 {
                        return s.to_string();
                    }
                },
                None => {},
            },
            None => {},
        },
        None => {},
    }
    crate::config::instance_service_name(key)
}

pub fn is_locked_default_instance(c: ServiceCategory, key: &str) -> (r: bool)
    ensures
        r == locked_service(c, instance_name(key@)),
{
    let n = instance_service_name(key);
    is_locked_default_service(c, n.as_str())
}

/// The services offered for a new instance: all but the locked ones.
pub open spec fn addable(c: ServiceCategory, available: Seq<Seq<char>>) -> Seq<Seq<char>> {
    available.filter(|n: Seq<char>| !locked_service(c, n))
}

pub fn addable_services(c: ServiceCategory, available: &Vec<String>) -> (r: Vec<String>)
    ensures
        views(r@) == addable(c, views(available@)),
{
    let ghost av = views(available@);
    let mut out: Vec<String> = Vec::new();
    let mut i: usize = 0;
    while i < available.len()
        invariant
            av == views(available@),
            i <= available@.len(),
            views(out@) == addable(c, av.take(i as int)),
        decreases available@.len() - i,
    {
        proof {
            reveal_with_fuel(Seq::<_>::filter, 1);
            assert(av.take(i + 1).drop_last() =~= av.take(i as int));
            assert(av.take(i + 1).last() == available@[i as int]@);
        }
        if !is_locked_default_service(c, available[i].as_str()) {
            let ghost before = views(out@);
            out.push(available[i].clone());
            assert(views(out@) =~= before.push(available@[i as int]@));
        }
        i = i + 1;
    }
    assert(av.take(available@.len() as int) =~= av);
    out
}

/// The instances the page lists for a category.
pub fn service_page_keys(store: &ConfigStore, c: ServiceCategory) -> (r: Vec<String>)
    ensures
        views(r@) == effective_list(c, stored_list(store@, c)),
{
    store.effective_service_list(c)
}

// ---------------------------------------------------------------------------
// Names.
// ---------------------------------------------------------------------------

/// The position of the first `c` in `s`.
pub open spec fn char_pos(s: Seq<char>, c: char) -> Option<int>
    decreases s.len(),
{
    if s.len() == 0 {
        None
    } else {
        match char_pos(s.drop_last(), c) {
            Some(p) => Some(p),
            None => if s.last() == c {
                Some(s.len() - 1)
            } else {
                None
            },
        }
    }
}

proof fn lemma_char_pos(s: Seq<char>, c: char)
    ensures
        match char_pos(s, c) {
            Some(p) => 0 <= p < s.len() && s[p] == c && forall|j: int| 0 <= j < p ==> s[j] != c,
            None => forall|j: int| 0 <= j < s.len() ==> s[j] != c,
        },
    decreases s.len(),
{
    if s.len() > 0 {
        let d = s.drop_last();
        lemma_char_pos(d, c);
        assert(forall|j: int| 0 <= j < d.len() ==> d[j] == s[j]);
    }
}

proof fn lemma_char_pos_is(s: Seq<char>, c: char, p: int)
    requires
        0 <= p < s.len(),
        s[p] == c,
        forall|j: int| 0 <= j < p ==> s[j] != c,
    ensures
        char_pos(s, c) == Some(p),
{
    lemma_char_pos(s, c);
    match char_pos(s, c) {
        Some(q) => {
            if q < p {
                assert(s[q] != c);
            }
            if q > p {
                assert(s[p] != c);
            }
        },
        None => {
            assert(s[p] != c);
        },
    }
}

/// How an instance key is shown: the service `openai` reads `ai`, before the first
/// `@` or as the whole key.
pub open spec fn shown_instance_key(key: Seq<char>) -> Seq<char> {
    match char_pos(key, '@') {
        Some(p) => if key.take(p) == "openai"@ {
            "ai@"@ + key.skip(p + 1)
        } else {
            key.take(p) + "@"@ + key.skip(p + 1)
        },
        None => if key == "openai"@ {
            "ai"@
        } else {
            key
        },
    }
}

pub fn display_instance_key(key: &str) -> (r: String)
    ensures
        r@ == shown_instance_key(key@),
{
    let v = chars_of(key);
    let mut i: usize = 0;
    while i < v.len()
        invariant
            v@ == key@,
            i <= v@.len(),
            forall|j: int| 0 <= j < i ==> v@[j] != '@',
        decreases v@.len() - i,
    {
        if v[i] == '@' {
            proof {
                lemma_char_pos_is(key@, '@', i as int);
            }
            let head = string_from_chars(crate::text::chars_between(v.as_slice(), 0, i).as_slice());
            let suffix = string_from_chars(crate::text::chars_between(v.as_slice(), i + 1, v.len()).as_slice());
            assert(key@.subrange(0, i as int) =~= key@.take(i as int));
            assert(key@.subrange(i + 1, key@.len() as int) =~= key@.skip(i + 1));
            if str_eq(head.as_str(), "openai") {
                let mut r = "ai@".to_string();
                r.append(suffix.as_str());
                return r;
            } else {
                let mut r = head;
                r.append("@");
                r.append(suffix.as_str());
                return r;
            }
        }
        i = i + 1;
    }
    proof {
        lemma_char_pos(key@, '@');
        if char_pos(key@, '@') is Some {
            let p = char_pos(key@, '@')->0;
            assert(v@[p] != '@');
        }
    }
    if str_eq(key, "openai") {
        "ai".to_string()
    } else {
        key.to_string()
    }
}

/// The name a service is shown under.
pub open spec fn shown_service_name(name: Seq<char>) -> Seq<char> {
    if name == "openai"@ {
        "AI"@
    } else if name == "lingva_tts"@ {
        "Lingva TTS"@
    } else {
        name
    }
}

pub fn service_display_name(name: &str) -> (r: String)
    ensures
        r@ == shown_service_name(name@),
{
    if str_eq(name, "openai") {
        "AI".to_string()
    } else if str_eq(name, "lingva_tts") {
        "Lingva TTS".to_string()
    } else {
        name.to_string()
    }
}

// ---------------------------------------------------------------------------
// Changing the list.
// ---------------------------------------------------------------------------

/// The list without any copy of `key`.
pub open spec fn without(list: Seq<Seq<char>>, key: Seq<char>) -> Seq<Seq<char>> {
    list.filter(|k: Seq<char>| k != key)
}

fn remove_all(list: &Vec<String>, key: &str) -> (r: Vec<String>)
    ensures
        views(r@) == without(views(list@), key@),
{
    let ghost lv = views(list@);
    let mut out: Vec<String> = Vec::new();
    let mut i: usize = 0;
    while i < list.len()
        invariant
            lv == views(list@),
            i <= list@.len(),
            views(out@) == without(lv.take(i as int), key@),
        decreases list@.len() - i,
    {
        proof {
            reveal_with_fuel(Seq::<_>::filter, 1);
            assert(lv.take(i + 1).drop_last() =~= lv.take(i as int));
            assert(lv.take(i + 1).last() == list@[i as int]@);
        }
        if !str_eq(list[i].as_str(), key) {
            let ghost before = views(out@);
            out.push(list[i].clone());
            assert(views(out@) =~= before.push(list@[i as int]@));
        }
        i = i + 1;
    }
    assert(lv.take(list@.len() as int) =~= lv);
    out
}

/// Deletes an instance: nothing for a locked one; else it leaves the category's list
/// and its settings are removed. Whether it was deleted is returned.
pub fn delete_instance(store: &mut ConfigStore, c: ServiceCategory, key: &str) -> (r: bool)
    ensures
        r == !locked_service(c, instance_name(key@)),
        r ==> final(store)@ == old(store)@.insert(
            list_key_of(c),
            string_array(without(stored_list(old(store)@, c), key@)),
        ).remove(key@),
        !r ==> final(store)@ == old(store)@,
{
    if is_locked_default_instance(c, key) {
        return false;
    }
    let list = store.get_service_list(c);
    let kept = remove_all(&list, key);
    store.set_service_list(c, &kept);
    store.remove(key);
    true
}

/// The instance's settings with `enable` set (an object made when there is none).
pub open spec fn with_enable(store: Map<Seq<char>, JsonView>, key: Seq<char>, enabled: bool) -> JsonView {
    let entries = match map_get(store, key) {
        Some(JsonView::Object(es)) => es,
        _ => Seq::empty(),
    };
    JsonView::Object(crate::translators::ordered_insert(entries, "enable"@, JsonView::Bool(enabled)))
}

/// Turns an instance on or off.
pub fn toggle_enable(store: &mut ConfigStore, key: &str, enabled: bool)
    ensures
        final(store)@ == old(store)@.insert(key@, with_enable(old(store)@, key@, enabled)),
{
    let mut entries: Vec<(String, Json)> = match store.get(key) {
        Some(Json::Object(es)) => es,
        _ => Vec::new(),
    };
    proof {
        assert(json_entries_view(Seq::<(String, Json)>::empty()) =~= Seq::empty());
    }
    crate::translators::ordered_set(&mut entries, "enable".to_string(), Json::Bool(enabled));
    store.set(key, Json::Object(entries));
}

/// The list with the first copy of `key` moved one place up (or down), when it is
/// there and can move.
pub open spec fn moved(list: Seq<Seq<char>>, key: Seq<char>, up: bool) -> Seq<Seq<char>> {
    match first_position(list, key) {
        Some(p) => if up && p > 0 {
            list.update(p - 1, list[p]).update(p, list[p - 1])
        } else if !up && p + 1 < list.len() {
            list.update(p, list[p + 1]).update(p + 1, list[p])
        } else {
            list
        },
        None => list,
    }
}

/// The first position of `key` in a list.
pub open spec fn first_position(list: Seq<Seq<char>>, key: Seq<char>) -> Option<int>
    decreases list.len(),
{
    if list.len() == 0 {
        None
    } else {
        match first_position(list.drop_last(), key) {
            Some(p) => Some(p),
            None => if list.last() == key {
                Some(list.len() - 1)
            } else {
                None
            },
        }
    }
}

proof fn lemma_first_position(list: Seq<Seq<char>>, key: Seq<char>)
    ensures
        match first_position(list, key) {
            Some(p) => 0 <= p < list.len() && list[p] == key && forall|j: int| 0 <= j < p ==> list[j] != key,
            None => forall|j: int| 0 <= j < list.len() ==> list[j] != key,
        },
    decreases list.len(),
{
    if list.len() > 0 {
        let d = list.drop_last();
        lemma_first_position(d, key);
        assert(forall|j: int| 0 <= j < d.len() ==> d[j] == list[j]);
    }
}

proof fn lemma_first_position_is(list: Seq<Seq<char>>, key: Seq<char>, p: int)
    requires
        0 <= p < list.len(),
        list[p] == key,
        forall|j: int| 0 <= j < p ==> list[j] != key,
    ensures
        first_position(list, key) == Some(p),
{
    lemma_first_position(list, key);
    match first_position(list, key) {
        Some(q) => {
            if q < p {
                assert(list[q] != key);
            }
            if q > p {
                assert(list[p] != key);
            }
        },
        None => {
            assert(list[p] != key);
        },
    }
}

fn position_of(list: &Vec<String>, key: &str) -> (r: Option<usize>)
    ensures
        match first_position(views(list@), key@) {
            Some(p) => r == Some(p as usize),
            None => r is None,
        },
        r matches Some(p) ==> p < list@.len(),
{
    let ghost lv = views(list@);
    let mut i: usize = 0;
    while i < list.len()
        invariant
            lv == views(list@),
            i <= list@.len(),
            forall|j: int| 0 <= j < i ==> lv[j] != key@,
        decreases list@.len() - i,
    {
        if str_eq(list[i].as_str(), key) {
            proof {
                lemma_first_position_is(lv, key@, i as int);
            }
            return Some(i);
        }
        i = i + 1;
    }
    proof {
        lemma_first_position(lv, key@);
    }
    None
}

/// Whether the first copy of `key` can move one place up (or down) in the list.
pub open spec fn can_move(list: Seq<Seq<char>>, key: Seq<char>, up: bool) -> bool {
    match first_position(list, key) {
        Some(p) => (up && p > 0) || (!up && p + 1 < list.len()),
        None => false,
    }
}

/// Moves an instance one place up or down in its category's stored list; the list
/// is stored again only when the instance moved.
pub fn move_instance(store: &mut ConfigStore, c: ServiceCategory, key: &str, up: bool)
    ensures
        can_move(stored_list(old(store)@, c), key@, up) ==> final(store)@ == old(store)@.insert(
            list_key_of(c),
            string_array(moved(stored_list(old(store)@, c), key@, up)),
        ),
        !can_move(stored_list(old(store)@, c), key@, up) ==> final(store)@ == old(store)@,
{
    let mut list = store.get_service_list(c);
    let ghost lv = views(list@);
    match position_of(&list, key) {
        Some(p) => {
            proof {
                lemma_first_position(lv, key@);
            }
            let n = list.len();
            if up && p > 0 {
                let a = list[p - 1].clone();
                let b = list[p].clone();
                list.set(p - 1, b);
                list.set(p, a);
                assert(views(list@) =~= lv.update(p - 1, lv[p as int]).update(p as int, lv[p - 1]));
                store.set_service_list(c, &list);
            } else if !up && p + 1 < n {
                let a = list[p].clone();
                let b = list[p + 1].clone();
                list.set(p, b);
                list.set(p + 1, a);
                assert(views(list@) =~= lv.update(p as int, lv[p + 1]).update(p + 1, lv[p as int]));
                store.set_service_list(c, &list);
            }
        },
        None => {},
    }
}

/// Moving an instance up and then down again gives the list back.
pub proof fn law_move_up_then_down(list: Seq<Seq<char>>, key: Seq<char>)
    requires
        first_position(list, key) matches Some(p) && p > 0,
    ensures
        moved(moved(list, key, true), key, false) == list,
{
    lemma_first_position(list, key);
    let p = first_position(list, key)->0;
    let l1 = moved(list, key, true);
    assert(l1 == list.update(p - 1, list[p]).update(p, list[p - 1]));
    assert forall|j: int| 0 <= j < p - 1 implies l1[j] != key by {
        assert(l1[j] == list[j]);
    }
    lemma_first_position_is(l1, key, p - 1);
    assert(moved(l1, key, false) =~= list);
}

// ---------------------------------------------------------------------------
// AI models.
// ---------------------------------------------------------------------------

/// The address that lists a chat service's models, from its configured address.
pub open spec fn model_list_url_of(api_format: Seq<char>, request_url: Seq<char>) -> Seq<char> {
    let anthropic = api_format == "anthropic"@;
    let t = strip_trailing_char(trim(request_url), '/');
    if t.len() == 0 {
        if anthropic {
            "https://api.anthropic.com/v1/models"@
        } else {
            "https://api.openai.com/v1/models"@
        }
    } else if !has_prefix(t, "http://"@) && !has_prefix(t, "https://"@) {
        if t[0] == '/' {
            (if anthropic {
                "https://api.anthropic.com"@
            } else {
                "https://api.openai.com"@
            }) + t
        } else {
            t
        }
    } else if has_suffix(t, "/models"@) {
        t
    } else if has_suffix(t, "/chat/completions"@) {
        strip_trailing_char(strip_trailing(t, "/chat/completions"@), '/') + "/models"@
    } else if has_suffix(t, "/messages"@) {
        strip_trailing_char(strip_trailing(t, "/messages"@), '/') + "/models"@
    } else if has_suffix(t, "/v1"@) {
        t + "/models"@
    } else {
        t
    }
}

fn strip_trailing_slashes(s: &str) -> (r: String)
    ensures
        r@ == strip_trailing_char(s@, '/'),
{
    let v = chars_of(s);
    let mut n = v.len();
    assert(v@.take(n as int) =~= v@);
    while n > 0 && v[n - 1] == '/'
        invariant
            v@ == s@,
            n <= v@.len(),
            strip_trailing_char(v@.take(n as int), '/') == strip_trailing_char(v@, '/'),
        decreases n,
    {
        proof {
            assert(v@.take(n as int).drop_last() =~= v@.take(n - 1));
        }
        n = n - 1;
    }
    let r = crate::text::chars_between(v.as_slice(), 0, n);
    assert(r@ =~= v@.take(n as int));
    string_from_chars(r.as_slice())
}

pub fn model_list_url(api_format: &str, request_url: &str) -> (r: String)
    ensures
        r@ == model_list_url_of(api_format@, request_url@),
{
    let anthropic = str_eq(api_format, "anthropic");
    let tr = crate::text::trim_str(request_url);
    let t = strip_trailing_slashes(tr.as_str());
    if t.unicode_len() == 0 {
        return if anthropic {
            "https://api.anthropic.com/v1/models".to_string()
        } else {
            "https://api.openai.com/v1/models".to_string()
        };
    }
    if !starts_with(t.as_str(), "http://") && !starts_with(t.as_str(), "https://") {
        let tv = chars_of(t.as_str());
        if tv[0] == '/' {
            let mut h = if anthropic {
                "https://api.anthropic.com".to_string()
            } else {
                "https://api.openai.com".to_string()
            };
            h.append(t.as_str());
            return h;
        } else {
            return t;
        }
    }
    if ends_with(t.as_str(), "/models") {
        t
    } else if ends_with(t.as_str(), "/chat/completions") {
        proof {
            reveal_strlit("/chat/completions");
        }
        let a = strip_trailing_of(t.as_str(), "/chat/completions");
        let mut b = strip_trailing_slashes(a.as_str());
        b.append("/models");
        b
    } else if ends_with(t.as_str(), "/messages") {
        proof {
            reveal_strlit("/messages");
        }
        let a = strip_trailing_of(t.as_str(), "/messages");
        let mut b = strip_trailing_slashes(a.as_str());
        b.append("/models");
        b
    } else if ends_with(t.as_str(), "/v1") {
        let mut b = t;
        b.append("/models");
        b
    } else {
        t
    }
}

/// The model names in a model list answer: the `id`s of its `data` items, each once
/// and in increasing order.
pub open spec fn model_ids(resp: JsonView) -> Set<Seq<char>> {
    crate::translators::field_items(crate::translators::array_items(view_field(resp, "data"@)), "id"@).to_set()
}

/// The message of a refused model list request: its error's `message` (or the error
/// itself) when that is a string, else `HTTP <status>`.
pub open spec fn model_error_message(resp: JsonView, status: nat) -> Seq<char> {
    let fallback = "HTTP "@ + crate::text::digits(status, 10);
    match view_field(resp, "error"@) {
        Some(e) => {
            let picked = match view_field(e, "message"@) {
                Some(m) => m,
                None => e,
            };
            match view_str(picked) {
                Some(s) => s,
                None => fallback,
            }
        },
        None => fallback,
    }
}

fn http_status_text(status: u16) -> (r: String)
    ensures
        r@ == "HTTP "@ + crate::text::digits(status as nat, 10),
{
    let mut h = "HTTP ".to_string();
    let d = crate::text::u64_to_base(status as u64, 10);
    h.append(d.as_str());
    h
}

/// The models of a model list answer with its HTTP status: for a status outside
/// 2xx the error message; else the model names, each once and in increasing order,
/// or `no_models` when there are none.
pub fn models_from_response(status: u16, resp: &Json, no_models: &str) -> (r: Result<Vec<String>, String>)
    ensures
        !(200 <= status <= 299) ==> r == Err::<Vec<String>, String>(r->Err_0) && r->Err_0@ == model_error_message(
            resp@,
            status as nat,
        ),
        (200 <= status <= 299) ==> match r {
            Ok(v) => v@.len() > 0 && crate::services::sorted_strictly(views(v@)) && views(v@).to_set() == model_ids(resp@),
            Err(m) => m@ == no_models@ && model_ids(resp@).is_empty(),
        },
{
    if !(200 <= status && status <= 299) {
        let m = match resp.get("error") {
            Some(e) => {
                let picked = match e.get("message") {
                    Some(x) => x,
                    None => e,
                };
                match picked.as_str() {
                    Some(s) => s.to_string(),
                    None => http_status_text(status),
                }
            },
            None => http_status_text(status),
        };
        return Err(m);
    }
    let items = crate::translators::items_of(resp.get("data"));
    let ids = crate::translators::collect_strings(items, Some("id"));
    let ghost idv = views(ids@);
    let mut models: Vec<String> = Vec::new();
    let mut i: usize = 0;
    while i < ids.len()
        invariant
            idv == views(ids@),
            i <= ids@.len(),
            crate::services::sorted_strictly(views(models@)),
            views(models@).to_set() == idv.take(i as int).to_set(),
        decreases ids@.len() - i,
    {
        proof {
            assert(idv.take(i + 1) =~= idv.take(i as int).push(idv[i as int]));
            idv.take(i as int).lemma_push_to_set_commute(idv[i as int]);
        }
        if !crate::config::list_contains(&models, ids[i].as_str()) {
            insert_sorted_name(&mut models, ids[i].clone());
        } else {
            proof {
                assert(views(models@).contains(ids@[i as int]@));
                assert(views(models@).to_set().contains(idv[i as int]));
                assert(idv.take(i as int).to_set().insert(idv[i as int]) =~= idv.take(i as int).to_set());
            }
        }
        i = i + 1;
    }
    assert(idv.take(ids@.len() as int) =~= idv);
    if models.len() == 0 {
        proof {
            assert(views(models@).to_set() =~= Set::<Seq<char>>::empty());
        }
        Err(no_models.to_string())
    } else {
        Ok(models)
    }
}

fn insert_sorted_name(v: &mut Vec<String>, x: String)
    requires
        crate::services::sorted_strictly(views(old(v)@)),
        !views(old(v)@).contains(x@),
    ensures
        crate::services::sorted_strictly(views(final(v)@)),
        views(final(v)@).to_set() == views(old(v)@).to_set().insert(x@),
{
    crate::services::insert_sorted(v, x);
}

// ---------------------------------------------------------------------------
// The edit dialog's fields.
// ---------------------------------------------------------------------------

/// A label: a message to translate, or a text shown as it is.
pub enum Label {
    Msg(String),
    Plain(String),
}

pub enum LabelView {
    Msg(Seq<char>),
    Plain(Seq<char>),
}

impl View for Label {
    type V = LabelView;

    open spec fn view(&self) -> LabelView {
        match self {
            Label::Msg(m) => LabelView::Msg(m@),
            Label::Plain(t) => LabelView::Plain(t@),
        }
    }
}

/// The kind of input for a setting; a drop-down offers values, each with its label.
pub enum FieldType {
    Text,
    Password,
    Url,
    Switch,
    Dropdown { options: Vec<(String, Label)> },
}

pub enum FieldTypeView {
    Text,
    Password,
    Url,
    Switch,
    Dropdown(Seq<(Seq<char>, LabelView)>),
}

pub open spec fn option_views(o: Seq<(String, Label)>) -> Seq<(Seq<char>, LabelView)> {
    o.map_values(|p: (String, Label)| (p.0@, p.1@))
}

impl View for FieldType {
    type V = FieldTypeView;

    open spec fn view(&self) -> FieldTypeView {
        match self {
            FieldType::Text => FieldTypeView::Text,
            FieldType::Password => FieldTypeView::Password,
            FieldType::Url => FieldTypeView::Url,
            FieldType::Switch => FieldTypeView::Switch,
            FieldType::Dropdown { options } => FieldTypeView::Dropdown(option_views(options@)),
        }
    }
}

/// A setting of an instance as the edit dialog shows it.
pub struct FieldDef {
    pub key: String,
    pub label: Label,
    pub widget_type: FieldType,
    pub value: Json,
}

pub struct FieldView {
    pub key: Seq<char>,
    pub label: LabelView,
    pub widget_type: FieldTypeView,
    pub value: JsonView,
}

impl View for FieldDef {
    type V = FieldView;

    open spec fn view(&self) -> FieldView {
        FieldView { key: self.key@, label: self.label@, widget_type: self.widget_type@, value: self.value@ }
    }
}

pub open spec fn field_views(v: Seq<FieldDef>) -> Seq<FieldView> {
    v.map_values(|f: FieldDef| f@)
}

/// The input for a setting from its default value: a switch for a boolean; for a
/// string a password input when the key names a key, secret, password or token, an
/// address input when it names a URL, path or host, else a text input; a text input
/// otherwise.
pub open spec fn inferred_type(key: Seq<char>, default: JsonView) -> FieldTypeView {
    match default {
        JsonView::Bool(_) => FieldTypeView::Switch,
        JsonView::Str(_) => if has_infix(key, "key"@) || has_infix(key, "secret"@) || has_infix(key, "password"@)
            || has_infix(key, "token"@) {
            FieldTypeView::Password
        } else if has_infix(key, "url"@) || has_infix(key, "path"@) || has_infix(key, "host"@) || has_infix(
            key,
            "Path"@,
        ) {
            FieldTypeView::Url
        } else {
            FieldTypeView::Text
        },
        _ => FieldTypeView::Text,
    }
}

pub fn infer_widget_type(key: &str, default: &Json) -> (r: FieldType)
    ensures
        r@ == inferred_type(key@, default@),
{
    match default {
        Json::Bool(_) => FieldType::Switch,
        Json::Str(_) => {
            if contains_str(key, "key") || contains_str(key, "secret") || contains_str(key, "password") || contains_str(
                key,
                "token",
            ) {
                FieldType::Password
            } else if contains_str(key, "url") || contains_str(key, "path") || contains_str(key, "host")
                || contains_str(key, "Path") {
                FieldType::Url
            } else {
                FieldType::Text
            }
        },
        _ => FieldType::Text,
    }
}

/// A word with its first character in uppercase (`char::to_uppercase`).
pub open spec fn capitalized(w: Seq<char>) -> Seq<char> {
    if w.len() == 0 {
        Seq::empty()
    } else {
        uppercase_char(w[0]) + w.drop_first()
    }
}

/// A setting's key as a label: its words between `_`s capitalized, joined by spaces.
pub open spec fn pretty_label(key: Seq<char>) -> Seq<char> {
    join(split_char(key, '_').map_values(|w: Seq<char>| capitalized(w)), " "@)
}

pub fn prettify_label(key: &str) -> (r: String)
    ensures
        r@ == pretty_label(key@),
{
    let parts = crate::text::split_on(key, '_');
    let ghost sp = split_char(key@, '_');
    let mut words: Vec<String> = Vec::new();
    let mut i: usize = 0;
    while i < parts.len()
        invariant
            sp == split_char(key@, '_'),
            parts@.len() == sp.len(),
            forall|k: int| 0 <= k < parts@.len() ==> #[trigger] parts@[k]@ == sp[k],
            i <= parts@.len(),
            views(words@) == sp.take(i as int).map_values(|w: Seq<char>| capitalized(w)),
        decreases parts@.len() - i,
    {
        let w = &parts[i];
        let word = if w.len() == 0 {
            String::new()
        } else {
            let mut s = char_to_upper(w[0]);
            let rest = crate::text::chars_between(w.as_slice(), 1, w.len());
            let rs = string_from_chars(rest.as_slice());
            s.append(rs.as_str());
            assert(rest@ =~= w@.drop_first());
            s
        };
        let ghost before = views(words@);
        words.push(word);
        proof {
            assert(views(words@) =~= before.push(capitalized(sp[i as int])));
            assert(sp.take(i + 1).map_values(|w: Seq<char>| capitalized(w)) =~= sp.take(i as int).map_values(
                |w: Seq<char>| capitalized(w),
            ).push(capitalized(sp[i as int])));
        }
        i = i + 1;
    }
    assert(sp.take(parts@.len() as int) =~= sp);
    join_strings(&words, " ")
}

// ---------------------------------------------------------------------------
// The registries the page offers services from.
// ---------------------------------------------------------------------------

/// The services of each category.
pub struct ServiceRegistries {
    pub translate: TranslateRegistry,
    pub recognize: RecognizeRegistry,
    pub tts: TtsRegistry,
    pub collection: CollectionRegistry,
}

impl ServiceRegistries {
    /// The names registered for a category.
    pub open spec fn names(&self, c: ServiceCategory) -> Seq<Seq<char>> {
        match c {
            ServiceCategory::Translate => entry_keys(self.translate.entries()),
            ServiceCategory::Recognize => entry_keys(self.recognize.entries()),
            ServiceCategory::Tts => entry_keys(self.tts.entries()),
            ServiceCategory::Collection => entry_keys(self.collection.entries()),
        }
    }

    /// The settings a new instance of the named service starts with (null for a
    /// name not registered).
    pub open spec fn defaults(&self, c: ServiceCategory, name: Seq<char>) -> JsonView {
        match c {
            ServiceCategory::Translate => match lookup(self.translate.entries(), name) {
                Some(s) => s.defaults(),
                None => JsonView::Null,
            },
            ServiceCategory::Recognize => match lookup(self.recognize.entries(), name) {
                Some(s) => s.defaults(),
                None => JsonView::Null,
            },
            ServiceCategory::Tts => match lookup(self.tts.entries(), name) {
                Some(s) => s.defaults(),
                None => JsonView::Null,
            },
            ServiceCategory::Collection => match lookup(self.collection.entries(), name) {
                Some(s) => s.defaults(),
                None => JsonView::Null,
            },
        }
    }

    /// The names registered for a category, in increasing order.
    pub fn list(&self, c: ServiceCategory) -> (r: Vec<String>)
        ensures
            sorted_strictly(views(r@)),
            views(r@).to_set() == self.names(c).to_set(),
    {
        match c {
            ServiceCategory::Translate => self.translate.list(),
            ServiceCategory::Recognize => self.recognize.list(),
            ServiceCategory::Tts => self.tts.list(),
            ServiceCategory::Collection => self.collection.list(),
        }
    }

    pub fn default_config(&self, c: ServiceCategory, name: &str) -> (r: Json)
        ensures
            r@ == self.defaults(c, name@),
    {
        match c {
            ServiceCategory::Translate => match self.translate.get(name) {
                Some(s) => s.default_config(),
                None => Json::Null,
            },
            ServiceCategory::Recognize => match self.recognize.get(name) {
                Some(s) => s.default_config(),
                None => Json::Null,
            },
            ServiceCategory::Tts => match self.tts.get(name) {
                Some(s) => s.default_config(),
                None => Json::Null,
            },
            ServiceCategory::Collection => match self.collection.get(name) {
                Some(s) => s.default_config(),
                None => Json::Null,
            },
        }
    }
}

// ---------------------------------------------------------------------------
// The edit dialog's fields.
// ---------------------------------------------------------------------------

/// The setting under `key`, or `default` when the settings have none.
pub open spec fn setting_or(config: JsonView, key: Seq<char>, default: JsonView) -> JsonView {
    match view_field(config, key) {
        Some(v) => v,
        None => default,
    }
}

pub open spec fn field_of(key: Seq<char>, label: LabelView, t: FieldTypeView, value: JsonView) -> FieldView {
    FieldView { key, label, widget_type: t, value }
}

pub open spec fn name_field_of(config: JsonView) -> FieldView {
    field_of(
        "instanceName"@,
        LabelView::Msg("Instance Name"@),
        FieldTypeView::Text,
        setting_or(config, "instanceName"@, JsonView::Str(Seq::empty())),
    )
}

pub open spec fn text_field_of(config: JsonView, key: Seq<char>, label: Seq<char>, default: Seq<char>) -> FieldView {
    field_of(key, LabelView::Msg(label), FieldTypeView::Text, setting_or(config, key, JsonView::Str(default)))
}

pub open spec fn url_field_of(config: JsonView, key: Seq<char>, label: Seq<char>, default: Seq<char>) -> FieldView {
    field_of(key, LabelView::Msg(label), FieldTypeView::Url, setting_or(config, key, JsonView::Str(default)))
}

pub open spec fn password_field_of(config: JsonView, key: Seq<char>, label: Seq<char>) -> FieldView {
    field_of(key, LabelView::Msg(label), FieldTypeView::Password, setting_or(config, key, JsonView::Str(Seq::empty())))
}

/// The endpoint field of the chat service: `request_url`, else the older
/// `request_path`, else the OpenAI chat address.
pub open spec fn ai_url_field_of(config: JsonView) -> FieldView {
    field_of(
        "request_url"@,
        LabelView::Msg("Request URL"@),
        FieldTypeView::Url,
        setting_or(
            config,
            "request_url"@,
            setting_or(config, "request_path"@, JsonView::Str("https://api.openai.com/v1/chat/completions"@)),
        ),
    )
}

pub open spec fn deepl_type_options() -> Seq<(Seq<char>, LabelView)> {
    seq![
        ("free"@, LabelView::Msg("Free"@)),
        ("api"@, LabelView::Msg("API"@)),
        ("deeplx"@, LabelView::Plain("DeepLX"@)),
    ]
}

pub open spec fn api_format_options() -> Seq<(Seq<char>, LabelView)> {
    seq![
        ("openai_compatible"@, LabelView::Msg("OpenAI-compatible API"@)),
        ("anthropic"@, LabelView::Msg("Anthropic API"@)),
    ]
}

/// The fields of a service without fields of its own: the instance name, then one
/// per default setting, in order, labelled by its key.
pub open spec fn generic_fields_of(config: JsonView, defaults: JsonView) -> Seq<FieldView> {
    seq![name_field_of(config)] + match defaults {
        JsonView::Object(es) => es.map_values(
            |e: (Seq<char>, JsonView)|
                field_of(
                    e.0,
                    LabelView::Plain(pretty_label(e.0)),
                    inferred_type(e.0, e.1),
                    setting_or(config, e.0, e.1),
                ),
        ),
        _ => Seq::empty(),
    }
}

/// The fields the edit dialog shows for an instance of a service, from the
/// instance's settings and the service's defaults.
pub open spec fn fields_for(name: Seq<char>, config: JsonView, c: ServiceCategory, defaults: JsonView) -> Seq<FieldView> {
    match c {
        ServiceCategory::Translate => if name == "google"@ {
            seq![
                name_field_of(config),
                url_field_of(config, "custom_url"@, "Custom URL"@, "https://translate.google.com"@),
            ]
        } else if name == "bing"@ {
            seq![name_field_of(config)]
        } else if name == "deepl"@ {
            seq![
                name_field_of(config),
                field_of(
                    "type"@,
                    LabelView::Msg("Type"@),
                    FieldTypeView::Dropdown(deepl_type_options()),
                    setting_or(config, "type"@, JsonView::Str("free"@)),
                ),
                password_field_of(config, "auth_key"@, "Auth Key"@),
                url_field_of(config, "custom_url"@, "Custom URL"@, Seq::empty()),
            ]
        } else if name == "openai"@ {
            seq![
                name_field_of(config),
                field_of(
                    "api_format"@,
                    LabelView::Msg("API Format"@),
                    FieldTypeView::Dropdown(api_format_options()),
                    setting_or(config, "api_format"@, JsonView::Str("openai_compatible"@)),
                ),
                password_field_of(config, "api_key"@, "API Key"@),
                text_field_of(config, "model"@, "Model"@, "gpt-3.5-turbo"@),
                ai_url_field_of(config),
            ]
        } else if name == "baidu"@ {
            seq![
                name_field_of(config),
                text_field_of(config, "appid"@, "App ID"@, Seq::empty()),
                password_field_of(config, "secret"@, "Secret Key"@),
            ]
        } else if name == "youdao"@ {
            seq![
                name_field_of(config),
                text_field_of(config, "appkey"@, "App Key"@, Seq::empty()),
                password_field_of(config, "key"@, "Key"@),
            ]
        } else if name == "lingva"@ {
            seq![
                name_field_of(config),
                url_field_of(config, "custom_url"@, "Custom URL"@, "https://lingva.pot-app.com"@),
            ]
        } else {
            generic_fields_of(config, defaults)
        },
        ServiceCategory::Recognize => if name == "tesseract"@ {
            seq![name_field_of(config)]
        } else {
            generic_fields_of(config, defaults)
        },
        ServiceCategory::Tts => if name == "lingva_tts"@ {
            seq![name_field_of(config), url_field_of(config, "requestPath"@, "Host"@, "lingva.pot-app.com"@)]
        } else {
            generic_fields_of(config, defaults)
        },
        ServiceCategory::Collection => if name == "anki"@ {
            seq![
                name_field_of(config),
                url_field_of(config, "requestPath"@, "AnkiConnect URL"@, "http://127.0.0.1:8765"@),
                text_field_of(config, "deck"@, "Deck"@, "Pot"@),
                text_field_of(config, "model"@, "Note Type"@, "Basic"@),
            ]
        } else {
            generic_fields_of(config, defaults)
        },
    }
}

fn setting_or_default(config: &Json, key: &str, default: Json) -> (r: Json)
    ensures
        r@ == setting_or(config@, key@, default@),
{
    match config.get(key) {
        Some(v) => v.deep_clone(),
        None => default,
    }
}

fn name_field(config: &Json) -> (r: FieldDef)
    ensures
        r@ == name_field_of(config@),
{
    proof {
        reveal_strlit("");
    }
    assert(""@ =~= Seq::<char>::empty());
    FieldDef {
        key: "instanceName".to_string(),
        label: Label::Msg("Instance Name".to_string()),
        widget_type: FieldType::Text,
        value: setting_or_default(config, "instanceName", Json::Str("".to_string())),
    }
}

fn text_field(config: &Json, key: &str, label: &str, default: &str) -> (r: FieldDef)
    ensures
        r@ == text_field_of(config@, key@, label@, default@),
{
    FieldDef {
        key: key.to_string(),
        label: Label::Msg(label.to_string()),
        widget_type: FieldType::Text,
        value: setting_or_default(config, key, Json::Str(default.to_string())),
    }
}

fn url_field(config: &Json, key: &str, label: &str, default: &str) -> (r: FieldDef)
    ensures
        r@ == url_field_of(config@, key@, label@, default@),
{
    FieldDef {
        key: key.to_string(),
        label: Label::Msg(label.to_string()),
        widget_type: FieldType::Url,
        value: setting_or_default(config, key, Json::Str(default.to_string())),
    }
}

fn password_field(config: &Json, key: &str, label: &str) -> (r: FieldDef)
    ensures
        r@ == password_field_of(config@, key@, label@),
{
    proof {
        reveal_strlit("");
    }
    assert(""@ =~= Seq::<char>::empty());
    FieldDef {
        key: key.to_string(),
        label: Label::Msg(label.to_string()),
        widget_type: FieldType::Password,
        value: setting_or_default(config, key, Json::Str("".to_string())),
    }
}

fn ai_url_field(config: &Json) -> (r: FieldDef)
    ensures
        r@ == ai_url_field_of(config@),
{
    let fallback = setting_or_default(
        config,
        "request_path",
        Json::Str("https://api.openai.com/v1/chat/completions".to_string()),
    );
    FieldDef {
        key: "request_url".to_string(),
        label: Label::Msg("Request URL".to_string()),
        widget_type: FieldType::Url,
        value: setting_or_default(config, "request_url", fallback),
    }
}

fn option(value: &str, label: Label) -> (r: (String, Label))
    ensures
        r.0@ == value@,
        r.1 == label,
{
    (value.to_string(), label)
}

fn dropdown_field(config: &Json, key: &str, label: &str, options: Vec<(String, Label)>, default: &str) -> (r: FieldDef)
    ensures
        r@ == field_of(
            key@,
            LabelView::Msg(label@),
            FieldTypeView::Dropdown(option_views(options@)),
            setting_or(config@, key@, JsonView::Str(default@)),
        ),
{
    FieldDef {
        key: key.to_string(),
        label: Label::Msg(label.to_string()),
        widget_type: FieldType::Dropdown { options },
        value: setting_or_default(config, key, Json::Str(default.to_string())),
    }
}

fn generic_fields(service_name: &str, config: &Json, registries: &ServiceRegistries, c: ServiceCategory) -> (r: Vec<FieldDef>)
    ensures
        field_views(r@) == generic_fields_of(config@, registries.defaults(c, service_name@)),
{
    let default = registries.default_config(c, service_name);
    let mut fields: Vec<FieldDef> = Vec::new();
    fields.push(name_field(config));
    match &default {
        Json::Object(es) => {
            proof {
                crate::json::lemma_entries_view(es@);
            }
            let ghost ev = json_entries_view(es@);
            let ghost f = |e: (Seq<char>, JsonView)|
                field_of(
                    e.0,
                    LabelView::Plain(pretty_label(e.0)),
                    inferred_type(e.0, e.1),
                    setting_or(config@, e.0, e.1),
                );
            let mut i: usize = 0;
            while i < es.len()
                invariant
                    ev == json_entries_view(es@),
                    ev.len() == es@.len(),
                    forall|j: int| 0 <= j < es@.len() ==> #[trigger] ev[j] == (es@[j].0@, es@[j].1@),
                    i <= es@.len(),
                    field_views(fields@) == seq![name_field_of(config@)] + ev.take(i as int).map_values(f),
                    f == (|e: (Seq<char>, JsonView)|
                        field_of(
                            e.0,
                            LabelView::Plain(pretty_label(e.0)),
                            inferred_type(e.0, e.1),
                            setting_or(config@, e.0, e.1),
                        )),
                decreases es@.len() - i,
            {
                let key = &es[i].0;
                let d = &es[i].1;
                let fd = FieldDef {
                    key: key.clone(),
                    label: Label::Plain(prettify_label(key.as_str())),
                    widget_type: infer_widget_type(key.as_str(), d),
                    value: setting_or_default(config, key.as_str(), d.deep_clone()),
                };
                let ghost before = field_views(fields@);
                fields.push(fd);
                proof {
                    assert(fd@ == f(ev[i as int]));
                    assert(field_views(fields@) =~= before.push(fd@));
                    assert(ev.take(i + 1).map_values(f) =~= ev.take(i as int).map_values(f).push(f(ev[i as int])));
                }
                i = i + 1;
            }
            assert(ev.take(es@.len() as int) =~= ev);
            assert(field_views(fields@) == generic_fields_of(config@, registries.defaults(c, service_name@)));
        },
        _ => {
            assert(field_views(fields@) =~= generic_fields_of(config@, registries.defaults(c, service_name@)));
        },
    }
    fields
}

/// The fields of the edit dialog for an instance of a service.
pub fn build_fields(service_name: &str, config: &Json, c: ServiceCategory, registries: &ServiceRegistries) -> (r: Vec<FieldDef>)
    ensures
        field_views(r@) == fields_for(service_name@, config@, c, registries.defaults(c, service_name@)),
{
    proof {
        reveal_strlit("");
    }
    assert(""@ =~= Seq::<char>::empty());
    let ghost target = fields_for(service_name@, config@, c, registries.defaults(c, service_name@));
    let r = match c {
        ServiceCategory::Translate => {
            if str_eq(service_name, "google") {
                let v = vec![name_field(config), url_field(config, "custom_url", "Custom URL", "https://translate.google.com")];
                assert(field_views(v@) =~= target);
                v
            } else if str_eq(service_name, "bing") {
                let v = vec![name_field(config)];
                assert(field_views(v@) =~= target);
                v
            } else if str_eq(service_name, "deepl") {
                let options = vec![
                    option("free", Label::Msg("Free".to_string())),
                    option("api", Label::Msg("API".to_string())),
                    option("deeplx", Label::Plain("DeepLX".to_string())),
                ];
                assert(option_views(options@) =~= deepl_type_options());
                let v = vec![
                    name_field(config),
                    dropdown_field(config, "type", "Type", options, "free"),
                    password_field(config, "auth_key", "Auth Key"),
                    url_field(config, "custom_url", "Custom URL", ""),
                ];
                assert(field_views(v@) =~= target);
                v
            } else if str_eq(service_name, "openai") {
                let options = vec![
                    option("openai_compatible", Label::Msg("OpenAI-compatible API".to_string())),
                    option("anthropic", Label::Msg("Anthropic API".to_string())),
                ];
                assert(option_views(options@) =~= api_format_options());
                let v = vec![
                    name_field(config),
                    dropdown_field(config, "api_format", "API Format", options, "openai_compatible"),
                    password_field(config, "api_key", "API Key"),
                    text_field(config, "model", "Model", "gpt-3.5-turbo"),
                    ai_url_field(config),
                ];
                assert(field_views(v@) =~= target);
                v
            } else if str_eq(service_name, "baidu") {
                let v = vec![
                    name_field(config),
                    text_field(config, "appid", "App ID", ""),
                    password_field(config, "secret", "Secret Key"),
                ];
                assert(field_views(v@) =~= target);
                v
            } else if str_eq(service_name, "youdao") {
                let v = vec![
                    name_field(config),
                    text_field(config, "appkey", "App Key", ""),
                    password_field(config, "key", "Key"),
                ];
                assert(field_views(v@) =~= target);
                v
            } else if str_eq(service_name, "lingva") {
                let v = vec![name_field(config), url_field(config, "custom_url", "Custom URL", "https://lingva.pot-app.com")];
                assert(field_views(v@) =~= target);
                v
            } else {
                generic_fields(service_name, config, registries, c)
            }
        },
        ServiceCategory::Recognize => {
            if str_eq(service_name, "tesseract") {
                let v = vec![name_field(config)];
                assert(field_views(v@) =~= target);
                v
            } else {
                generic_fields(service_name, config, registries, c)
            }
        },
        ServiceCategory::Tts => {
            if str_eq(service_name, "lingva_tts") {
                let v = vec![name_field(config), url_field(config, "requestPath", "Host", "lingva.pot-app.com")];
                assert(field_views(v@) =~= target);
                v
            } else {
                generic_fields(service_name, config, registries, c)
            }
        },
        ServiceCategory::Collection => {
            if str_eq(service_name, "anki") {
                let v = vec![
                    name_field(config),
                    url_field(config, "requestPath", "AnkiConnect URL", "http://127.0.0.1:8765"),
                    text_field(config, "deck", "Deck", "Pot"),
                    text_field(config, "model", "Note Type", "Basic"),
                ];
                assert(field_views(v@) =~= target);
                v
            } else {
                generic_fields(service_name, config, registries, c)
            }
        },
    };
    r
}

// ---------------------------------------------------------------------------
// Adding an instance, and saving its settings.
// ---------------------------------------------------------------------------

/// The settings a new instance starts with: the service's default settings (none
/// when they are not an object) with its shown name and `enable` set.
pub open spec fn new_instance_settings(defaults: JsonView, name: Seq<char>) -> JsonView {
    let es = match defaults {
        JsonView::Object(es) => es,
        _ => Seq::empty(),
    };
    JsonView::Object(
        crate::translators::ordered_insert(
            crate::translators::ordered_insert(es, "instanceName"@, JsonView::Str(shown_service_name(name))),
            "enable"@,
            JsonView::Bool(true),
        ),
    )
}

/// The store after an instance `key` of service `name` was added: its settings
/// stored, then the key appended to the category's list.
pub open spec fn with_instance(
    store: Map<Seq<char>, JsonView>,
    c: ServiceCategory,
    key: Seq<char>,
    settings: JsonView,
) -> Map<Seq<char>, JsonView> {
    let s1 = store.insert(key, settings);
    s1.insert(list_key_of(c), string_array(stored_list(s1, c).push(key)))
}

/// The keys an instance key must differ from: the keys of the store and those of
/// a service list.
fn taken_keys(store: &ConfigStore, list: Vec<String>) -> (r: Vec<String>)
    ensures
        forall|k: Seq<char>| store@.contains_key(k) ==> views(r@).contains(k),
        forall|k: Seq<char>| views(list@).contains(k) ==> views(r@).contains(k),
{
    let es = store.entries();
    let ghost ev = json_entries_view(es@);
    proof {
        crate::json::lemma_entries_view(es@);
    }
    let ghost l0 = views(list@);
    let mut r = list;
    let mut i: usize = 0;
    while i < es.len()
        invariant
            ev == json_entries_view(es@),
            ev.len() == es@.len(),
            forall|j: int| 0 <= j < es@.len() ==> #[trigger] ev[j] == (es@[j].0@, crate::json::json_view(es@[j].1)),
            i <= es@.len(),
            views(r@) == l0 + crate::json::entry_keys(ev.take(i as int)),
        decreases es@.len() - i,
    {
        let ghost before = views(r@);
        r.push(es[i].0.clone());
        proof {
            assert(views(r@) =~= before.push(es@[i as int].0@));
            assert(crate::json::entry_keys(ev.take(i + 1)) =~= crate::json::entry_keys(ev.take(i as int)).push(ev[i as int].0));
        }
        i = i + 1;
    }
    assert(ev.take(es@.len() as int) =~= ev);
    proof {
        let all = views(r@);
        assert forall|k: Seq<char>| store@.contains_key(k) implies views(r@).contains(k) by {
            crate::json::lemma_first_index(ev, k);
            let j = crate::json::first_index(ev, k)->0;
            assert(all[l0.len() + j] == k);
        }
        assert forall|k: Seq<char>| l0.contains(k) implies views(r@).contains(k) by {
            let j = choose|j: int| 0 <= j < l0.len() && l0[j] == k;
            assert(all[j] == k);
        }
    }
    r
}

/// Adds an instance of a service under a fresh key, which is returned.
pub fn add_instance(store: &mut ConfigStore, registries: &ServiceRegistries, c: ServiceCategory, name: &str) -> (key: String)
    ensures
        exists|t: u128, z: nat| key@ == crate::config::instance_key_for(name@, t) + crate::config::zeros(z),
        !old(store)@.contains_key(key@),
        !stored_list(old(store)@, c).contains(key@),
        final(store)@ == with_instance(
            old(store)@,
            c,
            key@,
            new_instance_settings(registries.defaults(c, name@), name@),
        ),
{
    let existing = store.get_service_list(c);
    let taken = taken_keys(store, existing);
    let key = crate::config::unused_instance_key(name, &taken);
    let default = registries.default_config(c, name);
    let mut entries: Vec<(String, Json)> = match default {
        Json::Object(es) => es,
        _ => Vec::new(),
    };
    proof {
        assert(json_entries_view(Seq::<(String, Json)>::empty()) =~= Seq::empty());
    }
    crate::translators::ordered_set(&mut entries, "instanceName".to_string(), Json::Str(service_display_name(name)));
    crate::translators::ordered_set(&mut entries, "enable".to_string(), Json::Bool(true));
    store.set(key.as_str(), Json::Object(entries));
    let mut list = store.get_service_list(c);
    let ghost before = views(list@);
    list.push(key.clone());
    assert(views(list@) =~= before.push(key@));
    store.set_service_list(c, &list);
    key
}

/// An added instance is listed last in its category and its settings are stored
/// under its key.
pub proof fn law_added_instance_listed(
    store: Map<Seq<char>, JsonView>,
    c: ServiceCategory,
    key: Seq<char>,
    settings: JsonView,
)
    requires
        key != list_key_of(c),
    ensures
        stored_list(with_instance(store, c, key, settings), c) == stored_list(store, c).push(key),
        map_get(with_instance(store, c, key, settings), key) == Some(settings),
{
    let s1 = store.insert(key, settings);
    assert(map_get(s1, list_key_of(c)) == map_get(store, list_key_of(c)));
    assert(stored_list(s1, c) == stored_list(store, c));
    crate::config::law_service_list_roundtrip(s1, c, stored_list(s1, c).push(key));
}

/// A deleted instance is no longer listed in its category, and its settings are
/// gone.
pub proof fn law_deleted_instance_gone(store: Map<Seq<char>, JsonView>, c: ServiceCategory, key: Seq<char>)
    requires
        key != list_key_of(c),
    ensures
        ({
            let after = store.insert(list_key_of(c), string_array(without(stored_list(store, c), key))).remove(key);
            &&& !stored_list(after, c).contains(key)
            &&& map_get(after, key) is None
        }),
{
    let l = without(stored_list(store, c), key);
    let s1 = store.insert(list_key_of(c), string_array(l));
    let after = s1.remove(key);
    assert(map_get(after, list_key_of(c)) == map_get(s1, list_key_of(c)));
    crate::config::law_service_list_roundtrip(store, c, l);
    assert(stored_list(after, c) == l);
    if l.contains(key) {
        let i = choose|i: int| 0 <= i < l.len() && l[i] == key;
        stored_list(store, c).lemma_filter_pred(|k: Seq<char>| k != key, i);
    }
}

/// The fields of the edit dialog for an instance: from its stored settings, or the
/// service's defaults when none are stored.
pub fn edit_fields(
    store: &ConfigStore,
    registries: &ServiceRegistries,
    c: ServiceCategory,
    key: &str,
    service_name: &str,
) -> (r: Vec<FieldDef>)
    ensures
        field_views(r@) == fields_for(
            service_name@,
            match map_get(store@, key@) {
                Some(v) => v,
                None => registries.defaults(c, service_name@),
            },
            c,
            registries.defaults(c, service_name@),
        ),
{
    let current = match store.get(key) {
        Some(v) => v,
        None => registries.default_config(c, service_name),
    };
    build_fields(service_name, &current, c, registries)
}

/// The DeepL mode the fields select: the `type` field's text, else `free`.
pub open spec fn selected_type(fields: Seq<FieldView>) -> Seq<char>
    decreases fields.len(),
{
    if fields.len() == 0 {
        "free"@
    } else if fields[0].key == "type"@ {
        match view_str(fields[0].value) {
            Some(t) => t,
            None => "free"@,
        }
    } else {
        selected_type(fields.drop_first())
    }
}

/// Whether the row of a field is shown: DeepL's key only in API mode, its address
/// only in DeepLX mode, every other row always.
pub open spec fn row_visible(key: Seq<char>, service_name: Seq<char>, mode: Seq<char>) -> bool {
    if key == "auth_key"@ {
        mode == "api"@
    } else if key == "custom_url"@ && service_name == "deepl"@ {
        mode == "deeplx"@
    } else {
        true
    }
}

fn selected_type_of(fields: &Vec<FieldDef>) -> (r: String)
    ensures
        r@ == selected_type(field_views(fields@)),
{
    let ghost fv = field_views(fields@);
    let mut i: usize = 0;
    assert(fv.skip(0) =~= fv);
    while i < fields.len()
        invariant
            fv == field_views(fields@),
            fv.len() == fields@.len(),
            i <= fields@.len(),
            selected_type(fv) == selected_type(fv.skip(i as int)),
        decreases fields@.len() - i,
    {
        proof {
            assert(fv.skip(i as int)[0] == fv[i as int]);
            assert(fv.skip(i as int).drop_first() =~= fv.skip(i + 1));
        }
        if str_eq(fields[i].key.as_str(), "type") {
            return match fields[i].value.as_str() {
                Some(t) => t.to_string(),
                None => "free".to_string(),
            };
        }
        i = i + 1;
    }
    assert(fv.skip(i as int) =~= Seq::<FieldView>::empty());
    "free".to_string()
}

/// Whether the row of field `i` is shown when the dialog opens.
pub fn field_row_visible(fields: &Vec<FieldDef>, service_name: &str, i: usize) -> (r: bool)
    requires
        i < fields@.len(),
    ensures
        r == row_visible(fields@[i as int].key@, service_name@, selected_type(field_views(fields@))),
{
    let mode = selected_type_of(fields);
    let key = fields[i].key.as_str();
    if str_eq(key, "auth_key") {
        str_eq(mode.as_str(), "api")
    } else if str_eq(key, "custom_url") && str_eq(service_name, "deepl") {
        str_eq(mode.as_str(), "deeplx")
    } else {
        true
    }
}

/// The DeepL mode at a drop-down position (`free` past the end).
pub open spec fn deepl_mode_at(i: nat) -> Seq<char> {
    if i == 1 {
        "api"@
    } else if i == 2 {
        "deeplx"@
    } else {
        "free"@
    }
}

pub fn deepl_mode(selected: usize) -> (r: String)
    ensures
        r@ == deepl_mode_at(selected as nat),
{
    if selected == 1 {
        "api".to_string()
    } else if selected == 2 {
        "deeplx".to_string()
    } else {
        "free".to_string()
    }
}

/// The value a drop-down stands for at a position (empty past the end).
pub fn dropdown_value(options: &Vec<(String, Label)>, selected: usize) -> (r: String)
    ensures
        r@ == if selected < options@.len() {
            options@[selected as int].0@
        } else {
            Seq::empty()
        },
{
    if selected < options.len() {
        options[selected].0.clone()
    } else {
        String::new()
    }
}

/// The saved entries: the dialog's values, then each stored setting the dialog
/// does not show.
pub open spec fn keep_missing(
    result: Seq<(Seq<char>, JsonView)>,
    existing: Seq<(Seq<char>, JsonView)>,
) -> Seq<(Seq<char>, JsonView)>
    decreases existing.len(),
{
    if existing.len() == 0 {
        result
    } else {
        let r = keep_missing(result, existing.drop_last());
        if lookup(r, existing.last().0) is None {
            crate::translators::ordered_insert(r, existing.last().0, existing.last().1)
        } else {
            r
        }
    }
}

/// The settings saved from the edit dialog: its values in key order (a later
/// value for the same key winning), keeping the stored settings it does not show.
pub open spec fn saved_settings_of(values: Seq<(Seq<char>, JsonView)>, existing: Option<JsonView>) -> JsonView {
    let result = crate::translators::ordered_insert_all(Seq::empty(), values);
    JsonView::Object(
        match existing {
            Some(JsonView::Object(es)) => keep_missing(result, es),
            _ => result,
        },
    )
}

pub fn saved_settings(values: &Vec<(String, Json)>, existing: Option<&Json>) -> (r: Json)
    ensures
        r@ == saved_settings_of(
            json_entries_view(values@),
            match existing {
                Some(e) => Some(e@),
                None => None,
            },
        ),
{
    let mut result: Vec<(String, Json)> = Vec::new();
    let mut empty = Json::Object(Vec::new());
    proof {
        assert(json_entries_view(Seq::<(String, Json)>::empty()) =~= Seq::empty());
    }
    crate::translators::merge_extra_args(&mut empty, &Json::Object(clone_entries(values)));
    match empty {
        Json::Object(es) => {
            result = es;
        },
        _ => {},
    }
    let ghost r0 = json_entries_view(result@);
    match existing {
        Some(Json::Object(ex)) => {
            proof {
                crate::json::lemma_entries_view(ex@);
            }
            let ghost xv = json_entries_view(ex@);
            let mut i: usize = 0;
            while i < ex.len()
                invariant
                    xv == json_entries_view(ex@),
                    xv.len() == ex@.len(),
                    forall|j: int| 0 <= j < ex@.len() ==> #[trigger] xv[j] == (ex@[j].0@, ex@[j].1@),
                    i <= ex@.len(),
                    json_entries_view(result@) == keep_missing(r0, xv.take(i as int)),
                decreases ex@.len() - i,
            {
                proof {
                    assert(xv.take(i + 1).drop_last() =~= xv.take(i as int));
                    assert(xv.take(i + 1).last() == xv[i as int]);
                }
                if crate::json::entries_find(&result, ex[i].0.as_str()).is_none() {
                    let k = ex[i].0.clone();
                    let v = ex[i].1.deep_clone();
                    crate::translators::ordered_set(&mut result, k, v);
                }
                i = i + 1;
            }
            assert(xv.take(ex@.len() as int) =~= xv);
        },
        _ => {},
    }
    Json::Object(result)
}

fn clone_entries(values: &Vec<(String, Json)>) -> (r: Vec<(String, Json)>)
    ensures
        json_entries_view(r@) == json_entries_view(values@),
{
    proof {
        crate::json::lemma_entries_view(values@);
    }
    let mut out: Vec<(String, Json)> = Vec::new();
    let mut i: usize = 0;
    while i < values.len()
        invariant
            i <= values@.len(),
            json_entries_view(out@) == json_entries_view(values@).take(i as int),
            json_entries_view(values@).len() == values@.len(),
            forall|j: int| 0 <= j < values@.len() ==> #[trigger] json_entries_view(values@)[j] == (values@[j].0@, values@[j].1@),
        decreases values@.len() - i,
    {
        let ghost before = out@;
        out.push((values[i].0.clone(), values[i].1.deep_clone()));
        proof {
            crate::json::lemma_entries_view(out@);
            crate::json::lemma_entries_view(before);
            assert(json_entries_view(out@) =~= json_entries_view(values@).take(i + 1));
        }
        i = i + 1;
    }
    out
}

// ---------------------------------------------------------------------------
// Fetching the models of a chat service.
// ---------------------------------------------------------------------------

/// The request that lists a chat service's models, refused without an API key.
pub open spec fn model_list_request_of(api_format: Seq<char>, request_url: Seq<char>, api_key: Seq<char>) -> Option<HttpRequestView> {
    if trim(api_key).len() == 0 {
        None
    } else {
        Some(HttpRequestView {
            method: HttpMethod::Get,
            url: model_list_url_of(api_format, request_url),
            headers: if api_format == "anthropic"@ {
                seq![("x-api-key"@, api_key), ("anthropic-version"@, "2023-06-01"@)]
            } else {
                seq![("Authorization"@, "Bearer "@ + api_key)]
            },
            body: None,
        })
    }
}

/// The model list request, or the message `API key is required` without a key.
pub fn model_list_request(api_format: &str, request_url: &str, api_key: &str) -> (r: Result<HttpRequest, String>)
    ensures
        match model_list_request_of(api_format@, request_url@, api_key@) {
            Some(q) => r matches Ok(req) && req@ == q,
            None => r matches Err(m) && m@ == "API key is required"@,
        },
{
    let t = crate::text::trim_str(api_key);
    if t.unicode_len() == 0 {
        return Err("API key is required".to_string());
    }
    let url = model_list_url(api_format, request_url);
    let mut headers: Vec<(String, String)> = Vec::new();
    if str_eq(api_format, "anthropic") {
        headers.push(("x-api-key".to_string(), api_key.to_string()));
        headers.push(("anthropic-version".to_string(), "2023-06-01".to_string()));
    } else {
        let mut b = "Bearer ".to_string();
        b.append(api_key);
        headers.push(("Authorization".to_string(), b));
    }
    let req = HttpRequest { method: HttpMethod::Get, url, headers, body: None };
    assert(req@.headers =~= model_list_request_of(api_format@, request_url@, api_key@)->0.headers);
    Ok(req)
}

} // verus!
