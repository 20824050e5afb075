//! The built-in translation backends: the HTTP request each one makes for a
//! translation, and how each one reads its service's answer.

use vstd::prelude::*;
use crate::json::{
    Json, JsonView, json_text, to_json_text, view_field, view_at, view_str, opt_str, field_str_or,
    view_array, view_bool, json_view,
};
use crate::services::{
    TranslateRequest, TranslateResult, TranslateResultView, DictionaryResult, DictionaryView,
    Pronunciation, Explanation, Explain, ServiceError, HttpMethod, HttpRequest, HttpRequestView,
    header_views, url_encode, url_encoded, md5_hex, md5_hex_of, sha256_hex, sha256_hex_of,
    outcome_view, dictionary_view,
};
use crate::text::{
    trim, trim_str, str_eq, views, join, replace_all, replace_str, has_suffix, ends_with, has_prefix,
    starts_with, chars_of, digits, u64_to_base, push_char, string_from_chars, join_strings,
};

verus! {

// ---------------------------------------------------------------------------
// Reading the answers.
// ---------------------------------------------------------------------------

/// Field `key` of an optional value.
pub open spec fn opt_field(o: Option<JsonView>, key: Seq<char>) -> Option<JsonView> {
    match o {
        Some(j) => view_field(j, key),
        None => None,
    }
}

/// Element `i` of an optional value.
pub open spec fn opt_at(o: Option<JsonView>, i: int) -> Option<JsonView> {
    match o {
        Some(j) => view_at(j, i),
        None => None,
    }
}

/// The text of an optional value when it is a string, else empty.
pub open spec fn str_or_empty(o: Option<JsonView>) -> Seq<char> {
    match opt_str(o) {
        Some(s) => s,
        None => Seq::empty(),
    }
}

fn field_of<'a>(o: Option<&'a Json>, key: &str) -> (r: Option<&'a Json>)
    ensures
        match r {
            Some(x) => opt_field(
                match o {
                    Some(j) => Some(j@),
                    None => None,
                },
                key@,
            ) == Some(x@),
            None => opt_field(
                match o {
                    Some(j) => Some(j@),
                    None => None,
                },
                key@,
            ) is None,
        },
{
    match o {
        Some(j) => j.get(key),
        None => None,
    }
}

fn at_of<'a>(o: Option<&'a Json>, i: usize) -> (r: Option<&'a Json>)
    ensures
        match r {
            Some(x) => opt_at(
                match o {
                    Some(j) => Some(j@),
                    None => None,
                },
                i as int,
            ) == Some(x@),
            None => opt_at(
                match o {
                    Some(j) => Some(j@),
                    None => None,
                },
                i as int,
            ) is None,
        },
{
    match o {
        Some(j) => j.at(i),
        None => None,
    }
}

fn text_of(o: Option<&Json>) -> (r: String)
    ensures
        r@ == str_or_empty(
            match o {
                Some(j) => Some(j@),
                None => None,
            },
        ),
{
    match o {
        Some(j) => match j.as_str() {
            Some(s) => s.to_string(),
            None => String::new(),
        },
        None => String::new(),
    }
}

/// The text of setting `key`, or `default` when it is missing or no string.
pub fn config_str(config: &Json, key: &str, default: &str) -> (r: String)
    ensures
        r@ == field_str_or(config@, key@, default@),
{
    match config.get(key) {
        Some(v) => match v.as_str() {
            Some(s) => s.to_string(),
            None => default.to_string(),
        },
        None => default.to_string(),
    }
}

/// A text answer, or the service's "No translation result" when it is empty.
pub open spec fn text_outcome(service: Seq<char>, t: Seq<char>) -> Result<TranslateResultView, (Seq<char>, Seq<char>)> {
    if t.len() == 0 {
        Err((service, "No translation result"@))
    } else {
        Ok(TranslateResultView::Text(t))
    }
}

fn text_result(service: &str, t: String) -> (r: Result<TranslateResult, ServiceError>)
    ensures
        outcome_view(r) == text_outcome(service@, t@),
{
    if t.unicode_len() == 0 {
        Err(ServiceError::new(service, "No translation result"))
    } else {
        Ok(TranslateResult::Text(t))
    }
}

/// Texts appended one after another, a line break before each one that follows a
/// non-empty text so far.
pub open spec fn line_fold(lines: Seq<Seq<char>>) -> Seq<char>
    decreases lines.len(),
{
    if lines.len() == 0 {
        Seq::empty()
    } else {
        let acc = line_fold(lines.drop_last());
        if acc.len() > 0 {
            acc + seq!['\n'] + lines.last()
        } else {
            acc + lines.last()
        }
    }
}

/// The texts among values, in order, others skipped.
pub open spec fn string_items(items: Seq<JsonView>) -> Seq<Seq<char>>
    decreases items.len(),
{
    if items.len() == 0 {
        Seq::empty()
    } else {
        let before = string_items(items.drop_last());
        match view_str(items.last()) {
            Some(s) => before.push(s),
            None => before,
        }
    }
}

/// The texts of field `key` of the values, in order, values without it skipped.
pub open spec fn field_items(items: Seq<JsonView>, key: Seq<char>) -> Seq<Seq<char>>
    decreases items.len(),
{
    if items.len() == 0 {
        Seq::empty()
    } else {
        let before = field_items(items.drop_last(), key);
        match opt_str(view_field(items.last(), key)) {
            Some(s) => before.push(s),
            None => before,
        }
    }
}

/// The items of an array value, or none for another value.
pub open spec fn array_items(o: Option<JsonView>) -> Seq<JsonView> {
    match o {
        Some(JsonView::Array(a)) => a,
        _ => Seq::empty(),
    }
}

pub fn items_of(o: Option<&Json>) -> (r: &[Json])
    ensures
        crate::json::json_seq_view(r@) == array_items(
            match o {
                Some(j) => Some(j@),
                None => None,
            },
        ),
{
    match o {
        Some(Json::Array(v)) => v.as_slice(),
        _ => &[],
    }
}

/// The strings among `items` (a field of each when `key` is given), in order.
pub fn collect_strings(items: &[Json], key: Option<&str>) -> (r: Vec<String>)
    ensures
        views(r@) == match key {
            Some(k) => field_items(crate::json::json_seq_view(items@), k@),
            None => string_items(crate::json::json_seq_view(items@)),
        },
{
    let ghost sv = crate::json::json_seq_view(items@);
    proof {
        crate::json::lemma_seq_view(items@);
    }
    let mut out: Vec<String> = Vec::new();
    let mut i: usize = 0;
    while i < items.len()
        invariant
            sv == crate::json::json_seq_view(items@),
            sv.len() == items@.len(),
            forall|k: int| 0 <= k < items@.len() ==> #[trigger] sv[k] == json_view(items@[k]),
            i <= items@.len(),
            views(out@) == match key {
                Some(k) => field_items(sv.take(i as int), k@),
                None => string_items(sv.take(i as int)),
            },
        decreases items@.len() - i,
    {
        proof {
            assert(sv.take(i + 1).drop_last() =~= sv.take(i as int));
            assert(sv.take(i + 1).last() == items@[i as int]@);
        }
        let found = match key {
            Some(k) => match items[i].get(k) {
                Some(v) => v.as_str(),
                None => None,
            },
            None => items[i].as_str(),
        };
        match found {
            Some(s) => {
                let ghost before = views(out@);
                out.push(s.to_string());
                assert(views(out@) =~= before.push(s@));
            },
            None => {},
        }
        i = i + 1;
    }
    assert(sv.take(items@.len() as int) =~= sv);
    out
}

fn fold_lines(lines: &Vec<String>) -> (r: String)
    ensures
        r@ == line_fold(views(lines@)),
{
    let mut out = String::new();
    let mut i: usize = 0;
    while i < lines.len()
        invariant
            i <= lines@.len(),
            out@ == line_fold(views(lines@).take(i as int)),
        decreases lines@.len() - i,
    {
        proof {
            assert(views(lines@).take(i + 1).drop_last() =~= views(lines@).take(i as int));
        }
        if out.unicode_len() > 0 {
            push_char(&mut out, '\n');
        }
        out.append(lines[i].as_str());
        i = i + 1;
    }
    assert(views(lines@).take(lines@.len() as int) =~= views(lines@));
    out
}

fn get_request(url: String, headers: Vec<(String, String)>) -> (r: HttpRequest)
    ensures
        r.method == HttpMethod::Get,
        r.url == url,
        r.headers == headers,
        r.body is None,
{
    HttpRequest { method: HttpMethod::Get, url, headers, body: None }
}

fn header(name: &str, value: &str) -> (r: (String, String))
    ensures
        r.0@ == name@,
        r.1@ == value@,
{
    (name.to_string(), value.to_string())
}

// ---------------------------------------------------------------------------
// Google.
// ---------------------------------------------------------------------------

/// Google's web translation endpoint.
pub struct GoogleTranslate;

pub open spec fn google_url(base: Seq<char>, from: Seq<char>, to: Seq<char>, encoded: Seq<char>) -> Seq<char> {
    base + "/translate_a/single?client=gtx&sl="@ + from + "&tl="@ + to + "&hl="@ + to
        + "&dt=t&ie=UTF-8&oe=UTF-8&q="@ + encoded
}

/// The request for a translation: a GET of the endpoint under `custom_url` (Google's
/// own by default), with a browser user agent.
pub open spec fn google_request_of(config: JsonView, text: Seq<char>, from: Seq<char>, to: Seq<char>) -> HttpRequestView {
    HttpRequestView {
        method: HttpMethod::Get,
        url: google_url(
            field_str_or(config, "custom_url"@, "https://translate.google.com"@),
            from,
            to,
            url_encoded(text),
        ),
        headers: seq![("User-Agent"@, "Mozilla/5.0"@)],
        body: None,
    }
}

/// The first texts of the entries of `items` (`items[k][0]`), one after another.
pub open spec fn google_pieces(items: Seq<JsonView>) -> Seq<char>
    decreases items.len(),
{
    if items.len() == 0 {
        Seq::empty()
    } else {
        google_pieces(items.drop_last()) + str_or_empty(view_at(items.last(), 0))
    }
}

/// The meanings in a list of terms: the first element of each term that is an array
/// and starts with a string.
pub open spec fn term_texts(terms: Seq<JsonView>) -> Seq<Seq<char>>
    decreases terms.len(),
{
    if terms.len() == 0 {
        Seq::empty()
    } else {
        let before = term_texts(terms.drop_last());
        match opt_str(view_at(terms.last(), 0)) {
            Some(s) => if terms.last() is Array {
                before.push(s)
            } else {
                before
            },
            None => before,
        }
    }
}

/// A group of the dictionary part that has at least two elements: its part of
/// speech (first element) and the meanings of its terms (third element).
pub open spec fn google_group(group: JsonView) -> Option<(Seq<char>, Seq<Seq<char>>)> {
    match group {
        JsonView::Array(parts) => if parts.len() >= 2 {
            let list = term_texts(array_items(view_at(group, 2)));
            if list.len() > 0 {
                Some((str_or_empty(Some(parts[0])), list))
            } else {
                None
            }
        } else {
            None
        },
        _ => None,
    }
}

pub open spec fn google_groups(groups: Seq<JsonView>) -> Seq<(Seq<char>, Seq<Seq<char>>)>
    decreases groups.len(),
{
    if groups.len() == 0 {
        Seq::empty()
    } else {
        let before = google_groups(groups.drop_last());
        match google_group(groups.last()) {
            Some(g) => before.push(g),
            None => before,
        }
    }
}

/// Whether the dictionary part can be read: every group that is an array of two or
/// more elements has a third one.
pub open spec fn google_dictionary_readable(dict: JsonView) -> bool {
    forall|i: int|
        0 <= i < array_items(Some(dict)).len() ==> match #[trigger] array_items(Some(dict))[i] {
            JsonView::Array(parts) => parts.len() >= 2 ==> parts.len() >= 3,
            _ => true,
        }
}

/// Whether the dictionary part of Google's answer (its element 1), when there is
/// one, can be read.
pub fn google_response_readable(resp: &Json) -> (r: bool)
    ensures
        r == match view_at(resp@, 1) {
            Some(d) => google_dictionary_readable(d),
            None => true,
        },
{
    match resp.at(1) {
        Some(d) => {
            let groups = items_of(Some(d));
            let ghost gv = crate::json::json_seq_view(groups@);
            proof {
                crate::json::lemma_seq_view(groups@);
            }
            let mut i: usize = 0;
            while i < groups.len()
                invariant
                    gv == crate::json::json_seq_view(groups@),
                    gv == array_items(Some(d@)),
                    view_at(resp@, 1) == Some(d@),
                    gv.len() == groups@.len(),
                    forall|k: int| 0 <= k < groups@.len() ==> #[trigger] gv[k] == json_view(groups@[k]),
                    i <= groups@.len(),
                    forall|k: int| 0 <= k < i ==> match #[trigger] gv[k] {
                        JsonView::Array(parts) => parts.len() >= 2 ==> parts.len() >= 3,
                        _ => true,
                    },
                decreases groups@.len() - i,
            {
                match &groups[i] {
                    Json::Array(parts) => {
                        proof {
                            crate::json::lemma_seq_view(parts@);
                        }
                        if parts.len() >= 2 && parts.len() < 3 {
                            proof {
                                assert(gv[i as int] == json_view(groups@[i as int]));
                                assert(gv[i as int] == JsonView::Array(crate::json::json_seq_view(parts@)));
                                assert(array_items(Some(d@))[i as int] == gv[i as int]);
                                assert(!google_dictionary_readable(d@));
                            }
                            return false;
                        }
                    },
                    _ => {},
                }
                i = i + 1;
            }
            true
        },
        None => true,
    }
}

/// The dictionary entry from the dictionary part of the answer and the whole
/// answer: the phonetic symbol (`full[0][0][1][3]`, when that list has four or more
/// elements) as the source pronunciation, and the meanings of each group.
pub open spec fn google_dictionary(dict: JsonView, full: JsonView) -> DictionaryView {
    let ph = opt_at(opt_at(view_at(full, 0), 0), 1);
    DictionaryView {
        pronunciations: match ph {
            Some(JsonView::Array(p)) => if p.len() >= 4 {
                seq![("source"@, str_or_empty(Some(p[3])))]
            } else {
                Seq::empty()
            },
            _ => Seq::empty(),
        },
        explanations: google_groups(array_items(Some(dict))),
        associations: Seq::empty(),
        sentences: Seq::empty(),
    }
}

/// Google's answer: a dictionary entry when its second element is an array, else
/// the concatenated pieces of its first element, an error when they are empty.
pub open spec fn google_outcome(resp: JsonView) -> Result<TranslateResultView, (Seq<char>, Seq<char>)> {
    match view_at(resp, 1) {
        Some(JsonView::Array(d)) => Ok(TranslateResultView::Dictionary(google_dictionary(JsonView::Array(d), resp))),
        _ => text_outcome("google"@, google_pieces(array_items(view_at(resp, 0)))),
    }
}

pub fn google_request_with(config: &Json, encoded: &str, from: &str, to: &str) -> (r: HttpRequest)
    ensures
        r@.method == HttpMethod::Get,
        r@.url == google_url(
            field_str_or(config@, "custom_url"@, "https://translate.google.com"@),
            from@,
            to@,
            encoded@,
        ),
        r@.headers == seq![("User-Agent"@, "Mozilla/5.0"@)],
        r@.body is None,
{
    let mut url = config_str(config, "custom_url", "https://translate.google.com");
    url.append("/translate_a/single?client=gtx&sl=");
    url.append(from);
    url.append("&tl=");
    url.append(to);
    url.append("&hl=");
    url.append(to);
    url.append("&dt=t&ie=UTF-8&oe=UTF-8&q=");
    url.append(encoded);
    let mut hs: Vec<(String, String)> = Vec::new();
    hs.push(header("User-Agent", "Mozilla/5.0"));
    let r = get_request(url, hs);
    assert(r@.headers =~= seq![("User-Agent"@, "Mozilla/5.0"@)]);
    r
}

/// Reads the dictionary part of an answer.
pub fn parse_dictionary(dict: &Json, full: &Json) -> (r: DictionaryResult)
    requires
        google_dictionary_readable(dict@),
    ensures
        dictionary_view(r) == google_dictionary(dict@, full@),
{
    let mut pronunciations: Vec<Pronunciation> = Vec::new();
    let ph = at_of(at_of(full.at(0), 0), 1);
    match ph {
        Some(Json::Array(p)) => {
            proof {
                crate::json::lemma_seq_view(p@);
            }
            if p.len() >= 4 {
                let sym = text_of(Some(&p[3]));
                pronunciations.push(Pronunciation { region: "source".to_string(), symbol: sym });
            }
        },
        _ => {},
    }
    let groups = items_of(Some(dict));
    let ghost gv = crate::json::json_seq_view(groups@);
    proof {
        crate::json::lemma_seq_view(groups@);
    }
    let mut explanations: Vec<Explanation> = Vec::new();
    let mut i: usize = 0;
    while i < groups.len()
        invariant
            gv == crate::json::json_seq_view(groups@),
            gv == array_items(Some(dict@)),
            gv.len() == groups@.len(),
            forall|k: int| 0 <= k < groups@.len() ==> #[trigger] gv[k] == json_view(groups@[k]),
            google_dictionary_readable(dict@),
            i <= groups@.len(),
            explanations@.map_values(|e: Explanation| crate::services::explanation_view(e))
                == google_groups(gv.take(i as int)),
        decreases groups@.len() - i,
    {
        proof {
            assert(gv.take(i + 1).drop_last() =~= gv.take(i as int));
            assert(gv.take(i + 1).last() == gv[i as int]);
        }
        let ghost before = explanations@.map_values(|e: Explanation| crate::services::explanation_view(e));
        match &groups[i] {
            Json::Array(parts) => {
                proof {
                    crate::json::lemma_seq_view(parts@);
                    assert(gv[i as int] == array_items(Some(dict@))[i as int]);
                }
                if parts.len() >= 2 {
                    let name = text_of(Some(&parts[0]));
                    let terms = items_of(Some(&parts[2]));
                    let texts = collect_first_strings(terms);
                    if texts.len() > 0 {
                        let mut list: Vec<Explain> = Vec::new();
                        let mut k: usize = 0;
                        while k < texts.len()
                            invariant
                                k <= texts@.len(),
                                list@.map_values(|x: Explain| x.text@) == views(texts@).take(k as int),
                            decreases texts@.len() - k,
                        {
                            let ghost before_list = list@.map_values(|x: Explain| x.text@);
                            let item = Explain { text: texts[k].clone() };
                            list.push(item);
                            assert(list@.map_values(|x: Explain| x.text@) =~= before_list.push(item.text@));
                            assert(views(texts@)[k as int] == texts@[k as int]@);
                            assert(views(texts@).take(k + 1) =~= views(texts@).take(k as int).push(views(texts@)[k as int]));
                            k = k + 1;
                        }
                        assert(views(texts@).take(texts@.len() as int) =~= views(texts@));
                        let e = Explanation { trait_name: name, explains: list };
                        explanations.push(e);
                        assert(explanations@.map_values(|e: Explanation| crate::services::explanation_view(e))
                            =~= before.push(crate::services::explanation_view(e)));
                    }
                }
            },
            _ => {},
        }
        i = i + 1;
    }
    assert(gv.take(groups@.len() as int) =~= gv);
    let r = DictionaryResult {
        pronunciations,
        explanations,
        associations: Vec::new(),
        sentences: Vec::new(),
    };
    proof {
        assert(dictionary_view(r).associations =~= Seq::<Seq<char>>::empty());
        assert(dictionary_view(r).sentences =~= Seq::<(Seq<char>, Seq<char>)>::empty());
        match google_dictionary(dict@, full@).pronunciations.len() {
            _ => {},
        }
        assert(dictionary_view(r).pronunciations =~= google_dictionary(dict@, full@).pronunciations);
    }
    r
}

/// The first strings of the terms that are arrays (`term[0]`).
fn collect_first_strings(terms: &[Json]) -> (r: Vec<String>)
    ensures
        views(r@) == term_texts(crate::json::json_seq_view(terms@)),
{
    let ghost sv = crate::json::json_seq_view(terms@);
    proof {
        crate::json::lemma_seq_view(terms@);
    }
    let mut out: Vec<String> = Vec::new();
    let mut i: usize = 0;
    while i < terms.len()
        invariant
            sv == crate::json::json_seq_view(terms@),
            sv.len() == terms@.len(),
            forall|k: int| 0 <= k < terms@.len() ==> #[trigger] sv[k] == json_view(terms@[k]),
            i <= terms@.len(),
            views(out@) == term_texts(sv.take(i as int)),
        decreases terms@.len() - i,
    {
        proof {
            assert(sv.take(i + 1).drop_last() =~= sv.take(i as int));
            assert(sv.take(i + 1).last() == terms@[i as int]@);
        }
        if terms[i].is_array() {
            match terms[i].at(0) {
                Some(v) => match v.as_str() {
                    Some(s) => {
                        let ghost before = views(out@);
                        out.push(s.to_string());
                        assert(views(out@) =~= before.push(s@));
                    },
                    None => {},
                },
                None => {},
            }
        }
        i = i + 1;
    }
    assert(sv.take(terms@.len() as int) =~= sv);
    out
}

impl GoogleTranslate {
    pub fn name(&self) -> (r: &'static str)
        ensures
            r@ == "google"@,
    {
        "google"
    }

    /// The request for a translation.
    pub fn request(&self, req: &TranslateRequest) -> (r: HttpRequest)
        ensures
            r@ == google_request_of(req.config@, req.text@, req.from@, req.to@),
    {
        let enc = url_encode(req.text.as_str());
        google_request_with(&req.config, enc.as_str(), req.from.as_str(), req.to.as_str())
    }

    /// The result from Google's answer.
    pub fn response(&self, resp: &Json) -> (r: Result<TranslateResult, ServiceError>)
        requires
            match view_at(resp@, 1) {
                Some(d) => google_dictionary_readable(d),
                None => true,
            },
        ensures
            outcome_view(r) == google_outcome(resp@),
    {
        match resp.at(1) {
            Some(d) => {
                if d.is_array() {
                    return Ok(TranslateResult::Dictionary(parse_dictionary(d, resp)));
                }
            },
            None => {},
        }
        let items = items_of(resp.at(0));
        let ghost sv = crate::json::json_seq_view(items@);
        proof {
            crate::json::lemma_seq_view(items@);
        }
        let mut out = String::new();
        let mut i: usize = 0;
        while i < items.len()
            invariant
                sv == crate::json::json_seq_view(items@),
                sv.len() == items@.len(),
                forall|k: int| 0 <= k < items@.len() ==> #[trigger] sv[k] == json_view(items@[k]),
                i <= items@.len(),
                out@ == google_pieces(sv.take(i as int)),
            decreases items@.len() - i,
        {
            proof {
                assert(sv.take(i + 1).drop_last() =~= sv.take(i as int));
                assert(sv.take(i + 1).last() == items@[i as int]@);
            }
            let t = text_of(items[i].at(0));
            out.append(t.as_str());
            i = i + 1;
        }
        assert(sv.take(items@.len() as int) =~= sv);
        text_result("google", out)
    }

    /// The settings a new instance starts with.
    pub fn default_config(&self) -> (r: Json)
        ensures
            r@ == JsonView::Object(seq![("custom_url"@, JsonView::Str("https://translate.google.com"@))]),
    {
        let mut es: Vec<(String, Json)> = Vec::new();
        es.push(("custom_url".to_string(), Json::Str("https://translate.google.com".to_string())));
        let r = Json::Object(es);
        proof {
            crate::json::lemma_entries_view(es@);
            assert(crate::json::json_entries_view(es@) =~= seq![("custom_url"@, JsonView::Str("https://translate.google.com"@))]);
        }
        assert(r@ == JsonView::Object(seq![("custom_url"@, JsonView::Str("https://translate.google.com"@))]));
        r
    }
}


// ---------------------------------------------------------------------------
// Building JSON values.
// ---------------------------------------------------------------------------

fn jstr(s: &str) -> (r: Json)
    ensures
        r@ == JsonView::Str(s@),
{
    Json::Str(s.to_string())
}

fn obj1(k: &str, v: Json) -> (r: Json)
    ensures
        r@ == JsonView::Object(seq![(k@, v@)]),
{
    let mut es: Vec<(String, Json)> = Vec::new();
    let ghost vv = v@;
    es.push((k.to_string(), v));
    proof {
        crate::json::lemma_entries_view(es@);
        assert(crate::json::json_entries_view(es@) =~= seq![(k@, vv)]);
    }
    Json::Object(es)
}

fn obj2(k1: &str, v1: Json, k2: &str, v2: Json) -> (r: Json)
    ensures
        r@ == JsonView::Object(seq![(k1@, v1@), (k2@, v2@)]),
{
    let mut es: Vec<(String, Json)> = Vec::new();
    let ghost a = v1@;
    let ghost b = v2@;
    es.push((k1.to_string(), v1));
    es.push((k2.to_string(), v2));
    proof {
        crate::json::lemma_entries_view(es@);
        assert(crate::json::json_entries_view(es@) =~= seq![(k1@, a), (k2@, b)]);
    }
    Json::Object(es)
}

fn obj3(k1: &str, v1: Json, k2: &str, v2: Json, k3: &str, v3: Json) -> (r: Json)
    ensures
        r@ == JsonView::Object(seq![(k1@, v1@), (k2@, v2@), (k3@, v3@)]),
{
    let mut es: Vec<(String, Json)> = Vec::new();
    let ghost a = v1@;
    let ghost b = v2@;
    let ghost c = v3@;
    es.push((k1.to_string(), v1));
    es.push((k2.to_string(), v2));
    es.push((k3.to_string(), v3));
    proof {
        crate::json::lemma_entries_view(es@);
        assert(crate::json::json_entries_view(es@) =~= seq![(k1@, a), (k2@, b), (k3@, c)]);
    }
    Json::Object(es)
}

fn obj4(k1: &str, v1: Json, k2: &str, v2: Json, k3: &str, v3: Json, k4: &str, v4: Json) -> (r: Json)
    ensures
        r@ == JsonView::Object(seq![(k1@, v1@), (k2@, v2@), (k3@, v3@), (k4@, v4@)]),
{
    let mut es: Vec<(String, Json)> = Vec::new();
    let ghost a = v1@;
    let ghost b = v2@;
    let ghost c = v3@;
    let ghost d = v4@;
    es.push((k1.to_string(), v1));
    es.push((k2.to_string(), v2));
    es.push((k3.to_string(), v3));
    es.push((k4.to_string(), v4));
    proof {
        crate::json::lemma_entries_view(es@);
        assert(crate::json::json_entries_view(es@) =~= seq![(k1@, a), (k2@, b), (k3@, c), (k4@, d)]);
    }
    Json::Object(es)
}

fn arr1(v: Json) -> (r: Json)
    ensures
        r@ == JsonView::Array(seq![v@]),
{
    let mut items: Vec<Json> = Vec::new();
    let ghost a = v@;
    items.push(v);
    proof {
        crate::json::lemma_seq_view(items@);
        assert(crate::json::json_seq_view(items@) =~= seq![a]);
    }
    Json::Array(items)
}

fn post_json(url: String, headers: Vec<(String, String)>, body: &Json) -> (r: HttpRequest)
    ensures
        r.method == HttpMethod::Post,
        r.url == url,
        r.headers == headers,
        r.body matches Some(b) && b@ == json_text(body@),
{
    HttpRequest { method: HttpMethod::Post, url, headers, body: Some(to_json_text(body)) }
}

// ---------------------------------------------------------------------------
// Lingva.
// ---------------------------------------------------------------------------

/// The Lingva front end to Google's translations.
pub struct LingvaTranslate;

pub open spec fn lingva_url(base: Seq<char>, from: Seq<char>, to: Seq<char>, encoded: Seq<char>) -> Seq<char> {
    base + "/api/v1/"@ + from + "/"@ + to + "/"@ + encoded
}

/// A GET of `<custom_url>/api/v1/<from>/<to>/<text>`, the text with each `/`
/// written `@@` and then percent-encoded.
pub open spec fn lingva_request_of(config: JsonView, text: Seq<char>, from: Seq<char>, to: Seq<char>) -> HttpRequestView {
    HttpRequestView {
        method: HttpMethod::Get,
        url: lingva_url(
            field_str_or(config, "custom_url"@, "https://lingva.pot-app.com"@),
            from,
            to,
            url_encoded(replace_all(text, "/"@, "@@"@)),
        ),
        headers: Seq::empty(),
        body: None,
    }
}

pub fn lingva_request_with(config: &Json, encoded: &str, from: &str, to: &str) -> (r: HttpRequest)
    ensures
        r@ == (HttpRequestView {
            method: HttpMethod::Get,
            url: lingva_url(
                field_str_or(config@, "custom_url"@, "https://lingva.pot-app.com"@),
                from@,
                to@,
                encoded@,
            ),
            headers: Seq::empty(),
            body: None,
        }),
{
    let mut url = config_str(config, "custom_url", "https://lingva.pot-app.com");
    url.append("/api/v1/");
    url.append(from);
    url.append("/");
    url.append(to);
    url.append("/");
    url.append(encoded);
    let r = get_request(url, Vec::new());
    assert(r@.headers =~= Seq::<(Seq<char>, Seq<char>)>::empty());
    r
}

impl LingvaTranslate {
    pub fn name(&self) -> (r: &'static str)
        ensures
            r@ == "lingva"@,
    {
        "lingva"
    }

    pub fn request(&self, req: &TranslateRequest) -> (r: HttpRequest)
        ensures
            r@ == lingva_request_of(req.config@, req.text@, req.from@, req.to@),
    {
        proof {
            reveal_strlit("/");
        }
        let escaped = replace_str(req.text.as_str(), "/", "@@");
        let enc = url_encode(escaped.as_str());
        lingva_request_with(&req.config, enc.as_str(), req.from.as_str(), req.to.as_str())
    }

    /// The `translation` text of the answer.
    pub fn response(&self, resp: &Json) -> (r: Result<TranslateResult, ServiceError>)
        ensures
            outcome_view(r) == text_outcome("lingva"@, field_str_or(resp@, "translation"@, Seq::empty())),
    {
        proof {
            reveal_strlit("");
        }
        let t = config_str(resp, "translation", "");
        text_result("lingva", t)
    }

    pub fn default_config(&self) -> (r: Json)
        ensures
            r@ == JsonView::Object(seq![("custom_url"@, JsonView::Str("https://lingva.pot-app.com"@))]),
    {
        obj1("custom_url", jstr("https://lingva.pot-app.com"))
    }
}

// ---------------------------------------------------------------------------
// Bing.
// ---------------------------------------------------------------------------

/// Microsoft's translator as the Edge browser uses it.
pub struct BingTranslate;

/// Bing's names for the Chinese scripts; other codes unchanged.
pub open spec fn bing_lang(l: Seq<char>) -> Seq<char> {
    if l == "zh_cn"@ {
        "zh-Hans"@
    } else if l == "zh_tw"@ {
        "zh-Hant"@
    } else {
        l
    }
}

fn bing_map_lang(l: &str) -> (r: String)
    ensures
        r@ == bing_lang(l@),
{
    if str_eq(l, "zh_cn") {
        "zh-Hans".to_string()
    } else if str_eq(l, "zh_tw") {
        "zh-Hant".to_string()
    } else {
        l.to_string()
    }
}

/// The translation endpoint with the target language, and the source language
/// unless it is `auto` or empty.
pub open spec fn bing_url(request_url: Seq<char>, from: Seq<char>, to: Seq<char>) -> Seq<char> {
    if from == "auto"@ || from.len() == 0 {
        request_url + "?to="@ + bing_lang(to) + "&api-version=3.0"@
    } else {
        request_url + "?from="@ + bing_lang(from) + "&to="@ + bing_lang(to) + "&api-version=3.0"@
    }
}

pub open spec fn bing_request_url(config: JsonView) -> Seq<char> {
    field_str_or(config, "request_url"@, "https://api-edge.cognitive.microsofttranslator.com/translate"@)
}

pub open spec fn bing_auth_url(config: JsonView) -> Seq<char> {
    field_str_or(config, "auth_url"@, "https://edge.microsoft.com/translate/auth"@)
}

pub open spec fn bing_user_agent() -> Seq<char> {
    "Mozilla/5.0 (Windows NT 10.0; Win64; x64) AppleWebKit/537.36 (KHTML, like Gecko) Chrome/120.0.0.0 Safari/537.36 Edg/120.0.0.0"@
}

/// A POST of `[{"Text": text}]` with the token as bearer.
pub open spec fn bing_request_of(config: JsonView, text: Seq<char>, from: Seq<char>, to: Seq<char>, token: Seq<char>) -> HttpRequestView {
    HttpRequestView {
        method: HttpMethod::Post,
        url: bing_url(bing_request_url(config), from, to),
        headers: seq![("Authorization"@, "Bearer "@ + token), ("Content-Type"@, "application/json"@)],
        body: Some(json_text(JsonView::Array(seq![JsonView::Object(seq![("Text"@, JsonView::Str(text))])]))),
    }
}

/// Bing's answer: its error's message when it reports one (a default when the
/// message is missing), else `[0].translations[0].text`.
pub open spec fn bing_outcome(resp: JsonView) -> Result<TranslateResultView, (Seq<char>, Seq<char>)> {
    match view_field(resp, "error"@) {
        Some(err) => Err(("bing"@, field_str_or(err, "message"@, "Unknown API error"@))),
        None => text_outcome(
            "bing"@,
            str_or_empty(opt_field(opt_at(opt_field(view_at(resp, 0), "translations"@), 0), "text"@)),
        ),
    }
}

/// The authentication token last fetched, for reuse until it expires.
pub struct BingTokenCache {
    pub entry: Option<(String, String, u64)>,
}

/// How long a token is reused, in milliseconds (nine minutes).
pub const BING_TOKEN_LIFETIME_MS: u64 = 540000;

/// The entry of a token cache as plain values: auth url, token, expiry.
pub open spec fn token_entry_view(e: Option<(String, String, u64)>) -> Option<(Seq<char>, Seq<char>, u64)> {
    match e {
        Some((u, t, x)) => Some((u@, t@, x)),
        None => None,
    }
}

/// The token a cache entry gives for `auth_url` at `now`: the cached one when it
/// was fetched from that url and has not expired.
pub open spec fn cached_token(entry: Option<(Seq<char>, Seq<char>, u64)>, auth_url: Seq<char>, now: u64) -> Option<Seq<char>> {
    match entry {
        Some((u, t, exp)) => if u == auth_url && exp > now {
            Some(t)
        } else {
            None
        },
        None => None,
    }
}

/// A token fetched from an auth url at `fetched` is reused for that url until
/// [`BING_TOKEN_LIFETIME_MS`] have passed, and never for another url: a request for
/// another url, or after that time, fetches again.
pub proof fn law_token_reused_until_expiry(u: Seq<char>, t: Seq<char>, fetched: u64, u2: Seq<char>, now: u64)
    requires
        fetched + BING_TOKEN_LIFETIME_MS <= u64::MAX,
    ensures
        cached_token(Some((u, t, (fetched + BING_TOKEN_LIFETIME_MS) as u64)), u2, now) == (if u2 == u && now
            < fetched + BING_TOKEN_LIFETIME_MS {
            Some(t)
        } else {
            None
        }),
{
}

/// What a Bing translation does first: use the cached token, or fetch one.
pub enum BingTokenStep {
    Cached(String),
    Fetch(HttpRequest),
}

/// The request for an authentication token: a GET of the configured auth url with
/// a browser user agent.
pub open spec fn bing_auth_request_of(config: JsonView) -> HttpRequestView {
    HttpRequestView {
        method: HttpMethod::Get,
        url: bing_auth_url(config),
        headers: seq![("User-Agent"@, bing_user_agent())],
        body: None,
    }
}

impl BingTokenCache {
    pub fn new() -> (r: Self)
        ensures
            r.entry is None,
    {
        BingTokenCache { entry: None }
    }

    /// The cached token for `auth_url` when it was fetched from there and has not
    /// expired at `now` (milliseconds).
    pub fn get(&self, auth_url: &str, now: u64) -> (r: Option<String>)
        ensures
            match self.entry {
                Some((u, t, exp)) => if u@ == auth_url@ && exp > now {
                    r matches Some(x) && x@ == t@
                } else {
                    r is None
                },
                None => r is None,
            },
    {
        match &self.entry {
            Some((u, t, exp)) => {
                if str_eq(u.as_str(), auth_url) && *exp > now {
                    Some(t.clone())
                } else {
                    None
                }
            },
            None => None,
        }
    }

    /// Keeps a token fetched from `auth_url` at `now`.
    pub fn store(&mut self, auth_url: &str, token: &str, now: u64)
        requires
            now + BING_TOKEN_LIFETIME_MS <= u64::MAX,
        ensures
            final(self).entry matches Some((u, t, exp)) && u@ == auth_url@ && t@ == token@ && exp == now
                + BING_TOKEN_LIFETIME_MS,
    {
        self.entry = Some((auth_url.to_string(), token.to_string(), now + BING_TOKEN_LIFETIME_MS));
    }
}

impl BingTranslate {
    pub fn name(&self) -> (r: &'static str)
        ensures
            r@ == "bing"@,
    {
        "bing"
    }

    /// Bing's code for a language.
    pub fn map_lang(&self, l: &str) -> (r: String)
        ensures
            r@ == bing_lang(l@),
    {
        bing_map_lang(l)
    }

    /// The request for an authentication token: a GET of `auth_url` with a browser
    /// user agent.
    pub fn auth_request(&self, config: &Json) -> (r: HttpRequest)
        ensures
            r@ == (HttpRequestView {
                method: HttpMethod::Get,
                url: bing_auth_url(config@),
                headers: seq![("User-Agent"@, bing_user_agent())],
                body: None,
            }),
    {
        let url = config_str(config, "auth_url", "https://edge.microsoft.com/translate/auth");
        let mut hs: Vec<(String, String)> = Vec::new();
        hs.push(header("User-Agent", "Mozilla/5.0 (Windows NT 10.0; Win64; x64) AppleWebKit/537.36 (KHTML, like Gecko) Chrome/120.0.0.0 Safari/537.36 Edg/120.0.0.0"));
        let r = get_request(url, hs);
        assert(r@.headers =~= seq![("User-Agent"@, bing_user_agent())]);
        r
    }

    /// The token for a translation at `now` (milliseconds): the cached one when it
    /// was fetched from the configured auth url and has not expired, else the
    /// request that fetches one (to be kept with [`BingTokenCache::store`]).
    pub fn token_step(&self, cache: &BingTokenCache, config: &Json, now: u64) -> (r: BingTokenStep)
        ensures
            match cached_token(token_entry_view(cache.entry), bing_auth_url(config@), now) {
                Some(t) => r matches BingTokenStep::Cached(x) && x@ == t,
                None => r matches BingTokenStep::Fetch(q) && q@ == bing_auth_request_of(config@),
            },
    {
        let auth = self.auth_request(config);
        match cache.get(auth.url.as_str(), now) {
            Some(t) => BingTokenStep::Cached(t),
            None => BingTokenStep::Fetch(auth),
        }
    }

    /// The translation request, with the token.
    pub fn request(&self, req: &TranslateRequest, token: &str) -> (r: HttpRequest)
        ensures
            r@ == bing_request_of(req.config@, req.text@, req.from@, req.to@, token@),
    {
        let base = config_str(&req.config, "request_url", "https://api-edge.cognitive.microsofttranslator.com/translate");
        let to = bing_map_lang(req.to.as_str());
        let mut url = base;
        if str_eq(req.from.as_str(), "auto") || req.from.unicode_len() == 0 {
            url.append("?to=");
            url.append(to.as_str());
            url.append("&api-version=3.0");
        } else {
            let from = bing_map_lang(req.from.as_str());
            url.append("?from=");
            url.append(from.as_str());
            url.append("&to=");
            url.append(to.as_str());
            url.append("&api-version=3.0");
        }
        let body = arr1(obj1("Text", jstr(req.text.as_str())));
        let mut bearer = "Bearer ".to_string();
        bearer.append(token);
        let mut hs: Vec<(String, String)> = Vec::new();
        hs.push(("Authorization".to_string(), bearer));
        hs.push(header("Content-Type", "application/json"));
        let r = post_json(url, hs, &body);
        assert(r@.headers =~= seq![("Authorization"@, "Bearer "@ + token@), ("Content-Type"@, "application/json"@)]);
        r
    }

    pub fn response(&self, resp: &Json) -> (r: Result<TranslateResult, ServiceError>)
        ensures
            outcome_view(r) == bing_outcome(resp@),
    {
        match resp.get("error") {
            Some(err) => {
                let m = config_str(err, "message", "Unknown API error");
                return Err(ServiceError { service: "bing".to_string(), message: m });
            },
            None => {},
        }
        let t = text_of(field_of(at_of(field_of(resp.at(0), "translations"), 0), "text"));
        text_result("bing", t)
    }

    pub fn default_config(&self) -> (r: Json)
        ensures
            r@ == JsonView::Object(Seq::empty()),
    {
        let r = Json::Object(Vec::new());
        assert(crate::json::json_entries_view(Seq::<(String, Json)>::empty()) =~= Seq::empty());
        r
    }
}

// ---------------------------------------------------------------------------
// DeepL.
// ---------------------------------------------------------------------------

/// DeepL: its web endpoint (`free`), its paid API (`api`), or a DeepLX server.
pub struct DeepLTranslate;

#[derive(Debug, Clone, Copy, PartialEq, Eq, Structural)]
pub enum DeepLMode {
    Free,
    Api,
    DeepLX,
}

/// The mode the `type` setting names: `api`, `deeplx`, else the free endpoint.
pub open spec fn deepl_mode_of(config: JsonView) -> DeepLMode {
    let t = field_str_or(config, "type"@, "free"@);
    if t == "api"@ {
        DeepLMode::Api
    } else if t == "deeplx"@ {
        DeepLMode::DeepLX
    } else {
        DeepLMode::Free
    }
}

/// The number of times `c` occurs in `s`.
pub open spec fn char_count(s: Seq<char>, c: char) -> nat
    decreases s.len(),
{
    if s.len() == 0 {
        0
    } else {
        char_count(s.drop_last(), c) + if s.last() == c {
            1nat
        } else {
            0nat
        }
    }
}

fn count_char(s: &str, c: char) -> (r: u64)
    ensures
        r == char_count(s@, c),
{
    let v = chars_of(s);
    let mut n: u64 = 0;
    let mut i: usize = 0;
    while i < v.len()
        invariant
            v@ == s@,
            i <= v@.len(),
            n == char_count(v@.take(i as int), c),
            n <= i,
        decreases v@.len() - i,
    {
        proof {
            assert(v@.take(i + 1).drop_last() =~= v@.take(i as int));
        }
        if v[i] == c {
            n = n + 1;
        }
        i = i + 1;
    }
    assert(v@.take(v@.len() as int) =~= v@);
    n
}

/// The JSON-RPC call of DeepL's web endpoint, keys in order.
pub open spec fn deepl_free_body(text: Seq<char>, from: Seq<char>, to: Seq<char>, id: u64, timestamp: u64) -> JsonView {
    JsonView::Object(
        seq![
            ("id"@, JsonView::PosInt(id)),
            ("jsonrpc"@, JsonView::Str("2.0"@)),
            ("method"@, JsonView::Str("LMT_handle_texts"@)),
            (
                "params"@,
                JsonView::Object(
                    seq![
                        (
                            "lang"@,
                            JsonView::Object(
                                seq![
                                    ("source_lang_user_selected"@, JsonView::Str(from)),
                                    ("target_lang"@, JsonView::Str(to)),
                                ],
                            ),
                        ),
                        ("splitting"@, JsonView::Str("newlines"@)),
                        ("texts"@, JsonView::Array(seq![JsonView::Object(seq![("text"@, JsonView::Str(text))])])),
                        ("timestamp"@, JsonView::PosInt(timestamp)),
                    ],
                ),
            ),
        ],
    )
}

/// The web endpoint's request at time `now` (milliseconds): the call's id is the
/// time, its timestamp the time plus the number of `i`s in the text, and when there
/// are any the `"method":"` in the text is spaced as `"method" : "`.
pub open spec fn deepl_free_request_of(text: Seq<char>, from: Seq<char>, to: Seq<char>, now: u64) -> HttpRequestView {
    let n = char_count(text, 'i');
    let body = json_text(deepl_free_body(text, from, to, now, (now + n) as u64));
    HttpRequestView {
        method: HttpMethod::Post,
        url: "https://www2.deepl.com/jsonrpc"@,
        headers: seq![("Content-Type"@, "application/json"@)],
        body: Some(
            if n > 0 {
                replace_all(body, "\"method\":\""@, "\"method\" : \""@)
            } else {
                body
            },
        ),
    }
}

/// The paid API's request: to the free-tier host for keys ending in `:fx`.
pub open spec fn deepl_api_request_of(config: JsonView, text: Seq<char>, from: Seq<char>, to: Seq<char>) -> HttpRequestView {
    let key = field_str_or(config, "auth_key"@, Seq::empty());
    HttpRequestView {
        method: HttpMethod::Post,
        url: if has_suffix(key, ":fx"@) {
            "https://api-free.deepl.com/v2/translate"@
        } else {
            "https://api.deepl.com/v2/translate"@
        },
        headers: seq![("Authorization"@, "DeepL-Auth-Key "@ + key), ("Content-Type"@, "application/json"@)],
        body: Some(
            json_text(
                JsonView::Object(
                    seq![
                        ("source_lang"@, JsonView::Str(from)),
                        ("target_lang"@, JsonView::Str(to)),
                        ("text"@, JsonView::Array(seq![JsonView::Str(text)])),
                    ],
                ),
            ),
        ),
    }
}

/// The DeepLX request: a POST to the configured server, an error when none is set.
pub open spec fn deeplx_request_of(config: JsonView, text: Seq<char>, from: Seq<char>, to: Seq<char>) -> Result<HttpRequestView, (Seq<char>, Seq<char>)> {
    let url = field_str_or(config, "custom_url"@, Seq::empty());
    if url.len() == 0 {
        Err(("deepl"@, "DeepLX URL not configured"@))
    } else {
        Ok(
            HttpRequestView {
                method: HttpMethod::Post,
                url,
                headers: seq![("Content-Type"@, "application/json"@)],
                body: Some(
                    json_text(
                        JsonView::Object(
                            seq![
                                ("source_lang"@, JsonView::Str(from)),
                                ("target_lang"@, JsonView::Str(to)),
                                ("text"@, JsonView::Str(text)),
                            ],
                        ),
                    ),
                ),
            },
        )
    }
}

/// The text that each mode's answer holds: `result.texts[0].text`,
/// `translations[0].text`, or `data`.
pub open spec fn deepl_text(mode: DeepLMode, resp: JsonView) -> Seq<char> {
    match mode {
        DeepLMode::Free => str_or_empty(opt_field(opt_at(opt_field(view_field(resp, "result"@), "texts"@), 0), "text"@)),
        DeepLMode::Api => str_or_empty(opt_field(view_at(view_field(resp, "translations"@).unwrap_or(JsonView::Null), 0), "text"@)),
        DeepLMode::DeepLX => str_or_empty(view_field(resp, "data"@)),
    }
}

pub open spec fn request_views(r: Result<HttpRequest, ServiceError>) -> Result<HttpRequestView, (Seq<char>, Seq<char>)> {
    match r {
        Ok(h) => Ok(h@),
        Err(e) => Err((e.service@, e.message@)),
    }
}

impl DeepLTranslate {
    pub fn name(&self) -> (r: &'static str)
        ensures
            r@ == "deepl"@,
    {
        "deepl"
    }

    pub fn mode(&self, config: &Json) -> (r: DeepLMode)
        ensures
            r == deepl_mode_of(config@),
    {
        let t = config_str(config, "type", "free");
        if str_eq(t.as_str(), "api") {
            DeepLMode::Api
        } else if str_eq(t.as_str(), "deeplx") {
            DeepLMode::DeepLX
        } else {
            DeepLMode::Free
        }
    }

    /// The web endpoint's request at time `now` (milliseconds since the epoch).
    pub fn free_request(&self, req: &TranslateRequest, now: u64) -> (r: HttpRequest)
        requires
            now + char_count(req.text@, 'i') <= u64::MAX,
        ensures
            r@ == deepl_free_request_of(req.text@, req.from@, req.to@, now),
    {
        let n = count_char(req.text.as_str(), 'i');
        let timestamp = if n > 0 {
            now + n
        } else {
            now
        };
        let lang = obj2("source_lang_user_selected", jstr(req.from.as_str()), "target_lang", jstr(req.to.as_str()));
        let texts = arr1(obj1("text", jstr(req.text.as_str())));
        let params = obj4("lang", lang, "splitting", jstr("newlines"), "texts", texts, "timestamp", Json::PosInt(timestamp));
        let body = obj4("id", Json::PosInt(now), "jsonrpc", jstr("2.0"), "method", jstr("LMT_handle_texts"), "params", params);
        let text = to_json_text(&body);
        let body_text = if n > 0 {
            proof {
                reveal_strlit("\"method\":\"");
            }
            replace_str(text.as_str(), "\"method\":\"", "\"method\" : \"")
        } else {
            text
        };
        let mut hs: Vec<(String, String)> = Vec::new();
        hs.push(header("Content-Type", "application/json"));
        let r = HttpRequest {
            method: HttpMethod::Post,
            url: "https://www2.deepl.com/jsonrpc".to_string(),
            headers: hs,
            body: Some(body_text),
        };
        assert(r@.headers =~= seq![("Content-Type"@, "application/json"@)]);
        r
    }

    pub fn api_request(&self, req: &TranslateRequest) -> (r: HttpRequest)
        ensures
            r@ == deepl_api_request_of(req.config@, req.text@, req.from@, req.to@),
    {
        proof {
            reveal_strlit("");
            assert(""@ =~= Seq::<char>::empty());
        }
        let key = config_str(&req.config, "auth_key", "");
        let url = if ends_with(key.as_str(), ":fx") {
            "https://api-free.deepl.com/v2/translate".to_string()
        } else {
            "https://api.deepl.com/v2/translate".to_string()
        };
        let body = obj3(
            "source_lang",
            jstr(req.from.as_str()),
            "target_lang",
            jstr(req.to.as_str()),
            "text",
            arr1(jstr(req.text.as_str())),
        );
        let mut auth = "DeepL-Auth-Key ".to_string();
        auth.append(key.as_str());
        let mut hs: Vec<(String, String)> = Vec::new();
        hs.push(("Authorization".to_string(), auth));
        hs.push(header("Content-Type", "application/json"));
        let r = post_json(url, hs, &body);
        assert(r@.headers =~= seq![("Authorization"@, "DeepL-Auth-Key "@ + key@), ("Content-Type"@, "application/json"@)]);
        r
    }

    pub fn deeplx_request(&self, req: &TranslateRequest) -> (r: Result<HttpRequest, ServiceError>)
        ensures
            request_views(r) == deeplx_request_of(req.config@, req.text@, req.from@, req.to@),
    {
        proof {
            reveal_strlit("");
        }
        let url = config_str(&req.config, "custom_url", "");
        if url.unicode_len() == 0 {
            return Err(ServiceError::new("deepl", "DeepLX URL not configured"));
        }
        let body = obj3(
            "source_lang",
            jstr(req.from.as_str()),
            "target_lang",
            jstr(req.to.as_str()),
            "text",
            jstr(req.text.as_str()),
        );
        let mut hs: Vec<(String, String)> = Vec::new();
        hs.push(header("Content-Type", "application/json"));
        let r = post_json(url, hs, &body);
        assert(r@.headers =~= seq![("Content-Type"@, "application/json"@)]);
        Ok(r)
    }

    /// The result from the answer of the service in the given mode.
    pub fn response(&self, mode: DeepLMode, resp: &Json) -> (r: Result<TranslateResult, ServiceError>)
        ensures
            outcome_view(r) == text_outcome("deepl"@, deepl_text(mode, resp@)),
    {
        let t = match mode {
            DeepLMode::Free => text_of(field_of(at_of(field_of(resp.get("result"), "texts"), 0), "text")),
            DeepLMode::Api => {
                let tr = resp.get("translations");
                let first = match tr {
                    Some(a) => a.at(0),
                    None => None,
                };
                proof {
                    match tr {
                        Some(a) => {},
                        None => {
                            assert(view_at(JsonView::Null, 0) is None);
                        },
                    }
                }
                text_of(field_of(first, "text"))
            },
            DeepLMode::DeepLX => text_of(resp.get("data")),
        };
        text_result("deepl", t)
    }

    pub fn default_config(&self) -> (r: Json)
        ensures
            r@ == JsonView::Object(
                seq![
                    ("auth_key"@, JsonView::Str(Seq::empty())),
                    ("custom_url"@, JsonView::Str(Seq::empty())),
                    ("type"@, JsonView::Str("free"@)),
                ],
            ),
    {
        proof {
            reveal_strlit("");
        }
        let r = obj3("auth_key", jstr(""), "custom_url", jstr(""), "type", jstr("free"));
        assert(""@ =~= Seq::<char>::empty());
        assert(r@ =~~= JsonView::Object(
            seq![
                ("auth_key"@, JsonView::Str(Seq::empty())),
                ("custom_url"@, JsonView::Str(Seq::empty())),
                ("type"@, JsonView::Str("free"@)),
            ],
        ));
        r
    }
}


// ---------------------------------------------------------------------------
// Baidu.
// ---------------------------------------------------------------------------

/// Baidu's translation API, signed with the account's secret.
pub struct BaiduTranslate;

/// Baidu's code for a language: its own codes for Chinese, Japanese, Korean, French,
/// Spanish, Arabic, Vietnamese and Malay; other codes unchanged.
pub open spec fn baidu_lang(l: Seq<char>) -> Seq<char> {
    if l == "zh_cn"@ {
        "zh"@
    } else if l == "zh_tw"@ {
        "cht"@
    } else if l == "ja"@ {
        "jp"@
    } else if l == "ko"@ {
        "kor"@
    } else if l == "fr"@ {
        "fra"@
    } else if l == "es"@ {
        "spa"@
    } else if l == "ar"@ {
        "ara"@
    } else if l == "vi"@ {
        "vie"@
    } else if l == "ms"@ {
        "may"@
    } else {
        l
    }
}

/// Baidu's language codes: Simplified Chinese is `zh`, Traditional Chinese `cht`,
/// Japanese `jp`, Korean `kor`, French `fra`, Spanish `spa`, Arabic `ara`,
/// Vietnamese `vie` and Malay `may`; every other code is sent as the application
/// writes it.
pub proof fn law_baidu_codes(l: Seq<char>)
    ensures
        baidu_lang("zh_cn"@) == "zh"@,
        baidu_lang("zh_tw"@) == "cht"@,
        baidu_lang("ja"@) == "jp"@,
        baidu_lang("ko"@) == "kor"@,
        baidu_lang("fr"@) == "fra"@,
        baidu_lang("es"@) == "spa"@,
        baidu_lang("ar"@) == "ara"@,
        baidu_lang("vi"@) == "vie"@,
        baidu_lang("ms"@) == "may"@,
        !seq!["zh_cn"@, "zh_tw"@, "ja"@, "ko"@, "fr"@, "es"@, "ar"@, "vi"@, "ms"@].contains(l) ==> baidu_lang(l) == l,
{
    reveal_strlit("zh_cn");
    reveal_strlit("zh_tw");
    reveal_strlit("ja");
    reveal_strlit("ko");
    reveal_strlit("fr");
    reveal_strlit("es");
    reveal_strlit("ar");
    reveal_strlit("vi");
    reveal_strlit("ms");
    assert("zh_tw"@ != "zh_cn"@) by {
        assert("zh_tw"@[3] != "zh_cn"@[3]);
    }
    let two = seq!["ja"@, "ko"@, "fr"@, "es"@, "ar"@, "vi"@, "ms"@];
    assert forall|i: int, j: int| 0 <= i < j < 7 implies #[trigger] two[i] != #[trigger] two[j] by {
        assert(two[i][0] != two[j][0]);
    }
    assert(two[0] == "ja"@ && two[1] == "ko"@ && two[2] == "fr"@ && two[3] == "es"@);
    assert(two[4] == "ar"@ && two[5] == "vi"@ && two[6] == "ms"@);
    assert("zh_cn"@.len() == 5 && "zh_tw"@.len() == 5);
    assert forall|i: int| 0 <= i < 7 implies (#[trigger] two[i]).len() == 2 && two[i] != "zh_cn"@ && two[i]
        != "zh_tw"@ by {}
    assert(baidu_lang("ja"@) == "jp"@);
    assert(baidu_lang("ko"@) == "kor"@);
    assert(baidu_lang("fr"@) == "fra"@);
    assert(baidu_lang("es"@) == "spa"@);
    assert(baidu_lang("ar"@) == "ara"@);
    assert(baidu_lang("vi"@) == "vie"@);
    assert(baidu_lang("ms"@) == "may"@);
    let keys = seq!["zh_cn"@, "zh_tw"@, "ja"@, "ko"@, "fr"@, "es"@, "ar"@, "vi"@, "ms"@];
    if !keys.contains(l) {
        assert(keys[0] == "zh_cn"@ && keys[1] == "zh_tw"@ && keys[2] == "ja"@ && keys[3] == "ko"@);
        assert(keys[4] == "fr"@ && keys[5] == "es"@ && keys[6] == "ar"@ && keys[7] == "vi"@ && keys[8] == "ms"@);
    }
}

/// The signed request with a given salt: an error when the app id or the secret is
/// missing; else a GET whose signature is the MD5 of app id, text, salt and secret.
pub open spec fn baidu_request_of(config: JsonView, text: Seq<char>, from: Seq<char>, to: Seq<char>, salt: Seq<char>) -> Result<HttpRequestView, (Seq<char>, Seq<char>)> {
    let appid = field_str_or(config, "appid"@, Seq::empty());
    let secret = field_str_or(config, "secret"@, Seq::empty());
    if appid.len() == 0 || secret.len() == 0 {
        Err(("baidu"@, "appid or secret not configured"@))
    } else {
        Ok(
            HttpRequestView {
                method: HttpMethod::Get,
                url: "https://fanyi-api.baidu.com/api/trans/vip/translate?q="@ + url_encoded(text)
                    + "&from="@ + baidu_lang(from) + "&to="@ + baidu_lang(to) + "&appid="@ + appid
                    + "&salt="@ + salt + "&sign="@ + md5_hex_of(appid + text + salt + secret),
                headers: Seq::empty(),
                body: None,
            },
        )
    }
}

/// Baidu's answer: its error code and message when it reports one, else the `dst`
/// texts of `trans_result` on separate lines.
pub open spec fn baidu_outcome(resp: JsonView) -> Result<TranslateResultView, (Seq<char>, Seq<char>)> {
    match opt_str(view_field(resp, "error_code"@)) {
        Some(code) => Err(("baidu"@, code + ": "@ + field_str_or(resp, "error_msg"@, "Unknown error"@))),
        None => text_outcome("baidu"@, line_fold(field_items(array_items(view_field(resp, "trans_result"@)), "dst"@))),
    }
}

/// Whether a setting text is empty.
fn is_empty_text(s: &String) -> (r: bool)
    ensures
        r == (s@.len() == 0),
{
    s.unicode_len() == 0
}

impl BaiduTranslate {
    pub fn name(&self) -> (r: &'static str)
        ensures
            r@ == "baidu"@,
    {
        "baidu"
    }

    /// Baidu's code for a language.
    pub fn map_lang(&self, l: &str) -> (r: String)
        ensures
            r@ == baidu_lang(l@),
    {
        if str_eq(l, "zh_cn") {
            "zh".to_string()
        } else if str_eq(l, "zh_tw") {
            "cht".to_string()
        } else if str_eq(l, "ja") {
            "jp".to_string()
        } else if str_eq(l, "ko") {
            "kor".to_string()
        } else if str_eq(l, "fr") {
            "fra".to_string()
        } else if str_eq(l, "es") {
            "spa".to_string()
        } else if str_eq(l, "ar") {
            "ara".to_string()
        } else if str_eq(l, "vi") {
            "vie".to_string()
        } else if str_eq(l, "ms") {
            "may".to_string()
        } else {
            l.to_string()
        }
    }

    /// The signed request with the given salt.
    pub fn request_with_salt(&self, req: &TranslateRequest, salt: &str) -> (r: Result<HttpRequest, ServiceError>)
        ensures
            request_views(r) == baidu_request_of(req.config@, req.text@, req.from@, req.to@, salt@),
    {
        proof {
            reveal_strlit("");
            assert(""@ =~= Seq::<char>::empty());
        }
        let appid = config_str(&req.config, "appid", "");
        let secret = config_str(&req.config, "secret", "");
        if is_empty_text(&appid) || is_empty_text(&secret) {
            return Err(ServiceError::new("baidu", "appid or secret not configured"));
        }
        let mut input = appid.clone();
        input.append(req.text.as_str());
        input.append(salt);
        input.append(secret.as_str());
        let sign = md5_hex(input.as_str());
        let enc = url_encode(req.text.as_str());
        let from = self.map_lang(req.from.as_str());
        let to = self.map_lang(req.to.as_str());
        let mut url = "https://fanyi-api.baidu.com/api/trans/vip/translate?q=".to_string();
        url.append(enc.as_str());
        url.append("&from=");
        url.append(from.as_str());
        url.append("&to=");
        url.append(to.as_str());
        url.append("&appid=");
        url.append(appid.as_str());
        url.append("&salt=");
        url.append(salt);
        url.append("&sign=");
        url.append(sign.as_str());
        let r = get_request(url, Vec::new());
        assert(r@.headers =~= Seq::<(Seq<char>, Seq<char>)>::empty());
        Ok(r)
    }

    /// The signed request, with a fresh random salt of eight characters.
    pub fn request(&self, req: &TranslateRequest) -> (r: Result<HttpRequest, ServiceError>)
        ensures
            exists|salt: Seq<char>|
                salt.len() == 8 && request_views(r) == baidu_request_of(
                    req.config@,
                    req.text@,
                    req.from@,
                    req.to@,
                    salt,
                ),
    {
        let salt = crate::util::nanoid(8);
        let r = self.request_with_salt(req, salt.as_str());
        assert(salt@.len() == 8);
        r
    }

    pub fn response(&self, resp: &Json) -> (r: Result<TranslateResult, ServiceError>)
        ensures
            outcome_view(r) == baidu_outcome(resp@),
    {
        match resp.get("error_code") {
            Some(c) => match c.as_str() {
                Some(code) => {
                    let mut m = code.to_string();
                    m.append(": ");
                    let msg = config_str(resp, "error_msg", "Unknown error");
                    m.append(msg.as_str());
                    return Err(ServiceError { service: "baidu".to_string(), message: m });
                },
                None => {},
            },
            None => {},
        }
        let items = items_of(resp.get("trans_result"));
        let lines = collect_strings(items, Some("dst"));
        let t = fold_lines(&lines);
        text_result("baidu", t)
    }

    pub fn default_config(&self) -> (r: Json)
        ensures
            r@ == JsonView::Object(
                seq![("appid"@, JsonView::Str(Seq::empty())), ("secret"@, JsonView::Str(Seq::empty()))],
            ),
    {
        proof {
            reveal_strlit("");
        }
        let r = obj2("appid", jstr(""), "secret", jstr(""));
        assert(""@ =~= Seq::<char>::empty());
        assert(r@ =~~= JsonView::Object(
            seq![("appid"@, JsonView::Str(Seq::empty())), ("secret"@, JsonView::Str(Seq::empty()))],
        ));
        r
    }
}

// ---------------------------------------------------------------------------
// Youdao.
// ---------------------------------------------------------------------------

/// Youdao's translation API, signed with the application key.
pub struct YoudaoTranslate;

/// Youdao's codes for the Chinese scripts; other codes unchanged.
pub open spec fn youdao_lang(l: Seq<char>) -> Seq<char> {
    if l == "zh_cn"@ {
        "zh-CHS"@
    } else if l == "zh_tw"@ {
        "zh-CHT"@
    } else {
        l
    }
}

/// The text as it enters the signature: whole up to twenty characters, else its
/// first ten characters, its length and its last ten characters.
pub open spec fn truncated(t: Seq<char>) -> Seq<char> {
    if t.len() <= 20 {
        t
    } else {
        t.take(10) + digits(t.len(), 10) + t.skip(t.len() - 10)
    }
}

/// The text that enters Youdao's signature: a text of up to twenty characters
/// whole; a longer one as its first ten characters, then its length in decimal
/// (digits only, at least one, no leading zero, of value the length), then its last
/// ten characters, so that it is twenty characters longer than that number.
pub proof fn law_youdao_truncation(t: Seq<char>)
    ensures
        t.len() <= 20 ==> truncated(t) == t,
        t.len() > 20 ==> ({
            let r = truncated(t);
            let m = r.subrange(10, r.len() - 10);
            &&& r.len() >= 21
            &&& r.take(10) == t.take(10)
            &&& r.skip(r.len() - 10) == t.skip(t.len() - 10)
            &&& m.len() > 0
            &&& crate::text::all_digits(m)
            &&& crate::text::digits_value(m) == t.len()
            &&& (m.len() > 1 ==> m[0] != '0')
        }),
{
    if t.len() > 20 {
        crate::shortcut::lemma_decimal_digits(t.len());
        lemma_leading_digit(t.len());
        let d = digits(t.len(), 10);
        let r = truncated(t);
        assert(r == t.take(10) + d + t.skip(t.len() - 10));
        assert(r.take(10) =~= t.take(10));
        assert(r.skip(r.len() - 10) =~= t.skip(t.len() - 10));
        assert(r.subrange(10, r.len() - 10) =~= d);
    }
}

/// A number written in decimal with more than one digit does not start with `0`.
proof fn lemma_leading_digit(n: nat)
    ensures
        digits(n, 10).len() > 1 ==> digits(n, 10)[0] != '0',
        n >= 10 ==> digits(n, 10).len() > 1,
    decreases n,
{
    if n >= 10 {
        lemma_leading_digit(n / 10);
        crate::shortcut::lemma_decimal_digits(n / 10);
        let d = digits(n / 10, 10);
        assert(digits(n, 10) == d.push(crate::text::digit_char(n % 10)));
        assert(digits(n, 10)[0] == d[0]);
        if n / 10 < 10 {
            assert(d == seq![crate::text::digit_char(n / 10)]);
            assert(n / 10 >= 1);
        }
    }
}

/// The signed request with a given salt and time (seconds, in decimal): an error
/// when the application key or secret is missing; else a GET whose signature is the
/// SHA-256 of key, truncated text, salt, time and secret.
pub open spec fn youdao_request_of(config: JsonView, text: Seq<char>, from: Seq<char>, to: Seq<char>, salt: Seq<char>, curtime: Seq<char>) -> Result<HttpRequestView, (Seq<char>, Seq<char>)> {
    let appkey = field_str_or(config, "appkey"@, Seq::empty());
    let key = field_str_or(config, "key"@, Seq::empty());
    if appkey.len() == 0 || key.len() == 0 {
        Err(("youdao"@, "appkey or key not configured"@))
    } else {
        Ok(
            HttpRequestView {
                method: HttpMethod::Get,
                url: "https://openapi.youdao.com/api?q="@ + url_encoded(text) + "&from="@ + youdao_lang(from)
                    + "&to="@ + youdao_lang(to) + "&appKey="@ + appkey + "&salt="@ + salt + "&sign="@
                    + sha256_hex_of(appkey + truncated(text) + salt + curtime + key)
                    + "&signType=v3&curtime="@ + curtime,
                headers: Seq::empty(),
                body: None,
            },
        )
    }
}

/// The dictionary entry of a word answer: UK and US phonetics, the basic meanings
/// as one explanation, and the keys of the first five web phrases.
pub open spec fn youdao_dictionary(resp: JsonView) -> DictionaryView {
    let basic = view_field(resp, "basic"@);
    let uk = opt_str(opt_field(basic, "uk-phonetic"@));
    let us = opt_str(opt_field(basic, "us-phonetic"@));
    let p1: Seq<(Seq<char>, Seq<char>)> = match uk {
        Some(s) => seq![("UK"@, s)],
        None => Seq::empty(),
    };
    let p2: Seq<(Seq<char>, Seq<char>)> = match us {
        Some(s) => seq![("US"@, s)],
        None => Seq::empty(),
    };
    let explains = string_items(array_items(opt_field(basic, "explains"@)));
    let web = array_items(view_field(resp, "web"@));
    DictionaryView {
        pronunciations: p1 + p2,
        explanations: if explains.len() > 0 {
            seq![(Seq::empty(), explains)]
        } else {
            Seq::empty()
        },
        associations: field_items(
            if web.len() > 5 {
                web.take(5)
            } else {
                web
            },
            "key"@,
        ),
        sentences: Seq::empty(),
    }
}

/// Youdao's answer: an error for an error code other than `0`; the dictionary entry
/// for a word; else the translations on separate lines.
pub open spec fn youdao_outcome(resp: JsonView) -> Result<TranslateResultView, (Seq<char>, Seq<char>)> {
    let code = field_str_or(resp, "errorCode"@, "0"@);
    if code != "0"@ {
        Err(("youdao"@, "Error code: "@ + code))
    } else if view_field(resp, "isWord"@) == Some(JsonView::Bool(true)) {
        Ok(TranslateResultView::Dictionary(youdao_dictionary(resp)))
    } else {
        text_outcome("youdao"@, line_fold(string_items(array_items(view_field(resp, "translation"@)))))
    }
}

impl YoudaoTranslate {
    pub fn name(&self) -> (r: &'static str)
        ensures
            r@ == "youdao"@,
    {
        "youdao"
    }

    /// Youdao's code for a language.
    pub fn map_lang(&self, l: &str) -> (r: String)
        ensures
            r@ == youdao_lang(l@),
    {
        if str_eq(l, "zh_cn") {
            "zh-CHS".to_string()
        } else if str_eq(l, "zh_tw") {
            "zh-CHT".to_string()
        } else {
            l.to_string()
        }
    }

    /// The text as it enters the signature.
    pub fn truncate(&self, text: &str) -> (r: String)
        ensures
            r@ == truncated(text@),
    {
        let v = chars_of(text);
        let n = v.len();
        if n <= 20 {
            text.to_string()
        } else {
            let head = crate::text::chars_between(v.as_slice(), 0, 10);
            let tail = crate::text::chars_between(v.as_slice(), n - 10, n);
            let mut r = string_from_chars(head.as_slice());
            let d = u64_to_base(n as u64, 10);
            r.append(d.as_str());
            let t = string_from_chars(tail.as_slice());
            r.append(t.as_str());
            assert(head@ =~= text@.take(10));
            assert(tail@ =~= text@.skip(n - 10));
            r
        }
    }

    /// The signed request with the given salt and time.
    pub fn request_with(&self, req: &TranslateRequest, salt: &str, curtime: &str) -> (r: Result<HttpRequest, ServiceError>)
        ensures
            request_views(r) == youdao_request_of(req.config@, req.text@, req.from@, req.to@, salt@, curtime@),
    {
        proof {
            reveal_strlit("");
            assert(""@ =~= Seq::<char>::empty());
        }
        let appkey = config_str(&req.config, "appkey", "");
        let key = config_str(&req.config, "key", "");
        if is_empty_text(&appkey) || is_empty_text(&key) {
            return Err(ServiceError::new("youdao", "appkey or key not configured"));
        }
        let mut input = appkey.clone();
        let t = self.truncate(req.text.as_str());
        input.append(t.as_str());
        input.append(salt);
        input.append(curtime);
        input.append(key.as_str());
        let sign = sha256_hex(input.as_str());
        let enc = url_encode(req.text.as_str());
        let from = self.map_lang(req.from.as_str());
        let to = self.map_lang(req.to.as_str());
        let mut url = "https://openapi.youdao.com/api?q=".to_string();
        url.append(enc.as_str());
        url.append("&from=");
        url.append(from.as_str());
        url.append("&to=");
        url.append(to.as_str());
        url.append("&appKey=");
        url.append(appkey.as_str());
        url.append("&salt=");
        url.append(salt);
        url.append("&sign=");
        url.append(sign.as_str());
        url.append("&signType=v3&curtime=");
        url.append(curtime);
        let r = get_request(url, Vec::new());
        assert(r@.headers =~= Seq::<(Seq<char>, Seq<char>)>::empty());
        Ok(r)
    }

    /// The signed request at time `now_secs` (seconds since the epoch), with a fresh
    /// random salt of eight characters.
    pub fn request(&self, req: &TranslateRequest, now_secs: u64) -> (r: Result<HttpRequest, ServiceError>)
        ensures
            exists|salt: Seq<char>|
                salt.len() == 8 && request_views(r) == youdao_request_of(
                    req.config@,
                    req.text@,
                    req.from@,
                    req.to@,
                    salt,
                    digits(now_secs as nat, 10),
                ),
    {
        let salt = crate::util::nanoid(8);
        let curtime = u64_to_base(now_secs, 10);
        let r = self.request_with(req, salt.as_str(), curtime.as_str());
        assert(salt@.len() == 8);
        r
    }

    /// Reads a word answer.
    pub fn parse_dictionary(&self, resp: &Json) -> (r: DictionaryResult)
        ensures
            dictionary_view(r) == youdao_dictionary(resp@),
    {
        let basic = resp.get("basic");
        let mut pronunciations: Vec<Pronunciation> = Vec::new();
        match field_of(basic, "uk-phonetic") {
            Some(v) => match v.as_str() {
                Some(s) => pronunciations.push(Pronunciation { region: "UK".to_string(), symbol: s.to_string() }),
                None => {},
            },
            None => {},
        }
        let ghost p1 = pronunciations@.map_values(|p: Pronunciation| (p.region@, p.symbol@));
        match field_of(basic, "us-phonetic") {
            Some(v) => match v.as_str() {
                Some(s) => pronunciations.push(Pronunciation { region: "US".to_string(), symbol: s.to_string() }),
                None => {},
            },
            None => {},
        }
        let explains = collect_strings(items_of(field_of(basic, "explains")), None);
        let mut explanations: Vec<Explanation> = Vec::new();
        if explains.len() > 0 {
            let mut list: Vec<Explain> = Vec::new();
            let mut k: usize = 0;
            while k < explains.len()
                invariant
                    k <= explains@.len(),
                    list@.map_values(|x: Explain| x.text@) == views(explains@).take(k as int),
                decreases explains@.len() - k,
            {
                let ghost before_list = list@.map_values(|x: Explain| x.text@);
                let item = Explain { text: explains[k].clone() };
                list.push(item);
                assert(list@.map_values(|x: Explain| x.text@) =~= before_list.push(item.text@));
                assert(views(explains@)[k as int] == explains@[k as int]@);
                assert(views(explains@).take(k + 1) =~= views(explains@).take(k as int).push(views(explains@)[k as int]));
                k = k + 1;
            }
            assert(views(explains@).take(explains@.len() as int) =~= views(explains@));
            let e = Explanation { trait_name: String::new(), explains: list };
            explanations.push(e);
            assert(explanations@.map_values(|e: Explanation| crate::services::explanation_view(e))
                =~= seq![crate::services::explanation_view(e)]);
        }
        let web = items_of(resp.get("web"));
        let first = if web.len() > 5 {
            crate::json::slice_prefix(web, 5)
        } else {
            crate::json::slice_prefix(web, web.len())
        };
        let associations = collect_strings(first.as_slice(), Some("key"));
        let r = DictionaryResult { pronunciations, explanations, associations, sentences: Vec::new() };
        proof {
            let want = youdao_dictionary(resp@);
            crate::json::lemma_seq_view(web@);
            let wv = crate::json::json_seq_view(web@);
            if web@.len() > 5 {
                assert(crate::json::json_seq_view(first@) =~= wv.take(5)) by {
                    crate::json::lemma_seq_view(web@.take(5));
                }
            } else {
                assert(crate::json::json_seq_view(first@) =~= wv) by {
                    assert(web@.take(web@.len() as int) =~= web@);
                }
            }
            assert(dictionary_view(r).pronunciations =~= want.pronunciations);
            assert(dictionary_view(r).explanations =~= want.explanations);
            assert(dictionary_view(r).sentences =~= want.sentences);
        }
        r
    }

    pub fn response(&self, resp: &Json) -> (r: Result<TranslateResult, ServiceError>)
        ensures
            outcome_view(r) == youdao_outcome(resp@),
    {
        let code = config_str(resp, "errorCode", "0");
        if !str_eq(code.as_str(), "0") {
            let mut m = "Error code: ".to_string();
            m.append(code.as_str());
            return Err(ServiceError { service: "youdao".to_string(), message: m });
        }
        let is_word = match resp.get("isWord") {
            Some(v) => match v.as_bool() {
                Some(b) => b,
                None => false,
            },
            None => false,
        };
        if is_word {
            return Ok(TranslateResult::Dictionary(self.parse_dictionary(resp)));
        }
        let items = items_of(resp.get("translation"));
        let lines = collect_strings(items, None);
        let t = fold_lines(&lines);
        text_result("youdao", t)
    }

    pub fn default_config(&self) -> (r: Json)
        ensures
            r@ == JsonView::Object(
                seq![("appkey"@, JsonView::Str(Seq::empty())), ("key"@, JsonView::Str(Seq::empty()))],
            ),
    {
        proof {
            reveal_strlit("");
        }
        let r = obj2("appkey", jstr(""), "key", jstr(""));
        assert(""@ =~= Seq::<char>::empty());
        assert(r@ =~~= JsonView::Object(
            seq![("appkey"@, JsonView::Str(Seq::empty())), ("key"@, JsonView::Str(Seq::empty()))],
        ));
        r
    }
}


// ---------------------------------------------------------------------------
// OpenAI-compatible and Anthropic chat services.
// ---------------------------------------------------------------------------

/// A chat-completion service, in OpenAI's or Anthropic's request format.
pub struct OpenAITranslate;

/// `s` without the copies of `c` at its end.
pub open spec fn strip_trailing_char(s: Seq<char>, c: char) -> Seq<char>
    decreases s.len(),
{
    if s.len() > 0 && s.last() == c {
        strip_trailing_char(s.drop_last(), c)
    } else {
        s
    }
}

/// `s` without the copies of `c` at its start.
pub open spec fn strip_leading_char(s: Seq<char>, c: char) -> Seq<char>
    decreases s.len(),
{
    if s.len() > 0 && s[0] == c {
        strip_leading_char(s.drop_first(), c)
    } else {
        s
    }
}

/// `s` without the copies of `p` at its end.
pub open spec fn strip_trailing(s: Seq<char>, p: Seq<char>) -> Seq<char>
    decreases s.len(),
{
    if p.len() > 0 && has_suffix(s, p) {
        strip_trailing(s.take(s.len() - p.len()), p)
    } else {
        s
    }
}

/// The part of `s` before the first occurrence of `p` (all of `s` when there is none).
pub open spec fn before_first(s: Seq<char>, p: Seq<char>) -> Seq<char>
    decreases s.len(),
{
    if s.len() < p.len() || p.len() == 0 {
        s
    } else if has_prefix(s, p) {
        Seq::empty()
    } else {
        seq![s[0]] + before_first(s.drop_first(), p)
    }
}

/// The endpoint to call for a configured address: the default for a blank one; a
/// path starting with `/` is put on the default's host, another address without a
/// scheme kept as it is; an address ending in `/v1` gets the suffix, one ending in
/// `/models` has that replaced by it; any other address is kept (trailing `/`s
/// removed).
pub open spec fn normalized_endpoint(input: Seq<char>, default_url: Seq<char>, suffix: Seq<char>) -> Seq<char> {
    let t = strip_trailing_char(trim(input), '/');
    if t.len() == 0 {
        default_url
    } else if !has_prefix(t, "http://"@) && !has_prefix(t, "https://"@) {
        if t[0] == '/' {
            before_first(default_url, "/v1"@) + t
        } else {
            t
        }
    } else if has_suffix(t, "/v1"@) {
        t + "/"@ + strip_leading_char(suffix, '/')
    } else if has_suffix(t, "/models"@) {
        strip_trailing_char(strip_trailing(t, "/models"@), '/') + "/"@ + strip_leading_char(suffix, '/')
    } else {
        t
    }
}

fn strip_trailing_char_of(v: &Vec<char>, c: char) -> (r: Vec<char>)
    ensures
        r@ == strip_trailing_char(v@, c),
{
    let mut n = v.len();
    assert(v@.take(n as int) =~= v@);
    while n > 0 && v[n - 1] == c
        invariant
            n <= v@.len(),
            strip_trailing_char(v@.take(n as int), c) == strip_trailing_char(v@, c),
        decreases n,
    {
        proof {
            assert(v@.take(n as int).drop_last() =~= v@.take(n - 1));
        }
        n = n - 1;
    }
    proof {
        assert(v@.take(v@.len() as int) =~= v@);
    }
    crate::text::chars_between(v.as_slice(), 0, n)
}

fn strip_leading_char_of(v: &Vec<char>, c: char) -> (r: Vec<char>)
    ensures
        r@ == strip_leading_char(v@, c),
{
    let mut i: usize = 0;
    assert(v@.skip(0) =~= v@);
    while i < v.len() && v[i] == c
        invariant
            i <= v@.len(),
            strip_leading_char(v@.skip(i as int), c) == strip_leading_char(v@, c),
        decreases v@.len() - i,
    {
        proof {
            assert(v@.skip(i as int).drop_first() =~= v@.skip(i + 1));
        }
        i = i + 1;
    }
    let r = crate::text::chars_between(v.as_slice(), i, v.len());
    assert(r@ =~= v@.skip(i as int));
    r
}

pub fn strip_trailing_of(s: &str, p: &str) -> (r: String)
    requires
        p@.len() > 0,
    ensures
        r@ == strip_trailing(s@, p@),
{
    let mut cur = s.to_string();
    while ends_with(cur.as_str(), p)
        invariant
            p@.len() > 0,
            strip_trailing(cur@, p@) == strip_trailing(s@, p@),
        decreases cur@.len(),
    {
        let n = cur.unicode_len();
        let m = p.unicode_len();
        cur = crate::text::substring(cur.as_str(), 0, n - m);
    }
    cur
}

fn before_first_of(s: &str, p: &str) -> (r: String)
    requires
        p@.len() > 0,
    ensures
        r@ == before_first(s@, p@),
{
    let v = chars_of(s);
    let w = chars_of(p);
    let mut i: usize = 0;
    assert(v@.skip(0) =~= v@);
    while i < v.len()
        invariant
            v@ == s@,
            w@ == p@,
            p@.len() > 0,
            i <= v@.len(),
            before_first(s@, p@) == v@.take(i as int) + before_first(v@.skip(i as int), p@),
        decreases v@.len() - i,
    {
        let ghost rest = v@.skip(i as int);
        if crate::text::chars_occur_at(v.as_slice(), w.as_slice(), i) {
            proof {
                assert(rest.take(p@.len() as int) =~= v@.subrange(i as int, i + p@.len()));
                assert(v@.take(i as int) + Seq::<char>::empty() =~= v@.take(i as int));
            }
            let r = crate::text::chars_between(v.as_slice(), 0, i);
            return string_from_chars(r.as_slice());
        }
        proof {
            if rest.len() >= p@.len() {
                assert(rest.take(p@.len() as int) =~= v@.subrange(i as int, i + p@.len()));
                assert(rest.drop_first() =~= v@.skip(i + 1));
                assert(v@.take(i as int) + (seq![rest[0]] + before_first(rest.drop_first(), p@)) =~= v@.take(i + 1)
                    + before_first(v@.skip(i + 1), p@));
            } else {
                assert(v@.take(i as int) + rest =~= v@);
                assert(before_first(v@.skip(i + 1), p@) == v@.skip(i + 1));
                assert(v@.take(i + 1) + v@.skip(i + 1) =~= v@);
            }
        }
        i = i + 1;
    }
    proof {
        assert(v@.skip(v@.len() as int) =~= Seq::<char>::empty());
        assert(v@.take(v@.len() as int) =~= v@);
        assert(v@ + Seq::<char>::empty() =~= v@);
    }
    s.to_string()
}

/// The endpoint to call for a configured address.
pub fn normalize_endpoint(input: &str, default_url: &str, suffix: &str) -> (r: String)
    ensures
        r@ == normalized_endpoint(input@, default_url@, suffix@),
{
    let tv = chars_of(input);
    let trimmed = crate::text::trim_chars(tv.as_slice());
    let tt = strip_trailing_char_of(&trimmed, '/');
    let t = string_from_chars(tt.as_slice());
    if t.unicode_len() == 0 {
        return default_url.to_string();
    }
    if !starts_with(t.as_str(), "http://") && !starts_with(t.as_str(), "https://") {
        if tt[0] == '/' {
            proof {
                reveal_strlit("/v1");
            }
            let mut host = before_first_of(default_url, "/v1");
            host.append(t.as_str());
            return host;
        } else {
            return t;
        }
    }
    let sv = chars_of(suffix);
    let sfx = strip_leading_char_of(&sv, '/');
    let sfx_s = string_from_chars(sfx.as_slice());
    if ends_with(t.as_str(), "/v1") {
        let mut r = t.clone();
        r.append("/");
        r.append(sfx_s.as_str());
        r
    } else if ends_with(t.as_str(), "/models") {
        proof {
            reveal_strlit("/models");
        }
        let a = strip_trailing_of(t.as_str(), "/models");
        let av = chars_of(a.as_str());
        let b = strip_trailing_char_of(&av, '/');
        let mut r = string_from_chars(b.as_slice());
        r.append("/");
        r.append(sfx_s.as_str());
        r
    } else {
        t
    }
}

/// The message of an error the service reports: its `message`, or the error itself
/// when it is a string, else a default.
pub open spec fn error_message_of(err: JsonView) -> Seq<char> {
    match opt_str(view_field(err, "message"@)) {
        Some(s) => s,
        None => match view_str(err) {
            Some(s) => s,
            None => "Unknown API error"@,
        },
    }
}

pub fn extract_error_message(err: &Json) -> (r: String)
    ensures
        r@ == error_message_of(err@),
{
    match err.get("message") {
        Some(m) => match m.as_str() {
            Some(s) => return s.to_string(),
            None => {},
        },
        None => {},
    }
    match err.as_str() {
        Some(s) => s.to_string(),
        None => "Unknown API error".to_string(),
    }
}

/// A prompt message's text: its `content` with `$text`, `$from` and `$to` replaced
/// in turn.
pub open spec fn prompt_content(msg: JsonView, text: Seq<char>, from: Seq<char>, to: Seq<char>) -> Seq<char> {
    replace_all(
        replace_all(replace_all(field_str_or(msg, "content"@, Seq::empty()), "$text"@, text), "$from"@, from),
        "$to"@,
        to,
    )
}

/// The configured prompt messages that are not blank, each as `role: content`.
pub open spec fn prompt_parts(msgs: Seq<JsonView>, text: Seq<char>, from: Seq<char>, to: Seq<char>) -> Seq<Seq<char>>
    decreases msgs.len(),
{
    if msgs.len() == 0 {
        Seq::empty()
    } else {
        let before = prompt_parts(msgs.drop_last(), text, from, to);
        let c = prompt_content(msgs.last(), text, from, to);
        if trim(c).len() > 0 {
            before.push(field_str_or(msgs.last(), "role"@, "user"@) + ": "@ + c)
        } else {
            before
        }
    }
}

/// The prompt: the configured messages separated by blank lines, or a plain request
/// to translate when there are none.
pub open spec fn prompt_of(config: JsonView, text: Seq<char>, from: Seq<char>, to: Seq<char>) -> Seq<char> {
    let parts = prompt_parts(array_items(view_field(config, "prompt"@)), text, from, to);
    if parts.len() == 0 {
        "Translate the following text from "@ + from + " to "@ + to + ":\n\n"@ + text
    } else {
        join(parts, "\n\n"@)
    }
}

pub fn build_prompt(req: &TranslateRequest) -> (r: String)
    ensures
        r@ == prompt_of(req.config@, req.text@, req.from@, req.to@),
{
    proof {
        reveal_strlit("");
        reveal_strlit("$text");
        reveal_strlit("$from");
        reveal_strlit("$to");
        assert(""@ =~= Seq::<char>::empty());
    }
    let msgs = items_of(req.config.get("prompt"));
    let ghost mv = crate::json::json_seq_view(msgs@);
    proof {
        crate::json::lemma_seq_view(msgs@);
    }
    let mut parts: Vec<String> = Vec::new();
    let mut i: usize = 0;
    while i < msgs.len()
        invariant
            mv == crate::json::json_seq_view(msgs@),
            mv.len() == msgs@.len(),
            forall|k: int| 0 <= k < msgs@.len() ==> #[trigger] mv[k] == json_view(msgs@[k]),
            i <= msgs@.len(),
            views(parts@) == prompt_parts(mv.take(i as int), req.text@, req.from@, req.to@),
            "$text"@.len() > 0,
            "$from"@.len() > 0,
            "$to"@.len() > 0,
            ""@ == Seq::<char>::empty(),
        decreases msgs@.len() - i,
    {
        proof {
            assert(mv.take(i + 1).drop_last() =~= mv.take(i as int));
            assert(mv.take(i + 1).last() == msgs@[i as int]@);
        }
        let role = config_str(&msgs[i], "role", "user");
        let c0 = config_str(&msgs[i], "content", "");
        let c1 = replace_str(c0.as_str(), "$text", req.text.as_str());
        let c2 = replace_str(c1.as_str(), "$from", req.from.as_str());
        let c3 = replace_str(c2.as_str(), "$to", req.to.as_str());
        let ct = trim_str(c3.as_str());
        if ct.unicode_len() > 0 {
            let mut p = role;
            p.append(": ");
            p.append(c3.as_str());
            let ghost before = views(parts@);
            parts.push(p);
            assert(views(parts@) =~= before.push(p@));
        }
        i = i + 1;
    }
    assert(mv.take(msgs@.len() as int) =~= mv);
    if parts.len() == 0 {
        let mut r = "Translate the following text from ".to_string();
        r.append(req.from.as_str());
        r.append(" to ");
        r.append(req.to.as_str());
        r.append(":\n\n");
        r.append(req.text.as_str());
        r
    } else {
        join_strings(&parts, "\n\n")
    }
}

/// The first position at which `k` can be inserted among keys in order.
pub open spec fn insert_position(es: Seq<(Seq<char>, JsonView)>, k: Seq<char>) -> nat
    decreases es.len(),
{
    if es.len() == 0 {
        0
    } else if crate::services::lex_lt(es[0].0, k) {
        1 + insert_position(es.drop_first(), k)
    } else {
        0
    }
}

/// Object entries with `k` set to `v`: replaced where `k` is, else inserted where
/// the keys' order puts it (as an ordered JSON map inserts).
pub open spec fn ordered_insert(es: Seq<(Seq<char>, JsonView)>, k: Seq<char>, v: JsonView) -> Seq<(Seq<char>, JsonView)> {
    match crate::json::first_index(es, k) {
        Some(i) => es.update(i, (k, v)),
        None => es.insert(insert_position(es, k) as int, (k, v)),
    }
}

pub open spec fn ordered_insert_all(es: Seq<(Seq<char>, JsonView)>, extra: Seq<(Seq<char>, JsonView)>) -> Seq<(Seq<char>, JsonView)>
    decreases extra.len(),
{
    if extra.len() == 0 {
        es
    } else {
        ordered_insert(ordered_insert_all(es, extra.drop_last()), extra.last().0, extra.last().1)
    }
}

/// The request body with the extra arguments set in it, when both are objects.
pub open spec fn merged(body: JsonView, extra: JsonView) -> JsonView {
    match (body, extra) {
        (JsonView::Object(b), JsonView::Object(x)) => JsonView::Object(ordered_insert_all(b, x)),
        _ => body,
    }
}

pub fn ordered_set(es: &mut Vec<(String, Json)>, key: String, value: Json)
    ensures
        crate::json::json_entries_view(final(es)@) == ordered_insert(
            crate::json::json_entries_view(old(es)@),
            key@,
            value@,
        ),
{
    proof {
        crate::json::lemma_entries_view(es@);
    }
    let ghost ev = crate::json::json_entries_view(es@);
    let ghost kv = key@;
    let ghost vv = value@;
    match crate::json::entries_find(es, key.as_str()) {
        Some(i) => {
            es.set(i, (key, value));
            proof {
                crate::json::lemma_entries_view(es@);
                assert(crate::json::json_entries_view(es@) =~= ev.update(i as int, (kv, vv)));
            }
        },
        None => {
            let mut p: usize = 0;
            assert(ev.skip(0) =~= ev);
            while p < es.len() && crate::services::str_lt(es[p].0.as_str(), key.as_str())
                invariant
                    ev == crate::json::json_entries_view(es@),
                    ev.len() == es@.len(),
                    forall|j: int| 0 <= j < es@.len() ==> #[trigger] ev[j] == (es@[j].0@, json_view(es@[j].1)),
                    kv == key@,
                    p <= es@.len(),
                    insert_position(ev, kv) == p + insert_position(ev.skip(p as int), kv),
                decreases es@.len() - p,
            {
                proof {
                    assert(ev.skip(p as int)[0] == ev[p as int]);
                    assert(ev.skip(p as int).drop_first() =~= ev.skip(p + 1));
                }
                p = p + 1;
            }
            proof {
                if p < es@.len() {
                    assert(ev.skip(p as int)[0] == ev[p as int]);
                }
                assert(insert_position(ev, kv) == p);
            }
            es.insert(p, (key, value));
            proof {
                crate::json::lemma_entries_view(es@);
                assert(crate::json::json_entries_view(es@) =~= ev.insert(p as int, (kv, vv)));
            }
        },
    }
}

/// Sets each extra argument in the body, when both are objects.
pub fn merge_extra_args(body: &mut Json, extra: &Json)
    ensures
        final(body)@ == merged(old(body)@, extra@),
{
    match (&mut *body, extra) {
        (Json::Object(b), Json::Object(x)) => {
            proof {
                crate::json::lemma_entries_view(x@);
            }
            let ghost b0 = crate::json::json_entries_view(b@);
            let ghost xv = crate::json::json_entries_view(x@);
            let mut i: usize = 0;
            while i < x.len()
                invariant
                    xv == crate::json::json_entries_view(x@),
                    xv.len() == x@.len(),
                    forall|j: int| 0 <= j < x@.len() ==> #[trigger] xv[j] == (x@[j].0@, json_view(x@[j].1)),
                    i <= x@.len(),
                    crate::json::json_entries_view(b@) == ordered_insert_all(b0, xv.take(i as int)),
                decreases x@.len() - i,
            {
                proof {
                    assert(xv.take(i + 1).drop_last() =~= xv.take(i as int));
                    assert(xv.take(i + 1).last() == xv[i as int]);
                }
                let k = x[i].0.clone();
                let v = x[i].1.deep_clone();
                ordered_set(b, k, v);
                i = i + 1;
            }
            assert(xv.take(x@.len() as int) =~= xv);
        },
        _ => {},
    }
}

/// The settings of a request: API key, model, endpoint (`request_url`, else the
/// older `request_path`), format, the older `service` name and extra arguments.
pub struct OpenAISettings {
    pub api_key: String,
    pub model: String,
    pub request_url: String,
    pub api_format: String,
    pub legacy_service: String,
    pub extra_args: Json,
}

pub open spec fn openai_request_url(config: JsonView) -> Seq<char> {
    match opt_str(view_field(config, "request_url"@)) {
        Some(s) => s,
        None => field_str_or(config, "request_path"@, Seq::empty()),
    }
}

pub open spec fn openai_extra_args(config: JsonView) -> JsonView {
    match view_field(config, "request_arguments"@) {
        Some(v) => v,
        None => JsonView::Object(Seq::empty()),
    }
}

/// The user message carrying the prompt.
pub open spec fn user_message(prompt: Seq<char>) -> JsonView {
    JsonView::Object(seq![("content"@, JsonView::Str(prompt)), ("role"@, JsonView::Str("user"@))])
}

/// The request for a translation: errors for a blank API key or model; for the
/// `anthropic` format a POST of the messages API, else one of the chat completions
/// API (with the key in `api-key` for the older Azure setting, else as bearer).
pub open spec fn openai_request_of(config: JsonView, text: Seq<char>, from: Seq<char>, to: Seq<char>) -> Result<HttpRequestView, (Seq<char>, Seq<char>)> {
    let key = field_str_or(config, "api_key"@, Seq::empty());
    let model = field_str_or(config, "model"@, Seq::empty());
    let prompt = prompt_of(config, text, from, to);
    let extra = openai_extra_args(config);
    if trim(key).len() == 0 {
        Err(("openai"@, "API key is required"@))
    } else if trim(model).len() == 0 {
        Err(("openai"@, "Model is required"@))
    } else if field_str_or(config, "api_format"@, "openai_compatible"@) == "anthropic"@ {
        Ok(
            HttpRequestView {
                method: HttpMethod::Post,
                url: normalized_endpoint(openai_request_url(config), "https://api.anthropic.com/v1/messages"@, "messages"@),
                headers: seq![
                    ("Content-Type"@, "application/json"@),
                    ("x-api-key"@, key),
                    ("anthropic-version"@, "2023-06-01"@),
                ],
                body: Some(
                    json_text(
                        merged(
                            JsonView::Object(
                                seq![
                                    ("max_tokens"@, JsonView::PosInt(1024)),
                                    ("messages"@, JsonView::Array(seq![user_message(prompt)])),
                                    ("model"@, JsonView::Str(model)),
                                    ("stream"@, JsonView::Bool(false)),
                                ],
                            ),
                            extra,
                        ),
                    ),
                ),
            },
        )
    } else {
        Ok(
            HttpRequestView {
                method: HttpMethod::Post,
                url: normalized_endpoint(
                    openai_request_url(config),
                    "https://api.openai.com/v1/chat/completions"@,
                    "chat/completions"@,
                ),
                headers: seq![
                    ("Content-Type"@, "application/json"@),
                    if field_str_or(config, "service"@, Seq::empty()) == "azure"@ {
                        ("api-key"@, key)
                    } else {
                        ("Authorization"@, "Bearer "@ + key)
                    },
                ],
                body: Some(
                    json_text(
                        merged(
                            JsonView::Object(
                                seq![
                                    ("messages"@, JsonView::Array(seq![user_message(prompt)])),
                                    ("model"@, JsonView::Str(model)),
                                    ("stream"@, JsonView::Bool(false)),
                                ],
                            ),
                            extra,
                        ),
                    ),
                ),
            },
        )
    }
}

/// The answer's text: the texts of the `content` items on separate lines for
/// Anthropic, else `choices[0].message.content`; trimmed.
pub open spec fn chat_text(anthropic: bool, resp: JsonView) -> Seq<char> {
    if anthropic {
        trim(join(field_items(array_items(view_field(resp, "content"@)), "text"@), "\n"@))
    } else {
        trim(str_or_empty(opt_field(opt_field(opt_at(view_field(resp, "choices"@), 0), "message"@), "content"@)))
    }
}

/// The answer with its HTTP status: for a status outside 200..=299 the reported
/// error's message, else `HTTP <status>`; else the reported error's message, else
/// the text.
pub open spec fn chat_outcome(anthropic: bool, status: u16, resp: JsonView) -> Result<TranslateResultView, (Seq<char>, Seq<char>)> {
    if !(200 <= status <= 299) {
        Err(
            (
                "openai"@,
                match view_field(resp, "error"@) {
                    Some(e) => error_message_of(e),
                    None => "HTTP "@ + digits(status as nat, 10),
                },
            ),
        )
    } else {
        match view_field(resp, "error"@) {
            Some(e) => Err(("openai"@, error_message_of(e))),
            None => text_outcome("openai"@, chat_text(anthropic, resp)),
        }
    }
}

impl OpenAITranslate {
    pub fn name(&self) -> (r: &'static str)
        ensures
            r@ == "openai"@,
    {
        "openai"
    }

    /// Whether the configured format is Anthropic's.
    pub fn is_anthropic(&self, config: &Json) -> (r: bool)
        ensures
            r == (field_str_or(config@, "api_format"@, "openai_compatible"@) == "anthropic"@),
    {
        let f = config_str(config, "api_format", "openai_compatible");
        str_eq(f.as_str(), "anthropic")
    }

    pub fn request(&self, req: &TranslateRequest) -> (r: Result<HttpRequest, ServiceError>)
        ensures
            request_views(r) == openai_request_of(req.config@, req.text@, req.from@, req.to@),
    {
        proof {
            reveal_strlit("");
            assert(""@ =~= Seq::<char>::empty());
        }
        let key = config_str(&req.config, "api_key", "");
        let model = config_str(&req.config, "model", "");
        let url = match req.config.get("request_url") {
            Some(v) => match v.as_str() {
                Some(s) => s.to_string(),
                None => config_str(&req.config, "request_path", ""),
            },
            None => config_str(&req.config, "request_path", ""),
        };
        let legacy = config_str(&req.config, "service", "");
        let extra = match req.config.get("request_arguments") {
            Some(v) => v.deep_clone(),
            None => {
                let e = Json::Object(Vec::new());
                assert(crate::json::json_entries_view(Seq::<(String, Json)>::empty()) =~= Seq::empty());
                e
            },
        };
        let kt = trim_str(key.as_str());
        if kt.unicode_len() == 0 {
            return Err(ServiceError::new("openai", "API key is required"));
        }
        let mt = trim_str(model.as_str());
        if mt.unicode_len() == 0 {
            return Err(ServiceError::new("openai", "Model is required"));
        }
        let prompt = build_prompt(req);
        let msg = obj2("content", Json::Str(prompt), "role", jstr("user"));
        if self.is_anthropic(&req.config) {
            let endpoint = normalize_endpoint(url.as_str(), "https://api.anthropic.com/v1/messages", "messages");
            let mut body = obj4(
                "max_tokens",
                Json::PosInt(1024),
                "messages",
                arr1(msg),
                "model",
                Json::Str(model),
                "stream",
                Json::Bool(false),
            );
            merge_extra_args(&mut body, &extra);
            let mut hs: Vec<(String, String)> = Vec::new();
            hs.push(header("Content-Type", "application/json"));
            hs.push(("x-api-key".to_string(), key));
            hs.push(header("anthropic-version", "2023-06-01"));
            let r = post_json(endpoint, hs, &body);
            assert(r@.headers =~= seq![
                ("Content-Type"@, "application/json"@),
                ("x-api-key"@, field_str_or(req.config@, "api_key"@, Seq::empty())),
                ("anthropic-version"@, "2023-06-01"@),
            ]);
            Ok(r)
        } else {
            let endpoint = normalize_endpoint(url.as_str(), "https://api.openai.com/v1/chat/completions", "chat/completions");
            let mut body = obj3("messages", arr1(msg), "model", Json::Str(model), "stream", Json::Bool(false));
            merge_extra_args(&mut body, &extra);
            let mut hs: Vec<(String, String)> = Vec::new();
            hs.push(header("Content-Type", "application/json"));
            let ghost kv = key@;
            if str_eq(legacy.as_str(), "azure") {
                hs.push(("api-key".to_string(), key));
            } else {
                let mut b = "Bearer ".to_string();
                b.append(key.as_str());
                hs.push(("Authorization".to_string(), b));
            }
            let r = post_json(endpoint, hs, &body);
            assert(r@.headers =~= seq![
                ("Content-Type"@, "application/json"@),
                if field_str_or(req.config@, "service"@, Seq::empty()) == "azure"@ {
                    ("api-key"@, kv)
                } else {
                    ("Authorization"@, "Bearer "@ + kv)
                },
            ]);
            Ok(r)
        }
    }

    /// The result from the service's answer and its HTTP status.
    pub fn response(&self, anthropic: bool, status: u16, resp: &Json) -> (r: Result<TranslateResult, ServiceError>)
        ensures
            outcome_view(r) == chat_outcome(anthropic, status, resp@),
    {
        if !(200 <= status && status <= 299) {
            let m = match resp.get("error") {
                Some(e) => extract_error_message(e),
                None => {
                    let mut m = "HTTP ".to_string();
                    let d = u64_to_base(status as u64, 10);
                    m.append(d.as_str());
                    m
                },
            };
            return Err(ServiceError { service: "openai".to_string(), message: m });
        }
        match resp.get("error") {
            Some(e) => {
                let m = extract_error_message(e);
                return Err(ServiceError { service: "openai".to_string(), message: m });
            },
            None => {},
        }
        let t = if anthropic {
            let items = items_of(resp.get("content"));
            let texts = collect_strings(items, Some("text"));
            let j = join_strings(&texts, "\n");
            trim_str(j.as_str())
        } else {
            let c = text_of(field_of(field_of(at_of(resp.get("choices"), 0), "message"), "content"));
            trim_str(c.as_str())
        };
        text_result("openai", t)
    }

    pub fn default_config(&self) -> (r: Json)
        ensures
            r@ == JsonView::Object(
                seq![
                    ("api_format"@, JsonView::Str("openai_compatible"@)),
                    ("api_key"@, JsonView::Str(Seq::empty())),
                    ("model"@, JsonView::Str("gpt-3.5-turbo"@)),
                    ("prompt"@, JsonView::Array(Seq::empty())),
                    ("request_arguments"@, JsonView::Object(Seq::empty())),
                    ("request_url"@, JsonView::Str("https://api.openai.com/v1/chat/completions"@)),
                ],
            ),
    {
        proof {
            reveal_strlit("");
        }
        let mut es: Vec<(String, Json)> = Vec::new();
        es.push(("api_format".to_string(), jstr("openai_compatible")));
        es.push(("api_key".to_string(), jstr("")));
        es.push(("model".to_string(), jstr("gpt-3.5-turbo")));
        es.push(("prompt".to_string(), Json::Array(Vec::new())));
        es.push(("request_arguments".to_string(), Json::Object(Vec::new())));
        es.push(("request_url".to_string(), jstr("https://api.openai.com/v1/chat/completions")));
        let r = Json::Object(es);
        proof {
            crate::json::lemma_entries_view(es@);
            assert(crate::json::json_seq_view(Seq::<Json>::empty()) =~= Seq::empty());
            assert(crate::json::json_entries_view(Seq::<(String, Json)>::empty()) =~= Seq::empty());
            assert(""@ =~= Seq::<char>::empty());
            assert(crate::json::json_entries_view(es@) =~~= seq![
                ("api_format"@, JsonView::Str("openai_compatible"@)),
                ("api_key"@, JsonView::Str(Seq::empty())),
                ("model"@, JsonView::Str("gpt-3.5-turbo"@)),
                ("prompt"@, JsonView::Array(Seq::empty())),
                ("request_arguments"@, JsonView::Object(Seq::empty())),
                ("request_url"@, JsonView::Str("https://api.openai.com/v1/chat/completions"@)),
            ]);
        }
        r
    }
}

} // verus!
