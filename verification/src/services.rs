//! What the translation, speech, recognition and collection services exchange:
//! requests, results, errors, the HTTP calls the backends make, and the registries
//! that find a service by name.

use vstd::prelude::*;
use crate::json::{Json, JsonView, json_text, to_json_text, view_field, opt_str, field_str_or};
use crate::text::{views, str_eq, chars_of};
use sha2::Digest;

verus! {

// ---------------------------------------------------------------------------
// Requests and results.
// ---------------------------------------------------------------------------

/// A text to translate, its languages, and the settings of the service instance.
pub struct TranslateRequest {
    pub text: String,
    pub from: String,
    pub to: String,
    pub config: Json,
}

/// A pronunciation of a word in a region's accent.
pub struct Pronunciation {
    pub region: String,
    pub symbol: String,
}

/// One meaning of a word.
pub struct Explain {
    pub text: String,
}

/// The meanings of a word for one part of speech.
pub struct Explanation {
    pub trait_name: String,
    pub explains: Vec<Explain>,
}

/// An example sentence and its translation.
pub struct Sentence {
    pub source: String,
    pub target: String,
}

/// A dictionary entry for a single word.
pub struct DictionaryResult {
    pub pronunciations: Vec<Pronunciation>,
    pub explanations: Vec<Explanation>,
    pub associations: Vec<String>,
    pub sentences: Vec<Sentence>,
}

/// What a translation service answers: a translated text or a dictionary entry.
pub enum TranslateResult {
    Text(String),
    Dictionary(DictionaryResult),
}

/// The model of a dictionary entry: pronunciations (region, symbol), explanations
/// (part of speech, meanings), associated words, and sentences (source, target).
pub struct DictionaryView {
    pub pronunciations: Seq<(Seq<char>, Seq<char>)>,
    pub explanations: Seq<(Seq<char>, Seq<Seq<char>>)>,
    pub associations: Seq<Seq<char>>,
    pub sentences: Seq<(Seq<char>, Seq<char>)>,
}

pub enum TranslateResultView {
    Text(Seq<char>),
    Dictionary(DictionaryView),
}

pub open spec fn explanation_view(e: Explanation) -> (Seq<char>, Seq<Seq<char>>) {
    (e.trait_name@, e.explains@.map_values(|x: Explain| x.text@))
}

pub open spec fn dictionary_view(d: DictionaryResult) -> DictionaryView {
    DictionaryView {
        pronunciations: d.pronunciations@.map_values(|p: Pronunciation| (p.region@, p.symbol@)),
        explanations: d.explanations@.map_values(|e: Explanation| explanation_view(e)),
        associations: views(d.associations@),
        sentences: d.sentences@.map_values(|s: Sentence| (s.source@, s.target@)),
    }
}

impl View for TranslateResult {
    type V = TranslateResultView;

    open spec fn view(&self) -> TranslateResultView {
        match self {
            TranslateResult::Text(t) => TranslateResultView::Text(t@),
            TranslateResult::Dictionary(d) => TranslateResultView::Dictionary(dictionary_view(*d)),
        }
    }
}

/// A failure of a service, with the service's name.
pub struct ServiceError {
    pub service: String,
    pub message: String,
}

pub open spec fn error_text(service: Seq<char>, message: Seq<char>) -> Seq<char> {
    "["@ + service + "] "@ + message
}

impl ServiceError {
    pub fn new(service: &str, message: &str) -> (r: Self)
        ensures
            r.service@ == service@,
            r.message@ == message@,
    {
        ServiceError { service: service.to_string(), message: message.to_string() }
    }

    /// The error as it is shown: `[service] message`.
    pub fn to_text(&self) -> (r: String)
        ensures
            r@ == error_text(self.service@, self.message@),
    {
        let mut r = "[".to_string();
        r.append(self.service.as_str());
        r.append("] ");
        r.append(self.message.as_str());
        r
    }
}

/// The model of a service's answer: the result, or the error's service and message.
pub open spec fn outcome_view(r: Result<TranslateResult, ServiceError>) -> Result<TranslateResultView, (Seq<char>, Seq<char>)> {
    match r {
        Ok(t) => Ok(t@),
        Err(e) => Err((e.service@, e.message@)),
    }
}

// ---------------------------------------------------------------------------
// HTTP calls.
// ---------------------------------------------------------------------------

#[derive(Debug, Clone, Copy, PartialEq, Eq, Structural)]
pub enum HttpMethod {
    Get,
    Post,
}

/// An HTTP request for a service: method, URL, headers and body text.
pub struct HttpRequest {
    pub method: HttpMethod,
    pub url: String,
    pub headers: Vec<(String, String)>,
    pub body: Option<String>,
}

pub struct HttpRequestView {
    pub method: HttpMethod,
    pub url: Seq<char>,
    pub headers: Seq<(Seq<char>, Seq<char>)>,
    pub body: Option<Seq<char>>,
}

pub open spec fn header_views(h: Seq<(String, String)>) -> Seq<(Seq<char>, Seq<char>)> {
    h.map_values(|p: (String, String)| (p.0@, p.1@))
}

impl View for HttpRequest {
    type V = HttpRequestView;

    open spec fn view(&self) -> HttpRequestView {
        HttpRequestView {
            method: self.method,
            url: self.url@,
            headers: header_views(self.headers@),
            body: match self.body {
                Some(b) => Some(b@),
                None => None,
            },
        }
    }
}

/// A header list from pairs of texts.
pub fn headers_of(pairs: Vec<(&str, String)>) -> (r: Vec<(String, String)>)
    ensures
        header_views(r@) == pairs@.map_values(|p: (&str, String)| (p.0@, p.1@)),
{
    let mut out: Vec<(String, String)> = Vec::new();
    let mut i: usize = 0;
    while i < pairs.len()
        invariant
            i <= pairs@.len(),
            header_views(out@) == pairs@.take(i as int).map_values(|p: (&str, String)| (p.0@, p.1@)),
        decreases pairs@.len() - i,
    {
        let ghost before = header_views(out@);
        let h = (pairs[i].0.to_string(), pairs[i].1.clone());
        out.push(h);
        proof {
            assert(header_views(out@) =~= before.push((pairs@[i as int].0@, pairs@[i as int].1@)));
            assert(pairs@.take(i + 1).map_values(|p: (&str, String)| (p.0@, p.1@)) =~= pairs@.take(
                i as int,
            ).map_values(|p: (&str, String)| (p.0@, p.1@)).push(
                (pairs@[i as int].0@, pairs@[i as int].1@),
            ));
        }
        i = i + 1;
    }
    assert(pairs@.take(pairs@.len() as int) =~= pairs@);
    out
}

// ---------------------------------------------------------------------------
// Encodings computed by outside crates.
// ---------------------------------------------------------------------------

/// The UTF-8 bytes of a character.
pub open spec fn utf8_bytes(c: char) -> Seq<u8> {
    let n = c as u32;
    if n < 0x80 {
        seq![n as u8]
    } else if n < 0x800 {
        seq![(0xC0 + n / 64) as u8, (0x80 + n % 64) as u8]
    } else if n < 0x10000 {
        seq![(0xE0 + n / 4096) as u8, (0x80 + (n / 64) % 64) as u8, (0x80 + n % 64) as u8]
    } else {
        seq![
            (0xF0 + n / 262144) as u8,
            (0x80 + (n / 4096) % 64) as u8,
            (0x80 + (n / 64) % 64) as u8,
            (0x80 + n % 64) as u8,
        ]
    }
}

/// An uppercase hexadecimal digit.
pub open spec fn hex_upper(d: u8) -> char {
    if d < 10 {
        ('0' as u8 + d) as char
    } else {
        ('A' as u8 + d - 10) as char
    }
}

/// The percent-escape of a byte: `%` and its two uppercase hexadecimal digits.
pub open spec fn percent_escape(b: u8) -> Seq<char> {
    seq!['%', hex_upper(b / 16), hex_upper(b % 16)]
}

/// The escapes of a sequence of bytes.
pub open spec fn percent_escapes(bs: Seq<u8>) -> Seq<char>
    decreases bs.len(),
{
    if bs.len() == 0 {
        Seq::empty()
    } else {
        percent_escapes(bs.drop_last()) + percent_escape(bs.last())
    }
}

/// A character that percent-encoding keeps: an ASCII letter or digit, `-`, `.`,
/// `_` or `~`.
pub open spec fn url_safe(c: char) -> bool {
    ('0' <= c <= '9') || ('A' <= c <= 'Z') || ('a' <= c <= 'z') || c == '-' || c == '.' || c == '_' || c == '~'
}

/// The percent-encoding of a text: each safe character as it is, each other
/// character as the escapes of its UTF-8 bytes.
pub open spec fn url_encoded(s: Seq<char>) -> Seq<char>
    decreases s.len(),
{
    if s.len() == 0 {
        Seq::empty()
    } else {
        url_encoded(s.drop_last()) + if url_safe(s.last()) {
            seq![s.last()]
        } else {
            percent_escapes(utf8_bytes(s.last()))
        }
    }
}

/// `urlencoding::encode`, which writes each byte of the text's UTF-8 form that is no
/// ASCII letter, digit, `-`, `_`, `.` or `~` as `%` and two uppercase hexadecimal
/// digits, and keeps the others: the result is [`url_encoded`].
#[verifier::external_body]
pub(crate) fn url_encode(s: &str) -> (r: String)
    ensures
        r@ == url_encoded(s@),
{
    urlencoding::encode(s).into_owned()
}

/// The lowercase hexadecimal MD5 digest of a text's UTF-8 bytes.
pub uninterp spec fn md5_hex_of(s: Seq<char>) -> Seq<char>;

/// `md5::Md5` (the `md-5` crate) over the text's bytes, written with `{:x}`; the
/// result is named [`md5_hex_of`].
#[verifier::external_body]
pub(crate) fn md5_hex(s: &str) -> (r: String)
    ensures
        r@ == md5_hex_of(s@),
{
    let mut hasher = md5::Md5::new();
    hasher.update(s.as_bytes());
    format!("{:x}", hasher.finalize())
}

/// The lowercase hexadecimal SHA-256 digest of a text's UTF-8 bytes.
pub uninterp spec fn sha256_hex_of(s: Seq<char>) -> Seq<char>;

/// `sha2::Sha256` over the text's bytes, written with `{:x}`; the result is named
/// [`sha256_hex_of`].
#[verifier::external_body]
pub(crate) fn sha256_hex(s: &str) -> (r: String)
    ensures
        r@ == sha256_hex_of(s@),
{
    let mut hasher = sha2::Sha256::new();
    hasher.update(s.as_bytes());
    format!("{:x}", hasher.finalize())
}

// ---------------------------------------------------------------------------
// Names in order.
// ---------------------------------------------------------------------------

/// Whether `a` comes before `b`, comparing characters (code points) in order and a
/// proper prefix first, as `str`'s `<` orders texts.
pub open spec fn lex_lt(a: Seq<char>, b: Seq<char>) -> bool
    decreases a.len(),
{
    if a.len() == 0 {
        b.len() > 0
    } else if b.len() == 0 {
        false
    } else if a[0] != b[0] {
        a[0] < b[0]
    } else {
        lex_lt(a.drop_first(), b.drop_first())
    }
}

pub proof fn lemma_lex_irreflexive(a: Seq<char>)
    ensures
        !lex_lt(a, a),
    decreases a.len(),
{
    if a.len() > 0 {
        lemma_lex_irreflexive(a.drop_first());
    }
}

pub proof fn lemma_lex_total(a: Seq<char>, b: Seq<char>)
    ensures
        a == b || lex_lt(a, b) || lex_lt(b, a),
    decreases a.len(),
{
    if a.len() > 0 && b.len() > 0 && a[0] == b[0] {
        lemma_lex_total(a.drop_first(), b.drop_first());
        if a.drop_first() == b.drop_first() {
            assert(a =~= seq![a[0]] + a.drop_first());
            assert(b =~= seq![b[0]] + b.drop_first());
        }
    } else if a.len() == 0 && b.len() == 0 {
        assert(a =~= b);
    }
}

pub proof fn lemma_lex_transitive(a: Seq<char>, b: Seq<char>, c: Seq<char>)
    requires
        lex_lt(a, b),
        lex_lt(b, c),
    ensures
        lex_lt(a, c),
    decreases a.len(),
{
    if a.len() > 0 && b.len() > 0 && c.len() > 0 && a[0] == b[0] && b[0] == c[0] {
        lemma_lex_transitive(a.drop_first(), b.drop_first(), c.drop_first());
    }
}

pub proof fn lemma_lex_asymmetric(a: Seq<char>, b: Seq<char>)
    requires
        lex_lt(a, b),
    ensures
        !lex_lt(b, a),
    decreases a.len(),
{
    if a.len() > 0 && b.len() > 0 && a[0] == b[0] {
        lemma_lex_asymmetric(a.drop_first(), b.drop_first());
    }
}

pub fn str_lt(a: &str, b: &str) -> (r: bool)
    ensures
        r == lex_lt(a@, b@),
{
    let x = chars_of(a);
    let y = chars_of(b);
    let mut i: usize = 0;
    assert(x@.skip(0) =~= x@);
    assert(y@.skip(0) =~= y@);
    while i < x.len() && i < y.len() && x[i] == y[i]
        invariant
            x@ == a@,
            y@ == b@,
            i <= x@.len(),
            i <= y@.len(),
            lex_lt(a@, b@) == lex_lt(x@.skip(i as int), y@.skip(i as int)),
        decreases x@.len() - i,
    {
        proof {
            assert(x@.skip(i as int).drop_first() =~= x@.skip(i + 1));
            assert(y@.skip(i as int).drop_first() =~= y@.skip(i + 1));
        }
        i = i + 1;
    }
    proof {
        if i < x@.len() && i < y@.len() {
            assert(x@.skip(i as int)[0] == x@[i as int]);
            assert(y@.skip(i as int)[0] == y@[i as int]);
        }
    }
    if i == x.len() {
        i < y.len()
    } else if i == y.len() {
        false
    } else {
        x[i] < y[i]
    }
}

/// Texts in strictly increasing order.
pub open spec fn sorted_strictly(s: Seq<Seq<char>>) -> bool {
    forall|i: int, j: int| 0 <= i < j < s.len() ==> lex_lt(#[trigger] s[i], #[trigger] s[j])
}

/// Adds `x` at its place in a strictly increasing list that does not hold it.
pub fn insert_sorted(v: &mut Vec<String>, x: String)
    requires
        sorted_strictly(views(old(v)@)),
        !views(old(v)@).contains(x@),
    ensures
        sorted_strictly(views(final(v)@)),
        views(final(v)@).to_set() == views(old(v)@).to_set().insert(x@),
        final(v)@.len() == old(v)@.len() + 1,
{
    let ghost old_v = views(v@);
    let mut p: usize = 0;
    while p < v.len() && str_lt(v[p].as_str(), x.as_str())
        invariant
            views(v@) == old_v,
            p <= v@.len(),
            forall|k: int| 0 <= k < p ==> lex_lt(#[trigger] old_v[k], x@),
        decreases v@.len() - p,
    {
        p = p + 1;
    }
    let ghost xv = x@;
    proof {
        if p < old_v.len() {
            assert(old_v[p as int] != xv);
            lemma_lex_total(old_v[p as int], xv);
            assert(lex_lt(xv, old_v[p as int]));
        }
    }
    v.insert(p, x);
    proof {
        let nv = views(v@);
        assert(nv =~= old_v.insert(p as int, xv));
        assert forall|i: int, j: int| 0 <= i < j < nv.len() implies lex_lt(#[trigger] nv[i], #[trigger] nv[j]) by {
            if j < p {
            } else if j == p {
            } else if i < p {
                assert(nv[j] == old_v[j - 1]);
                if j - 1 > p {
                    assert(lex_lt(old_v[p as int], old_v[j - 1]));
                    lemma_lex_transitive(xv, old_v[p as int], old_v[j - 1]);
                }
                lemma_lex_transitive(old_v[i], xv, old_v[j - 1]);
            } else if i == p {
                if j - 1 > p {
                    assert(lex_lt(old_v[p as int], old_v[j - 1]));
                    lemma_lex_transitive(xv, old_v[p as int], old_v[j - 1]);
                }
            } else {
                assert(nv[i] == old_v[i - 1]);
                assert(nv[j] == old_v[j - 1]);
            }
        }
        assert(nv.to_set() =~= old_v.to_set().insert(xv)) by {
            assert forall|s: Seq<char>| nv.to_set().contains(s) <==> old_v.to_set().insert(xv).contains(s) by {
                if nv.contains(s) {
                    let k = choose|k: int| 0 <= k < nv.len() && nv[k] == s;
                    if k < p {
                        assert(old_v[k] == s);
                    } else if k > p {
                        assert(old_v[k - 1] == s);
                    }
                }
                if old_v.contains(s) {
                    let k = choose|k: int| 0 <= k < old_v.len() && old_v[k] == s;
                    if k < p {
                        assert(nv[k] == s);
                    } else {
                        assert(nv[k + 1] == s);
                    }
                }
                if s == xv {
                    assert(nv[p as int] == s);
                }
            }
        }
    }
}

} // verus!
