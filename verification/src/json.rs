//! A JSON document tree, as the configuration file and the services' replies hold it.

use vstd::prelude::*;
use crate::text::{str_eq, chars_of, push_char, digit_char, digits, u64_to_base};
use crate::http_server::signed_decimal;

verus! {

/// A JSON value. Numbers keep the three forms that JSON readers produce:
/// non-negative integers, negative integers, and other numbers by their text.
pub enum Json {
    Null,
    Bool(bool),
    PosInt(u64),
    NegInt(i64),
    Float(String),
    Str(String),
    Array(Vec<Json>),
    Object(Vec<(String, Json)>),
}

/// The mathematical model of a [`Json`] value.
pub enum JsonView {
    Null,
    Bool(bool),
    PosInt(u64),
    NegInt(i64),
    Float(Seq<char>),
    Str(Seq<char>),
    Array(Seq<JsonView>),
    Object(Seq<(Seq<char>, JsonView)>),
}

pub open spec fn json_view(j: Json) -> JsonView
    decreases j,
{
    match j {
        Json::Null => JsonView::Null,
        Json::Bool(b) => JsonView::Bool(b),
        Json::PosInt(n) => JsonView::PosInt(n),
        Json::NegInt(n) => JsonView::NegInt(n),
        Json::Float(s) => JsonView::Float(s@),
        Json::Str(s) => JsonView::Str(s@),
        Json::Array(v) => JsonView::Array(json_seq_view(v@)),
        Json::Object(e) => JsonView::Object(json_entries_view(e@)),
    }
}

pub open spec fn json_seq_view(s: Seq<Json>) -> Seq<JsonView>
    decreases s,
{
    if s.len() == 0 {
        Seq::empty()
    } else {
        json_seq_view(s.drop_last()).push(json_view(s.last()))
    }
}

pub open spec fn json_entries_view(s: Seq<(String, Json)>) -> Seq<(Seq<char>, JsonView)>
    decreases s,
{
    if s.len() == 0 {
        Seq::empty()
    } else {
        json_entries_view(s.drop_last()).push((s.last().0@, json_view(s.last().1)))
    }
}

impl View for Json {
    type V = JsonView;

    open spec fn view(&self) -> JsonView {
        json_view(*self)
    }
}

/// An element-wise description of the view of a sequence of values.
pub proof fn lemma_seq_view(s: Seq<Json>)
    ensures
        json_seq_view(s).len() == s.len(),
        forall|i: int| 0 <= i < s.len() ==> #[trigger] json_seq_view(s)[i] == json_view(s[i]),
    decreases s.len(),
{
    if s.len() > 0 {
        lemma_seq_view(s.drop_last());
    }
}

/// An element-wise description of the view of a sequence of object entries.
pub proof fn lemma_entries_view(s: Seq<(String, Json)>)
    ensures
        json_entries_view(s).len() == s.len(),
        forall|i: int|
            0 <= i < s.len() ==> #[trigger] json_entries_view(s)[i] == (s[i].0@, json_view(s[i].1)),
    decreases s.len(),
{
    if s.len() > 0 {
        lemma_entries_view(s.drop_last());
    }
}

// ---------------------------------------------------------------------------
// Object entries: lookup, insertion and removal by key.
// ---------------------------------------------------------------------------

/// The position of the first entry whose key is `k`.
pub open spec fn first_index<V>(es: Seq<(Seq<char>, V)>, k: Seq<char>) -> Option<int>
    decreases es.len(),
{
    if es.len() == 0 {
        None
    } else if es[0].0 == k {
        Some(0)
    } else {
        match first_index(es.drop_first(), k) {
            Some(i) => Some(i + 1),
            None => None,
        }
    }
}

/// The value of the first entry whose key is `k`.
pub open spec fn lookup<V>(es: Seq<(Seq<char>, V)>, k: Seq<char>) -> Option<V> {
    match first_index(es, k) {
        Some(i) => Some(es[i].1),
        None => None,
    }
}

/// `es` with the value under `k` replaced by `v`, or `(k, v)` appended when `k` is absent.
pub open spec fn entries_insert<V>(es: Seq<(Seq<char>, V)>, k: Seq<char>, v: V) -> Seq<(Seq<char>, V)> {
    match first_index(es, k) {
        Some(i) => es.update(i, (k, v)),
        None => es.push((k, v)),
    }
}

/// `es` without any entry whose key is `k`, the others kept in order.
pub open spec fn entries_remove<V>(es: Seq<(Seq<char>, V)>, k: Seq<char>) -> Seq<(Seq<char>, V)>
    decreases es.len(),
{
    if es.len() == 0 {
        es
    } else if es[0].0 == k {
        entries_remove(es.drop_first(), k)
    } else {
        seq![es[0]] + entries_remove(es.drop_first(), k)
    }
}

/// The keys of the entries, in order.
pub open spec fn entry_keys<V>(es: Seq<(Seq<char>, V)>) -> Seq<Seq<char>> {
    es.map_values(|p: (Seq<char>, V)| p.0)
}

pub proof fn lemma_first_index<V>(es: Seq<(Seq<char>, V)>, k: Seq<char>)
    ensures
        match first_index(es, k) {
            Some(i) => 0 <= i < es.len() && es[i].0 == k && forall|j: int|
                0 <= j < i ==> es[j].0 != k,
            None => forall|j: int| 0 <= j < es.len() ==> es[j].0 != k,
        },
    decreases es.len(),
{
    if es.len() > 0 {
        lemma_first_index(es.drop_first(), k);
        if es[0].0 != k {
            match first_index(es.drop_first(), k) {
                Some(i) => {
                    assert forall|j: int| 0 <= j < i + 1 implies es[j].0 != k by {
                        if j > 0 {
                            assert(es[j] == es.drop_first()[j - 1]);
                        }
                    }
                },
                None => {
                    assert forall|j: int| 0 <= j < es.len() implies es[j].0 != k by {
                        if j > 0 {
                            assert(es[j] == es.drop_first()[j - 1]);
                        }
                    }
                },
            }
        }
    }
}

/// The first index is the one position with key `k` before which no key is `k`.
pub proof fn lemma_first_index_is<V>(es: Seq<(Seq<char>, V)>, k: Seq<char>, i: int)
    requires
        0 <= i < es.len(),
        es[i].0 == k,
        forall|j: int| 0 <= j < i ==> es[j].0 != k,
    ensures
        first_index(es, k) == Some(i),
{
    lemma_first_index(es, k);
    match first_index(es, k) {
        Some(x) => {
            if x < i {
                assert(es[x].0 != k);
            }
            if x > i {
                assert(es[i].0 != k);
            }
        },
        None => {
            assert(es[i].0 != k);
        },
    }
}

/// No index is found when no key is `k`.
pub proof fn lemma_first_index_none<V>(es: Seq<(Seq<char>, V)>, k: Seq<char>)
    requires
        forall|j: int| 0 <= j < es.len() ==> es[j].0 != k,
    ensures
        first_index(es, k) is None,
{
    lemma_first_index(es, k);
}

/// After an insertion, `k` maps to the inserted value and every other key is unchanged.
pub proof fn lemma_lookup_insert<V>(es: Seq<(Seq<char>, V)>, k: Seq<char>, v: V, k2: Seq<char>)
    ensures
        lookup(entries_insert(es, k, v), k2) == (if k2 == k {
            Some(v)
        } else {
            lookup(es, k2)
        }),
{
    lemma_first_index(es, k);
    lemma_first_index(es, k2);
    let ns = entries_insert(es, k, v);
    lemma_first_index(ns, k2);
    match first_index(es, k) {
        Some(i) => {
            if k2 == k {
                lemma_first_index_is(ns, k, i);
            } else {
                match first_index(es, k2) {
                    Some(j) => {
                        assert(j != i);
                        lemma_first_index_is(ns, k2, j);
                    },
                    None => {
                        lemma_first_index_none(ns, k2);
                    },
                }
            }
        },
        None => {
            if k2 == k {
                lemma_first_index_is(ns, k, es.len() as int);
            } else {
                match first_index(es, k2) {
                    Some(j) => {
                        lemma_first_index_is(ns, k2, j);
                    },
                    None => {
                        lemma_first_index_none(ns, k2);
                    },
                }
            }
        },
    }
}

/// Looking up in a non-empty sequence: the head first, then the rest.
pub proof fn lemma_lookup_cons<V>(es: Seq<(Seq<char>, V)>, k: Seq<char>)
    requires
        es.len() > 0,
    ensures
        lookup(es, k) == (if es[0].0 == k {
            Some(es[0].1)
        } else {
            lookup(es.drop_first(), k)
        }),
{
    if es[0].0 != k {
        match first_index(es.drop_first(), k) {
            Some(i) => {
                lemma_first_index(es.drop_first(), k);
                assert(es[i + 1] == es.drop_first()[i]);
            },
            None => {},
        }
    }
}

/// After a removal, `k` is absent and every other key is unchanged.
pub proof fn lemma_lookup_remove<V>(es: Seq<(Seq<char>, V)>, k: Seq<char>, k2: Seq<char>)
    ensures
        lookup(entries_remove(es, k), k2) == (if k2 == k {
            None
        } else {
            lookup(es, k2)
        }),
    decreases es.len(),
{
    if es.len() > 0 {
        lemma_lookup_remove(es.drop_first(), k, k2);
        lemma_lookup_cons(es, k2);
        let rest = entries_remove(es.drop_first(), k);
        if es[0].0 != k {
            let ns = seq![es[0]] + rest;
            assert(ns.drop_first() =~= rest);
            assert(ns[0] == es[0]);
            lemma_lookup_cons(ns, k2);
        }
    }
}

/// Removing from a sequence grown by one entry.
pub proof fn lemma_remove_push<V>(es: Seq<(Seq<char>, V)>, x: (Seq<char>, V), k: Seq<char>)
    ensures
        entries_remove(es.push(x), k) == (if x.0 == k {
            entries_remove(es, k)
        } else {
            entries_remove(es, k).push(x)
        }),
    decreases es.len(),
{
    if es.len() == 0 {
        assert(es.push(x).drop_first() =~= es);
        if x.0 != k {
            assert(seq![x] + es =~= es.push(x));
        }
    } else {
        assert(es.push(x).drop_first() =~= es.drop_first().push(x));
        lemma_remove_push(es.drop_first(), x, k);
        if es[0].0 != k {
            if x.0 != k {
                assert(seq![es[0]] + entries_remove(es.drop_first(), k).push(x) =~= (seq![es[0]]
                    + entries_remove(es.drop_first(), k)).push(x));
            }
        }
    }
}

// ---------------------------------------------------------------------------
// Reading values.
// ---------------------------------------------------------------------------

/// The field `key` of an object, as `serde_json`'s `Value::get` with a string finds it.
pub open spec fn view_field(j: JsonView, key: Seq<char>) -> Option<JsonView> {
    match j {
        JsonView::Object(es) => lookup(es, key),
        _ => None,
    }
}

/// The element at `i` of an array.
pub open spec fn view_at(j: JsonView, i: int) -> Option<JsonView> {
    match j {
        JsonView::Array(a) => if 0 <= i < a.len() {
            Some(a[i])
        } else {
            None
        },
        _ => None,
    }
}

/// The text of a string value.
pub open spec fn view_str(j: JsonView) -> Option<Seq<char>> {
    match j {
        JsonView::Str(s) => Some(s),
        _ => None,
    }
}

/// The text of an optional value when it is a string (`.and_then(as_str)`).
pub open spec fn opt_str(j: Option<JsonView>) -> Option<Seq<char>> {
    match j {
        Some(v) => view_str(v),
        None => None,
    }
}

/// The text of field `key` when it is a string, else `default`.
pub open spec fn field_str_or(j: JsonView, key: Seq<char>, default: Seq<char>) -> Seq<char> {
    match opt_str(view_field(j, key)) {
        Some(s) => s,
        None => default,
    }
}

pub open spec fn view_bool(j: JsonView) -> Option<bool> {
    match j {
        JsonView::Bool(b) => Some(b),
        _ => None,
    }
}

/// The value as a signed 64-bit integer, when it is an integer in that range.
pub open spec fn view_i64(j: JsonView) -> Option<i64> {
    match j {
        JsonView::PosInt(n) => if n <= i64::MAX as u64 {
            Some(n as i64)
        } else {
            None
        },
        JsonView::NegInt(n) => Some(n),
        _ => None,
    }
}

pub open spec fn view_array(j: JsonView) -> Option<Seq<JsonView>> {
    match j {
        JsonView::Array(a) => Some(a),
        _ => None,
    }
}

/// The index of the first entry of `es` whose key is `key`.
pub fn entries_find(es: &Vec<(String, Json)>, key: &str) -> (r: Option<usize>)
    ensures
        ({
            let ev = json_entries_view(es@);
            match r {
                Some(i) => first_index(ev, key@) == Some(i as int) && i < es@.len(),
                None => first_index(ev, key@) is None,
            }
        }),
{
    proof {
        lemma_entries_view(es@);
    }
    let ghost ev = json_entries_view(es@);
    let mut i: usize = 0;
    while i < es.len()
        invariant
            ev == json_entries_view(es@),
            ev.len() == es@.len(),
            forall|j: int| 0 <= j < ev.len() ==> #[trigger] ev[j] == (es@[j].0@, json_view(es@[j].1)),
            i <= es@.len(),
            forall|j: int| 0 <= j < i ==> ev[j].0 != key@,
        decreases es@.len() - i,
    {
        if str_eq(es[i].0.as_str(), key) {
            proof {
                lemma_first_index_is(ev, key@, i as int);
            }
            return Some(i);
        }
        i = i + 1;
    }
    proof {
        lemma_first_index_none(ev, key@);
    }
    None
}

impl Json {
    /// The field `key` of an object value (`None` for other values).
    pub fn get(&self, key: &str) -> (r: Option<&Json>)
        ensures
            match r {
                Some(x) => view_field(self@, key@) == Some(x@),
                None => view_field(self@, key@) is None,
            },
    {
        match self {
            Json::Object(es) => {
                proof {
                    lemma_entries_view(es@);
                }
                match entries_find(es, key) {
                    Some(i) => Some(&es[i].1),
                    None => None,
                }
            },
            _ => None,
        }
    }

    /// The element at index `i` of an array value (`None` for other values).
    pub fn at(&self, i: usize) -> (r: Option<&Json>)
        ensures
            match r {
                Some(x) => view_at(self@, i as int) == Some(x@),
                None => view_at(self@, i as int) is None,
            },
    {
        match self {
            Json::Array(v) => {
                proof {
                    lemma_seq_view(v@);
                }
                if i < v.len() {
                    Some(&v[i])
                } else {
                    None
                }
            },
            _ => None,
        }
    }

    pub fn as_str(&self) -> (r: Option<&str>)
        ensures
            match r {
                Some(s) => view_str(self@) == Some(s@),
                None => view_str(self@) is None,
            },
    {
        match self {
            Json::Str(s) => Some(s.as_str()),
            _ => None,
        }
    }

    pub fn as_bool(&self) -> (r: Option<bool>)
        ensures
            r == view_bool(self@),
    {
        match self {
            Json::Bool(b) => Some(*b),
            _ => None,
        }
    }

    pub fn as_i64(&self) -> (r: Option<i64>)
        ensures
            r == view_i64(self@),
    {
        match self {
            Json::PosInt(n) => if *n <= 0x7fff_ffff_ffff_ffffu64 {
                Some(*n as i64)
            } else {
                None
            },
            Json::NegInt(n) => Some(*n),
            _ => None,
        }
    }

    pub fn is_null(&self) -> (r: bool)
        ensures
            r == (self@ == JsonView::Null),
    {
        match self {
            Json::Null => true,
            _ => false,
        }
    }

    pub fn is_object(&self) -> (r: bool)
        ensures
            r == (self@ is Object),
    {
        match self {
            Json::Object(_) => true,
            _ => false,
        }
    }

    pub fn is_array(&self) -> (r: bool)
        ensures
            r == (self@ is Array),
    {
        match self {
            Json::Array(_) => true,
            _ => false,
        }
    }

    /// A copy of the value.
    pub fn deep_clone(&self) -> (r: Json)
        ensures
            r@ == self@,
        decreases self,
    {
        match self {
            Json::Null => Json::Null,
            Json::Bool(b) => Json::Bool(*b),
            Json::PosInt(n) => Json::PosInt(*n),
            Json::NegInt(n) => Json::NegInt(*n),
            Json::Float(s) => Json::Float(s.clone()),
            Json::Str(s) => Json::Str(s.clone()),
            Json::Array(v) => Json::Array(clone_values(v)),
            Json::Object(es) => {
                let out = clone_entries(es);
                Json::Object(out)
            },
        }
    }
}

/// A copy of a sequence of values.
pub fn clone_values(v: &Vec<Json>) -> (r: Vec<Json>)
    ensures
        json_seq_view(r@) == json_seq_view(v@),
    decreases v,
{
    let mut out: Vec<Json> = Vec::new();
    let mut i: usize = 0;
    while i < v.len()
        invariant
            i <= v@.len(),
            json_seq_view(out@) == json_seq_view(v@.take(i as int)),
        decreases v@.len() - i,
    {
        proof {
            assert(decreases_to!(*v => v[i as int]));
        }
        let c = v[i].deep_clone();
        proof {
            assert(out@.push(c).drop_last() =~= out@);
            assert(v@.take(i + 1).drop_last() =~= v@.take(i as int));
        }
        out.push(c);
        i = i + 1;
    }
    assert(v@.take(v@.len() as int) =~= v@);
    out
}

/// A copy of a sequence of object entries.
pub fn clone_entries(es: &Vec<(String, Json)>) -> (r: Vec<(String, Json)>)
    ensures
        json_entries_view(r@) == json_entries_view(es@),
    decreases es,
{
    let mut out: Vec<(String, Json)> = Vec::new();
    let mut i: usize = 0;
    while i < es.len()
        invariant
            i <= es@.len(),
            json_entries_view(out@) == json_entries_view(es@.take(i as int)),
        decreases es@.len() - i,
    {
        proof {
            assert(decreases_to!(*es => es[i as int]));
        }
        let c = (es[i].0.clone(), es[i].1.deep_clone());
        proof {
            assert(out@.push(c).drop_last() =~= out@);
            assert(es@.take(i + 1).drop_last() =~= es@.take(i as int));
        }
        out.push(c);
        i = i + 1;
    }
    assert(es@.take(es@.len() as int) =~= es@);
    out
}

/// Sets `key` to `value`: replaces the first entry with that key, or appends one.
pub fn entries_set(es: &mut Vec<(String, Json)>, key: String, value: Json)
    ensures
        json_entries_view(final(es)@) == entries_insert(json_entries_view(old(es)@), key@, value@),
{
    proof {
        lemma_entries_view(es@);
    }
    let ghost old_ev = json_entries_view(es@);
    let ghost kv = key@;
    let ghost vv = value@;
    match entries_find(es, key.as_str()) {
        Some(i) => {
            es.set(i, (key, value));
            proof {
                lemma_entries_view(es@);
                assert(json_entries_view(es@) =~= old_ev.update(i as int, (kv, vv)));
            }
        },
        None => {
            es.push((key, value));
            proof {
                lemma_entries_view(es@);
                assert(json_entries_view(es@) =~= old_ev.push((kv, vv)));
            }
        },
    }
}

/// Removes every entry whose key is `key`, keeping the others in order.
pub fn entries_delete(es: &mut Vec<(String, Json)>, key: &str)
    ensures
        json_entries_view(final(es)@) == entries_remove(json_entries_view(old(es)@), key@),
{
    let ghost old_s = es@;
    let mut out: Vec<(String, Json)> = Vec::new();
    let n = es.len();
    let mut i: usize = 0;
    proof {
        lemma_entries_view(old_s);
    }
    while i < n
        invariant
            es@ == old_s,
            n == old_s.len(),
            i <= n,
            json_entries_view(out@) == entries_remove(json_entries_view(old_s.take(i as int)), key@),
        decreases n - i,
    {
        let ghost before = json_entries_view(old_s.take(i as int));
        let ghost xv = (es@[i as int].0@, json_view(es@[i as int].1));
        proof {
            lemma_entries_view(old_s.take(i + 1));
            lemma_entries_view(old_s.take(i as int));
            assert(json_entries_view(old_s.take(i + 1)) =~= before.push(xv));
            lemma_remove_push(before, xv, key@);
        }
        if !str_eq(es[i].0.as_str(), key) {
            let x = (es[i].0.clone(), es[i].1.deep_clone());
            proof {
                assert(out@.push(x).drop_last() =~= out@);
            }
            out.push(x);
        }
        i = i + 1;
    }
    assert(old_s.take(n as int) =~= old_s);
    *es = out;
}


// ---------------------------------------------------------------------------
// Writing JSON text.
// ---------------------------------------------------------------------------

/// A character inside a JSON string: quote, backslash and control characters escaped
/// (the short forms where JSON has them, else `\u00` and two lowercase hex digits).
pub open spec fn escaped_char(c: char) -> Seq<char> {
    if c == '"' {
        seq!['\\', '"']
    } else if c == '\\' {
        seq!['\\', '\\']
    } else if c == '\n' {
        seq!['\\', 'n']
    } else if c == '\r' {
        seq!['\\', 'r']
    } else if c == '\t' {
        seq!['\\', 't']
    } else if c == '\u{8}' {
        seq!['\\', 'b']
    } else if c == '\u{c}' {
        seq!['\\', 'f']
    } else if (c as u32) < 0x20 {
        seq!['\\', 'u', '0', '0', digit_char(((c as u32) / 16) as nat), digit_char(((c as u32) % 16) as nat)]
    } else {
        seq![c]
    }
}

pub open spec fn escaped(s: Seq<char>) -> Seq<char>
    decreases s.len(),
{
    if s.len() == 0 {
        Seq::empty()
    } else {
        escaped(s.drop_last()) + escaped_char(s.last())
    }
}

/// A JSON string literal.
pub open spec fn quoted(s: Seq<char>) -> Seq<char> {
    seq!['"'] + escaped(s) + seq!['"']
}

/// The compact JSON text of a value, object entries in their order.
pub open spec fn json_text(j: JsonView) -> Seq<char>
    decreases j,
{
    match j {
        JsonView::Null => "null"@,
        JsonView::Bool(b) => if b {
            "true"@
        } else {
            "false"@
        },
        JsonView::PosInt(n) => digits(n as nat, 10),
        JsonView::NegInt(n) => signed_decimal(n as int),
        JsonView::Float(s) => s,
        JsonView::Str(s) => quoted(s),
        JsonView::Array(items) => seq!['['] + items_text(items) + seq![']'],
        JsonView::Object(es) => seq!['{'] + entries_text(es) + seq!['}'],
    }
}

/// The texts of values separated by commas.
pub open spec fn items_text(s: Seq<JsonView>) -> Seq<char>
    decreases s,
{
    if s.len() == 0 {
        Seq::empty()
    } else if s.len() == 1 {
        json_text(s[0])
    } else {
        items_text(s.drop_last()) + seq![','] + json_text(s.last())
    }
}

/// The texts of object entries (`"key":value`) separated by commas.
pub open spec fn entries_text(s: Seq<(Seq<char>, JsonView)>) -> Seq<char>
    decreases s,
{
    if s.len() == 0 {
        Seq::empty()
    } else if s.len() == 1 {
        quoted(s[0].0) + seq![':'] + json_text(s[0].1)
    } else {
        entries_text(s.drop_last()) + seq![','] + quoted(s.last().0) + seq![':'] + json_text(
            s.last().1,
        )
    }
}

fn push_escaped(out: &mut String, s: &str)
    ensures
        final(out)@ == old(out)@ + escaped(s@),
{
    let v = chars_of(s);
    let mut i: usize = 0;
    let ghost start = out@;
    while i < v.len()
        invariant
            v@ == s@,
            i <= v@.len(),
            out@ == start + escaped(v@.take(i as int)),
        decreases v@.len() - i,
    {
        proof {
            assert(v@.take(i + 1).drop_last() =~= v@.take(i as int));
        }
        let c = v[i];
        let ghost before = out@;
        if c == '"' {
            push_char(out, '\\');
            push_char(out, '"');
        } else if c == '\\' {
            push_char(out, '\\');
            push_char(out, '\\');
        } else if c == '\n' {
            push_char(out, '\\');
            push_char(out, 'n');
        } else if c == '\r' {
            push_char(out, '\\');
            push_char(out, 'r');
        } else if c == '\t' {
            push_char(out, '\\');
            push_char(out, 't');
        } else if c == '\u{8}' {
            push_char(out, '\\');
            push_char(out, 'b');
        } else if c == '\u{c}' {
            push_char(out, '\\');
            push_char(out, 'f');
        } else if (c as u32) < 0x20 {
            push_char(out, '\\');
            push_char(out, 'u');
            push_char(out, '0');
            push_char(out, '0');
            push_char(out, crate::text::hex_digit((c as u32 / 16) as u64));
            push_char(out, crate::text::hex_digit((c as u32 % 16) as u64));
        } else {
            push_char(out, c);
        }
        assert(out@ =~= before + escaped_char(c));
        i = i + 1;
    }
    assert(v@.take(v@.len() as int) =~= v@);
}

fn push_quoted(out: &mut String, s: &str)
    ensures
        final(out)@ == old(out)@ + quoted(s@),
{
    let ghost start = out@;
    push_char(out, '"');
    push_escaped(out, s);
    push_char(out, '"');
    assert(out@ =~= start + quoted(s@));
}

/// Appends the compact JSON text of `j`.
pub fn write_json(out: &mut String, j: &Json)
    ensures
        final(out)@ == old(out)@ + json_text(j@),
    decreases j,
{
    let ghost start = out@;
    match j {
        Json::Null => out.append("null"),
        Json::Bool(b) => if *b {
            out.append("true")
        } else {
            out.append("false")
        },
        Json::PosInt(n) => {
            let d = u64_to_base(*n, 10);
            out.append(d.as_str());
        },
        Json::NegInt(n) => {
            let d = crate::http_server::i64_to_decimal(*n);
            out.append(d.as_str());
        },
        Json::Float(s) => out.append(s.as_str()),
        Json::Str(s) => push_quoted(out, s.as_str()),
        Json::Array(items) => {
            push_char(out, '[');
            let ghost mid = out@;
            let mut i: usize = 0;
            proof {
                lemma_seq_view(items@);
                assert forall|k: int| 0 <= k < items@.len() implies decreases_to!(*j => items@[k]) by {
                    assert(decreases_to!(*j => (*j)->Array_0));
                    assert(decreases_to!(*items => items@));
                    assert(decreases_to!(items@ => items@[k]));
                }
            }
            while i < items.len()
                invariant
                    forall|k: int| 0 <= k < items@.len() ==> decreases_to!(*j => items@[k]),
                    i <= items@.len(),
                    out@ == mid + items_text(json_seq_view(items@.take(i as int))),
                    json_seq_view(items@).len() == items@.len(),
                    forall|k: int| 0 <= k < items@.len() ==> #[trigger] json_seq_view(items@)[k] == json_view(items@[k]),
                decreases items@.len() - i,
            {
                proof {
                    assert(items@.take(i + 1).drop_last() =~= items@.take(i as int));
                    lemma_seq_view(items@.take(i + 1));
                    lemma_seq_view(items@.take(i as int));
                }
                let ghost before = out@;
                if i > 0 {
                    push_char(out, ',');
                }
                write_json(out, &items[i]);
                proof {
                    let t = json_seq_view(items@.take(i + 1));
                    assert(t.drop_last() =~= json_seq_view(items@.take(i as int)));
                    if i == 0 {
                        assert(out@ =~= mid + items_text(t));
                    } else {
                        assert(out@ =~= mid + items_text(t));
                    }
                }
                i = i + 1;
            }
            assert(items@.take(items@.len() as int) =~= items@);
            push_char(out, ']');
            assert(out@ =~= start + json_text(j@));
        },
        Json::Object(es) => {
            push_char(out, '{');
            let ghost mid = out@;
            let mut i: usize = 0;
            proof {
                lemma_entries_view(es@);
                assert forall|k: int| 0 <= k < es@.len() implies decreases_to!(*j => es@[k].1) by {
                    assert(decreases_to!(*j => (*j)->Object_0));
                    assert(decreases_to!(*es => es@));
                    assert(decreases_to!(es@ => es@[k]));
                    assert(decreases_to!(es@[k] => es@[k].1));
                }
            }
            while i < es.len()
                invariant
                    forall|k: int| 0 <= k < es@.len() ==> decreases_to!(*j => es@[k].1),
                    i <= es@.len(),
                    out@ == mid + entries_text(json_entries_view(es@.take(i as int))),
                decreases es@.len() - i,
            {
                proof {
                    assert(es@.take(i + 1).drop_last() =~= es@.take(i as int));
                    lemma_entries_view(es@.take(i + 1));
                }
                if i > 0 {
                    push_char(out, ',');
                }
                push_quoted(out, es[i].0.as_str());
                push_char(out, ':');
                write_json(out, &es[i].1);
                proof {
                    let t = json_entries_view(es@.take(i + 1));
                    assert(t.drop_last() =~= json_entries_view(es@.take(i as int)));
                    assert(out@ =~= mid + entries_text(t));
                }
                i = i + 1;
            }
            assert(es@.take(es@.len() as int) =~= es@);
            push_char(out, '}');
            assert(out@ =~= start + json_text(j@));
        },
    }
}

/// The compact JSON text of `j`: no white space, strings escaped as `serde_json`
/// escapes them, object entries in the order they are held (the library builds its
/// objects with their keys in ascending order, the order `serde_json` writes a map
/// in).
pub fn to_json_text(j: &Json) -> (r: String)
    ensures
        r@ == json_text(j@),
{
    let mut out = String::new();
    write_json(&mut out, j);
    out
}


/// Copies of the first `n` values.
pub fn slice_prefix(v: &[Json], n: usize) -> (r: Vec<Json>)
    requires
        n <= v@.len(),
    ensures
        json_seq_view(r@) == json_seq_view(v@.take(n as int)),
        r@.len() == n,
{
    let mut out: Vec<Json> = Vec::new();
    let mut i: usize = 0;
    while i < n
        invariant
            n <= v@.len(),
            i <= n,
            out@.len() == i,
            json_seq_view(out@) == json_seq_view(v@.take(i as int)),
        decreases n - i,
    {
        let x = v[i].deep_clone();
        let ghost before = out@;
        out.push(x);
        proof {
            assert(out@.drop_last() =~= before);
            assert(v@.take(i + 1).drop_last() =~= v@.take(i as int));
        }
        i = i + 1;
    }
    out
}

} // verus!
