//! Keyboard shortcut text: its parts, its modifiers and the canonical form stored in
//! the configuration (`Ctrl+Shift+S`).

use vstd::prelude::*;
use crate::text::{
    split_char, split_on, trim, trim_chars, lowercase, to_lower, str_eq, string_from_chars,
    join, views, join_strings, ascii_upper, char_ascii_upper, is_ascii_alnum, parse_unsigned,
    parse_u64, digits, u64_to_base, push_char, lemma_split_char_len, is_ascii_text, ascii_lower,
    is_ws, lead_ws, trail_ws, all_digits, digits_value, is_ascii_digit,
};

verus! {

/// The non-empty, trimmed pieces of a shortcut between `+` signs.
pub open spec fn shortcut_parts(s: Seq<char>) -> Seq<Seq<char>> {
    split_char(s, '+').map_values(|p: Seq<char>| trim(p)).filter(|p: Seq<char>| p.len() > 0)
}

pub fn shortcut_parts_of(s: &str) -> (r: Vec<String>)
    ensures
        views(r@) == shortcut_parts(s@),
{
    let pieces = split_on(s, '+');
    let ghost sp = split_char(s@, '+');
    let ghost tr = sp.map_values(|p: Seq<char>| trim(p));
    let ghost pred = |p: Seq<char>| p.len() > 0;
    let mut out: Vec<String> = Vec::new();
    let mut i: usize = 0;
    while i < pieces.len()
        invariant
            sp == split_char(s@, '+'),
            tr == sp.map_values(|p: Seq<char>| trim(p)),
            pred == (|p: Seq<char>| p.len() > 0),
            pieces@.len() == sp.len(),
            forall|k: int| 0 <= k < pieces@.len() ==> #[trigger] pieces@[k]@ == sp[k],
            i <= pieces@.len(),
            views(out@) == tr.take(i as int).filter(pred),
        decreases pieces@.len() - i,
    {
        let t = trim_chars(pieces[i].as_slice());
        proof {
            reveal_with_fuel(Seq::<_>::filter, 1);
            assert(tr.take(i + 1).drop_last() =~= tr.take(i as int));
            assert(tr[i as int] == t@);
        }
        if t.len() > 0 {
            let ts = string_from_chars(t.as_slice());
            out.push(ts);
            assert(views(out@) =~= tr.take(i as int).filter(pred).push(t@));
        }
        i = i + 1;
    }
    assert(tr.take(pieces@.len() as int) =~= tr);
    out
}

/// A modifier key.
#[derive(Debug, Clone, Copy, PartialEq, Eq, Structural)]
pub enum Modifier {
    Ctrl,
    Alt,
    Shift,
    Super,
}

/// The modifier that a shortcut part names, by its lowercase form and the aliases
/// the configuration accepts.
pub open spec fn modifier_of(part: Seq<char>) -> Option<Modifier> {
    let l = lowercase(part);
    if l == "ctrl"@ || l == "control"@ || l == "cmdorctrl"@ || l == "commandorcontrol"@ {
        Some(Modifier::Ctrl)
    } else if l == "alt"@ || l == "option"@ {
        Some(Modifier::Alt)
    } else if l == "shift"@ {
        Some(Modifier::Shift)
    } else if l == "super"@ || l == "win"@ || l == "meta"@ {
        Some(Modifier::Super)
    } else {
        None
    }
}

pub fn modifier_of_part(part: &str) -> (r: Option<Modifier>)
    ensures
        r == modifier_of(part@),
{
    let l = to_lower(part);
    let s = l.as_str();
    if str_eq(s, "ctrl") || str_eq(s, "control") || str_eq(s, "cmdorctrl") || str_eq(
        s,
        "commandorcontrol",
    ) {
        Some(Modifier::Ctrl)
    } else if str_eq(s, "alt") || str_eq(s, "option") {
        Some(Modifier::Alt)
    } else if str_eq(s, "shift") {
        Some(Modifier::Shift)
    } else if str_eq(s, "super") || str_eq(s, "win") || str_eq(s, "meta") {
        Some(Modifier::Super)
    } else {
        None
    }
}

/// The modifier keys held with a shortcut's key.
#[derive(Debug, Clone, Copy, PartialEq, Eq, Structural)]
pub struct ShortcutModifiers {
    pub ctrl: bool,
    pub alt: bool,
    pub shift: bool,
    pub super_key: bool,
}

pub open spec fn no_modifiers() -> ShortcutModifiers {
    ShortcutModifiers { ctrl: false, alt: false, shift: false, super_key: false }
}

pub open spec fn with_modifier(m: ShortcutModifiers, k: Modifier) -> ShortcutModifiers {
    match k {
        Modifier::Ctrl => ShortcutModifiers { ctrl: true, ..m },
        Modifier::Alt => ShortcutModifiers { alt: true, ..m },
        Modifier::Shift => ShortcutModifiers { shift: true, ..m },
        Modifier::Super => ShortcutModifiers { super_key: true, ..m },
    }
}

/// The modifiers named by `parts`, or `None` when one part names no modifier.
pub open spec fn modifiers_of(parts: Seq<Seq<char>>) -> Option<ShortcutModifiers>
    decreases parts.len(),
{
    if parts.len() == 0 {
        Some(no_modifiers())
    } else {
        match modifiers_of(parts.drop_last()) {
            None => None,
            Some(m) => match modifier_of(parts.last()) {
                None => None,
                Some(k) => Some(with_modifier(m, k)),
            },
        }
    }
}

impl ShortcutModifiers {
    pub fn none() -> (r: Self)
        ensures
            r == no_modifiers(),
    {
        ShortcutModifiers { ctrl: false, alt: false, shift: false, super_key: false }
    }
}

/// The modifiers named by the first `n` of `parts`.
pub fn modifiers_of_parts(parts: &Vec<String>, n: usize) -> (r: Option<ShortcutModifiers>)
    requires
        n <= parts@.len(),
    ensures
        r == modifiers_of(views(parts@).take(n as int)),
{
    let mut m = ShortcutModifiers::none();
    let mut i: usize = 0;
    while i < n
        invariant
            n <= parts@.len(),
            i <= n,
            modifiers_of(views(parts@).take(i as int)) == Some(m),
        decreases n - i,
    {
        proof {
            assert(views(parts@).take(i + 1).drop_last() =~= views(parts@).take(i as int));
        }
        match modifier_of_part(parts[i].as_str()) {
            None => {
                proof {
                    lemma_modifiers_none_extends(views(parts@), i as int + 1, n as int);
                }
                return None;
            },
            Some(k) => {
                match k {
                    Modifier::Ctrl => m.ctrl = true,
                    Modifier::Alt => m.alt = true,
                    Modifier::Shift => m.shift = true,
                    Modifier::Super => m.super_key = true,
                }
            },
        }
        i = i + 1;
    }
    Some(m)
}

/// Once a prefix names a non-modifier, every longer prefix does.
pub proof fn lemma_modifiers_none_extends(parts: Seq<Seq<char>>, i: int, n: int)
    requires
        0 <= i <= n <= parts.len(),
        modifiers_of(parts.take(i)) is None,
    ensures
        modifiers_of(parts.take(n)) is None,
    decreases n - i,
{
    if i < n {
        assert(parts.take(i + 1).drop_last() =~= parts.take(i));
        lemma_modifiers_none_extends(parts, i + 1, n);
    }
}

/// The canonical name of a shortcut key, as the settings store it; `None` for a key
/// that cannot be bound.
pub open spec fn normalized_key(key: Seq<char>) -> Option<Seq<char>> {
    let l = lowercase(trim(key));
    if l == "esc"@ || l == "escape"@ {
        Some("Escape"@)
    } else if l == "return"@ || l == "enter"@ {
        Some("Enter"@)
    } else if l == "space"@ {
        Some("Space"@)
    } else if l == "tab"@ {
        Some("Tab"@)
    } else if l == "backspace"@ {
        Some("Backspace"@)
    } else if l == "delete"@ {
        Some("Delete"@)
    } else if l == "insert"@ {
        Some("Insert"@)
    } else if l == "home"@ {
        Some("Home"@)
    } else if l == "end"@ {
        Some("End"@)
    } else if l == "pageup"@ || l == "page_up"@ || l == "page up"@ {
        Some("PageUp"@)
    } else if l == "pagedown"@ || l == "page_down"@ || l == "page down"@ {
        Some("PageDown"@)
    } else if l == "left"@ {
        Some("Left"@)
    } else if l == "right"@ {
        Some("Right"@)
    } else if l == "up"@ {
        Some("Up"@)
    } else if l == "down"@ {
        Some("Down"@)
    } else if l.len() == 1 && is_ascii_alnum(l[0]) {
        Some(seq![ascii_upper(l[0])])
    } else if l.len() > 0 && l[0] == 'f' {
        match parse_unsigned(l.drop_first(), 255) {
            Some(n) => if 1 <= n <= 12 {
                Some("F"@ + digits(n, 10))
            } else {
                None
            },
            None => None,
        }
    } else {
        None
    }
}

pub fn normalize_shortcut_key(key: &str) -> (r: Option<String>)
    ensures
        match r {
            Some(s) => normalized_key(key@) == Some(s@),
            None => normalized_key(key@) is None,
        },
{
    let t = string_from_chars(trim_chars(crate::text::chars_of(key).as_slice()).as_slice());
    let lo = to_lower(t.as_str());
    let l = lo.as_str();
    if str_eq(l, "esc") || str_eq(l, "escape") {
        Some("Escape".to_string())
    } else if str_eq(l, "return") || str_eq(l, "enter") {
        Some("Enter".to_string())
    } else if str_eq(l, "space") {
        Some("Space".to_string())
    } else if str_eq(l, "tab") {
        Some("Tab".to_string())
    } else if str_eq(l, "backspace") {
        Some("Backspace".to_string())
    } else if str_eq(l, "delete") {
        Some("Delete".to_string())
    } else if str_eq(l, "insert") {
        Some("Insert".to_string())
    } else if str_eq(l, "home") {
        Some("Home".to_string())
    } else if str_eq(l, "end") {
        Some("End".to_string())
    } else if str_eq(l, "pageup") || str_eq(l, "page_up") || str_eq(l, "page up") {
        Some("PageUp".to_string())
    } else if str_eq(l, "pagedown") || str_eq(l, "page_down") || str_eq(l, "page down") {
        Some("PageDown".to_string())
    } else if str_eq(l, "left") {
        Some("Left".to_string())
    } else if str_eq(l, "right") {
        Some("Right".to_string())
    } else if str_eq(l, "up") {
        Some("Up".to_string())
    } else if str_eq(l, "down") {
        Some("Down".to_string())
    } else {
        let n = l.unicode_len();
        if n == 1 && {
            let c = l.get_char(0);
            ('0' <= c && c <= '9') || ('a' <= c && c <= 'z') || ('A' <= c && c <= 'Z')
        } {
            let mut s = String::new();
            push_char(&mut s, char_ascii_upper(l.get_char(0)));
            assert(s@ =~= seq![ascii_upper(l@[0])]);
            Some(s)
        } else if n > 0 && l.get_char(0) == 'f' {
            let rest = l.substring_char(1, n);
            assert(rest@ =~= l@.drop_first());
            match parse_u64(rest, 255) {
                Some(v) => if 1 <= v && v <= 12 {
                    let mut s = "F".to_string();
                    let d = u64_to_base(v, 10);
                    s.append(d.as_str());
                    Some(s)
                } else {
                    None
                },
                None => None,
            }
        } else {
            None
        }
    }
}

/// The names of the held modifiers, in the order `Ctrl`, `Shift`, `Alt`, `Super`.
pub open spec fn modifier_names(m: ShortcutModifiers) -> Seq<Seq<char>> {
    let a = if m.ctrl {
        seq!["Ctrl"@]
    } else {
        Seq::empty()
    };
    let b = if m.shift {
        a.push("Shift"@)
    } else {
        a
    };
    let c = if m.alt {
        b.push("Alt"@)
    } else {
        b
    };
    if m.super_key {
        c.push("Super"@)
    } else {
        c
    }
}

/// A shortcut in canonical form: the modifiers and the key, joined by `+`.
pub open spec fn formatted_shortcut(m: ShortcutModifiers, key: Seq<char>) -> Option<Seq<char>> {
    match normalized_key(key) {
        Some(k) => Some(join(modifier_names(m).push(k), "+"@)),
        None => None,
    }
}

pub fn format_shortcut(m: ShortcutModifiers, key: &str) -> (r: Option<String>)
    ensures
        match r {
            Some(s) => formatted_shortcut(m, key@) == Some(s@),
            None => formatted_shortcut(m, key@) is None,
        },
{
    let k = match normalize_shortcut_key(key) {
        Some(k) => k,
        None => return None,
    };
    let mut parts: Vec<String> = Vec::new();
    if m.ctrl {
        parts.push("Ctrl".to_string());
    }
    if m.shift {
        parts.push("Shift".to_string());
    }
    if m.alt {
        parts.push("Alt".to_string());
    }
    if m.super_key {
        parts.push("Super".to_string());
    }
    let ghost kv = k@;
    parts.push(k);
    assert(views(parts@) =~= modifier_names(m).push(kv));
    Some(join_strings(&parts, "+"))
}

/// The canonical form of a shortcut typed as text: `None` when it has no parts, when
/// a part before the last is not a modifier, or when the last part is not a key.
pub open spec fn normalized_shortcut(s: Seq<char>) -> Option<Seq<char>> {
    let ps = shortcut_parts(s);
    if ps.len() == 0 {
        None
    } else {
        match modifiers_of(ps.drop_last()) {
            None => None,
            Some(m) => formatted_shortcut(m, ps.last()),
        }
    }
}

pub fn normalize_shortcut_text(shortcut: &str) -> (r: Option<String>)
    ensures
        match r {
            Some(s) => normalized_shortcut(shortcut@) == Some(s@),
            None => normalized_shortcut(shortcut@) is None,
        },
{
    let parts = shortcut_parts_of(shortcut);
    if parts.len() == 0 {
        return None;
    }
    let n = parts.len() - 1;
    proof {
        assert(views(parts@).take(n as int) =~= views(parts@).drop_last());
    }
    let m = match modifiers_of_parts(&parts, n) {
        Some(m) => m,
        None => return None,
    };
    format_shortcut(m, parts[n].as_str())
}

// ---------------------------------------------------------------------------
// The canonical form is stable.
// ---------------------------------------------------------------------------

/// A part that shortcut text keeps as it is: not empty, without `+` and without
/// whitespace.
pub open spec fn plain_part(p: Seq<char>) -> bool {
    p.len() > 0 && forall|i: int| 0 <= i < p.len() ==> p[i] != '+' && !is_ws(#[trigger] p[i])
}

proof fn lemma_trim_plain(p: Seq<char>)
    requires
        plain_part(p),
    ensures
        trim(p) == p,
{
    assert(lead_ws(p) == 0);
    assert(p.skip(0) =~= p);
    assert(trail_ws(p) == 0);
    assert(p.take(p.len() as int) =~= p);
}

proof fn lemma_plain_key(k: Seq<char>, lk: Seq<char>)
    requires
        plain_part(k),
        is_ascii_text(k),
        k.map_values(|c: char| ascii_lower(c)) =~= lk,
    ensures
        trim(k) == k,
        lowercase(k) == lk,
{
    lemma_trim_plain(k);
}

/// The decimal digits of a number read back as the number.
pub proof fn lemma_decimal_digits(n: nat)
    ensures
        digits(n, 10).len() > 0,
        all_digits(digits(n, 10)),
        digits_value(digits(n, 10)) == n,
        forall|i: int| 0 <= i < digits(n, 10).len() ==> is_ascii_digit(#[trigger] digits(n, 10)[i]),
    decreases n,
{
    if n >= 10 {
        lemma_decimal_digits(n / 10);
        let d = digits(n / 10, 10);
        let e = d.push(crate::text::digit_char(n % 10));
        assert(digits(n, 10) == e);
        assert(e.drop_last() =~= d);
        assert((crate::text::digit_char(n % 10) as u32) - 48 == n % 10);
        assert(e.last() == crate::text::digit_char(n % 10));
        assert(digits_value(e) == digits_value(d) * 10 + ((e.last() as u32) - 48) as nat);
        assert(digits_value(d) == n / 10);
        assert(n == (n / 10) * 10 + n % 10);
        assert(digits_value(e) == n);
        assert forall|i: int| 0 <= i < e.len() implies is_ascii_digit(#[trigger] e[i]) by {
            if i < d.len() {
                assert(e[i] == d[i]);
            }
        }
    } else {
        let e = seq![crate::text::digit_char(n)];
        assert(digits(n, 10) == e);
        assert(e.drop_last() =~= Seq::<char>::empty());
        assert((crate::text::digit_char(n) as u32) - 48 == n);
        assert(digits_value(e) == digits_value(Seq::<char>::empty()) * 10 + ((e.last() as u32) - 48) as nat);
    }
}

/// A key name in canonical form is its own canonical form, and is a plain part.
proof fn lemma_key_fixed(key: Seq<char>)
    requires
        normalized_key(key) is Some,
    ensures
        normalized_key(normalized_key(key)->0) == normalized_key(key),
        plain_part(normalized_key(key)->0),
{
    reveal_strlit("+");
    reveal_strlit("Alt");
    reveal_strlit("Backspace");
    reveal_strlit("Ctrl");
    reveal_strlit("Delete");
    reveal_strlit("Down");
    reveal_strlit("End");
    reveal_strlit("Enter");
    reveal_strlit("Escape");
    reveal_strlit("F");
    reveal_strlit("f");
    reveal_strlit("Home");
    reveal_strlit("Insert");
    reveal_strlit("Left");
    reveal_strlit("PageDown");
    reveal_strlit("PageUp");
    reveal_strlit("Right");
    reveal_strlit("Shift");
    reveal_strlit("Space");
    reveal_strlit("Super");
    reveal_strlit("Tab");
    reveal_strlit("Up");
    reveal_strlit("alt");
    reveal_strlit("backspace");
    reveal_strlit("cmdorctrl");
    reveal_strlit("commandorcontrol");
    reveal_strlit("control");
    reveal_strlit("ctrl");
    reveal_strlit("delete");
    reveal_strlit("down");
    reveal_strlit("end");
    reveal_strlit("enter");
    reveal_strlit("esc");
    reveal_strlit("escape");
    reveal_strlit("home");
    reveal_strlit("insert");
    reveal_strlit("left");
    reveal_strlit("meta");
    reveal_strlit("option");
    reveal_strlit("page down");
    reveal_strlit("page up");
    reveal_strlit("page_down");
    reveal_strlit("page_up");
    reveal_strlit("pagedown");
    reveal_strlit("pageup");
    reveal_strlit("return");
    reveal_strlit("right");
    reveal_strlit("shift");
    reveal_strlit("space");
    reveal_strlit("super");
    reveal_strlit("tab");
    reveal_strlit("up");
    reveal_strlit("win");
    let k = normalized_key(key)->0;
    let l = lowercase(trim(key));
    if k == "Escape"@ {
        lemma_plain_key("Escape"@, "escape"@);
    }
    if k == "Enter"@ {
        lemma_plain_key("Enter"@, "enter"@);
    }
    if k == "Space"@ {
        lemma_plain_key("Space"@, "space"@);
    }
    if k == "Tab"@ {
        lemma_plain_key("Tab"@, "tab"@);
    }
    if k == "Backspace"@ {
        lemma_plain_key("Backspace"@, "backspace"@);
    }
    if k == "Delete"@ {
        lemma_plain_key("Delete"@, "delete"@);
    }
    if k == "Insert"@ {
        lemma_plain_key("Insert"@, "insert"@);
    }
    if k == "Home"@ {
        lemma_plain_key("Home"@, "home"@);
    }
    if k == "End"@ {
        lemma_plain_key("End"@, "end"@);
    }
    if k == "PageUp"@ {
        lemma_plain_key("PageUp"@, "pageup"@);
    }
    if k == "PageDown"@ {
        lemma_plain_key("PageDown"@, "pagedown"@);
    }
    if k == "Left"@ {
        lemma_plain_key("Left"@, "left"@);
    }
    if k == "Right"@ {
        lemma_plain_key("Right"@, "right"@);
    }
    if k == "Up"@ {
        lemma_plain_key("Up"@, "up"@);
    }
    if k == "Down"@ {
        lemma_plain_key("Down"@, "down"@);
    }
    if l.len() == 1 && is_ascii_alnum(l[0]) {
        let c = l[0];
        let u = ascii_upper(c);
        assert(k == seq![u]);
        let lu = ascii_lower(u);
        assert(is_ascii_alnum(lu) && ascii_upper(lu) == u);
        lemma_plain_key(k, seq![lu]);
    } else if l.len() > 0 && l[0] == 'f' && k.len() > 0 && k[0] == 'F' {
        let n = parse_unsigned(l.drop_first(), 255)->0;
        let ds = digits(n, 10);
        lemma_decimal_digits(n);
        assert(k == "F"@ + ds);
        let lk = "f"@ + ds;
        assert(lk.drop_first() =~= ds);
        lemma_plain_key(k, lk);
    }
    assert(normalized_key(k) == Some(k));
}

proof fn lemma_split_plain(p: Seq<char>)
    requires
        forall|i: int| 0 <= i < p.len() ==> p[i] != '+',
    ensures
        split_char(p, '+') == seq![p],
    decreases p.len(),
{
    if p.len() > 0 {
        let q = p.drop_last();
        lemma_split_plain(q);
        assert(q.push(p.last()) =~= p);
        assert(seq![q].update(0, q.push(p.last())) =~= seq![p]);
    } else {
        assert(p =~= Seq::<char>::empty());
    }
}

proof fn lemma_split_after_plus(x: Seq<char>, p: Seq<char>)
    requires
        forall|i: int| 0 <= i < p.len() ==> p[i] != '+',
    ensures
        split_char(x + seq!['+'] + p, '+') == split_char(x, '+').push(p),
    decreases p.len(),
{
    let s = x + seq!['+'] + p;
    if p.len() == 0 {
        assert(s.drop_last() =~= x);
        assert(s.last() == '+');
        assert(p =~= Seq::<char>::empty());
    } else {
        let q = p.drop_last();
        lemma_split_after_plus(x, q);
        assert(s.drop_last() =~= x + seq!['+'] + q);
        assert(s.last() == p.last());
        let sp = split_char(x, '+').push(q);
        assert(q.push(p.last()) =~= p);
        assert(sp.update(sp.len() - 1, sp.last().push(s.last())) =~= split_char(x, '+').push(p));
    }
}

proof fn lemma_split_join(ps: Seq<Seq<char>>)
    requires
        ps.len() > 0,
        forall|k: int| 0 <= k < ps.len() ==> plain_part(#[trigger] ps[k]),
    ensures
        split_char(join(ps, "+"@), '+') == ps,
    decreases ps.len(),
{
    reveal_strlit("+");
    if ps.len() == 1 {
        assert(plain_part(ps[0]));
        lemma_split_plain(ps[0]);
        assert(seq![ps[0]] =~= ps);
    } else {
        let init = ps.drop_last();
        assert forall|k: int| 0 <= k < init.len() implies plain_part(#[trigger] init[k]) by {
            assert(init[k] == ps[k]);
        }
        lemma_split_join(init);
        assert(plain_part(ps[ps.len() - 1]));
        assert("+"@ =~= seq!['+']);
        lemma_split_after_plus(join(init, "+"@), ps.last());
        assert(init.push(ps.last()) =~= ps);
    }
}

proof fn lemma_filter_nonempty(ps: Seq<Seq<char>>)
    requires
        forall|k: int| 0 <= k < ps.len() ==> (#[trigger] ps[k]).len() > 0,
    ensures
        ps.filter(|p: Seq<char>| p.len() > 0) == ps,
    decreases ps.len(),
{
    reveal_with_fuel(Seq::<_>::filter, 1);
    if ps.len() > 0 {
        let init = ps.drop_last();
        assert forall|k: int| 0 <= k < init.len() implies (#[trigger] init[k]).len() > 0 by {
            assert(init[k] == ps[k]);
        }
        lemma_filter_nonempty(init);
        assert(ps.last().len() > 0);
        assert(init.push(ps.last()) =~= ps);
    } else {
        assert(ps.filter(|p: Seq<char>| p.len() > 0) =~= ps);
    }
}

/// The parts of plain parts joined by `+` are those parts.
proof fn lemma_parts_of_join(ps: Seq<Seq<char>>)
    requires
        ps.len() > 0,
        forall|k: int| 0 <= k < ps.len() ==> plain_part(#[trigger] ps[k]),
    ensures
        shortcut_parts(join(ps, "+"@)) == ps,
{
    lemma_split_join(ps);
    let tr = ps.map_values(|p: Seq<char>| trim(p));
    assert forall|k: int| 0 <= k < ps.len() implies #[trigger] tr[k] == ps[k] by {
        lemma_trim_plain(ps[k]);
    }
    assert(tr =~= ps);
    lemma_filter_nonempty(ps);
}

/// The modifier names read back as the same modifiers.
proof fn lemma_modifier_names(m: ShortcutModifiers)
    ensures
        modifiers_of(modifier_names(m)) == Some(m),
        forall|k: int| 0 <= k < modifier_names(m).len() ==> plain_part(#[trigger] modifier_names(m)[k]),
{
    reveal_strlit("Ctrl");
    reveal_strlit("Shift");
    reveal_strlit("Alt");
    reveal_strlit("Super");
    reveal_strlit("ctrl");
    reveal_strlit("shift");
    reveal_strlit("alt");
    reveal_strlit("super");
    reveal_strlit("control");
    reveal_strlit("cmdorctrl");
    reveal_strlit("commandorcontrol");
    reveal_strlit("option");
    reveal_strlit("win");
    reveal_strlit("meta");
    lemma_plain_key("Ctrl"@, "ctrl"@);
    lemma_plain_key("Shift"@, "shift"@);
    lemma_plain_key("Alt"@, "alt"@);
    lemma_plain_key("Super"@, "super"@);
    assert(modifier_of("Ctrl"@) == Some(Modifier::Ctrl));
    assert(modifier_of("Shift"@) == Some(Modifier::Shift));
    assert(modifier_of("Alt"@) == Some(Modifier::Alt)) by {
        assert(lowercase("Alt"@) == "alt"@);
        assert("alt"@.len() == 3);
        assert("alt"@ != "ctrl"@ && "alt"@ != "control"@ && "alt"@ != "cmdorctrl"@ && "alt"@ != "commandorcontrol"@);
    }
    assert(modifier_of("Super"@) == Some(Modifier::Super)) by {
        assert(lowercase("Super"@) == "super"@);
        assert("super"@.len() == 5);
        assert("super"@ != "ctrl"@ && "super"@ != "control"@ && "super"@ != "cmdorctrl"@ && "super"@ != "commandorcontrol"@);
        assert("super"@[1] != "shift"@[1]);
        assert("super"@ != "alt"@ && "super"@ != "option"@ && "super"@ != "shift"@);
    }
    let a: Seq<Seq<char>> = if m.ctrl {
        seq!["Ctrl"@]
    } else {
        Seq::empty()
    };
    let ma = if m.ctrl {
        with_modifier(no_modifiers(), Modifier::Ctrl)
    } else {
        no_modifiers()
    };
    assert(modifiers_of(Seq::<Seq<char>>::empty()) == Some(no_modifiers()));
    assert(modifiers_of(a) == Some(ma)) by {
        if m.ctrl {
            let one = seq!["Ctrl"@];
            assert(one.drop_last() =~= Seq::<Seq<char>>::empty());
            assert(one.last() == "Ctrl"@);
            assert(one.len() == 1);
        } else {
            assert(a =~= Seq::<Seq<char>>::empty());
        }
    }
    let b = if m.shift {
        a.push("Shift"@)
    } else {
        a
    };
    let mb = if m.shift {
        with_modifier(ma, Modifier::Shift)
    } else {
        ma
    };
    assert(modifiers_of(b) == Some(mb)) by {
        if m.shift {
            assert(a.push("Shift"@).drop_last() =~= a);
        }
    }
    let c = if m.alt {
        b.push("Alt"@)
    } else {
        b
    };
    let mc = if m.alt {
        with_modifier(mb, Modifier::Alt)
    } else {
        mb
    };
    assert(modifiers_of(c) == Some(mc)) by {
        if m.alt {
            assert(b.push("Alt"@).drop_last() =~= b);
        }
    }
    let d = if m.super_key {
        c.push("Super"@)
    } else {
        c
    };
    let md = if m.super_key {
        with_modifier(mc, Modifier::Super)
    } else {
        mc
    };
    assert(modifiers_of(d) == Some(md)) by {
        if m.super_key {
            assert(c.push("Super"@).drop_last() =~= c);
        }
    }
    assert(d == modifier_names(m));
    assert(md == m);
}

/// Whether two names spell the same letters, ignoring ASCII case.
pub open spec fn same_letters(a: Seq<char>, b: Seq<char>) -> bool {
    a.len() == b.len() && forall|i: int| 0 <= i < a.len() ==> ascii_lower(#[trigger] a[i]) == ascii_lower(b[i])
}

/// The other spellings a key is known by, besides its own name in any case:
/// `esc` for Escape, `return` for Enter, and the page keys with `_` or a space.
pub open spec fn key_spellings(name: Seq<char>) -> Seq<Seq<char>> {
    if name == "Escape"@ {
        seq!["esc"@]
    } else if name == "Enter"@ {
        seq!["return"@]
    } else if name == "PageUp"@ {
        seq!["page_up"@, "page up"@]
    } else if name == "PageDown"@ {
        seq!["page_down"@, "page down"@]
    } else {
        Seq::empty()
    }
}

proof fn lemma_same_letters(a: Seq<char>, b: Seq<char>)
    requires
        a.len() == b.len(),
        forall|i: int| 0 <= i < a.len() ==> ascii_lower(a[i]) == ascii_lower(b[i]),
    ensures
        same_letters(a, b),
{
}

/// A key keeps its identity when it is read: the name it is given is the key's own
/// name, written in any ASCII case, or one of the key's other spellings, or, for a
/// function key, `f` and the same number; so no written key becomes another key.
pub proof fn law_key_keeps_its_name(key: Seq<char>)
    ensures
        normalized_key(key) matches Some(n) ==> ({
            let l = lowercase(trim(key));
            ||| same_letters(l, n)
            ||| key_spellings(n).contains(l)
            ||| (l.len() > 0 && l[0] == 'f' && n.len() > 0 && n[0] == 'F' && parse_unsigned(l.drop_first(), 255)
                == parse_unsigned(n.drop_first(), 255))
        }),
{
    let l = lowercase(trim(key));
    reveal_strlit("esc");
    reveal_strlit("escape");
    reveal_strlit("Escape");
    reveal_strlit("return");
    reveal_strlit("enter");
    reveal_strlit("Enter");
    reveal_strlit("space");
    reveal_strlit("Space");
    reveal_strlit("tab");
    reveal_strlit("Tab");
    reveal_strlit("backspace");
    reveal_strlit("Backspace");
    reveal_strlit("delete");
    reveal_strlit("Delete");
    reveal_strlit("insert");
    reveal_strlit("Insert");
    reveal_strlit("home");
    reveal_strlit("Home");
    reveal_strlit("end");
    reveal_strlit("End");
    reveal_strlit("pageup");
    reveal_strlit("page_up");
    reveal_strlit("page up");
    reveal_strlit("PageUp");
    reveal_strlit("pagedown");
    reveal_strlit("page_down");
    reveal_strlit("page down");
    reveal_strlit("PageDown");
    reveal_strlit("left");
    reveal_strlit("Left");
    reveal_strlit("right");
    reveal_strlit("Right");
    reveal_strlit("up");
    reveal_strlit("Up");
    reveal_strlit("down");
    reveal_strlit("Down");
    reveal_strlit("F");
    if normalized_key(key) is Some {
        let n = normalized_key(key)->0;
        if l == "esc"@ {
            assert(key_spellings(n)[0] == l);
        } else if l == "escape"@ {
            lemma_same_letters(l, n);
        } else if l == "return"@ {
            assert(key_spellings(n)[0] == l);
        } else if l == "enter"@ || l == "space"@ || l == "tab"@ || l == "backspace"@ || l == "delete"@
            || l == "insert"@ || l == "home"@ || l == "end"@ || l == "pageup"@ {
            lemma_same_letters(l, n);
        } else if l == "page_up"@ {
            assert(key_spellings(n)[0] == l);
        } else if l == "page up"@ {
            assert(key_spellings(n)[1] == l);
        } else if l == "pagedown"@ {
            lemma_same_letters(l, n);
        } else if l == "page_down"@ {
            assert(key_spellings(n)[0] == l);
        } else if l == "page down"@ {
            assert(key_spellings(n)[1] == l);
        } else if l == "left"@ || l == "right"@ || l == "up"@ || l == "down"@ {
            lemma_same_letters(l, n);
        } else if l.len() == 1 && is_ascii_alnum(l[0]) {
            assert(n == seq![ascii_upper(l[0])]);
            lemma_same_letters(l, n);
        } else {
            assert(l.len() > 0 && l[0] == 'f');
            let v = parse_unsigned(l.drop_first(), 255)->0;
            assert(n == "F"@ + digits(v, 10));
            lemma_decimal_digits(v);
            assert(n.drop_first() =~= digits(v, 10));
            assert(n[0] == 'F');
            assert(digits(v, 10)[0] != '+') by {
                assert(is_ascii_digit(digits(v, 10)[0]));
            }
        }
    }
}

/// A shortcut in canonical form reads as itself: normalizing the canonical form
/// of a shortcut gives that form back.
pub proof fn law_normalized_shortcut_is_stable(s: Seq<char>)
    requires
        normalized_shortcut(s) is Some,
    ensures
        normalized_shortcut(normalized_shortcut(s)->0) == normalized_shortcut(s),
{
    let ps = shortcut_parts(s);
    let m = modifiers_of(ps.drop_last())->0;
    lemma_key_fixed(ps.last());
    let k = normalized_key(ps.last())->0;
    lemma_modifier_names(m);
    let names = modifier_names(m);
    let all = names.push(k);
    assert forall|i: int| 0 <= i < all.len() implies plain_part(#[trigger] all[i]) by {
        if i < names.len() {
            assert(all[i] == names[i]);
        }
    }
    lemma_parts_of_join(all);
    assert(all.drop_last() =~= names);
    assert(all.last() == k);
}

} // verus!
