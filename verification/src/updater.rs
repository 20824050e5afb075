//! Checking for a newer release: version numbers, their order, and the reading of
//! the release service's answer.

use vstd::prelude::*;
use crate::json::{Json, JsonView, field_str_or, opt_str, view_field};
use crate::text::{
    trim, trim_chars, chars_of, string_from_chars, digits, u64_to_base, parse_unsigned, parse_u64,
    is_ascii_digit, trim_str,
};

verus! {

pub const UPDATE_REPO: &'static str = "Geek0x0/pot-desktop-linux";
pub const UPDATE_API_LATEST: &'static str =
    "https://api.github.com/repos/Geek0x0/pot-desktop-linux/releases/latest";
pub const UPDATE_RELEASES_URL: &'static str = "https://github.com/Geek0x0/pot-desktop-linux/releases";

// ---------------------------------------------------------------------------
// Version numbers.
// ---------------------------------------------------------------------------

/// `s` without its leading `v` and `V` characters.
pub open spec fn strip_v(s: Seq<char>) -> Seq<char>
    decreases s.len(),
{
    if s.len() > 0 && (s[0] == 'v' || s[0] == 'V') {
        strip_v(s.drop_first())
    } else {
        s
    }
}

/// A version as written in a tag, trimmed and without its leading `v`s.
pub open spec fn normalized_version(s: Seq<char>) -> Seq<char> {
    trim(strip_v(trim(s)))
}

pub fn normalize_version(version: &str) -> (r: String)
    ensures
        r@ == normalized_version(version@),
{
    let v = chars_of(version);
    let t = trim_chars(v.as_slice());
    let mut i: usize = 0;
    assert(t@.skip(0) =~= t@);
    while i < t.len() && (t[i] == 'v' || t[i] == 'V')
        invariant
            i <= t@.len(),
            strip_v(t@.skip(i as int)) == strip_v(t@),
        decreases t@.len() - i,
    {
        proof {
            assert(t@.skip(i as int).drop_first() =~= t@.skip(i + 1));
        }
        i = i + 1;
    }
    let rest = crate::text::chars_between(t.as_slice(), i, t.len());
    proof {
        assert(rest@ =~= t@.skip(i as int));
    }
    let r = trim_chars(rest.as_slice());
    string_from_chars(r.as_slice())
}

/// The pieces of `s` between characters that are no ASCII digits.
pub open spec fn digit_pieces(s: Seq<char>) -> Seq<Seq<char>>
    decreases s.len(),
{
    if s.len() == 0 {
        seq![Seq::<char>::empty()]
    } else {
        let r = digit_pieces(s.drop_last());
        if is_ascii_digit(s.last()) {
            r.update(r.len() - 1, r.last().push(s.last()))
        } else {
            r.push(Seq::<char>::empty())
        }
    }
}

pub proof fn lemma_digit_pieces_len(s: Seq<char>)
    ensures
        digit_pieces(s).len() >= 1,
    decreases s.len(),
{
    if s.len() > 0 {
        lemma_digit_pieces_len(s.drop_last());
    }
}

/// The numbers of the non-empty pieces that fit in a `u64`, in order.
pub open spec fn piece_numbers(ps: Seq<Seq<char>>) -> Seq<u64>
    decreases ps.len(),
{
    if ps.len() == 0 {
        Seq::empty()
    } else {
        let before = piece_numbers(ps.drop_last());
        if ps.last().len() > 0 {
            match parse_unsigned(ps.last(), u64::MAX as nat) {
                Some(n) => before.push(n as u64),
                None => before,
            }
        } else {
            before
        }
    }
}

/// The numeric components of a version: the runs of digits of its normalized form,
/// each as a number, runs too large for a `u64` left out.
pub open spec fn version_numbers(version: Seq<char>) -> Seq<u64> {
    piece_numbers(digit_pieces(normalized_version(version)))
}

fn digit_pieces_of(v: &Vec<char>) -> (r: Vec<Vec<char>>)
    ensures
        r@.map_values(|p: Vec<char>| p@) == digit_pieces(v@),
{
    let mut out: Vec<Vec<char>> = Vec::new();
    out.push(Vec::new());
    let mut i: usize = 0;
    proof {
        assert(v@.take(0) =~= Seq::<char>::empty());
        assert(out@.map_values(|p: Vec<char>| p@) =~= seq![Seq::<char>::empty()]);
    }
    while i < v.len()
        invariant
            i <= v@.len(),
            out@.map_values(|p: Vec<char>| p@) == digit_pieces(v@.take(i as int)),
            out@.len() >= 1,
        decreases v@.len() - i,
    {
        let ghost before = out@.map_values(|p: Vec<char>| p@);
        proof {
            assert(v@.take(i + 1).drop_last() =~= v@.take(i as int));
            assert(v@.take(i + 1).last() == v@[i as int]);
        }
        let c = v[i];
        if '0' <= c && c <= '9' {
            let mut last = out.pop().unwrap();
            last.push(c);
            out.push(last);
            assert(out@.map_values(|p: Vec<char>| p@) =~= before.update(
                before.len() - 1,
                before.last().push(c),
            ));
        } else {
            out.push(Vec::new());
            assert(out@.map_values(|p: Vec<char>| p@) =~= before.push(Seq::<char>::empty()));
        }
        i = i + 1;
    }
    assert(v@.take(v@.len() as int) =~= v@);
    out
}

pub fn version_parts(version: &str) -> (r: Vec<u64>)
    ensures
        r@ == version_numbers(version@),
{
    let n = normalize_version(version);
    let v = chars_of(n.as_str());
    let pieces = digit_pieces_of(&v);
    let ghost ps = pieces@.map_values(|p: Vec<char>| p@);
    let mut out: Vec<u64> = Vec::new();
    let mut i: usize = 0;
    while i < pieces.len()
        invariant
            ps == pieces@.map_values(|p: Vec<char>| p@),
            ps == digit_pieces(normalized_version(version@)),
            i <= pieces@.len(),
            out@ == piece_numbers(ps.take(i as int)),
        decreases pieces@.len() - i,
    {
        proof {
            assert(ps.take(i + 1).drop_last() =~= ps.take(i as int));
            assert(ps.take(i + 1).last() == pieces@[i as int]@);
        }
        if pieces[i].len() > 0 {
            let s = string_from_chars(pieces[i].as_slice());
            match parse_u64(s.as_str(), u64::MAX) {
                Some(x) => out.push(x),
                None => {},
            }
        }
        i = i + 1;
    }
    assert(ps.take(pieces@.len() as int) =~= ps);
    out
}

/// A version written as three numbers in decimal joined by dots.
pub open spec fn dotted(x: u64, y: u64, z: u64) -> Seq<char> {
    digits(x as nat, 10) + "."@ + digits(y as nat, 10) + "."@ + digits(z as nat, 10)
}

/// The pieces of digits of a text followed by a dot and digits: those of the text,
/// then the digits.
proof fn lemma_pieces_after_dot(p: Seq<char>, d: Seq<char>)
    requires
        crate::text::all_digits(d),
    ensures
        digit_pieces(p.push('.') + d) == digit_pieces(p).push(d),
    decreases d.len(),
{
    let w = p.push('.') + d;
    if d.len() == 0 {
        assert(w =~= p.push('.'));
        assert(w.drop_last() =~= p);
        assert(!is_ascii_digit(w.last()));
        assert(d =~= Seq::<char>::empty());
        assert(digit_pieces(w) == digit_pieces(w.drop_last()).push(Seq::<char>::empty()));
    } else {
        assert(w.drop_last() =~= p.push('.') + d.drop_last());
        assert(w.last() == d.last());
        assert(is_ascii_digit(d[d.len() - 1]));
        lemma_pieces_after_dot(p, d.drop_last());
        let r = digit_pieces(w.drop_last());
        assert(r == digit_pieces(p).push(d.drop_last()));
        assert(digit_pieces(w) == r.update(r.len() - 1, r.last().push(w.last())));
        assert(r.last() == d.drop_last());
        assert(d.drop_last().push(d.last()) =~= d);
        assert(r.update(r.len() - 1, d) =~= digit_pieces(p).push(d));
    }
}

/// The pieces of a text of digits: the text alone.
proof fn lemma_pieces_of_digits(d: Seq<char>)
    requires
        crate::text::all_digits(d),
    ensures
        digit_pieces(d) == seq![d],
    decreases d.len(),
{
    if d.len() == 0 {
        assert(digit_pieces(d) == seq![Seq::<char>::empty()]);
        assert(d =~= Seq::<char>::empty());
    } else {
        assert(is_ascii_digit(d[d.len() - 1]));
        lemma_pieces_of_digits(d.drop_last());
        let r = digit_pieces(d.drop_last());
        assert(digit_pieces(d) == r.update(r.len() - 1, r.last().push(d.last())));
        assert(d.drop_last().push(d.last()) =~= d);
        assert(r.update(0, d) =~= seq![d]);
    }
}

proof fn lemma_number_of_digits(x: u64)
    ensures
        digits(x as nat, 10).len() > 0,
        crate::text::all_digits(digits(x as nat, 10)),
        parse_unsigned(digits(x as nat, 10), u64::MAX as nat) == Some(x as nat),
        !is_ascii_digit('.'),
        !crate::text::is_ws(digits(x as nat, 10)[0]),
        !crate::text::is_ws(digits(x as nat, 10).last()),
        digits(x as nat, 10)[0] != 'v' && digits(x as nat, 10)[0] != 'V',
{
    crate::shortcut::lemma_decimal_digits(x as nat);
    let d = digits(x as nat, 10);
    assert(is_ascii_digit(d[0]));
    assert(is_ascii_digit(d[d.len() - 1]));
}

/// The components of a version written as three numbers joined by dots are those
/// numbers, in order, the first one included.
pub proof fn law_version_numbers_of_dotted(x: u64, y: u64, z: u64)
    ensures
        version_numbers(dotted(x, y, z)) == seq![x, y, z],
{
    lemma_number_of_digits(x);
    lemma_number_of_digits(y);
    lemma_number_of_digits(z);
    let dx = digits(x as nat, 10);
    let dy = digits(y as nat, 10);
    let dz = digits(z as nat, 10);
    let s = dotted(x, y, z);
    reveal_strlit(".");
    assert(s =~= (dx.push('.') + dy).push('.') + dz);
    assert(s[0] == dx[0]);
    assert(s.last() == dz.last());
    crate::text::lemma_lead_ws(s, 0);
    crate::text::lemma_trail_ws(s, 0);
    assert(s.skip(0) =~= s);
    assert(s.take(s.len() as int) =~= s);
    assert(trim(s) == s);
    assert(strip_v(s) == s);
    assert(normalized_version(s) == s);
    lemma_pieces_of_digits(dx);
    lemma_pieces_after_dot(dx, dy);
    lemma_pieces_after_dot(dx.push('.') + dy, dz);
    let ps = digit_pieces(s);
    assert(ps =~= seq![dx, dy, dz]);
    assert(ps.drop_last() =~= seq![dx, dy]);
    assert(ps.drop_last().drop_last() =~= seq![dx]);
    assert(ps.drop_last().drop_last().drop_last() =~= Seq::<Seq<char>>::empty());
    assert(seq![dx].drop_last() =~= Seq::<Seq<char>>::empty());
    assert(seq![dx].last() == dx);
    assert(piece_numbers(Seq::<Seq<char>>::empty()) =~= Seq::<u64>::empty());
    assert(piece_numbers(seq![dx]) =~= seq![x]);
    assert(seq![dx, dy].drop_last() =~= seq![dx]);
    assert(seq![dx, dy, dz].drop_last() =~= seq![dx, dy]);
    assert(piece_numbers(seq![dx, dy]) =~= seq![x, y]);
    assert(piece_numbers(seq![dx, dy, dz]) =~= seq![x, y, z]);
}

/// Of two versions written as three numbers joined by dots, the one with the
/// larger first number is newer; with equal first numbers the larger second number
/// decides, then the third.
pub proof fn law_dotted_versions_compare(x: u64, y: u64, z: u64, a: u64, b: u64, c: u64)
    ensures
        newer_version(dotted(x, y, z), dotted(a, b, c)) == (x > a || (x == a && (y > b || (y == b && z > c)))),
{
    law_version_numbers_of_dotted(x, y, z);
    law_version_numbers_of_dotted(a, b, c);
    let l = seq![x, y, z];
    let r = seq![a, b, c];
    assert(compared_len(l, r) == 3);
    assert(part_at(l, 0) == x && part_at(l, 1) == y && part_at(l, 2) == z);
    assert(part_at(r, 0) == a && part_at(r, 1) == b && part_at(r, 2) == c);
    assert(newer_from(l, r, 3, 3) == false);
    assert(newer_from(l, r, 2, 3) == (z > c));
    assert(newer_from(l, r, 1, 3) == (y > b || (y == b && z > c)));
    assert(newer_from(l, r, 0, 3) == (x > a || (x == a && (y > b || (y == b && z > c)))));
}

/// The component at `i`, zero past the end.
pub open spec fn part_at(ps: Seq<u64>, i: int) -> u64 {
    if 0 <= i < ps.len() {
        ps[i]
    } else {
        0
    }
}

/// Whether `l` is above `c` when their components are compared from `i` on, up to `n`.
pub open spec fn newer_from(l: Seq<u64>, c: Seq<u64>, i: int, n: int) -> bool
    decreases n - i,
{
    if i >= n {
        false
    } else if part_at(l, i) > part_at(c, i) {
        true
    } else if part_at(l, i) < part_at(c, i) {
        false
    } else {
        newer_from(l, c, i + 1, n)
    }
}

/// The number of components compared: the longer of the two, and at least three.
pub open spec fn compared_len(l: Seq<u64>, c: Seq<u64>) -> int {
    let m = if l.len() > c.len() {
        l.len() as int
    } else {
        c.len() as int
    };
    if m > 3 {
        m
    } else {
        3
    }
}

/// Whether version `latest` is newer than `current`: their components compared in
/// order as numbers, missing ones counting as zero.
pub open spec fn newer_version(latest: Seq<char>, current: Seq<char>) -> bool {
    let l = version_numbers(latest);
    let c = version_numbers(current);
    newer_from(l, c, 0, compared_len(l, c))
}

pub fn is_newer_version(latest: &str, current: &str) -> (r: bool)
    ensures
        r == newer_version(latest@, current@),
{
    let l = version_parts(latest);
    let c = version_parts(current);
    let mut n = if l.len() > c.len() {
        l.len()
    } else {
        c.len()
    };
    if n < 3 {
        n = 3;
    }
    let mut i: usize = 0;
    while i < n
        invariant
            n == compared_len(l@, c@),
            l@ == version_numbers(latest@),
            c@ == version_numbers(current@),
            i <= n,
            newer_from(l@, c@, i as int, n as int) == newer_from(l@, c@, 0, n as int),
        decreases n - i,
    {
        let a = if i < l.len() {
            l[i]
        } else {
            0
        };
        let b = if i < c.len() {
            c[i]
        } else {
            0
        };
        assert(a == part_at(l@, i as int) && b == part_at(c@, i as int));
        if a > b {
            return true;
        }
        if a < b {
            return false;
        }
        i = i + 1;
    }
    false
}

proof fn lemma_newer_irreflexive(l: Seq<u64>, i: int, n: int)
    ensures
        !newer_from(l, l, i, n),
    decreases n - i,
{
    if i < n {
        lemma_newer_irreflexive(l, i + 1, n);
    }
}

proof fn lemma_newer_asymmetric(l: Seq<u64>, c: Seq<u64>, i: int, n: int)
    requires
        newer_from(l, c, i, n),
    ensures
        !newer_from(c, l, i, n),
    decreases n - i,
{
    if i < n && part_at(l, i) == part_at(c, i) {
        lemma_newer_asymmetric(l, c, i + 1, n);
    }
}

/// No version is newer than itself.
pub proof fn law_version_not_newer_than_itself(v: Seq<char>)
    ensures
        !newer_version(v, v),
{
    lemma_newer_irreflexive(version_numbers(v), 0, compared_len(version_numbers(v), version_numbers(v)));
}

/// Of two versions, at most one is newer than the other.
pub proof fn law_newer_version_asymmetric(a: Seq<char>, b: Seq<char>)
    requires
        newer_version(a, b),
    ensures
        !newer_version(b, a),
{
    let l = version_numbers(a);
    let c = version_numbers(b);
    assert(compared_len(l, c) == compared_len(c, l));
    lemma_newer_asymmetric(l, c, 0, compared_len(l, c));
}

// ---------------------------------------------------------------------------
// The result of a check.
// ---------------------------------------------------------------------------

/// What a check for a newer release found.
pub struct UpdateCheckResult {
    pub available: bool,
    pub latest: String,
    pub notes: String,
    pub release_url: String,
    pub failed: bool,
}

pub open spec fn result_view(r: UpdateCheckResult) -> (bool, Seq<char>, Seq<char>, Seq<char>, bool) {
    (r.available, r.latest@, r.notes@, r.release_url@, r.failed)
}

/// A failed check, with its message in the notes.
pub open spec fn error_view(message: Seq<char>) -> (bool, Seq<char>, Seq<char>, Seq<char>, bool) {
    (false, Seq::empty(), message, UPDATE_RELEASES_URL@, true)
}

pub fn update_error(message: String) -> (r: UpdateCheckResult)
    ensures
        result_view(r) == error_view(message@),
{
    UpdateCheckResult {
        available: false,
        latest: String::new(),
        notes: message,
        release_url: UPDATE_RELEASES_URL.to_string(),
        failed: true,
    }
}

/// The check's result from the latest release's description: its tag (trimmed and
/// normalized) is the latest version, and a failure with `no_release` when that is
/// empty; its body trimmed is the notes, `no_notes` when it is missing or blank; its
/// page is the release URL, the releases page when it is missing or blank; an update
/// is available when the latest version is newer than `current`.
pub open spec fn release_result_of(
    current: Seq<char>,
    json: JsonView,
    no_release: Seq<char>,
    no_notes: Seq<char>,
) -> (bool, Seq<char>, Seq<char>, Seq<char>, bool) {
    let latest = normalized_version(trim(field_str_or(json, "tag_name"@, Seq::empty())));
    if latest.len() == 0 {
        error_view(no_release)
    } else {
        let body = match opt_str(view_field(json, "body"@)) {
            Some(s) => trim(s),
            None => Seq::empty(),
        };
        let url = match opt_str(view_field(json, "html_url"@)) {
            Some(s) => if trim(s).len() > 0 {
                s
            } else {
                UPDATE_RELEASES_URL@
            },
            None => UPDATE_RELEASES_URL@,
        };
        (
            newer_version(latest, current),
            latest,
            if body.len() == 0 {
                no_notes
            } else {
                body
            },
            url,
            false,
        )
    }
}

pub fn release_result_from_json(current: &str, json: &Json, no_release: &str, no_notes: &str) -> (r:
    UpdateCheckResult)
    ensures
        result_view(r) == release_result_of(current@, json@, no_release@, no_notes@),
{
    let tag = match json.get("tag_name") {
        Some(v) => match v.as_str() {
            Some(s) => trim_str(s),
            None => String::new(),
        },
        None => String::new(),
    };
    let latest = normalize_version(tag.as_str());
    if latest.unicode_len() == 0 {
        return update_error(no_release.to_string());
    }
    let body = match json.get("body") {
        Some(v) => match v.as_str() {
            Some(s) => trim_str(s),
            None => String::new(),
        },
        None => String::new(),
    };
    let notes = if body.unicode_len() == 0 {
        no_notes.to_string()
    } else {
        body
    };
    let url = match json.get("html_url") {
        Some(v) => match v.as_str() {
            Some(s) => {
                let t = trim_str(s);
                if t.unicode_len() > 0 {
                    s.to_string()
                } else {
                    UPDATE_RELEASES_URL.to_string()
                }
            },
            None => UPDATE_RELEASES_URL.to_string(),
        },
        None => UPDATE_RELEASES_URL.to_string(),
    };
    let available = is_newer_version(latest.as_str(), current);
    UpdateCheckResult { available, latest, notes, release_url: url, failed: false }
}

/// The check's result from the release service's answer: status 404 means there is
/// no release yet (failed, with `no_release`); another status outside 200..=299 a
/// failure `<check_failed>: HTTP <status>`; else the release description is read.
pub open spec fn response_result_of(
    current: Seq<char>,
    status: u16,
    json: JsonView,
    check_failed: Seq<char>,
    no_release: Seq<char>,
    no_notes: Seq<char>,
) -> (bool, Seq<char>, Seq<char>, Seq<char>, bool) {
    if status == 404 {
        error_view(no_release)
    } else if !(200 <= status <= 299) {
        error_view(check_failed + ": HTTP "@ + digits(status as nat, 10))
    } else {
        release_result_of(current, json, no_release, no_notes)
    }
}

pub fn release_result_from_response(
    current: &str,
    status: u16,
    json: &Json,
    check_failed: &str,
    no_release: &str,
    no_notes: &str,
) -> (r: UpdateCheckResult)
    ensures
        result_view(r) == response_result_of(
            current@,
            status,
            json@,
            check_failed@,
            no_release@,
            no_notes@,
        ),
{
    if status == 404 {
        update_error(no_release.to_string())
    } else if !(200 <= status && status <= 299) {
        let mut m = check_failed.to_string();
        m.append(": HTTP ");
        let d = u64_to_base(status as u64, 10);
        m.append(d.as_str());
        update_error(m)
    } else {
        release_result_from_json(current, json, no_release, no_notes)
    }
}

// ---------------------------------------------------------------------------
// The updater window's state.
// ---------------------------------------------------------------------------

/// The updater window's state.
pub struct UpdaterModel {
    pub checking: bool,
    pub checked: bool,
    pub check_failed: bool,
    pub update_available: bool,
    pub current_version: String,
    pub latest_version: String,
    pub release_notes: String,
    pub release_url: String,
}

impl UpdaterModel {
    /// Nothing checked yet.
    pub fn new(current_version: String) -> (r: Self)
        ensures
            !r.checking && !r.checked && !r.check_failed && !r.update_available,
            r.current_version == current_version,
            r.latest_version@ == Seq::<char>::empty(),
            r.release_notes@ == Seq::<char>::empty(),
            r.release_url@ == UPDATE_RELEASES_URL@,
    {
        UpdaterModel {
            checking: false,
            checked: false,
            check_failed: false,
            update_available: false,
            current_version,
            latest_version: String::new(),
            release_notes: String::new(),
            release_url: UPDATE_RELEASES_URL.to_string(),
        }
    }

    /// A check starts: what the last one found is cleared.
    pub fn begin_check(&mut self)
        ensures
            final(self).checking && !final(self).checked && !final(self).check_failed
                && !final(self).update_available,
            final(self).current_version == old(self).current_version,
            final(self).latest_version@ == Seq::<char>::empty(),
            final(self).release_notes@ == Seq::<char>::empty(),
            final(self).release_url@ == UPDATE_RELEASES_URL@,
    {
        self.checking = true;
        self.checked = false;
        self.check_failed = false;
        self.update_available = false;
        self.latest_version = String::new();
        self.release_notes = String::new();
        self.release_url = UPDATE_RELEASES_URL.to_string();
    }

    /// A check ended with `r`.
    pub fn finish_check(&mut self, r: UpdateCheckResult)
        ensures
            !final(self).checking && final(self).checked,
            final(self).check_failed == r.failed,
            final(self).update_available == r.available,
            final(self).current_version == old(self).current_version,
            final(self).latest_version == r.latest,
            final(self).release_notes == r.notes,
            final(self).release_url == r.release_url,
    {
        self.checking = false;
        self.checked = true;
        self.check_failed = r.failed;
        self.update_available = r.available;
        self.latest_version = r.latest;
        self.release_notes = r.notes;
        self.release_url = r.release_url;
    }

    /// The page to open for installing: the release's, or the releases page when blank.
    pub fn install_url(&self) -> (r: String)
        ensures
            r@ == (if trim(self.release_url@).len() == 0 {
                UPDATE_RELEASES_URL@
            } else {
                self.release_url@
            }),
    {
        let t = trim_str(self.release_url.as_str());
        if t.unicode_len() == 0 {
            UPDATE_RELEASES_URL.to_string()
        } else {
            self.release_url.clone()
        }
    }
}

/// What the updater window shows: its status line, whether the spinner runs,
/// whether checking can be started, and whether the update button and the notes
/// are shown.
pub struct UpdaterView {
    pub status: String,
    pub spinner: bool,
    pub check_enabled: bool,
    pub update_visible: bool,
    pub notes_visible: bool,
}

/// The translated messages the status line is made of.
pub struct UpdaterLabels {
    pub checking: String,
    pub update_available: String,
    pub up_to_date: String,
    pub current_version: String,
}

/// The status line: the checking message; after a failure its message (kept in
/// the notes); `Update available: current -> latest`; `You are up to date (vcurrent)`;
/// or, before any check, `Current version: current`.
pub open spec fn status_line(m: UpdaterModel, l: UpdaterLabels) -> Seq<char> {
    if m.checking {
        l.checking@
    } else if m.check_failed {
        m.release_notes@
    } else if m.update_available {
        l.update_available@ + ": "@ + m.current_version@ + " -> "@ + m.latest_version@
    } else if m.checked {
        l.up_to_date@ + " (v"@ + m.current_version@ + ")"@
    } else {
        l.current_version@ + ": "@ + m.current_version@
    }
}

impl UpdaterModel {
    pub fn view_state(&self, labels: &UpdaterLabels) -> (r: UpdaterView)
        ensures
            r.status@ == status_line(*self, *labels),
            r.spinner == self.checking,
            r.check_enabled == !self.checking,
            r.update_visible == (!self.checking && (self.check_failed || self.update_available)),
            r.notes_visible == (!self.checking && !self.check_failed && self.update_available),
    {
        if self.checking {
            return UpdaterView {
                status: labels.checking.clone(),
                spinner: true,
                check_enabled: false,
                update_visible: false,
                notes_visible: false,
            };
        }
        if self.check_failed {
            UpdaterView {
                status: self.release_notes.clone(),
                spinner: false,
                check_enabled: true,
                update_visible: true,
                notes_visible: false,
            }
        } else if self.update_available {
            let mut t = labels.update_available.clone();
            t.append(": ");
            t.append(self.current_version.as_str());
            t.append(" -> ");
            t.append(self.latest_version.as_str());
            UpdaterView { status: t, spinner: false, check_enabled: true, update_visible: true, notes_visible: true }
        } else if self.checked {
            let mut t = labels.up_to_date.clone();
            t.append(" (v");
            t.append(self.current_version.as_str());
            t.append(")");
            UpdaterView { status: t, spinner: false, check_enabled: true, update_visible: false, notes_visible: false }
        } else {
            let mut t = labels.current_version.clone();
            t.append(": ");
            t.append(self.current_version.as_str());
            UpdaterView { status: t, spinner: false, check_enabled: true, update_visible: false, notes_visible: false }
        }
    }
}

} // verus!
