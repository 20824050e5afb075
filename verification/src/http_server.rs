//! The local HTTP control interface: which action a request asks for, the request
//! rate limit, and the client side that sends an action to a running instance.

use vstd::prelude::*;
use crate::error::AppError;
use crate::json::{Json, JsonView, view_str};
use crate::text::{
    split_char, split_on, lemma_split_char_len, string_from_chars, str_eq, has_infix,
    contains_str, has_prefix, starts_with, push_char, digits, u64_to_base,
};

verus! {

/// An action that the application performs on request.
pub enum AppAction {
    TranslateText(String),
    InputTranslate,
    SelectionTranslate,
    OcrRecognize { screenshot: bool },
    OcrTranslate { screenshot: bool },
    ShowConfig,
    ShowUpdater,
    Quit,
}

/// Activation hints from the input that triggered an action (window placement).
pub struct ActivationContext {
    /// The XDG activation token of the Wayland shortcut portal.
    pub startup_id: Option<String>,
    /// The input event's time in milliseconds.
    pub timestamp: Option<u64>,
}

/// An action with the context it was triggered in.
pub struct ActionEvent {
    pub action: AppAction,
    pub ctx: ActivationContext,
}

impl ActionEvent {
    /// An event with no activation hints.
    pub fn new(action: AppAction) -> (r: Self)
        ensures
            r.action == action,
            r.ctx.startup_id is None,
            r.ctx.timestamp is None,
    {
        ActionEvent { action, ctx: ActivationContext { startup_id: None, timestamp: None } }
    }

    /// The same event with the given activation token.
    pub fn with_startup_id(self, token: String) -> (r: Self)
        ensures
            r.action == self.action,
            r.ctx.startup_id == Some(token),
            r.ctx.timestamp == self.ctx.timestamp,
    {
        let mut s = self;
        s.ctx.startup_id = Some(token);
        s
    }

    /// The same event with the given input time.
    pub fn with_timestamp(self, ts: u64) -> (r: Self)
        ensures
            r.action == self.action,
            r.ctx.startup_id == self.ctx.startup_id,
            r.ctx.timestamp == Some(ts),
    {
        let mut s = self;
        s.ctx.timestamp = Some(ts);
        s
    }
}

// ---------------------------------------------------------------------------
// Rate limiting: at most 120 requests in a window of 60 seconds.
// ---------------------------------------------------------------------------

pub const RATE_LIMIT_WINDOW_MS: u64 = 60000;
pub const RATE_LIMIT_MAX_REQUESTS: u32 = 120;

/// A fixed-window request counter. Times are milliseconds of a monotonic clock.
pub struct RateLimiter {
    window_start: u64,
    count: u32,
}

/// One request: a new window opens when a whole 60 seconds have passed since the
/// current one opened; the request is allowed while the window has seen at most 120.
/// The state is the window's opening time and the number of requests seen in it,
/// counted up to 121.
pub open spec fn rate_step(start: u64, count: nat, now: u64) -> (u64, nat, bool) {
    let elapsed = if now >= start {
        now - start
    } else {
        0
    };
    let (s, c) = if elapsed >= 60000 {
        (now, 0nat)
    } else {
        (start, count)
    };
    let c2 = if c <= 120 {
        c + 1
    } else {
        c
    };
    (s, c2, c2 <= 120)
}

impl RateLimiter {
    pub closed spec fn start(&self) -> u64 {
        self.window_start
    }

    pub closed spec fn seen(&self) -> nat {
        self.count as nat
    }

    pub closed spec fn wf(&self) -> bool {
        self.count <= 121
    }

    /// A limiter whose first window opens at `now`.
    pub fn new(now: u64) -> (r: Self)
        ensures
            r.wf(),
            r.start() == now,
            r.seen() == 0,
    {
        RateLimiter { window_start: now, count: 0 }
    }

    /// Counts one request arriving at `now`; whether it is allowed.
    pub fn check(&mut self, now: u64) -> (r: bool)
        requires
            old(self).wf(),
        ensures
            final(self).wf(),
            (final(self).start(), final(self).seen(), r) == rate_step(old(self).start(), old(self).seen(), now),
    {
        let elapsed = if now >= self.window_start {
            now - self.window_start
        } else {
            0
        };
        if elapsed >= RATE_LIMIT_WINDOW_MS {
            self.window_start = now;
            self.count = 0;
        }
        if self.count <= RATE_LIMIT_MAX_REQUESTS {
            self.count = self.count + 1;
        }
        self.count <= RATE_LIMIT_MAX_REQUESTS
    }
}

/// The number of requests allowed among `times`, starting from a window opened at
/// `start` that has seen `count` requests.
pub open spec fn allowed_count(start: u64, count: nat, times: Seq<u64>) -> nat
    decreases times.len(),
{
    if times.len() == 0 {
        0
    } else {
        let (s, c, ok) = rate_step(start, count, times[0]);
        (if ok {
            1nat
        } else {
            0nat
        }) + allowed_count(s, c, times.drop_first())
    }
}

/// Within one window, no more than 120 requests in all are allowed: requests that
/// arrive less than 60 seconds after the window opened, at or after its opening,
/// are allowed at most `120 - count` times.
pub proof fn law_rate_limit_window(start: u64, count: nat, times: Seq<u64>)
    requires
        count <= 121,
        forall|i: int| 0 <= i < times.len() ==> start <= #[trigger] times[i] < start + 60000,
    ensures
        allowed_count(start, count, times) + count <= 120 || (count > 120 && allowed_count(
            start,
            count,
            times,
        ) == 0),
    decreases times.len(),
{
    if times.len() > 0 {
        let (s, c, ok) = rate_step(start, count, times[0]);
        assert(s == start);
        assert forall|i: int| 0 <= i < times.drop_first().len() implies start <= #[trigger] times.drop_first()[i]
            < start + 60000 by {
            assert(times.drop_first()[i] == times[i + 1]);
        }
        law_rate_limit_window(s, c, times.drop_first());
    }
}

// ---------------------------------------------------------------------------
// Request routing.
// ---------------------------------------------------------------------------

/// How the server answers a request.
pub enum Route {
    /// The health check at `/`: answered `ok`, no authorization needed.
    Health,
    /// No valid `Authorization: Bearer <token>` header: answered 401.
    Unauthorized,
    /// `/translate`: the body, when it can be read and is not empty, is the text to translate.
    Translate,
    /// An action to perform, answered `ok`.
    Action(AppAction),
    /// An unknown path: answered 404.
    NotFound,
}

/// The path of a request URL: what comes before the first `?`.
pub open spec fn url_path(url: Seq<char>) -> Seq<char> {
    split_char(url, '?')[0]
}

/// The query of a request URL: what comes between the first and the second `?`.
pub open spec fn url_query(url: Seq<char>) -> Seq<char> {
    let p = split_char(url, '?');
    if p.len() > 1 {
        p[1]
    } else {
        Seq::empty()
    }
}

/// Whether an OCR request asks for a new screenshot: when it says `screenshot=true`
/// or does not say `screenshot=` at all.
pub open spec fn wants_screenshot(query: Seq<char>) -> bool {
    has_infix(query, "screenshot=true"@) || !has_infix(query, "screenshot="@)
}

/// Whether an `Authorization` header value carries the expected token.
pub open spec fn authorized(header: Option<Seq<char>>, token: Seq<char>) -> bool {
    match header {
        Some(h) => h == "Bearer "@ + token,
        None => false,
    }
}

/// The route of a request, by its URL and its `Authorization` header.
pub open spec fn route_of(url: Seq<char>, header: Option<Seq<char>>, token: Seq<char>) -> Route {
    if url == "/"@ {
        Route::Health
    } else if !authorized(header, token) {
        Route::Unauthorized
    } else {
        let path = url_path(url);
        let q = url_query(url);
        if path == "/translate"@ {
            Route::Translate
        } else if path == "/config"@ {
            Route::Action(AppAction::ShowConfig)
        } else if path == "/selection_translate"@ {
            Route::Action(AppAction::SelectionTranslate)
        } else if path == "/input_translate"@ {
            Route::Action(AppAction::InputTranslate)
        } else if path == "/ocr_recognize"@ {
            Route::Action(AppAction::OcrRecognize { screenshot: wants_screenshot(q) })
        } else if path == "/ocr_translate"@ {
            Route::Action(AppAction::OcrTranslate { screenshot: wants_screenshot(q) })
        } else {
            Route::NotFound
        }
    }
}

/// The pieces of a text with no `c` in it: the text alone.
proof fn lemma_split_without(s: Seq<char>, c: char)
    requires
        !s.contains(c),
    ensures
        split_char(s, c) == seq![s],
    decreases s.len(),
{
    if s.len() == 0 {
        assert(s =~= Seq::<char>::empty());
    } else {
        assert(s.drop_last().len() < s.len());
        assert(!s.drop_last().contains(c)) by {
            if s.drop_last().contains(c) {
                let i = choose|i: int| 0 <= i < s.drop_last().len() && s.drop_last()[i] == c;
                assert(s[i] == c);
            }
        }
        assert(s.last() != c) by {
            if s.last() == c {
                assert(s[s.len() - 1] == c);
            }
        }
        lemma_split_without(s.drop_last(), c);
        let r = split_char(s.drop_last(), c);
        assert(split_char(s, c) == r.update(r.len() - 1, r.last().push(s.last())));
        assert(s.drop_last().push(s.last()) =~= s);
        assert(r.update(0, s) =~= seq![s]);
    }
}

/// The pieces of `a`, `c`, `b` where neither `a` nor `b` holds `c`: `a`, then `b`.
proof fn lemma_split_once(a: Seq<char>, b: Seq<char>, c: char)
    requires
        !a.contains(c),
        !b.contains(c),
    ensures
        split_char(a.push(c) + b, c) == seq![a, b],
    decreases b.len(),
{
    let w = a.push(c) + b;
    if b.len() == 0 {
        assert(w =~= a.push(c));
        assert(w.drop_last() =~= a);
        lemma_split_without(a, c);
        assert(split_char(w, c) == split_char(a, c).push(Seq::<char>::empty()));
        assert(b =~= Seq::<char>::empty());
        assert(seq![a].push(Seq::<char>::empty()) =~= seq![a, b]);
    } else {
        assert(w.drop_last() =~= a.push(c) + b.drop_last());
        assert(w.last() == b.last());
        assert(!b.drop_last().contains(c)) by {
            if b.drop_last().contains(c) {
                let i = choose|i: int| 0 <= i < b.drop_last().len() && b.drop_last()[i] == c;
                assert(b[i] == c);
            }
        }
        assert(b.last() != c) by {
            if b.last() == c {
                assert(b[b.len() - 1] == c);
            }
        }
        lemma_split_once(a, b.drop_last(), c);
        let r = split_char(w.drop_last(), c);
        assert(split_char(w, c) == r.update(r.len() - 1, r.last().push(w.last())));
        assert(b.drop_last().push(b.last()) =~= b);
        assert(r.update(1, b) =~= seq![a, b]);
    }
}

/// Whether the query of an OCR request asks for a new screenshot, as the server
/// reads it: it names `screenshot=true`, or it does not name `screenshot=` at all.
pub open spec fn asks_screenshot(q: Seq<char>) -> bool {
    has_infix(q, "screenshot=true"@) || !has_infix(q, "screenshot="@)
}

/// An authorized request to `/ocr_recognize` or `/ocr_translate` asks for a new
/// screenshot exactly when its query names `screenshot=true` or names no
/// `screenshot=` at all (so `?screenshot=false` takes none); both paths read the
/// query alike, and without a query a screenshot is taken.
pub proof fn law_ocr_screenshot_flag(q: Seq<char>, token: Seq<char>)
    requires
        !q.contains('?'),
    ensures
        route_of("/ocr_recognize?"@ + q, Some("Bearer "@ + token), token) == Route::Action(
            AppAction::OcrRecognize { screenshot: asks_screenshot(q) },
        ),
        route_of("/ocr_translate?"@ + q, Some("Bearer "@ + token), token) == Route::Action(
            AppAction::OcrTranslate { screenshot: asks_screenshot(q) },
        ),
        route_of("/ocr_recognize"@, Some("Bearer "@ + token), token) == Route::Action(
            AppAction::OcrRecognize { screenshot: true },
        ),
        (has_infix(q, "screenshot="@) && !has_infix(q, "screenshot=true"@)) ==> route_of(
            "/ocr_recognize?"@ + q,
            Some("Bearer "@ + token),
            token,
        ) == Route::Action(AppAction::OcrRecognize { screenshot: false }),
{
    reveal_strlit("/ocr_recognize?");
    reveal_strlit("/ocr_translate?");
    reveal_strlit("/ocr_recognize");
    reveal_strlit("/ocr_translate");
    reveal_strlit("/");
    reveal_strlit("/translate");
    reveal_strlit("/config");
    reveal_strlit("/selection_translate");
    reveal_strlit("/input_translate");
    let a = "/ocr_recognize"@;
    let b = "/ocr_translate"@;
    assert(!a.contains('?')) by {
        if a.contains('?') {
            let i = choose|i: int| 0 <= i < a.len() && a[i] == '?';
        }
    }
    assert(!b.contains('?')) by {
        if b.contains('?') {
            let i = choose|i: int| 0 <= i < b.len() && b[i] == '?';
        }
    }
    assert("/ocr_recognize?"@ + q =~= a.push('?') + q);
    assert("/ocr_translate?"@ + q =~= b.push('?') + q);
    lemma_split_once(a, q, '?');
    lemma_split_once(b, q, '?');
    lemma_split_without(a, '?');
    assert(("/ocr_recognize?"@ + q).len() != "/"@.len());
    assert(("/ocr_translate?"@ + q).len() != "/"@.len());
    assert(url_path(a.push('?') + q) == a);
    assert(url_query(a.push('?') + q) == q);
    assert(url_path(b.push('?') + q) == b);
    assert(url_query(b.push('?') + q) == q);
    assert(url_path(a) == a);
    assert(url_query(a) == Seq::<char>::empty());
    assert(!has_infix(Seq::<char>::empty(), "screenshot="@)) by {
        reveal_strlit("screenshot=");
        if has_infix(Seq::<char>::empty(), "screenshot="@) {
            let i = choose|i: int| crate::text::occurs_at(Seq::<char>::empty(), "screenshot="@, i);
        }
    }
    assert(a != "/translate"@ && a != "/config"@ && a != "/selection_translate"@ && a != "/input_translate"@);
    assert(a[5] != b[5]);
    assert(b != "/translate"@ && b != "/config"@ && b != "/selection_translate"@ && b != "/input_translate"@
        && b != a);
}

/// Whether `header` is `Bearer ` followed by exactly `token`.
pub fn validate_token(header: Option<&str>, token: &str) -> (r: bool)
    ensures
        r == authorized(
            match header {
                Some(h) => Some(h@),
                None => None,
            },
            token@,
        ),
{
    match header {
        Some(h) => {
            let mut expected = "Bearer ".to_string();
            expected.append(token);
            str_eq(h, expected.as_str())
        },
        None => false,
    }
}

/// Decides how to answer a request.
pub fn route_request(url: &str, header: Option<&str>, token: &str) -> (r: Route)
    ensures
        r == route_of(
            url@,
            match header {
                Some(h) => Some(h@),
                None => None,
            },
            token@,
        ),
{
    if str_eq(url, "/") {
        return Route::Health;
    }
    if !validate_token(header, token) {
        return Route::Unauthorized;
    }
    let parts = split_on(url, '?');
    proof {
        lemma_split_char_len(url@, '?');
    }
    let path = string_from_chars(parts[0].as_slice());
    let query = if parts.len() > 1 {
        string_from_chars(parts[1].as_slice())
    } else {
        String::new()
    };
    let p = path.as_str();
    if str_eq(p, "/translate") {
        Route::Translate
    } else if str_eq(p, "/config") {
        Route::Action(AppAction::ShowConfig)
    } else if str_eq(p, "/selection_translate") {
        Route::Action(AppAction::SelectionTranslate)
    } else if str_eq(p, "/input_translate") {
        Route::Action(AppAction::InputTranslate)
    } else if str_eq(p, "/ocr_recognize") {
        let screenshot = contains_str(query.as_str(), "screenshot=true") || !contains_str(
            query.as_str(),
            "screenshot=",
        );
        Route::Action(AppAction::OcrRecognize { screenshot })
    } else if str_eq(p, "/ocr_translate") {
        let screenshot = contains_str(query.as_str(), "screenshot=true") || !contains_str(
            query.as_str(),
            "screenshot=",
        );
        Route::Action(AppAction::OcrTranslate { screenshot })
    } else {
        Route::NotFound
    }
}

/// The action for a `/translate` request whose body was read: the text, when not empty.
pub fn translate_body_action(body: String) -> (r: Option<AppAction>)
    ensures
        body@.len() == 0 ==> r is None,
        body@.len() > 0 ==> r == Some(AppAction::TranslateText(body)),
{
    if body.unicode_len() == 0 {
        None
    } else {
        Some(AppAction::TranslateText(body))
    }
}

/// An unauthenticated request other than the health check never leads to an action.
pub proof fn law_unauthorized_requests_do_nothing(url: Seq<char>, header: Option<Seq<char>>, token: Seq<char>)
    requires
        url != "/"@,
        !authorized(header, token),
    ensures
        route_of(url, header, token) == Route::Unauthorized,
{
}

// ---------------------------------------------------------------------------
// The client side: sending an action to a running instance.
// ---------------------------------------------------------------------------

/// The request path for an action name given on the command line.
pub open spec fn local_action_path_of(action: Seq<char>) -> Option<Seq<char>> {
    if action == "selection-translate"@ || action == "selection_translate"@ {
        Some("/selection_translate"@)
    } else if action == "input-translate"@ || action == "input_translate"@ {
        Some("/input_translate"@)
    } else if action == "ocr-recognize"@ || action == "ocr_recognize"@ {
        Some("/ocr_recognize?screenshot=true"@)
    } else if action == "ocr-translate"@ || action == "ocr_translate"@ {
        Some("/ocr_translate?screenshot=true"@)
    } else if action == "config"@ || action == "show-config"@ || action == "show_config"@ {
        Some("/config"@)
    } else {
        None
    }
}

pub fn local_action_path(action: &str) -> (r: Option<&'static str>)
    ensures
        match r {
            Some(p) => local_action_path_of(action@) == Some(p@),
            None => local_action_path_of(action@) is None,
        },
{
    if str_eq(action, "selection-translate") || str_eq(action, "selection_translate") {
        Some("/selection_translate")
    } else if str_eq(action, "input-translate") || str_eq(action, "input_translate") {
        Some("/input_translate")
    } else if str_eq(action, "ocr-recognize") || str_eq(action, "ocr_recognize") {
        Some("/ocr_recognize?screenshot=true")
    } else if str_eq(action, "ocr-translate") || str_eq(action, "ocr_translate") {
        Some("/ocr_translate?screenshot=true")
    } else if str_eq(action, "config") || str_eq(action, "show-config") || str_eq(
        action,
        "show_config",
    ) {
        Some("/config")
    } else {
        None
    }
}

/// `n` in decimal, with a leading `-` when negative.
pub open spec fn signed_decimal(n: int) -> Seq<char> {
    if n < 0 {
        "-"@ + digits((-n) as nat, 10)
    } else {
        digits(n as nat, 10)
    }
}

pub fn i64_to_decimal(n: i64) -> (r: String)
    ensures
        r@ == signed_decimal(n as int),
{
    if n < 0 {
        let m: u64 = if n == i64::MIN {
            0x8000_0000_0000_0000u64
        } else {
            (-n) as u64
        };
        let mut r = "-".to_string();
        let d = u64_to_base(m, 10);
        r.append(d.as_str());
        r
    } else {
        u64_to_base(n as u64, 10)
    }
}

/// Where and what to send for an action: the port to connect to and the request text.
pub struct LocalRequest {
    pub connect_port: u16,
    pub text: String,
}

/// The request text: `GET <path> HTTP/1.1` with the host, the bearer token and
/// `Connection: close`.
pub open spec fn local_request_text(path: Seq<char>, port: int, token: Seq<char>) -> Seq<char> {
    "GET "@ + path + " HTTP/1.1\r\nHost: 127.0.0.1:"@ + signed_decimal(port)
        + "\r\nAuthorization: Bearer "@ + token + "\r\nConnection: close\r\n\r\n"@
}

/// The configured token, when it is a non-empty string.
pub open spec fn configured_token(v: Option<JsonView>) -> Option<Seq<char>> {
    match v {
        Some(j) => match view_str(j) {
            Some(s) => if s.len() > 0 {
                Some(s)
            } else {
                None
            },
            None => None,
        },
        None => None,
    }
}

/// The configured port when it is an integer in the signed 64-bit range, else 60828.
pub open spec fn configured_port(v: Option<JsonView>) -> int {
    match v {
        Some(j) => match crate::json::view_i64(j) {
            Some(n) => n as int,
            None => 60828,
        },
        None => 60828,
    }
}

/// Builds the request that sends `action` to a running instance, from the stored
/// `server_token` and `server_port` values. Fails for an unknown action name and when
/// no token is configured.
pub fn local_action_request(action: &str, token: Option<&Json>, port: Option<&Json>) -> (r: Result<
    LocalRequest,
    AppError,
>)
    ensures
        ({
            let tv = match token {
                Some(j) => Some(j@),
                None => None,
            };
            let pv = match port {
                Some(j) => Some(j@),
                None => None,
            };
            match r {
                Ok(req) => local_action_path_of(action@) is Some && configured_token(tv) is Some
                    && req.text@ == local_request_text(
                    local_action_path_of(action@)->0,
                    configured_port(pv),
                    configured_token(tv)->0,
                ) && req.connect_port as int == configured_port(pv) % 65536,
                Err(_) => local_action_path_of(action@) is None || configured_token(tv) is None,
            }
        }),
{
    let path = match local_action_path(action) {
        Some(p) => p,
        None => {
            let mut m = "Unknown local action '".to_string();
            m.append(action);
            m.append("'");
            return Err(AppError::Custom(m));
        },
    };
    let tok: &str = match token {
        Some(j) => match j.as_str() {
            Some(s) => if s.unicode_len() > 0 {
                s
            } else {
                return Err(AppError::Custom("server_token is not configured".to_string()));
            },
            None => return Err(AppError::Custom("server_token is not configured".to_string())),
        },
        None => return Err(AppError::Custom("server_token is not configured".to_string())),
    };
    let p: i64 = match port {
        Some(j) => match j.as_i64() {
            Some(n) => n,
            None => 60828,
        },
        None => 60828,
    };
    let mut text = "GET ".to_string();
    text.append(path);
    text.append(" HTTP/1.1\r\nHost: 127.0.0.1:");
    let ps = i64_to_decimal(p);
    text.append(ps.as_str());
    text.append("\r\nAuthorization: Bearer ");
    text.append(tok);
    text.append("\r\nConnection: close\r\n\r\n");
    let m: i64 = p % 65536;
    let cp: u16 = if m < 0 {
        (m + 65536) as u16
    } else {
        m as u16
    };
    Ok(LocalRequest { connect_port: cp, text })
}

/// The status line of a response: its first line without the line ending, or
/// `empty response` when there is no line.
pub open spec fn status_line(resp: Seq<char>) -> Seq<char> {
    if resp.len() == 0 {
        "empty response"@
    } else {
        let l = split_char(resp, '\n')[0];
        if l.len() > 0 && l.last() == '\r' {
            l.drop_last()
        } else {
            l
        }
    }
}

/// Whether a running instance accepted the action: the response starts with a 200 status.
pub open spec fn local_response_ok(resp: Seq<char>) -> bool {
    has_prefix(resp, "HTTP/1.1 200"@) || has_prefix(resp, "HTTP/1.0 200"@)
}

pub fn check_local_response(resp: &str) -> (r: Result<(), AppError>)
    ensures
        r is Ok <==> local_response_ok(resp@),
        match r {
            Err(AppError::Custom(m)) => m@ == "Local action request failed: "@ + status_line(resp@),
            _ => true,
        },
{
    if starts_with(resp, "HTTP/1.1 200") || starts_with(resp, "HTTP/1.0 200") {
        return Ok(());
    }
    let line: String = if resp.unicode_len() == 0 {
        "empty response".to_string()
    } else {
        let parts = split_on(resp, '\n');
        proof {
            lemma_split_char_len(resp@, '\n');
        }
        let first = &parts[0];
        if first.len() > 0 && first[first.len() - 1] == '\r' {
            let mut v: Vec<char> = Vec::new();
            let mut i: usize = 0;
            let m = first.len() - 1;
            while i < m
                invariant
                    m + 1 == first@.len(),
                    i <= m,
                    v@ == first@.take(i as int),
                decreases first@.len() - i,
            {
                v.push(first[i]);
                i = i + 1;
                assert(v@ =~= first@.take(i as int));
            }
            assert(v@ =~= first@.drop_last());
            string_from_chars(v.as_slice())
        } else {
            string_from_chars(first.as_slice())
        }
    };
    let mut m = "Local action request failed: ".to_string();
    m.append(line.as_str());
    Err(AppError::Custom(m))
}

/// The server token: the configured one when it is a non-empty string; otherwise a
/// new random one of 32 characters, which the caller stores (the flag is `true`).
pub fn resolve_token(configured: Option<&Json>) -> (r: (String, bool))
    ensures
        ({
            let v = match configured {
                Some(j) => Some(j@),
                None => None,
            };
            match configured_token(v) {
                Some(t) => r.0@ == t && !r.1,
                None => r.0@.len() == 32 && r.1 && forall|i: int|
                    0 <= i < 32 ==> crate::util::is_id_char(#[trigger] r.0@[i]),
            }
        }),
{
    match configured {
        Some(j) => match j.as_str() {
            Some(s) => if s.unicode_len() > 0 {
                return (s.to_string(), false);
            },
            None => {},
        },
        None => {},
    }
    (crate::util::nanoid(32), true)
}

} // verus!
