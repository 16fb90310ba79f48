//! Request-level rules of the HTTP API: error responses, route names for
//! metrics, query and body validation, the OAuth state cookie and callback
//! page, and the checks a webhook passes before it is queued.
//!
//! The handlers themselves, which read requests and write responses, live in
//! the program around the library.

use vstd::prelude::*;

use crate::config::split_on;
use crate::crypto::constant_time_eq;
use crate::embeddings::utf8;
use crate::json::{opt_as_str, opt_json_ref, Json, JsonValue};
use crate::storage::opt_text;
use crate::text::{chars_eq, chars_of, push_all, string_from_chars, trim, trim_chars};
use crate::webhook::opt_str_text;

verus! {

/// An error response: an HTTP status and a message safe to show to clients.
#[derive(Debug)]
pub struct ApiError {
    pub status: u16,
    pub message: String,
}

/// The HTTP status of a bad request.
pub const BAD_REQUEST: u16 = 400;

/// The HTTP status of an unauthorized request.
pub const UNAUTHORIZED: u16 = 401;

/// The HTTP status of an unexpected server failure.
pub const INTERNAL_SERVER_ERROR: u16 = 500;

impl ApiError {
    /// A `400 Bad Request` error with `message`.
    pub fn bad_request(message: String) -> (r: ApiError)
        ensures
            r.status == BAD_REQUEST,
            r.message@ == message@,
    {
        ApiError { status: BAD_REQUEST, message }
    }

    /// A `401 Unauthorized` error with `message`.
    pub fn unauthorized(message: String) -> (r: ApiError)
        ensures
            r.status == UNAUTHORIZED,
            r.message@ == message@,
    {
        ApiError { status: UNAUTHORIZED, message }
    }

    /// A `500 Internal Server Error`; the cause is never shown to clients.
    pub fn internal() -> (r: ApiError)
        ensures
            r.status == INTERNAL_SERVER_ERROR,
            r.message@ == "internal server error"@,
    {
        ApiError { status: INTERNAL_SERVER_ERROR, message: "internal server error".to_owned() }
    }
}

/// The route under which a request is counted: the known API routes by name,
/// anything else as `/`.
pub open spec fn route_name_spec(path: Seq<char>) -> Seq<char> {
    if path == "/health"@ {
        "/health"@
    } else if path == "/api/search"@ {
        "/api/search"@
    } else if path == "/api/embeddings/batch"@ {
        "/api/embeddings/batch"@
    } else if path == "/webhook/papra"@ {
        "/webhook/papra"@
    } else {
        "/"@
    }
}

/// Whether two strings are equal.
fn str_equal(a: &str, b: &str) -> (r: bool)
    ensures
        r == (a@ == b@),
{
    chars_eq(chars_of(a).as_slice(), chars_of(b).as_slice())
}

/// Maps an HTTP method and path to the canonical metrics route name.
pub fn route_name(method: &str, path: &str) -> (r: &'static str)
    ensures
        r@ == route_name_spec(path@),
{
    let _ = method;
    if str_equal(path, "/health") {
        "/health"
    } else if str_equal(path, "/api/search") {
        "/api/search"
    } else if str_equal(path, "/api/embeddings/batch") {
        "/api/embeddings/batch"
    } else if str_equal(path, "/webhook/papra") {
        "/webhook/papra"
    } else {
        "/"
    }
}

/// The parts of `s` between the occurrences of `sep`.
pub fn split_chars(s: &[char], sep: char) -> (r: Vec<Vec<char>>)
    ensures
        r@.map_values(|v: Vec<char>| v@) == split_on(s@, sep),
{
    let mut parts: Vec<Vec<char>> = Vec::new();
    let mut current: Vec<char> = Vec::new();
    let ghost mut done: Seq<Seq<char>> = Seq::empty();
    let mut i: usize = 0;
    assert(s@.take(0) =~= Seq::<char>::empty());
    assert(parts@.map_values(|v: Vec<char>| v@) =~= done);
    while i < s.len()
        invariant
            i <= s@.len(),
            split_on(s@.take(i as int), sep) == done.push(current@),
            parts@.map_values(|v: Vec<char>| v@) == done,
        decreases s@.len() - i,
    {
        let c = s[i];
        assert(s@.take(i + 1).drop_last() =~= s@.take(i as int));
        assert(s@.take(i + 1).last() == c);
        if c == sep {
            proof {
                done = done.push(current@);
            }
            let ghost before = parts@;
            parts.push(current);
            assert(parts@.map_values(|v: Vec<char>| v@) =~= before.map_values(|v: Vec<char>| v@).push(
                parts@.last()@,
            ));
            current = Vec::new();
            assert(split_on(s@.take(i + 1), sep) =~= done.push(current@));
        } else {
            current.push(c);
            assert(split_on(s@.take(i + 1), sep) =~= done.push(current@));
        }
        i = i + 1;
    }
    assert(s@.take(s@.len() as int) =~= s@);
    let ghost before = parts@;
    parts.push(current);
    assert(parts@.map_values(|v: Vec<char>| v@) =~= before.map_values(|v: Vec<char>| v@).push(
        parts@.last()@,
    ));
    parts
}

/// `s` split at its first `c`, as `str::split_once` gives it.
pub open spec fn split_once(s: Seq<char>, c: char) -> Option<(Seq<char>, Seq<char>)>
    decreases s.len(),
{
    if s.len() == 0 {
        None
    } else if s[0] == c {
        Some((Seq::empty(), s.drop_first()))
    } else {
        match split_once(s.drop_first(), c) {
            Some((k, v)) => Some((seq![s[0]] + k, v)),
            None => None,
        }
    }
}

/// Where `c` first occurs, `s` splits there.
pub proof fn lemma_split_once_at(s: Seq<char>, c: char, i: int)
    requires
        0 <= i <= s.len(),
        forall|k: int| 0 <= k < i ==> s[k] != c,
        i == s.len() || s[i] == c,
    ensures
        split_once(s, c) == if i == s.len() {
            None
        } else {
            Some((s.take(i), s.skip(i + 1)))
        },
    decreases i,
{
    if i > 0 {
        let t = s.drop_first();
        assert forall|k: int| 0 <= k < i - 1 implies t[k] != c by {
            assert(t[k] == s[k + 1]);
        }
        lemma_split_once_at(t, c, i - 1);
        if i < s.len() {
            assert(seq![s[0]] + t.take(i - 1) =~= s.take(i));
            assert(t.skip(i) =~= s.skip(i + 1));
        }
    } else if s.len() > 0 {
        assert(s.take(0) =~= Seq::<char>::empty());
        assert(s.skip(1) =~= s.drop_first());
    }
}

/// The value of the first cookie named `name` among cookie parts.
pub open spec fn cookie_in_parts(parts: Seq<Seq<char>>, name: Seq<char>) -> Option<Seq<char>>
    decreases parts.len(),
{
    if parts.len() == 0 {
        None
    } else {
        match split_once(trim(parts[0]), '=') {
            Some((k, v)) => if k == name {
                Some(v)
            } else {
                cookie_in_parts(parts.drop_first(), name)
            },
            None => cookie_in_parts(parts.drop_first(), name),
        }
    }
}

/// The value of the cookie `name` in a `Cookie` header: the `;`-separated
/// parts are trimmed and split at their first `=`; the first part whose key is
/// `name` gives the value.
pub open spec fn cookie_value_spec(header: Seq<char>, name: Seq<char>) -> Option<Seq<char>> {
    cookie_in_parts(split_on(header, ';'), name)
}

/// The value of the cookie `name` in a `Cookie` header value.
pub fn cookie_value(header: &str, name: &str) -> (r: Option<String>)
    ensures
        opt_text(r) == cookie_value_spec(header@, name@),
{
    let parts = split_chars(chars_of(header).as_slice(), ';');
    let key = chars_of(name);
    let ghost views = parts@.map_values(|v: Vec<char>| v@);
    let mut i: usize = 0;
    assert(views.skip(0) =~= views);
    while i < parts.len()
        invariant
            i <= parts@.len() == views.len(),
            views == parts@.map_values(|v: Vec<char>| v@),
            views == split_on(header@, ';'),
            key@ == name@,
            cookie_in_parts(views, name@) == cookie_in_parts(views.skip(i as int), name@),
        decreases parts@.len() - i,
    {
        let part = trim_chars(parts[i].as_slice());
        assert(views.skip(i as int)[0] == parts@[i as int]@);
        assert(views.skip(i as int).drop_first() =~= views.skip(i + 1));
        let mut j: usize = 0;
        while j < part.len() && part[j] != '='
            invariant
                j <= part@.len(),
                forall|k: int| 0 <= k < j ==> part@[k] != '=',
            decreases part@.len() - j,
        {
            j = j + 1;
        }
        proof {
            lemma_split_once_at(part@, '=', j as int);
        }
        if j < part.len() {
            let mut k_chars: Vec<char> = Vec::new();
            let mut m: usize = 0;
            while m < j
                invariant
                    m <= j < part@.len(),
                    k_chars@ == part@.take(m as int),
                decreases j - m,
            {
                k_chars.push(part[m]);
                assert(part@.take(m + 1) =~= part@.take(m as int).push(part@[m as int]));
                m = m + 1;
            }
            if chars_eq(k_chars.as_slice(), key.as_slice()) {
                let mut v_chars: Vec<char> = Vec::new();
                let mut m2: usize = j + 1;
                while m2 < part.len()
                    invariant
                        j + 1 <= m2 <= part@.len(),
                        v_chars@ == part@.subrange(j + 1, m2 as int),
                    decreases part@.len() - m2,
                {
                    v_chars.push(part[m2]);
                    m2 = m2 + 1;
                }
                assert(v_chars@ =~= part@.skip(j + 1));
                return Some(string_from_chars(v_chars.as_slice()));
            }
        }
        i = i + 1;
    }
    None
}


/// The search query parameters.
#[derive(Debug)]
pub struct SearchQuery {
    pub q: Option<String>,
    pub limit: Option<usize>,
}

/// The query text and result limit of a search, or why it is refused: the
/// query, trimmed, must hold 1 to 1,000 characters; the limit defaults to
/// `default_limit`, must be at least 1, and is capped at 100.
pub open spec fn search_params_spec(q: Option<Seq<char>>, limit: Option<usize>, default_limit: usize) -> Result<
    (Seq<char>, usize),
    Seq<char>,
> {
    let text = trim(crate::storage::text_or(q, Seq::empty()));
    let n = match limit {
        Some(l) => l,
        None => default_limit,
    };
    if text.len() == 0 || text.len() > 1000 {
        Err("q must contain 1 to 1,000 characters"@)
    } else if n == 0 {
        Err("limit must be between 1 and 100"@)
    } else if n > 100 {
        Ok((text, 100))
    } else {
        Ok((text, n))
    }
}

impl SearchQuery {
    /// The trimmed query text and the result limit, or the `400` error that
    /// refuses them.
    pub fn validate(&self, default_limit: usize) -> (r: Result<(String, usize), ApiError>)
        ensures
            match r {
                Ok((q, n)) => search_params_spec(opt_text(self.q), self.limit, default_limit) == Ok::<
                    (Seq<char>, usize),
                    Seq<char>,
                >((q@, n)),
                Err(e) => e.status == BAD_REQUEST && search_params_spec(
                    opt_text(self.q),
                    self.limit,
                    default_limit,
                ) == Err::<(Seq<char>, usize), Seq<char>>(e.message@),
            },
    {
        let raw = match &self.q {
            Some(q) => chars_of(q.as_str()),
            None => Vec::new(),
        };
        let text = trim_chars(raw.as_slice());
        if text.len() == 0 || text.len() > 1000 {
            return Err(ApiError::bad_request("q must contain 1 to 1,000 characters".to_owned()));
        }
        let n = match self.limit {
            Some(l) => l,
            None => default_limit,
        };
        if n == 0 {
            return Err(ApiError::bad_request("limit must be between 1 and 100".to_owned()));
        }
        let capped: usize = if n > 100 {
            100
        } else {
            n
        };
        Ok((string_from_chars(text.as_slice()), capped))
    }
}

/// How a search request ended, as the search counter groups it.
#[derive(Clone, Copy, Debug, PartialEq, Eq, Structural)]
pub enum SearchOutcome {
    Success,
    InvalidQuery,
    Unauthorized,
    Error,
}

impl SearchOutcome {
    /// The `status` label of the outcome.
    pub open spec fn label_spec(self) -> Seq<char> {
        match self {
            SearchOutcome::Success => "success"@,
            SearchOutcome::InvalidQuery => "invalid_query"@,
            SearchOutcome::Unauthorized => "unauthorized"@,
            SearchOutcome::Error => "error"@,
        }
    }

    /// The `status` label of the outcome.
    pub fn label(&self) -> (r: &'static str)
        ensures
            r@ == self.label_spec(),
    {
        match self {
            SearchOutcome::Success => "success",
            SearchOutcome::InvalidQuery => "invalid_query",
            SearchOutcome::Unauthorized => "unauthorized",
            SearchOutcome::Error => "error",
        }
    }
}

/// A request to queue documents for embedding.
#[derive(Debug)]
pub struct BatchEmbeddingRequest {
    pub document_ids: Vec<String>,
}

impl BatchEmbeddingRequest {
    /// Accepts a request with at least one document identifier and none that
    /// is empty once trimmed; else the `400` error that refuses it.
    pub fn validate(&self) -> (r: Result<(), ApiError>)
        ensures
            r is Ok <==> (self.document_ids@.len() > 0 && forall|i: int|
                0 <= i < self.document_ids@.len() ==> trim(#[trigger] self.document_ids@[i]@).len()
                    > 0),
            r matches Err(e) ==> e.status == BAD_REQUEST && e.message@
                == "document_ids must contain at least one non-empty ID"@,
    {
        let mut ok = self.document_ids.len() > 0;
        let mut i: usize = 0;
        while i < self.document_ids.len()
            invariant
                i <= self.document_ids@.len(),
                ok == (self.document_ids@.len() > 0 && forall|k: int|
                    0 <= k < i ==> trim(#[trigger] self.document_ids@[k]@).len() > 0),
            decreases self.document_ids@.len() - i,
        {
            let t = trim_chars(chars_of(self.document_ids[i].as_str()).as_slice());
            if t.len() == 0 {
                ok = false;
            }
            i = i + 1;
        }
        if ok {
            Ok(())
        } else {
            Err(ApiError::bad_request("document_ids must contain at least one non-empty ID".to_owned()))
        }
    }
}

/// The query of the login endpoint.
#[derive(Debug)]
pub struct OidcLoginQuery {
    pub format: Option<String>,
}

impl OidcLoginQuery {
    /// Whether the client asked for the sign-in URL as JSON rather than a redirect.
    pub fn wants_json(&self) -> (r: bool)
        ensures
            r == (opt_text(self.format) == Some("json"@)),
    {
        match &self.format {
            Some(f) => str_equal(f.as_str(), "json"),
            None => false,
        }
    }
}

/// The `Set-Cookie` value that stores the login state for the callback.
pub fn state_cookie(state: &str) -> (r: String)
    ensures
        r@ == "oidc_state="@ + state@ + "; Path=/oidc; HttpOnly; SameSite=Lax; Max-Age=600"@,
{
    let mut v = chars_of("oidc_state=");
    push_all(&mut v, chars_of(state).as_slice());
    push_all(&mut v, chars_of("; Path=/oidc; HttpOnly; SameSite=Lax; Max-Age=600").as_slice());
    string_from_chars(v.as_slice())
}

/// The `Set-Cookie` value that clears the login state.
pub fn clear_state_cookie() -> (r: &'static str)
    ensures
        r@ == "oidc_state=; Path=/oidc; HttpOnly; SameSite=Lax; Max-Age=0"@,
{
    "oidc_state=; Path=/oidc; HttpOnly; SameSite=Lax; Max-Age=0"
}

/// The query of the OAuth callback.
#[derive(Debug)]
pub struct OidcCallbackQuery {
    pub code: Option<String>,
    pub state: Option<String>,
    pub error: Option<String>,
}

/// The outcome of checking an OAuth callback: the provider reported no error,
/// a code and a state came back, the state cookie is present, and its value
/// has the same bytes as the returned state. Gives the code, or the status and
/// message of the refusal.
pub open spec fn callback_spec(
    code: Option<Seq<char>>,
    state: Option<Seq<char>>,
    error: Option<Seq<char>>,
    cookie_header: Option<Seq<char>>,
) -> Result<Seq<char>, (u16, Seq<char>)> {
    if error is Some {
        Err((UNAUTHORIZED, "OIDC authorization was denied"@))
    } else {
        match code {
            None => Err((BAD_REQUEST, "missing OAuth authorization code"@)),
            Some(c) => match state {
                None => Err((BAD_REQUEST, "missing OAuth state"@)),
                Some(s) => match (match cookie_header {
                    Some(h) => cookie_value_spec(h, "oidc_state"@),
                    None => None,
                }) {
                    None => Err((UNAUTHORIZED, "missing OAuth state cookie"@)),
                    Some(expected) => if utf8(expected) == utf8(s) {
                        Ok(c)
                    } else {
                        Err((UNAUTHORIZED, "invalid OAuth state"@))
                    },
                },
            },
        }
    }
}

impl OidcCallbackQuery {
    /// Checks the callback against the `Cookie` header of its request; the
    /// states are compared in constant time.
    pub fn check(&self, cookie_header: Option<&str>) -> (r: Result<String, ApiError>)
        ensures
            match r {
                Ok(c) => callback_spec(
                    opt_text(self.code),
                    opt_text(self.state),
                    opt_text(self.error),
                    opt_str_text(cookie_header),
                ) == Ok::<Seq<char>, (u16, Seq<char>)>(c@),
                Err(e) => callback_spec(
                    opt_text(self.code),
                    opt_text(self.state),
                    opt_text(self.error),
                    opt_str_text(cookie_header),
                ) == Err::<Seq<char>, (u16, Seq<char>)>((e.status, e.message@)),
            },
    {
        if self.error.is_some() {
            return Err(ApiError::unauthorized("OIDC authorization was denied".to_owned()));
        }
        let code = match &self.code {
            Some(c) => c,
            None => return Err(ApiError::bad_request("missing OAuth authorization code".to_owned())),
        };
        let returned = match &self.state {
            Some(s) => s,
            None => return Err(ApiError::bad_request("missing OAuth state".to_owned())),
        };
        let expected = match cookie_header {
            Some(h) => cookie_value(h, "oidc_state"),
            None => None,
        };
        let expected = match expected {
            Some(e) => e,
            None => return Err(ApiError::unauthorized("missing OAuth state cookie".to_owned())),
        };
        if !constant_time_eq(expected.as_str().as_bytes(), returned.as_str().as_bytes()) {
            return Err(ApiError::unauthorized("invalid OAuth state".to_owned()));
        }
        Ok(code.clone())
    }
}

/// `s` with `<`, `>` and `&` written as JSON escapes, so that it can stand in
/// an inline script.
pub open spec fn escape_for_script(s: Seq<char>) -> Seq<char>
    decreases s.len(),
{
    if s.len() == 0 {
        Seq::empty()
    } else {
        let c = s.last();
        escape_for_script(s.drop_last()) + if c == '<' {
            "\\u003c"@
        } else if c == '>' {
            "\\u003e"@
        } else if c == '&' {
            "\\u0026"@
        } else {
            seq![c]
        }
    }
}

/// The page before the token payload.
pub open spec fn callback_page_start() -> Seq<char> {
    "<!doctype html><meta charset=\"utf-8\"><title>Signing in\u{2026}</title><p>Completing sign-in\u{2026}</p><script>const tokens = "@
}

/// The page after the token payload.
pub open spec fn callback_page_end() -> Seq<char> {
    ";if (window.opener) { window.opener.postMessage(tokens, '*'); window.close(); }else { document.querySelector('p').textContent = 'Sign-in complete. You can close this window.'; }</script>"@
}

/// The page the OAuth callback answers with: it hands the token response
/// (JSON text) to the window that opened the sign-in.
pub fn callback_html(token_json: &str) -> (r: String)
    ensures
        r@ == callback_page_start() + escape_for_script(token_json@) + callback_page_end(),
{
    let t = chars_of(token_json);
    let mut v = chars_of(
        "<!doctype html><meta charset=\"utf-8\"><title>Signing in\u{2026}</title><p>Completing sign-in\u{2026}</p><script>const tokens = ",
    );
    let ghost start = v@;
    let mut i: usize = 0;
    while i < t.len()
        invariant
            i <= t@.len(),
            v@ == start + escape_for_script(t@.take(i as int)),
        decreases t@.len() - i,
    {
        let c = t[i];
        assert(t@.take(i + 1).drop_last() =~= t@.take(i as int));
        assert(t@.take(i + 1).last() == c);
        if c == '<' {
            push_all(&mut v, chars_of("\\u003c").as_slice());
        } else if c == '>' {
            push_all(&mut v, chars_of("\\u003e").as_slice());
        } else if c == '&' {
            push_all(&mut v, chars_of("\\u0026").as_slice());
        } else {
            v.push(c);
        }
        assert(v@ =~= start + escape_for_script(t@.take(i + 1)));
        i = i + 1;
    }
    assert(t@.take(t@.len() as int) =~= t@);
    push_all(
        &mut v,
        chars_of(
            ";if (window.opener) { window.opener.postMessage(tokens, '*'); window.close(); }else { document.querySelector('p').textContent = 'Sign-in complete. You can close this window.'; }</script>",
        ).as_slice(),
    );
    string_from_chars(v.as_slice())
}

/// The webhook identifier, timestamp and signature of a webhook request: the
/// first two are required (`400`), and the signature comes from
/// `webhook-signature`, else the legacy `x-signature` (`401` when neither).
pub fn webhook_headers(
    id: Option<String>,
    timestamp: Option<String>,
    signature: Option<String>,
    legacy_signature: Option<String>,
) -> (r: Result<(String, String, String), ApiError>)
    ensures
        match r {
            Ok((i, t, s)) => {
                &&& opt_text(id) == Some(i@)
                &&& opt_text(timestamp) == Some(t@)
                &&& s@ == match opt_text(signature) {
                    Some(x) => x,
                    None => opt_text(legacy_signature)->0,
                }
                &&& (signature is Some || legacy_signature is Some)
            },
            Err(e) => {
                &&& id is None ==> e.status == BAD_REQUEST && e.message@
                    == "missing or invalid webhook-id header"@
                &&& id is Some && timestamp is None ==> e.status == BAD_REQUEST && e.message@
                    == "missing or invalid webhook-timestamp header"@
                &&& id is Some && timestamp is Some ==> signature is None && legacy_signature is None
                    && e.status == UNAUTHORIZED && e.message@ == "missing webhook signature"@
            },
        },
{
    let id = match id {
        Some(i) => i,
        None => return Err(ApiError::bad_request("missing or invalid webhook-id header".to_owned())),
    };
    let timestamp = match timestamp {
        Some(t) => t,
        None => return Err(ApiError::bad_request("missing or invalid webhook-timestamp header".to_owned())),
    };
    let signature = match signature {
        Some(s) => s,
        None => match legacy_signature {
            Some(s) => s,
            None => return Err(ApiError::unauthorized("missing webhook signature".to_owned())),
        },
    };
    Ok((id, timestamp, signature))
}

/// Why a queued webhook payload is refused.
#[derive(Debug)]
pub enum PayloadError {
    MissingData,
    MissingDocumentId,
    MissingOrganizationId,
    OrganizationMismatch { organization: String, expected: String },
}

/// The value of a [`PayloadError`].
pub enum PayloadErrorView {
    MissingData,
    MissingDocumentId,
    MissingOrganizationId,
    OrganizationMismatch { organization: Seq<char>, expected: Seq<char> },
}

impl View for PayloadError {
    type V = PayloadErrorView;

    open spec fn view(&self) -> PayloadErrorView {
        match self {
            PayloadError::MissingData => PayloadErrorView::MissingData,
            PayloadError::MissingDocumentId => PayloadErrorView::MissingDocumentId,
            PayloadError::MissingOrganizationId => PayloadErrorView::MissingOrganizationId,
            PayloadError::OrganizationMismatch { organization, expected } =>
                PayloadErrorView::OrganizationMismatch {
                    organization: organization@,
                    expected: expected@,
                },
        }
    }
}

impl PayloadErrorView {
    /// The text of the error.
    pub open spec fn message(self) -> Seq<char> {
        match self {
            PayloadErrorView::MissingData => "missing data field in webhook payload"@,
            PayloadErrorView::MissingDocumentId => "missing documentId in webhook payload"@,
            PayloadErrorView::MissingOrganizationId => "missing organizationId in webhook payload"@,
            PayloadErrorView::OrganizationMismatch { organization, expected } => "webhook organization "@
                + organization + " does not match configured organization "@ + expected,
        }
    }
}

impl PayloadError {
    /// The text of the error.
    pub fn message(&self) -> (r: String)
        ensures
            r@ == self@.message(),
    {
        match self {
            PayloadError::MissingData => "missing data field in webhook payload".to_owned(),
            PayloadError::MissingDocumentId => "missing documentId in webhook payload".to_owned(),
            PayloadError::MissingOrganizationId => "missing organizationId in webhook payload".to_owned(),
            PayloadError::OrganizationMismatch { organization, expected } => {
                let mut v = chars_of("webhook organization ");
                push_all(&mut v, chars_of(organization.as_str()).as_slice());
                push_all(&mut v, chars_of(" does not match configured organization ").as_slice());
                push_all(&mut v, chars_of(expected.as_str()).as_slice());
                string_from_chars(v.as_slice())
            },
        }
    }
}

/// The document and organization a queued webhook names: `data.documentId`
/// and `data.organizationId`, which must be strings, the latter the
/// configured organization.
pub open spec fn webhook_document_spec(payload: Json, expected_org: Seq<char>) -> Result<
    (Seq<char>, Seq<char>),
    PayloadErrorView,
> {
    match payload.get("data"@) {
        None => Err(PayloadErrorView::MissingData),
        Some(data) => match opt_as_str(data.get("documentId"@)) {
            None => Err(PayloadErrorView::MissingDocumentId),
            Some(doc) => match opt_as_str(data.get("organizationId"@)) {
                None => Err(PayloadErrorView::MissingOrganizationId),
                Some(org) => if org != expected_org {
                    Err(PayloadErrorView::OrganizationMismatch { organization: org, expected: expected_org })
                } else {
                    Ok((doc, org))
                },
            },
        },
    }
}

/// The document and organization a queued webhook names, or why it is refused.
pub fn webhook_document(payload: &JsonValue, expected_org: &str) -> (r: Result<(String, String), PayloadError>)
    ensures
        match r {
            Ok((doc, org)) => webhook_document_spec(payload@, expected_org@) == Ok::<
                (Seq<char>, Seq<char>),
                PayloadErrorView,
            >((doc@, org@)),
            Err(e) => webhook_document_spec(payload@, expected_org@) == Err::<
                (Seq<char>, Seq<char>),
                PayloadErrorView,
            >(e@),
        },
{
    let data = match payload.get("data") {
        Some(d) => d,
        None => return Err(PayloadError::MissingData),
    };
    let doc = match data.get("documentId") {
        Some(v) => v.as_str(),
        None => None,
    };
    let doc = match doc {
        Some(d) => d,
        None => return Err(PayloadError::MissingDocumentId),
    };
    let org = match data.get("organizationId") {
        Some(v) => v.as_str(),
        None => None,
    };
    let org = match org {
        Some(o) => o,
        None => return Err(PayloadError::MissingOrganizationId),
    };
    if !str_equal(org, expected_org) {
        return Err(
            PayloadError::OrganizationMismatch { organization: org.to_owned(), expected: expected_org.to_owned() },
        );
    }
    Ok((doc.to_owned(), org.to_owned()))
}

/// Checks that a queued webhook names a document of the configured organization.
pub fn validate_webhook_payload(payload: &JsonValue, expected_org: &str) -> (r: Result<(), PayloadError>)
    ensures
        match r {
            Ok(()) => webhook_document_spec(payload@, expected_org@) is Ok,
            Err(e) => webhook_document_spec(payload@, expected_org@) == Err::<
                (Seq<char>, Seq<char>),
                PayloadErrorView,
            >(e@),
        },
{
    match webhook_document(payload, expected_org) {
        Ok(_) => Ok(()),
        Err(e) => Err(e),
    }
}

} // verus!
