//! The decisions of the search page: what a submit sends or why it is refused,
//! how the page answers each reply of the search service, which sign-in
//! messages it trusts, and what it shows. Rendering, the requests themselves
//! and the browser's storage belong to the front end that drives this state.

use vstd::prelude::*;

use crate::storage::opt_text;
use crate::text::{chars_eq, chars_of, decimal_chars, decimal_text, push_all, string_from_chars, trim, trim_chars};

verus! {

/// The state of the search page; the results themselves are kept by the front
/// end, the page keeps how many there are. The ID token is held here, in
/// memory, and nowhere else: nothing of it is written to browser storage.
#[derive(Debug)]
pub struct SearchPage {
    /// The ID token of the signed-in user.
    pub token: Option<String>,
    /// Whether the service asks for sign-in.
    pub auth_enabled: bool,
    /// The text in the search box.
    pub query: String,
    /// Whether a search is in flight.
    pub loading: bool,
    /// The message shown to the user.
    pub error: Option<String>,
    /// Whether a search was submitted since the last sign-out.
    pub has_searched: bool,
    /// How many results are shown.
    pub result_count: usize,
}

/// The value of a [`SearchPage`].
pub struct SearchPageView {
    pub token: Option<Seq<char>>,
    pub auth_enabled: bool,
    pub query: Seq<char>,
    pub loading: bool,
    pub error: Option<Seq<char>>,
    pub has_searched: bool,
    pub result_count: nat,
}

impl View for SearchPage {
    type V = SearchPageView;

    open spec fn view(&self) -> SearchPageView {
        SearchPageView {
            token: opt_text(self.token),
            auth_enabled: self.auth_enabled,
            query: self.query@,
            loading: self.loading,
            error: opt_text(self.error),
            has_searched: self.has_searched,
            result_count: self.result_count as nat,
        }
    }
}

/// What a submit does: nothing (the page shows why), or a search request.
#[derive(Debug)]
pub enum SubmitAction {
    Refused,
    /// Search for `query`, with this `Authorization` header when there is one.
    Send { query: String, authorization: Option<String> },
}

/// What the front end does after the status of a search reply.
#[derive(Clone, Copy, Debug, PartialEq, Eq, Structural)]
pub enum ReplyStep {
    /// The search is over.
    Done,
    /// The search is over and the sign-in flow opens again.
    OpenLogin,
    /// Read the results from the body of the reply.
    ReadBody,
}

/// The message of a query that is empty or too long.
pub open spec fn length_message() -> Seq<char> {
    "Searches must contain 1 to 1,000 characters."@
}

/// The message of a search before sign-in.
pub open spec fn sign_in_message() -> Seq<char> {
    "Sign in with Google before searching."@
}

/// The message when the service cannot be reached.
pub open spec fn unreachable_message() -> Seq<char> {
    "The search service could not be reached."@
}

/// The message after a `401` reply.
pub open spec fn expired_message() -> Seq<char> {
    "Your session expired. Please sign in again."@
}

/// The message after any other failed reply.
pub open spec fn service_error_message() -> Seq<char> {
    "The search service returned an error. Try again."@
}

/// The message when a reply's body is not a search response.
pub open spec fn invalid_reply_message() -> Seq<char> {
    "The search response was invalid."@
}

/// Whether a sign-in message from `origin` is trusted: it comes from the page's
/// own origin or from a local backend.
pub open spec fn trusted_origin(origin: Seq<char>, app_origin: Seq<char>) -> bool {
    origin == app_origin || origin == "http://127.0.0.1:3000"@ || origin == "http://localhost:3000"@
}

/// Whether a submit of page `p` sends a request: the trimmed query holds 1 to
/// 1,000 characters, and a token is there when sign-in is asked for.
pub open spec fn submit_sends(p: SearchPageView) -> bool {
    let t = trim(p.query);
    &&& 0 < t.len() <= 1000
    &&& !(p.auth_enabled && p.token is None)
}

/// The page after a submit: the previous results and message are cleared; a
/// refused submit shows why, a sent one is loading.
pub open spec fn submit_page(p: SearchPageView) -> SearchPageView {
    let t = trim(p.query);
    let cleared = SearchPageView { has_searched: true, error: None, result_count: 0, ..p };
    if t.len() == 0 || t.len() > 1000 {
        SearchPageView { error: Some(length_message()), ..cleared }
    } else if p.auth_enabled && p.token is None {
        SearchPageView { error: Some(sign_in_message()), ..cleared }
    } else {
        SearchPageView { loading: true, ..cleared }
    }
}

/// The `Authorization` header of a search with `token`.
pub open spec fn bearer(token: Option<Seq<char>>) -> Option<Seq<char>> {
    match token {
        Some(t) => Some("Bearer "@ + t),
        None => None,
    }
}

/// Whether a status is a success (`200` to `299`).
pub open spec fn is_success(status: u16) -> bool {
    200 <= status <= 299
}

/// The next step after the status of a reply (`None` when the service could
/// not be reached).
pub open spec fn status_step(status: Option<u16>) -> ReplyStep {
    match status {
        None => ReplyStep::Done,
        Some(s) => if s == 401 {
            ReplyStep::OpenLogin
        } else if !is_success(s) {
            ReplyStep::Done
        } else {
            ReplyStep::ReadBody
        },
    }
}

/// The page after the status of a reply.
pub open spec fn status_page(p: SearchPageView, status: Option<u16>) -> SearchPageView {
    match status {
        None => SearchPageView { loading: false, error: Some(unreachable_message()), ..p },
        Some(s) => if s == 401 {
            SearchPageView { token: None, loading: false, error: Some(expired_message()), ..p }
        } else if !is_success(s) {
            SearchPageView { loading: false, error: Some(service_error_message()), ..p }
        } else {
            p
        },
    }
}

/// The page after the body of a successful reply: `Some(n)` when it held `n`
/// results, `None` when it was not a search response.
pub open spec fn results_page(p: SearchPageView, count: Option<usize>) -> SearchPageView {
    match count {
        Some(n) => SearchPageView { loading: false, result_count: n as nat, ..p },
        None => SearchPageView { loading: false, error: Some(invalid_reply_message()), ..p },
    }
}

/// Whether the header offers sign-out (rather than sign-in).
pub open spec fn shows_sign_out(p: SearchPageView) -> bool {
    p.auth_enabled && p.token is Some
}

/// Whether the search form is shown (rather than the sign-in panel).
pub open spec fn shows_search_form(p: SearchPageView) -> bool {
    !p.auth_enabled || p.token is Some
}

/// Whether the page says that nothing matched.
pub open spec fn shows_empty_notice(p: SearchPageView) -> bool {
    !p.loading && p.error is None && p.has_searched && p.result_count == 0
}

fn copy_text(s: &str) -> (r: String)
    ensures
        r@ == s@,
{
    s.to_owned()
}

impl SearchPage {
    /// A fresh page: signed out, sign-in asked for, nothing searched.
    pub fn new() -> (p: SearchPage)
        ensures
            p@ == (SearchPageView {
                token: None,
                auth_enabled: true,
                query: Seq::empty(),
                loading: false,
                error: None,
                has_searched: false,
                result_count: 0,
            }),
    {
        SearchPage {
            token: None,
            auth_enabled: true,
            query: String::new(),
            loading: false,
            error: None,
            has_searched: false,
            result_count: 0,
        }
    }

    /// Records whether the service asks for sign-in, as its health reply says.
    pub fn set_auth_enabled(&mut self, enabled: bool)
        ensures
            final(self)@ == (SearchPageView { auth_enabled: enabled, ..old(self)@ }),
    {
        self.auth_enabled = enabled;
    }

    /// Records the text of the search box.
    pub fn set_query(&mut self, text: String)
        ensures
            final(self)@ == (SearchPageView { query: text@, ..old(self)@ }),
    {
        self.query = text;
    }

    /// Handles a message of the sign-in window: an ID token from a trusted
    /// origin signs the user in. Returns whether the token was taken. The
    /// token lives in this page state alone, so it is gone when the page is.
    pub fn receive_sign_in(&mut self, origin: &str, app_origin: &str, id_token: Option<String>) -> (taken: bool)
        ensures
            taken == (trusted_origin(origin@, app_origin@) && id_token is Some),
            final(self)@ == if taken {
                SearchPageView { token: opt_text(id_token), ..old(self)@ }
            } else {
                old(self)@
            },
    {
        let o = chars_of(origin);
        let trusted = chars_eq(o.as_slice(), chars_of(app_origin).as_slice()) || chars_eq(
            o.as_slice(),
            chars_of("http://127.0.0.1:3000").as_slice(),
        ) || chars_eq(o.as_slice(), chars_of("http://localhost:3000").as_slice());
        if !trusted {
            return false;
        }
        match id_token {
            Some(t) => {
                self.token = Some(t);
                true
            },
            None => false,
        }
    }

    /// Signs out: the token and the results are dropped.
    pub fn log_out(&mut self)
        ensures
            final(self)@ == (SearchPageView { token: None, result_count: 0, has_searched: false, ..old(self)@ }),
    {
        self.token = None;
        self.result_count = 0;
        self.has_searched = false;
    }

    /// Submits the search box: the request to send, or nothing when the query
    /// or the sign-in state refuses it.
    pub fn submit(&mut self) -> (action: SubmitAction)
        ensures
            final(self)@ == submit_page(old(self)@),
            match action {
                SubmitAction::Refused => !submit_sends(old(self)@),
                SubmitAction::Send { query, authorization } => {
                    &&& submit_sends(old(self)@)
                    &&& query@ == trim(old(self)@.query)
                    &&& opt_text(authorization) == bearer(old(self)@.token)
                },
            },
    {
        let trimmed = trim_chars(chars_of(self.query.as_str()).as_slice());
        self.has_searched = true;
        self.error = None;
        self.result_count = 0;
        if trimmed.len() == 0 || trimmed.len() > 1000 {
            self.error = Some(copy_text("Searches must contain 1 to 1,000 characters."));
            return SubmitAction::Refused;
        }
        if self.auth_enabled && self.token.is_none() {
            self.error = Some(copy_text("Sign in with Google before searching."));
            return SubmitAction::Refused;
        }
        self.loading = true;
        let authorization = match &self.token {
            Some(t) => {
                let mut v = chars_of("Bearer ");
                push_all(&mut v, chars_of(t.as_str()).as_slice());
                Some(string_from_chars(v.as_slice()))
            },
            None => None,
        };
        SubmitAction::Send { query: string_from_chars(trimmed.as_slice()), authorization }
    }

    /// Handles the status of a search reply (`None` when the service could not
    /// be reached). A `401` signs the user out and opens sign-in again.
    pub fn on_status(&mut self, status: Option<u16>) -> (step: ReplyStep)
        ensures
            step == status_step(status),
            final(self)@ == status_page(old(self)@, status),
    {
        match status {
            None => {
                self.loading = false;
                self.error = Some(copy_text("The search service could not be reached."));
                ReplyStep::Done
            },
            Some(s) => if s == 401 {
                self.token = None;
                self.loading = false;
                self.error = Some(copy_text("Your session expired. Please sign in again."));
                ReplyStep::OpenLogin
            } else if !(200 <= s && s <= 299) {
                self.loading = false;
                self.error = Some(copy_text("The search service returned an error. Try again."));
                ReplyStep::Done
            } else {
                ReplyStep::ReadBody
            },
        }
    }

    /// Handles the body of a successful reply: `Some(n)` when it held `n`
    /// results, `None` when it could not be read as a search response.
    pub fn on_results(&mut self, count: Option<usize>)
        ensures
            final(self)@ == results_page(old(self)@, count),
    {
        match count {
            Some(n) => {
                self.result_count = n;
            },
            None => {
                self.error = Some(copy_text("The search response was invalid."));
            },
        }
        self.loading = false;
    }

    /// Whether the header offers sign-out.
    pub fn shows_sign_out(&self) -> (r: bool)
        ensures
            r == shows_sign_out(self@),
    {
        self.auth_enabled && self.token.is_some()
    }

    /// Whether the search form is shown.
    pub fn shows_search_form(&self) -> (r: bool)
        ensures
            r == shows_search_form(self@),
    {
        !self.auth_enabled || self.token.is_some()
    }

    /// Whether the page says that nothing matched.
    pub fn shows_empty_notice(&self) -> (r: bool)
        ensures
            r == shows_empty_notice(self@),
    {
        !self.loading && self.error.is_none() && self.has_searched && self.result_count == 0
    }

    /// The label of the search button.
    pub fn submit_label(&self) -> (r: &'static str)
        ensures
            r@ == if self.loading {
                "Searching\u{2026}"@
            } else {
                "Search"@
            },
    {
        if self.loading {
            "Searching\u{2026}"
        } else {
            "Search"
        }
    }
}

/// The heading count of the results: `{n} found`.
pub fn results_heading(count: usize) -> (r: String)
    ensures
        r@ == decimal_text(count as nat) + " found"@,
{
    let mut v = decimal_chars(count as u64);
    push_all(&mut v, chars_of(" found").as_slice());
    string_from_chars(v.as_slice())
}

/// The mark of a result card: the first character of its title, or `DOC` for
/// an untitled one.
pub fn result_initial(title: &str) -> (r: String)
    ensures
        r@ == if title@.len() > 0 {
            seq![title@[0]]
        } else {
            "DOC"@
        },
{
    let t = chars_of(title);
    if t.len() > 0 {
        let mut v: Vec<char> = Vec::new();
        v.push(t[0]);
        string_from_chars(v.as_slice())
    } else {
        copy_text("DOC")
    }
}

/// A search that is sent always ends: whatever status and body come back,
/// the page is no longer loading once they are handled, and a refused submit
/// never leaves it loading.
pub proof fn search_always_ends(p: SearchPageView, status: Option<u16>, count: Option<usize>)
    ensures
        !submit_sends(p) ==> submit_page(p).loading == p.loading,
        submit_sends(p) ==> {
            let sent = submit_page(p);
            let answered = status_page(sent, status);
            &&& sent.loading
            &&& status_step(status) == ReplyStep::ReadBody ==> !results_page(answered, count).loading
            &&& status_step(status) != ReplyStep::ReadBody ==> !answered.loading
        },
{
}

/// A `401` reply clears the sign-in: the page then offers sign-in again and,
/// when sign-in is asked for, hides the search form until the user signs in.
pub proof fn expired_session_signs_out(p: SearchPageView)
    ensures
        status_step(Some(401u16)) == ReplyStep::OpenLogin,
        status_page(p, Some(401u16)).token is None,
        !shows_sign_out(status_page(p, Some(401u16))),
        shows_search_form(status_page(p, Some(401u16))) == !p.auth_enabled,
{
}

/// Signing out hides the search form whenever sign-in is asked for, and the
/// page no longer says that nothing matched.
pub proof fn sign_out_hides_search(p: SearchPageView)
    ensures
        ({
            let q = SearchPageView { token: None, result_count: 0, has_searched: false, ..p };
            &&& shows_search_form(q) == !p.auth_enabled
            &&& !shows_sign_out(q)
            &&& !shows_empty_notice(q)
        }),
{
}

/// What happens on the search page.
pub enum PageEvent {
    /// A message of the sign-in window from `origin`, perhaps carrying an ID token.
    SignIn { origin: Seq<char>, app_origin: Seq<char>, token: Option<Seq<char>> },
    /// The health reply says whether sign-in is asked for.
    SetAuth { enabled: bool },
    /// The user types into the search box.
    Query { text: Seq<char> },
    /// The user submits the search box.
    Submit,
    /// The status of a search reply arrives (`None`: the service was not reached).
    Status { status: Option<u16> },
    /// The body of a successful reply was read.
    Results { count: Option<usize> },
    /// The user signs out.
    LogOut,
}

/// The page after one event, as the page's methods leave it.
pub open spec fn page_step(p: SearchPageView, event: PageEvent) -> SearchPageView {
    match event {
        PageEvent::SignIn { origin, app_origin, token } => if trusted_origin(origin, app_origin)
            && token is Some {
            SearchPageView { token, ..p }
        } else {
            p
        },
        PageEvent::SetAuth { enabled } => SearchPageView { auth_enabled: enabled, ..p },
        PageEvent::Query { text } => SearchPageView { query: text, ..p },
        PageEvent::Submit => submit_page(p),
        PageEvent::Status { status } => status_page(p, status),
        PageEvent::Results { count } => results_page(p, count),
        PageEvent::LogOut => SearchPageView { token: None, result_count: 0, has_searched: false, ..p },
    }
}

/// The page after a sequence of events.
pub open spec fn page_run(p: SearchPageView, events: Seq<PageEvent>) -> SearchPageView
    decreases events.len(),
{
    if events.len() == 0 {
        p
    } else {
        page_step(page_run(p, events.drop_last()), events.last())
    }
}

/// Whether an event is a trusted sign-in message carrying the token `t`.
pub open spec fn signs_in_with(event: PageEvent, t: Seq<char>) -> bool {
    event matches PageEvent::SignIn { origin, app_origin, token } && trusted_origin(origin, app_origin)
        && token == Some(t)
}

/// The token a page holds came from a trusted sign-in message.
proof fn lemma_token_from_sign_in(p: SearchPageView, events: Seq<PageEvent>)
    requires
        p.token is None,
    ensures
        (page_run(p, events).token matches Some(t) ==> exists|i: int|
            0 <= i < events.len() && signs_in_with(#[trigger] events[i], t)),
    decreases events.len(),
{
    if events.len() > 0 {
        let init = events.drop_last();
        lemma_token_from_sign_in(p, init);
        let before = page_run(p, init);
        let last = events.last();
        if let Some(t) = page_run(p, events).token {
            if signs_in_with(last, t) {
                assert(signs_in_with(events[events.len() - 1], t));
            } else {
                assert(before.token == Some(t));
                let i = choose|i: int| 0 <= i < init.len() && signs_in_with(#[trigger] init[i], t);
                assert(init[i] == events[i]);
            }
        }
    }
}

/// Over any sequence of events on a page that starts signed out, the page
/// holds no token but one that a trusted sign-in message carried; every search
/// it sends carries that token, and only as a `Bearer` header; and right after
/// a `401` reply it holds no token at all.
pub proof fn token_comes_only_from_sign_in(p: SearchPageView, events: Seq<PageEvent>)
    requires
        p.token is None,
    ensures
        forall|k: int|
            0 <= k <= events.len() ==> ((#[trigger] page_run(p, events.take(k))).token matches Some(t)
                ==> exists|i: int| 0 <= i < k && signs_in_with(events[i], t)),
        forall|k: int|
            0 <= k < events.len() && events[k] == PageEvent::Submit ==> (bearer(
                #[trigger] page_run(p, events.take(k)).token,
            ) matches Some(h) ==> exists|i: int, t: Seq<char>|
                0 <= i < k && signs_in_with(events[i], t) && h == "Bearer "@ + t),
        forall|k: int|
            0 <= k < events.len() && #[trigger] events[k] == (PageEvent::Status { status: Some(401u16) })
                ==> page_run(p, events.take(k + 1)).token is None,
{
    assert forall|k: int| 0 <= k <= events.len() implies ((#[trigger] page_run(p, events.take(k))).token matches Some(t)
        ==> exists|i: int| 0 <= i < k && signs_in_with(events[i], t)) by {
        let prefix = events.take(k);
        lemma_token_from_sign_in(p, prefix);
        if let Some(t) = page_run(p, prefix).token {
            let i = choose|i: int| 0 <= i < prefix.len() && signs_in_with(#[trigger] prefix[i], t);
            assert(prefix[i] == events[i]);
        }
    }
    assert forall|k: int| 0 <= k < events.len() && events[k] == PageEvent::Submit implies (bearer(
        #[trigger] page_run(p, events.take(k)).token,
    ) matches Some(h) ==> exists|i: int, t: Seq<char>|
        0 <= i < k && signs_in_with(events[i], t) && h == "Bearer "@ + t) by {
        let prefix = events.take(k);
        lemma_token_from_sign_in(p, prefix);
        if let Some(t) = page_run(p, prefix).token {
            let i = choose|i: int| 0 <= i < prefix.len() && signs_in_with(#[trigger] prefix[i], t);
            assert(prefix[i] == events[i]);
            assert(signs_in_with(events[i], t));
        }
    }
    assert forall|k: int| 0 <= k < events.len() && #[trigger] events[k] == (PageEvent::Status {
        status: Some(401u16),
    }) implies page_run(p, events.take(k + 1)).token is None by {
        let prefix = events.take(k + 1);
        assert(prefix.drop_last() =~= events.take(k));
        assert(prefix.last() == events[k]);
    }
}

} // verus!
