//! The course of a request to the upstream's Responses endpoint.

use axum::http::HeaderMap;
use axum::http::HeaderValue;
use vstd::prelude::*;
use vstd::string::*;

use crate::accounts;
use crate::body;
use crate::clock;
use crate::downstream;
use crate::errors;
use crate::errors::ApiError;
use crate::errors::ApiErrorView;
use crate::headers;
use crate::ids;
use crate::json::Json;
use crate::json::JsonObject;
use crate::json::JsonView;
use crate::proxy_auth::ProxyAuth;
use crate::registry;
use crate::registry::AccountRegistry;
use crate::registry::RegistryView;
use crate::request_headers;
use crate::request_headers::Contents;
use crate::routing;
use crate::selection;
use crate::selection::AccountLease;
use crate::selection::AuthOutcome;
use crate::selection::CandidateView;
use crate::selection::RequestView;
use crate::selection::UsageRank;
use crate::text;
use crate::upstream;

verus! {

/// The upstream's Responses endpoint.
pub const UPSTREAM_RESPONSES_URL: &'static str = "https://chatgpt.com/backend-api/codex/responses";

/// The header of the upstream that tells when the usage limit starts afresh.
pub const RESET_HEADER: &'static str = "x-codex-primary-reset-at";

/// The header of the upstream that tells how far the usage limit is used up.
pub const USED_HEADER: &'static str = "x-codex-primary-used-percent";

/// The status of an answer that turns a request away for the usage limit.
pub const TOO_MANY_REQUESTS: u16 = 429;

/// The answer to the question whether the proxy is up.
pub open spec fn health_view() -> JsonView {
    JsonView::Object(
        map![
            "status"@ => JsonView::Text("ok"@),
            "upstream_responses_url"@ => JsonView::Text(UPSTREAM_RESPONSES_URL@),
        ],
    )
}

/// The answer to the question whether the proxy is up.
pub fn health() -> (r: Json)
    ensures
        r@ == health_view(),
{
    let mut body = JsonObject::new();
    body.insert("status".to_string(), Json::Text("ok".to_string()));
    body.insert(
        "upstream_responses_url".to_string(),
        Json::Text(UPSTREAM_RESPONSES_URL.to_string()),
    );
    assert(body@ =~= map![
        "status"@ => JsonView::Text("ok"@),
        "upstream_responses_url"@ => JsonView::Text(UPSTREAM_RESPONSES_URL@),
    ]);
    Json::Object(body)
}

/// A request on its way to the upstream.
pub struct ProxyRequest {
    requested_account_id: Option<String>,
    session_id: String,
    body: Vec<u8>,
    rewritten_model: Option<String>,
    excluded_account_ids: Vec<String>,
}

/// A request on its way to the upstream, as mathematics sees it.
pub struct ProxyRequestView {
    /// The id of the account that it asks for.
    pub requested: Option<Seq<char>>,
    /// The id of its session.
    pub session: Seq<char>,
    /// What is sent upstream.
    pub body: Seq<u8>,
    /// What was done about its model.
    pub rewritten_model: Option<Seq<char>>,
    /// The ids of the accounts that turned it away.
    pub excluded: Seq<Seq<char>>,
}

/// A request that begins, with `fresh` as the id of its session where it names none.
pub open spec fn begun(
    key: Option<Seq<char>>,
    contents: Contents,
    received: Seq<u8>,
    installation_id: Seq<char>,
    models: Seq<Seq<char>>,
    fresh: Seq<char>,
) -> Result<ProxyRequestView, ApiErrorView> {
    match request_headers::key_refusal(key, contents) {
        Some(err) => Err(err),
        None => match request_headers::trimmed_header(
            contents,
            request_headers::ACCOUNT_ID_HEADER@,
        ) {
            Err(err) => Err(err),
            Ok(requested) => {
                let encoding = request_headers::readable_text(contents, "content-encoding"@);
                let (sent, note) = body::rewritten_body(
                    installation_id,
                    received,
                    encoding,
                    models,
                );
                Ok(
                    ProxyRequestView {
                        requested,
                        session: match request_headers::readable_text(
                            contents,
                            request_headers::SESSION_ID_HEADER@,
                        ) {
                            Some(session) => session,
                            None => fresh,
                        },
                        body: sent,
                        rewritten_model: note,
                        excluded: Seq::empty(),
                    },
                )
            },
        },
    }
}

/// `r` is the given result.
pub open spec fn request_is(
    r: Result<ProxyRequest, ApiError>,
    expected: Result<ProxyRequestView, ApiErrorView>,
) -> bool {
    match r {
        Ok(request) => expected == Ok::<_, ApiErrorView>(request@),
        Err(err) => expected == Err::<ProxyRequestView, _>(err@),
    }
}

/// The text of bytes, with a mark in place of what is not UTF-8.
pub uninterp spec fn lossy_text(bytes: Seq<u8>) -> Seq<char>;

/// `String::from_utf8_lossy`: the text is a function of the bytes.
#[verifier::external_body]
fn utf8_lossy(bytes: &Vec<u8>) -> (s: String)
    ensures
        s@ == lossy_text(bytes@),
{
    String::from_utf8_lossy(bytes).to_string()
}

/// What an answer of the upstream other than a success says.
pub open spec fn refusal_text(status: u16, detail: Seq<char>) -> Seq<char> {
    let told = "upstream returned "@ + errors::status_text(status);
    if text::trimmed(detail).len() == 0 {
        told
    } else {
        told + ": "@ + text::trimmed(detail)
    }
}

/// What an answer of the upstream other than a success says.
pub fn refusal_message(status: u16, detail: &str) -> (s: String)
    ensures
        s@ == refusal_text(status, detail@),
{
    let told = "upstream returned ".to_string().concat(errors::status_string(status).as_str());
    let detail = text::trim(detail);
    if detail.unicode_len() == 0 {
        told
    } else {
        told.concat(": ").concat(detail)
    }
}

/// The status of an answer is a success.
pub open spec fn succeeds(status: u16) -> bool {
    200 <= status < 300
}

/// What becomes of a request after an answer of the upstream.
pub enum Outcome {
    /// The client gets the answer, with these headers.
    Respond(HeaderMap<HeaderValue>),
    /// Another account is tried.
    Retry,
    /// The client gets an error.
    Fail(ApiError),
}

/// What becomes of a request after an answer of the upstream, as mathematics sees it.
pub enum OutcomeView {
    Respond(Contents),
    Retry,
    Fail(ApiErrorView),
}

impl Outcome {
    pub open spec fn view(&self) -> OutcomeView {
        match self {
            Outcome::Respond(headers) => OutcomeView::Respond(headers::header_contents(*headers)),
            Outcome::Retry => OutcomeView::Retry,
            Outcome::Fail(err) => OutcomeView::Fail(err@),
        }
    }
}

/// When the usage limit of an account starts afresh, as an answer of the upstream tells.
pub open spec fn told_reset(contents: Contents) -> Option<int> {
    request_headers::int_header(
        contents,
        RESET_HEADER@,
        true,
        i64::MIN as int,
        i64::MAX as int,
    )
}

/// How far the usage limit of an account is used up, as an answer of the upstream tells.
pub open spec fn told_use(contents: Contents) -> Option<int> {
    request_headers::int_header(contents, USED_HEADER@, false, 0, 255)
}

/// Up to when an account rests that an answer turned away at `now`.
pub open spec fn rest_end(contents: Contents, now: i64) -> i64 {
    accounts::limit_end(
        match told_reset(contents) {
            Some(n) => Some(n as i64),
            None => None,
        },
        now,
    )
}

/// The accounts after an answer of the upstream at `now`.
pub open spec fn noted(
    accounts: RegistryView,
    lease: CandidateView,
    session: Seq<char>,
    status: u16,
    contents: Contents,
    now: i64,
) -> RegistryView {
    if succeeds(status) {
        accounts.with_handle(lease.account, accounts.handles[lease.account].after_success())
    } else if status == TOO_MANY_REQUESTS {
        registry::limited(
            accounts,
            lease.id,
            Some(session),
            rest_end(contents, now),
            match told_use(contents) {
                Some(n) => Some(n as u8),
                None => None,
            },
        )
    } else {
        accounts.with_handle(lease.account, accounts.handles[lease.account].after_failure())
    }
}

/// The request after an answer of the upstream: an account that turned it away is not tried again.
pub open spec fn followed_up(
    request: ProxyRequestView,
    lease: CandidateView,
    status: u16,
) -> ProxyRequestView {
    if status == TOO_MANY_REQUESTS {
        ProxyRequestView { excluded: request.excluded.push(lease.id), ..request }
    } else {
        request
    }
}

/// `outcome` is what becomes of a request after an answer of the upstream. Where a successful answer
/// has very many headers, there may be no room for those of the answer to the client.
pub open spec fn comes_of(
    outcome: OutcomeView,
    lease: CandidateView,
    status: u16,
    contents: Contents,
    received: Seq<u8>,
) -> bool {
    if succeeds(status) {
        ||| match downstream::downstream_headers_of(contents, lease.id, lease.score) {
            Ok(headers) => outcome == OutcomeView::Respond(headers),
            Err(err) => outcome == OutcomeView::Fail(err),
        }
        ||| !downstream::has_room(contents) && outcome == OutcomeView::Fail(
            downstream::unanswered(headers::MAP_FULL@),
        )
    } else if status == TOO_MANY_REQUESTS {
        outcome == OutcomeView::Retry
    } else {
        outcome == OutcomeView::Fail(
            ApiErrorView::Internal(refusal_text(status, lossy_text(received))),
        )
    }
}

proof fn lemma_names()
    ensures
        request_headers::names_header(RESET_HEADER@),
        request_headers::names_header(USED_HEADER@),
{
    reveal_strlit("x-codex-primary-reset-at");
    assert(text::lowered("x-codex-primary-reset-at"@) =~= "x-codex-primary-reset-at"@);
    reveal_strlit("x-codex-primary-used-percent");
    assert(text::lowered("x-codex-primary-used-percent"@) =~= "x-codex-primary-used-percent"@);
}

impl ProxyRequest {
    /// The request.
    pub closed spec fn view(&self) -> ProxyRequestView {
        ProxyRequestView {
            requested: text::text_in(self.requested_account_id),
            session: self.session_id@,
            body: self.body@,
            rewritten_model: text::text_in(self.rewritten_model),
            excluded: text::texts(self.excluded_account_ids@),
        }
    }

    /// Begins with a request. Where it names no session, it gets one of its own.
    pub fn begin(
        proxy_auth: &ProxyAuth,
        headers: &HeaderMap<HeaderValue>,
        body: Vec<u8>,
        installation_id: &str,
        valid_models: &Vec<String>,
    ) -> (r: Result<ProxyRequest, ApiError>)
        ensures
            exists|fresh: Seq<char>| #[trigger]
                ids::is_uuid(fresh) && request_is(
                    r,
                    begun(
                        proxy_auth@,
                        headers::header_contents(*headers),
                        body@,
                        installation_id@,
                        text::texts(valid_models@),
                        fresh,
                    ),
                ),
    {
        let fresh = ids::new_uuid();
        ProxyRequest::begin_with(proxy_auth, headers, body, installation_id, valid_models, fresh)
    }

    /// Begins with a request, with `fresh` as the id of its session where it names none.
    pub fn begin_with(
        proxy_auth: &ProxyAuth,
        headers: &HeaderMap<HeaderValue>,
        body: Vec<u8>,
        installation_id: &str,
        valid_models: &Vec<String>,
        fresh: String,
    ) -> (r: Result<ProxyRequest, ApiError>)
        ensures
            request_is(
                r,
                begun(
                    proxy_auth@,
                    headers::header_contents(*headers),
                    body@,
                    installation_id@,
                    text::texts(valid_models@),
                    fresh@,
                ),
            ),
    {
        match request_headers::require_proxy_api_key(proxy_auth, headers) {
            Ok(_) => {},
            Err(err) => {
                return Err(err);
            },
        }
        proof {
            request_headers::lemma_names();
        }
        let requested_account_id = match request_headers::header_value(
            headers,
            request_headers::ACCOUNT_ID_HEADER,
        ) {
            Ok(requested_account_id) => requested_account_id,
            Err(err) => {
                return Err(err);
            },
        };
        let session_id = match request_headers::readable(
            headers,
            request_headers::SESSION_ID_HEADER,
        ) {
            Some(session_id) => session_id.to_string(),
            None => fresh,
        };
        let content_encoding = request_headers::readable(headers, "content-encoding");
        let (body, rewritten_model) = body::rewrite_body_for_upstream(
            installation_id,
            body,
            content_encoding,
            valid_models,
        );
        let request = ProxyRequest {
            requested_account_id,
            session_id,
            body,
            rewritten_model,
            excluded_account_ids: Vec::new(),
        };
        assert(request@.excluded =~= Seq::empty());
        Ok(request)
    }

    /// The id of the account that the request asks for.
    pub fn requested_account_id(&self) -> (r: Option<&str>)
        ensures
            text::str_in(r) == self@.requested,
    {
        text::borrow_text(&self.requested_account_id)
    }

    /// The id of the request's session.
    pub fn session_id(&self) -> (r: &str)
        ensures
            r@ == self@.session,
    {
        self.session_id.as_str()
    }

    /// What is sent upstream.
    pub fn body(&self) -> (r: &Vec<u8>)
        ensures
            r@ == self@.body,
    {
        &self.body
    }

    /// What was done about the request's model.
    pub fn rewritten_model(&self) -> (r: Option<&str>)
        ensures
            text::str_in(r) == self@.rewritten_model,
    {
        text::borrow_text(&self.rewritten_model)
    }

    /// The ids of the accounts that turned the request away.
    pub fn excluded_account_ids(&self) -> (r: &Vec<String>)
        ensures
            text::texts(r@) == self@.excluded,
    {
        &self.excluded_account_ids
    }

    /// Follows up on an answer of the upstream, of which `received` was read: the whole body, unless
    /// the answer is a success.
    pub fn on_response(
        &mut self,
        accounts: &mut AccountRegistry,
        lease: &AccountLease,
        status: u16,
        response_headers: &HeaderMap<HeaderValue>,
        received: &Vec<u8>,
    ) -> (outcome: Outcome)
        ensures
            final(self)@ == followed_up(old(self)@, lease@, status),
            comes_of(
                outcome@,
                lease@,
                status,
                headers::header_contents(*response_headers),
                received@,
            ),
            exists|now: i64|
                0 <= now && clock::is_timestamp(now as int) && final(accounts)@ == #[trigger] noted(
                    old(accounts)@,
                    lease@,
                    old(self)@.session,
                    status,
                    headers::header_contents(*response_headers),
                    now,
                ),
    {
        let now: i64 = clock::current_unix_seconds();
        self.on_response_at(accounts, lease, status, response_headers, received, now)
    }

    /// Follows up at `now` on an answer of the upstream.
    pub fn on_response_at(
        &mut self,
        accounts: &mut AccountRegistry,
        lease: &AccountLease,
        status: u16,
        response_headers: &HeaderMap<HeaderValue>,
        received: &Vec<u8>,
        now: i64,
    ) -> (outcome: Outcome)
        requires
            now <= i64::MAX - accounts::DEFAULT_COOLDOWN_SECS,
        ensures
            final(self)@ == followed_up(old(self)@, lease@, status),
            comes_of(
                outcome@,
                lease@,
                status,
                headers::header_contents(*response_headers),
                received@,
            ),
            final(accounts)@ == noted(
                old(accounts)@,
                lease@,
                old(self)@.session,
                status,
                headers::header_contents(*response_headers),
                now,
            ),
    {
        proof {
            lemma_names();
        }
        let account_id = lease.account_id();
        if 200 <= status && status < 300 {
            lease.note_success(accounts);
            match downstream::downstream_headers(
                response_headers,
                account_id.as_str(),
                lease.score(),
            ) {
                Ok(headers) => Outcome::Respond(headers),
                Err(err) => Outcome::Fail(err),
            }
        } else if status == TOO_MANY_REQUESTS {
            let resets_at = request_headers::parse_i64_header(response_headers, RESET_HEADER);
            let used_percent = request_headers::parse_u8_header(response_headers, USED_HEADER);
            accounts.mark_rate_limited_at(
                account_id.as_str(),
                Some(self.session_id.as_str()),
                resets_at,
                used_percent,
                now,
            );
            let ghost before = self.excluded_account_ids@;
            self.excluded_account_ids.push(account_id);
            assert(text::texts(self.excluded_account_ids@) =~= text::texts(before).push(
                account_id@,
            ));
            Outcome::Retry
        } else {
            lease.note_failure(accounts);
            let detail = utf8_lossy(received);
            Outcome::Fail(ApiError::Internal(refusal_message(status, detail.as_str())))
        }
    }
}

/// What an account is chosen for on behalf of a request.
pub open spec fn choice_for(request: ProxyRequestView, accounts: RegistryView) -> RequestView {
    selection::request_for(accounts, request.requested, Some(request.session), request.excluded)
}

/// An account that turned a request away is not chosen for it again, and each time a request is
/// turned away there is one account less that it can go to.
pub proof fn law_refusal_excludes_the_account(
    request: ProxyRequestView,
    lease: CandidateView,
    accounts: RegistryView,
)
    requires
        choice_for(request, accounts).may_choose(lease.id),
        request.excluded.no_duplicates(),
    ensures
        ({
            let next = followed_up(request, lease, TOO_MANY_REQUESTS);
            &&& !choice_for(next, accounts).may_choose(lease.id)
            &&& next.excluded.no_duplicates()
            &&& next.excluded.len() == request.excluded.len() + 1
        }),
{
    let next = followed_up(request, lease, TOO_MANY_REQUESTS);
    assert(next.excluded[request.excluded.len() as int] == lease.id);
    assert(next.excluded.contains(lease.id));
    assert(!request.excluded.contains(lease.id));
}

/// A request that asks for an account which is at its usage limit is answered that it is one too
/// many.
pub proof fn law_limit_of_asked_account_is_told(
    request: ProxyRequestView,
    lease: CandidateView,
    accounts: RegistryView,
    auth: spec_fn(int) -> AuthOutcome,
    usage: spec_fn(int) -> UsageRank,
    now: int,
)
    requires
        request.requested == Some(lease.id),
    ensures
        ({
            let next = followed_up(request, lease, TOO_MANY_REQUESTS);
            let r = routing::routed(accounts, choice_for(next, accounts), auth, usage, now);
            r is Err && ApiErrorView::Route(r->Err_0).status() == TOO_MANY_REQUESTS
        }),
{
    let next = followed_up(request, lease, TOO_MANY_REQUESTS);
    assert(next.excluded[request.excluded.len() as int] == lease.id);
    assert(next.excluded.contains(lease.id));
    routing::law_turned_away_request_finds_none(
        accounts,
        choice_for(next, accounts),
        auth,
        usage,
        now,
    );
}

/// A request without the proxy's key is turned away, whatever else it holds.
pub proof fn law_key_comes_first(
    key: Option<Seq<char>>,
    contents: Contents,
    received: Seq<u8>,
    installation_id: Seq<char>,
    models: Seq<Seq<char>>,
    fresh: Seq<char>,
)
    ensures
        begun(key, contents, received, installation_id, models, fresh) is Ok ==> key is Some
            && request_headers::bearer_token(contents) == key,
        request_headers::key_refusal(key, contents) matches Some(err) ==> begun(
            key,
            contents,
            received,
            installation_id,
            models,
            fresh,
        ) == Err::<ProxyRequestView, _>(err),
{
}

/// A status is a success from 200 to 299.
pub proof fn law_successes(status: u16)
    ensures
        succeeds(status) <==> status / 100 == 2,
{
}

/// What a request is made of: the account that its header `x-codex-account-id` asks for, the session
/// that its header `session_id` names, else a fresh one, and its body as it is rewritten for the
/// encoding that its header `content-encoding` tells. It has been turned away by nobody yet.
pub proof fn law_request_is_read_from_its_headers(
    key: Option<Seq<char>>,
    contents: Contents,
    received: Seq<u8>,
    installation_id: Seq<char>,
    models: Seq<Seq<char>>,
    fresh: Seq<char>,
)
    ensures
        begun(key, contents, received, installation_id, models, fresh) is Err
            <==> request_headers::key_refusal(key, contents) is Some
            || request_headers::trimmed_header(contents, "x-codex-account-id"@) is Err,
        begun(key, contents, received, installation_id, models, fresh) matches Ok(request) ==> {
            &&& request.excluded.len() == 0
            &&& request_headers::trimmed_header(contents, "x-codex-account-id"@) == Ok::<
                _,
                ApiErrorView,
            >(request.requested)
            &&& request_headers::readable_text(contents, "session_id"@) is Some ==> request.session
                == request_headers::readable_text(contents, "session_id"@)->0
            &&& request_headers::readable_text(contents, "session_id"@) is None ==> request.session
                == fresh
            &&& (request.body, request.rewritten_model) == body::rewritten_body(
                installation_id,
                received,
                request_headers::readable_text(contents, "content-encoding"@),
                models,
            )
        },
{
}

/// A successful answer is noted on the account that gave it, and on no other: its failures are
/// forgotten and it rests no more.
pub proof fn law_success_is_noted(
    accounts: RegistryView,
    lease: CandidateView,
    session: Seq<char>,
    status: u16,
    contents: Contents,
    now: i64,
    other: int,
)
    requires
        200 <= status < 300,
        0 <= lease.account < accounts.handles.len(),
        0 <= other < accounts.handles.len(),
    ensures
        ({
            let after = noted(accounts, lease, session, status, contents, now);
            &&& after.listed == accounts.listed
            &&& after.affinity == accounts.affinity
            &&& other != lease.account ==> after.handles[other] == accounts.handles[other]
            &&& after.handles[lease.account].recent_failures == 0
            &&& after.handles[lease.account].cooldown_until == 0
            &&& after.handles[lease.account].record.used_percent
                == accounts.handles[lease.account].record.used_percent
            &&& after.handles[lease.account].inflight == accounts.handles[lease.account].inflight
        }),
{
}

/// An answer that is neither a success nor 429 is noted as a failure of the account that gave it, and
/// of no other: it is neither put to rest nor taken out of the session.
pub proof fn law_failure_is_noted(
    accounts: RegistryView,
    lease: CandidateView,
    session: Seq<char>,
    status: u16,
    contents: Contents,
    now: i64,
    other: int,
)
    requires
        !(200 <= status < 300),
        status != 429,
        0 <= lease.account < accounts.handles.len(),
        0 <= other < accounts.handles.len(),
    ensures
        ({
            let after = noted(accounts, lease, session, status, contents, now);
            let handle = accounts.handles[lease.account];
            &&& after.listed == accounts.listed
            &&& after.affinity == accounts.affinity
            &&& other != lease.account ==> after.handles[other] == accounts.handles[other]
            &&& handle.recent_failures < u32::MAX ==> after.handles[lease.account].recent_failures
                == handle.recent_failures + 1
            &&& after.handles[lease.account].record == handle.record
            &&& after.handles[lease.account].cooldown_until == handle.cooldown_until
            &&& after.handles[lease.account].inflight == handle.inflight
        }),
{
}

/// A 429 is noted on the account that gave it, and on no other: it is rate limited up to the time that
/// the header `x-codex-primary-reset-at` tells, else for five minutes, with the use that the header
/// `x-codex-primary-used-percent` tells, else the use that was known. The session is free of it.
pub proof fn law_limit_is_noted(
    accounts: RegistryView,
    lease: CandidateView,
    session: Seq<char>,
    contents: Contents,
    now: i64,
    i: int,
    other: int,
)
    requires
        accounts.well_formed(),
        now <= i64::MAX - 300,
        accounts.find(lease.id) == Some(i),
        0 <= other < accounts.handles.len(),
    ensures
        ({
            let after = noted(accounts, lease, session, 429, contents, now);
            let until = request_headers::int_header(
                contents,
                "x-codex-primary-reset-at"@,
                true,
                i64::MIN as int,
                i64::MAX as int,
            );
            let used = request_headers::int_header(
                contents,
                "x-codex-primary-used-percent"@,
                false,
                0,
                255,
            );
            &&& after.listed == accounts.listed
            &&& !after.affinity.contains_key(session)
            &&& other != i ==> after.handles[other] == accounts.handles[other]
            &&& after.handles[i].record.state == accounts::AccountState::RateLimited
            &&& until matches Some(end) ==> after.handles[i].cooldown_until == end
            &&& until is None ==> after.handles[i].cooldown_until == now + 300
            &&& after.handles[i].record.resets_at == Some(after.handles[i].cooldown_until)
            &&& used matches Some(n) ==> after.handles[i].record.used_percent is Some
                && after.handles[i].record.used_percent->0 == n
            &&& used is None ==> after.handles[i].record.used_percent
                == accounts.handles[i].record.used_percent
            &&& after.handles[i].recent_failures == accounts.handles[i].recent_failures
            &&& after.handles[i].inflight == accounts.handles[i].inflight
        }),
{
    registry::lemma_find(accounts.handles, accounts.listed, lease.id);
    let k = choose|k: int| 0 <= k < accounts.listed.len() && accounts.listed[k] == i;
    assert(0 <= accounts.listed[k] < accounts.handles.len());
}

/// Another account is tried exactly after a 429. The client gets the answer only if it is a success,
/// and the status and the trimmed text of any other answer as an error of the proxy.
pub proof fn law_what_becomes_of_an_answer(
    outcome: OutcomeView,
    lease: CandidateView,
    status: u16,
    contents: Contents,
    received: Seq<u8>,
)
    requires
        comes_of(outcome, lease, status, contents, received),
    ensures
        outcome is Retry <==> status == 429,
        outcome is Respond ==> 200 <= status < 300,
        !(200 <= status < 300) && status != 429 ==> {
            let detail = text::trimmed(lossy_text(received));
            let told = "upstream returned "@ + errors::status_text(status);
            outcome == OutcomeView::Fail(
                ApiErrorView::Internal(
                    if detail.len() > 0 {
                        told + ": "@ + detail
                    } else {
                        told
                    },
                ),
            )
        },
        200 <= status < 300 && downstream::has_room(contents) && headers::is_value(
            headers::as_bytes(lease.id),
        ) ==> outcome == OutcomeView::Respond(
            downstream::answered(contents, lease.id, lease.score),
        ),
{
}

/// A 429 puts the account that gave it among those that are not tried again, after those before it. No
/// answer changes anything else of the request.
pub proof fn law_only_refusals_change_a_request(
    request: ProxyRequestView,
    lease: CandidateView,
    status: u16,
)
    ensures
        ({
            let after = followed_up(request, lease, status);
            &&& status != 429 ==> after == request
            &&& status == 429 ==> after.excluded == request.excluded + seq![lease.id]
            &&& after.requested == request.requested
            &&& after.session == request.session
            &&& after.body == request.body
            &&& after.rewritten_model == request.rewritten_model
        }),
{
    if status == 429 {
        assert(request.excluded.push(lease.id) =~= request.excluded + seq![lease.id]);
    }
}

/// An account is chosen for a request among those there are: the one that it asks for, if any, and none
/// that turned it away.
pub proof fn law_choice_is_for_the_request(request: ProxyRequestView, accounts: RegistryView)
    ensures
        choice_for(request, accounts).requested == request.requested,
        choice_for(request, accounts).session == Some(request.session),
        choice_for(request, accounts).excluded == request.excluded,
        choice_for(request, accounts).listed == accounts.listed,
{
}

/// The proxy says that it is up, and where the upstream is, and nothing else.
pub proof fn law_health(key: Seq<char>)
    ensures
        health_view().field("status"@) == Some(JsonView::Text("ok"@)),
        health_view().field("upstream_responses_url"@) == Some(
            JsonView::Text("https://chatgpt.com/backend-api/codex/responses"@),
        ),
        key != "status"@ && key != "upstream_responses_url"@ ==> health_view().field(key) is None,
{
    reveal_strlit("status");
    reveal_strlit("upstream_responses_url");
    assert("status"@.len() == 6);
    assert("upstream_responses_url"@.len() == 22);
}

/// A request is taken on exactly if its bearer token is the key and its header `x-codex-account-id` can
/// be read. It asks for the account of that header, belongs to the session of its header `session_id`,
/// else to a fresh one, and has been turned away by nobody.
pub proof fn law_taking_on_a_request(
    proxy_auth: &ProxyAuth,
    headers: &HeaderMap<HeaderValue>,
    body: Vec<u8>,
    installation_id: &str,
    valid_models: &Vec<String>,
    fresh: String,
    r: Result<ProxyRequest, ApiError>,
)
    requires
        call_ensures(
            ProxyRequest::begin_with,
            (proxy_auth, headers, body, installation_id, valid_models, fresh),
            r,
        ),
    ensures
        ({
            let contents = headers::header_contents(*headers);
            let token = request_headers::bearer_token(contents);
            let asked = request_headers::trimmed_header(contents, "x-codex-account-id"@);
            let session = request_headers::readable_text(contents, "session_id"@);
            &&& r is Ok <==> proxy_auth@ is Some && token == proxy_auth@ && asked is Ok
            &&& proxy_auth@ is None ==> r is Err && r->Err_0@ is ProxyAuthNotConfigured
            &&& proxy_auth@ is Some && token is None ==> r is Err && r->Err_0@ is ProxyAuthMissing
            &&& proxy_auth@ is Some && token is Some && token != proxy_auth@ ==> r is Err
                && r->Err_0@ is ProxyAuthInvalid
            &&& proxy_auth@ is Some && token == proxy_auth@ && asked is Err ==> r->Err_0@
                == asked->Err_0
            &&& r matches Ok(request) ==> {
                &&& request@.excluded.len() == 0
                &&& asked == Ok::<_, ApiErrorView>(request@.requested)
                &&& session matches Some(name) ==> request@.session == name
                &&& session is None ==> request@.session == fresh@
                &&& (request@.body, request@.rewritten_model) == body::rewritten_body(
                    installation_id@,
                    body@,
                    request_headers::readable_text(contents, "content-encoding"@),
                    text::texts(valid_models@),
                )
            }
        }),
{
    let contents = headers::header_contents(*headers);
    law_request_is_read_from_its_headers(
        proxy_auth@,
        contents,
        body@,
        installation_id@,
        text::texts(valid_models@),
        fresh@,
    );
    request_headers::law_refusals_for_the_key(proxy_auth@, contents);
}

/// What an answer of the upstream leads to. A success is handed on and forgives the account its
/// failures. A 429 is not handed on: the request goes on without the account, which is put to rest, and
/// the session is free of it. Any other answer fails the request and counts as a failure of the account.
pub proof fn law_following_an_answer(
    request: &mut ProxyRequest,
    accounts: &mut AccountRegistry,
    lease: &AccountLease,
    status: u16,
    response_headers: &HeaderMap<HeaderValue>,
    received: &Vec<u8>,
    now: i64,
    outcome: Outcome,
    other: int,
)
    requires
        call_ensures(
            ProxyRequest::on_response_at,
            (request, accounts, lease, status, response_headers, received, now),
            outcome,
        ),
        now <= i64::MAX - 300,
        old(accounts)@.well_formed(),
        0 <= lease@.account < old(accounts)@.handles.len(),
        0 <= other < old(accounts)@.handles.len(),
    ensures
        ({
            let before = old(accounts)@.handles[lease@.account];
            let after = final(accounts)@.handles[lease@.account];
            &&& outcome@ is Retry <==> status == 429
            &&& outcome@ is Respond ==> 200 <= status < 300
            &&& status == 429 ==> final(request)@.excluded == old(request)@.excluded + seq![
                lease@.id,
            ]
            &&& status != 429 ==> final(request)@ == old(request)@
            &&& final(request)@.body == old(request)@.body
            &&& final(request)@.session == old(request)@.session
            &&& final(request)@.requested == old(request)@.requested
            &&& final(accounts)@.listed == old(accounts)@.listed
            &&& status != 429 ==> final(accounts)@.affinity == old(accounts)@.affinity
            &&& status == 429 ==> !final(accounts)@.affinity.contains_key(old(request)@.session)
            &&& status != 429 && other != lease@.account ==> final(accounts)@.handles[other] == old(
                accounts,
            )@.handles[other]
            &&& 200 <= status < 300 ==> after.recent_failures == 0 && after.cooldown_until == 0
                && after.record.used_percent == before.record.used_percent
            &&& !(200 <= status < 300) && status != 429 ==> outcome@ is Fail && after.record
                == before.record && after.cooldown_until == before.cooldown_until
            &&& !(200 <= status < 300) && status != 429 && before.recent_failures < u32::MAX
                ==> after.recent_failures == before.recent_failures + 1
            &&& status == 429 && old(accounts)@.find(lease@.id) == Some(lease@.account)
                ==> after.record.state == accounts::AccountState::RateLimited
        }),
{
    let contents = headers::header_contents(*response_headers);
    let before = accounts@;
    law_what_becomes_of_an_answer(outcome@, lease@, status, contents, received@);
    law_only_refusals_change_a_request(request@, lease@, status);
    if 200 <= status < 300 {
        law_success_is_noted(before, lease@, request@.session, status, contents, now, other);
    } else if status != 429 {
        law_failure_is_noted(before, lease@, request@.session, status, contents, now, other);
    } else {
        registry::law_limit_touches_one_account(
            before,
            lease@.id,
            Some(request@.session),
            rest_end(contents, now),
            match told_use(contents) {
                Some(n) => Some(n as u8),
                None => None,
            },
            lease@.account,
            ""@,
        );
    }
}

} // verus!
