//! The errors that requests are answered with.

use vstd::prelude::*;
use vstd::string::*;

use crate::accounts::RouteError;
use crate::accounts::RouteErrorView;
use crate::json::Json;
use crate::json::JsonObject;
use crate::json::JsonView;
use crate::text;

verus! {

/// Why a request is not answered as it asks.
#[derive(Debug)]
pub enum ApiError {
    /// There is no API key that it could show.
    ProxyAuthNotConfigured,
    /// It shows no API key.
    ProxyAuthMissing,
    /// It shows another API key.
    ProxyAuthInvalid,
    /// One of its headers cannot be read.
    InvalidHeaderValue { header_name: String, message: String },
    /// The upstream cannot be reached.
    UpstreamTransport(String),
    /// Something else failed.
    Internal(String),
    /// There is no account for it.
    Route(RouteError),
}

/// Why a request is not answered as it asks, as mathematics sees it.
pub enum ApiErrorView {
    ProxyAuthNotConfigured,
    ProxyAuthMissing,
    ProxyAuthInvalid,
    InvalidHeaderValue { header_name: Seq<char>, message: Seq<char> },
    UpstreamTransport(Seq<char>),
    Internal(Seq<char>),
    Route(RouteErrorView),
}

impl ApiErrorView {
    /// The HTTP status of the answer.
    pub open spec fn status(self) -> u16 {
        match self {
            ApiErrorView::ProxyAuthNotConfigured => 503,
            ApiErrorView::ProxyAuthMissing => 401,
            ApiErrorView::ProxyAuthInvalid => 401,
            ApiErrorView::InvalidHeaderValue { .. } => 400,
            ApiErrorView::Route(RouteErrorView::NoAccountsConfigured) => 503,
            ApiErrorView::Route(RouteErrorView::AccountAuthFailed { .. }) => 502,
            ApiErrorView::Route(RouteErrorView::NoEligibleAccounts { .. }) => 429,
            ApiErrorView::UpstreamTransport(_) => 502,
            ApiErrorView::Internal(_) => 502,
        }
    }

    /// What the error says.
    pub open spec fn text(self) -> Seq<char> {
        match self {
            ApiErrorView::ProxyAuthNotConfigured => "proxy API key is not configured"@,
            ApiErrorView::ProxyAuthMissing => "missing proxy API key"@,
            ApiErrorView::ProxyAuthInvalid => "invalid proxy API key"@,
            ApiErrorView::InvalidHeaderValue { header_name, message } => "invalid value for "@
                + header_name + ": "@ + message,
            ApiErrorView::UpstreamTransport(reason) => "upstream transport error: "@ + reason,
            ApiErrorView::Internal(reason) => "internal error: "@ + reason,
            ApiErrorView::Route(err) => err.text(),
        }
    }

    /// The answer.
    pub open spec fn body(self) -> JsonView {
        JsonView::Object(
            map![
                "error"@ => JsonView::Object(
                    map![
                        "message"@ => JsonView::Text(self.text()),
                        "type"@ => JsonView::Text("proxy_error"@),
                    ],
                ),
            ],
        )
    }
}

impl ApiError {
    pub open spec fn view(&self) -> ApiErrorView {
        match self {
            ApiError::ProxyAuthNotConfigured => ApiErrorView::ProxyAuthNotConfigured,
            ApiError::ProxyAuthMissing => ApiErrorView::ProxyAuthMissing,
            ApiError::ProxyAuthInvalid => ApiErrorView::ProxyAuthInvalid,
            ApiError::InvalidHeaderValue { header_name, message } =>
                ApiErrorView::InvalidHeaderValue { header_name: header_name@, message: message@ },
            ApiError::UpstreamTransport(reason) => ApiErrorView::UpstreamTransport(reason@),
            ApiError::Internal(reason) => ApiErrorView::Internal(reason@),
            ApiError::Route(err) => ApiErrorView::Route(err@),
        }
    }

    /// The HTTP status of the answer.
    pub fn status(&self) -> (status: u16)
        ensures
            status == self@.status(),
    {
        match self {
            ApiError::ProxyAuthNotConfigured => 503,
            ApiError::ProxyAuthMissing | ApiError::ProxyAuthInvalid => 401,
            ApiError::InvalidHeaderValue { .. } => 400,
            ApiError::Route(RouteError::NoAccountsConfigured) => 503,
            ApiError::Route(RouteError::AccountAuthFailed { .. }) => 502,
            ApiError::Route(RouteError::NoEligibleAccounts { .. }) => 429,
            ApiError::UpstreamTransport(_) | ApiError::Internal(_) => 502,
        }
    }

    /// What the error says.
    pub fn message(&self) -> (s: String)
        ensures
            s@ == self@.text(),
    {
        match self {
            ApiError::ProxyAuthNotConfigured => "proxy API key is not configured".to_string(),
            ApiError::ProxyAuthMissing => "missing proxy API key".to_string(),
            ApiError::ProxyAuthInvalid => "invalid proxy API key".to_string(),
            ApiError::InvalidHeaderValue { header_name, message } =>
                "invalid value for ".to_string().concat(header_name.as_str()).concat(": ").concat(
                    message.as_str(),
                ),
            ApiError::UpstreamTransport(reason) => "upstream transport error: ".to_string().concat(
                reason.as_str(),
            ),
            ApiError::Internal(reason) => "internal error: ".to_string().concat(reason.as_str()),
            ApiError::Route(err) => err.message(),
        }
    }

    /// The answer: its HTTP status and its body.
    pub fn into_response(self) -> (r: (u16, Json))
        ensures
            r.0 == self@.status(),
            r.1@ == self@.body(),
    {
        let mut error = JsonObject::new();
        error.insert("message".to_string(), Json::Text(self.message()));
        error.insert("type".to_string(), Json::Text("proxy_error".to_string()));
        let mut body = JsonObject::new();
        assert(error@ =~= map![
            "message"@ => JsonView::Text(self@.text()),
            "type"@ => JsonView::Text("proxy_error"@),
        ]);
        body.insert("error".to_string(), Json::Object(error));
        assert(body@ =~= map!["error"@ => JsonView::Object(error@)]);
        (self.status(), Json::Object(body))
    }
}

/// The reason phrase that goes with an HTTP status.
pub uninterp spec fn reason_phrase(status: u16) -> Option<Seq<char>>;

/// `StatusCode::canonical_reason`: the phrase is a function of the status.
#[verifier::external_body]
fn canonical_reason(status: u16) -> (r: Option<&'static str>)
    ensures
        text::str_in(r) == reason_phrase(status),
{
    axum::http::StatusCode::from_u16(status).ok().and_then(|status| status.canonical_reason())
}

/// An HTTP status with its reason phrase.
pub open spec fn status_text(status: u16) -> Seq<char> {
    text::int_text(status as int) + " "@ + match reason_phrase(status) {
        Some(phrase) => phrase,
        None => "<unknown status code>"@,
    }
}

/// An HTTP status with its reason phrase.
pub fn status_string(status: u16) -> (s: String)
    ensures
        s@ == status_text(status),
{
    let phrase = match canonical_reason(status) {
        Some(phrase) => phrase,
        None => "<unknown status code>",
    };
    text::int_string(status as i64).concat(" ").concat(phrase)
}

/// With which status each error is answered: 401 where the key is missing or another, 400 where a
/// header cannot be read, 429 where no account takes the request, 503 where the proxy is not set up, and
/// 502 where something behind it fails.
pub proof fn law_statuses(err: ApiErrorView)
    ensures
        err.status() == 401 <==> err is ProxyAuthMissing || err is ProxyAuthInvalid,
        err.status() == 400 <==> err is InvalidHeaderValue,
        err.status() == 429 <==> err is Route && err->Route_0 is NoEligibleAccounts,
        err.status() == 503 <==> err is ProxyAuthNotConfigured || (err is Route
            && err->Route_0 is NoAccountsConfigured),
        err.status() == 502 <==> err is UpstreamTransport || err is Internal || (err is Route
            && err->Route_0 is AccountAuthFailed),
{
}

/// The answer holds what the error says, that it comes from the proxy, and nothing else.
pub proof fn law_error_body(err: ApiErrorView, key: Seq<char>)
    ensures
        err.body().field("error"@) is Some,
        err.body().field("error"@)->0.field("message"@) == Some(JsonView::Text(err.text())),
        err.body().field("error"@)->0.field("type"@) == Some(JsonView::Text("proxy_error"@)),
        key != "error"@ ==> err.body().field(key) is None,
        key != "message"@ && key != "type"@ ==> err.body().field("error"@)->0.field(key) is None,
{
    reveal_strlit("message");
    reveal_strlit("type");
    assert("message"@.len() == 7);
    assert("type"@.len() == 4);
}

/// What an error says ends with the reason that it was given, and begins with where it comes from.
pub proof fn law_error_tells_its_reason(reason: Seq<char>, name: Seq<char>)
    ensures
        ApiErrorView::Internal(reason).text() == "internal error: "@ + reason,
        ApiErrorView::UpstreamTransport(reason).text() == "upstream transport error: "@ + reason,
        ApiErrorView::ProxyAuthMissing.text() == "missing proxy API key"@,
        ApiErrorView::ProxyAuthInvalid.text() == "invalid proxy API key"@,
        ApiErrorView::ProxyAuthNotConfigured.text() == "proxy API key is not configured"@,
        reason.is_suffix_of(ApiErrorView::Internal(reason).text()),
        reason.is_suffix_of(ApiErrorView::UpstreamTransport(reason).text()),
        reason.is_suffix_of(
            (ApiErrorView::InvalidHeaderValue { header_name: name, message: reason }).text(),
        ),
        text::occurs(
            name,
            (ApiErrorView::InvalidHeaderValue { header_name: name, message: reason }).text(),
        ),
        reason.is_suffix_of(
            ApiErrorView::Route(RouteErrorView::AccountAuthFailed { account_id: reason }).text(),
        ),
{
    let a = ApiErrorView::Internal(reason).text();
    let b = ApiErrorView::UpstreamTransport(reason).text();
    let c = (ApiErrorView::InvalidHeaderValue { header_name: name, message: reason }).text();
    let d = ApiErrorView::Route(RouteErrorView::AccountAuthFailed { account_id: reason }).text();
    assert(a.skip(a.len() - reason.len()) =~= reason);
    assert(b.skip(b.len() - reason.len()) =~= reason);
    assert(c.skip(c.len() - reason.len()) =~= reason);
    assert(d.skip(d.len() - reason.len()) =~= reason);
    assert(c =~= "invalid value for "@ + name + (": "@ + reason));
    text::law_occurs(name, c);
}

/// A status is written as its number, a blank, and its phrase.
pub proof fn law_status_text(status: u16)
    ensures
        text::int_text(status as int).is_prefix_of(status_text(status)),
        reason_phrase(status) matches Some(phrase) ==> status_text(status) == text::int_text(
            status as int,
        ) + " "@ + phrase,
        reason_phrase(status) is None ==> status_text(status) == text::int_text(status as int)
            + " "@ + "<unknown status code>"@,
{
    let number = text::int_text(status as int);
    assert(status_text(status).take(number.len() as int) =~= number);
}

/// An error is answered with its status and with a body that holds what it says.
pub proof fn law_answering_an_error(err: ApiError, r: (u16, Json))
    requires
        call_ensures(ApiError::into_response, (err,), r),
    ensures
        r.1@.field("error"@) is Some,
        r.1@.field("error"@)->0.field("message"@) == Some(JsonView::Text(err@.text())),
        r.1@.field("error"@)->0.field("type"@) == Some(JsonView::Text("proxy_error"@)),
        err@ is ProxyAuthMissing || err@ is ProxyAuthInvalid <==> r.0 == 401,
        err@ is InvalidHeaderValue <==> r.0 == 400,
        err@ is Route && err@->Route_0 is NoEligibleAccounts <==> r.0 == 429,
        err@ is UpstreamTransport || err@ is Internal ==> r.0 == 502,
{
    law_error_body(err@, ""@);
    law_statuses(err@);
}

} // verus!
