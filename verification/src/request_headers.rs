//! What the headers of a request or a response say.

use axum::http::HeaderMap;
use axum::http::HeaderValue;
use vstd::prelude::*;
use vstd::string::*;

use crate::errors::ApiError;
use crate::errors::ApiErrorView;
use crate::headers;
use crate::proxy_auth;
use crate::proxy_auth::ProxyAuth;
use crate::text;

verus! {

/// What header maps hold.
pub type Contents = Map<Seq<char>, Seq<Seq<u8>>>;

/// The header with the id of the account that a request asks for.
pub const ACCOUNT_ID_HEADER: &'static str = "x-codex-account-id";

/// The header with the id of the session that a request belongs to.
pub const SESSION_ID_HEADER: &'static str = "session_id";

/// The text of the first value of a header, where it can be read as text.
pub open spec fn readable_text(contents: Contents, name: Seq<char>) -> Option<Seq<char>> {
    match headers::first_value(contents, name) {
        Some(value) if headers::is_readable(value) => Some(headers::as_text(value)),
        _ => None,
    }
}

/// A spelling of a header's name.
pub open spec fn names_header(name: Seq<char>) -> bool {
    headers::is_name(text::lowered(name))
}

/// The headers that a request is read by have names.
pub proof fn lemma_names()
    ensures
        names_header("authorization"@),
        names_header("content-encoding"@),
        names_header(ACCOUNT_ID_HEADER@),
        names_header(SESSION_ID_HEADER@),
{
    reveal_strlit("authorization");
    assert(text::lowered("authorization"@) =~= "authorization"@);
    reveal_strlit("content-encoding");
    assert(text::lowered("content-encoding"@) =~= "content-encoding"@);
    reveal_strlit("x-codex-account-id");
    assert(text::lowered("x-codex-account-id"@) =~= "x-codex-account-id"@);
    reveal_strlit("session_id");
    assert(text::lowered("session_id"@) =~= "session_id"@);
}

/// The text of the first value of a header, where it can be read as text.
pub fn readable<'a>(headers: &'a HeaderMap<HeaderValue>, name: &str) -> (r: Option<&'a str>)
    ensures
        names_header(name@) ==> text::str_in(r) == readable_text(
            headers::header_contents(*headers),
            name@,
        ),
{
    match headers::get(headers, name) {
        Some(value) => match headers::value_str(value) {
            Ok(s) => Some(s),
            Err(_) => None,
        },
        None => None,
    }
}

/// The bearer token that a request shows.
pub open spec fn bearer_token(contents: Contents) -> Option<Seq<char>> {
    match readable_text(contents, "authorization"@) {
        Some(value) => match text::after_prefix(value, "Bearer "@) {
            Some(token) if text::trimmed(token).len() > 0 => Some(text::trimmed(token)),
            _ => None,
        },
        None => None,
    }
}

/// Why a request is turned away for its API key.
pub open spec fn key_refusal(key: Option<Seq<char>>, contents: Contents) -> Option<ApiErrorView> {
    if key is None {
        Some(ApiErrorView::ProxyAuthNotConfigured)
    } else {
        match bearer_token(contents) {
            None => Some(ApiErrorView::ProxyAuthMissing),
            Some(token) => if proxy_auth::admits(key, token) {
                None
            } else {
                Some(ApiErrorView::ProxyAuthInvalid)
            },
        }
    }
}

/// Lets a request pass that shows the proxy's API key.
pub fn require_proxy_api_key(proxy_auth: &ProxyAuth, headers: &HeaderMap<HeaderValue>) -> (r: Result<
    (),
    ApiError,
>)
    ensures
        match r {
            Ok(_) => key_refusal(proxy_auth@, headers::header_contents(*headers)) is None,
            Err(err) => key_refusal(proxy_auth@, headers::header_contents(*headers)) == Some(err@),
        },
{
    if !proxy_auth.is_configured() {
        return Err(ApiError::ProxyAuthNotConfigured);
    }
    proof {
        lemma_names();
    }
    let value = match readable(headers, "authorization") {
        Some(value) => value,
        None => {
            return Err(ApiError::ProxyAuthMissing);
        },
    };
    let token = match text::strip_prefix(value, "Bearer ") {
        Some(token) => text::trim(token),
        None => {
            return Err(ApiError::ProxyAuthMissing);
        },
    };
    if token.unicode_len() == 0 {
        return Err(ApiError::ProxyAuthMissing);
    }
    if proxy_auth.verify_bearer_token(token) {
        Ok(())
    } else {
        Err(ApiError::ProxyAuthInvalid)
    }
}

/// A request passes exactly if a key is configured and the request shows it as its bearer token.
pub proof fn law_key_is_required(key: Option<Seq<char>>, contents: Contents)
    ensures
        key_refusal(key, contents) is None <==> key is Some && bearer_token(contents) == key,
{
}

/// The trimmed text of a header, where there is one and it is not empty.
pub open spec fn trimmed_header(contents: Contents, name: Seq<char>) -> Result<
    Option<Seq<char>>,
    ApiErrorView,
> {
    match headers::first_value(contents, name) {
        None => Ok(None),
        Some(value) => if !headers::is_readable(value) {
            Err(
                ApiErrorView::InvalidHeaderValue {
                    header_name: name,
                    message: headers::NOT_TEXT@,
                },
            )
        } else if text::trimmed(headers::as_text(value)).len() == 0 {
            Ok(None)
        } else {
            Ok(Some(text::trimmed(headers::as_text(value))))
        },
    }
}

/// The trimmed text of a header, where there is one and it is not empty.
pub fn header_value(headers: &HeaderMap<HeaderValue>, header_name: &str) -> (r: Result<
    Option<String>,
    ApiError,
>)
    ensures
        names_header(header_name@) ==> match r {
            Ok(value) => trimmed_header(headers::header_contents(*headers), header_name@) == Ok::<
                _,
                ApiErrorView,
            >(text::text_in(value)),
            Err(err) => trimmed_header(headers::header_contents(*headers), header_name@) == Err::<
                Option<Seq<char>>,
                _,
            >(err@),
        },
{
    match headers::get(headers, header_name) {
        None => Ok(None),
        Some(value) => match headers::value_str(value) {
            Ok(s) => {
                let trimmed = text::trim(s);
                if trimmed.unicode_len() == 0 {
                    Ok(None)
                } else {
                    Ok(Some(trimmed.to_string()))
                }
            },
            Err(message) => Err(
                ApiError::InvalidHeaderValue { header_name: header_name.to_string(), message },
            ),
        },
    }
}

/// The integer that a header writes, where it lies between `low` and `high`.
pub open spec fn int_header(
    contents: Contents,
    name: Seq<char>,
    signed: bool,
    low: int,
    high: int,
) -> Option<int> {
    match readable_text(contents, name) {
        Some(value) => text::int_value_within(value, signed, low, high),
        None => None,
    }
}

/// The signed integer of 64 bits that a header writes.
pub fn parse_i64_header(headers: &HeaderMap<HeaderValue>, header_name: &str) -> (r: Option<i64>)
    ensures
        names_header(header_name@) ==> match int_header(
            headers::header_contents(*headers),
            header_name@,
            true,
            i64::MIN as int,
            i64::MAX as int,
        ) {
            Some(n) => r is Some && r->0 == n,
            None => r is None,
        },
{
    match readable(headers, header_name) {
        Some(value) => text::parse_signed(value),
        None => None,
    }
}

/// The integer from 0 to 255 that a header writes.
pub fn parse_u8_header(headers: &HeaderMap<HeaderValue>, header_name: &str) -> (r: Option<u8>)
    ensures
        names_header(header_name@) ==> match int_header(
            headers::header_contents(*headers),
            header_name@,
            false,
            0,
            255,
        ) {
            Some(n) => r is Some && r->0 == n,
            None => r is None,
        },
{
    match readable(headers, header_name) {
        Some(value) => match text::parse_unsigned(value, 255) {
            Some(n) => Some(n as u8),
            None => None,
        },
        None => None,
    }
}

/// The text of a header is that of its first value, under its name in small letters, where there is one
/// and it can be read as text.
pub proof fn law_first_value_is_read(contents: Contents, name: Seq<char>)
    ensures
        ({
            let key = text::lowered(name);
            match readable_text(contents, name) {
                Some(s) => {
                    &&& contents.contains_key(key)
                    &&& contents[key].len() > 0
                    &&& headers::is_readable(contents[key][0])
                    &&& s == headers::as_text(contents[key][0])
                },
                None => {
                    ||| !contents.contains_key(key)
                    ||| contents[key].len() == 0
                    ||| !headers::is_readable(contents[key][0])
                },
            }
        }),
{
}

/// A request shows a token exactly if its authorization is `Bearer `, then the token, perhaps with white
/// space around it, and the token is not empty.
pub proof fn law_bearer_token(contents: Contents, token: Seq<char>)
    ensures
        bearer_token(contents) == Some(token) <==> {
            &&& token.len() > 0
            &&& exists|rest: Seq<char>|
                readable_text(contents, "authorization"@) == Some(#[trigger] ("Bearer "@ + rest))
                    && text::trimmed(rest) == token
        },
{
    if let Some(value) = readable_text(contents, "authorization"@) {
        if let Some(rest) = text::after_prefix(value, "Bearer "@) {
            text::law_after_prefix(value, "Bearer "@, rest);
            assert(value == "Bearer "@ + rest);
        }
        if exists|rest: Seq<char>|
            readable_text(contents, "authorization"@) == Some(#[trigger] ("Bearer "@ + rest))
                && text::trimmed(rest) == token {
            let rest = choose|rest: Seq<char>|
                readable_text(contents, "authorization"@) == Some(#[trigger] ("Bearer "@ + rest))
                    && text::trimmed(rest) == token;
            text::law_after_prefix(value, "Bearer "@, rest);
        }
    }
}

/// Why a request is turned away for its key: with 503 where no key is configured, whatever it shows,
/// and else with 401, both where it shows none and where it shows another.
pub proof fn law_refusals_for_the_key(key: Option<Seq<char>>, contents: Contents)
    ensures
        key is None ==> key_refusal(key, contents) == Some(ApiErrorView::ProxyAuthNotConfigured),
        key is Some && bearer_token(contents) is None ==> key_refusal(key, contents) == Some(
            ApiErrorView::ProxyAuthMissing,
        ),
        key is Some && bearer_token(contents) is Some && bearer_token(contents) != key
            ==> key_refusal(key, contents) == Some(ApiErrorView::ProxyAuthInvalid),
        key_refusal(key, contents) matches Some(err) ==> err.status() == if key is None {
            503u16
        } else {
            401u16
        },
{
}

/// A header that is missing or blank tells nothing, one that cannot be read is an error that names it,
/// and any other tells its trimmed text.
pub proof fn law_trimmed_header(contents: Contents, name: Seq<char>)
    ensures
        headers::first_value(contents, name) is None ==> trimmed_header(contents, name) == Ok::<
            Option<Seq<char>>,
            ApiErrorView,
        >(None),
        headers::first_value(contents, name) matches Some(value) ==> {
            let s = text::trimmed(headers::as_text(value));
            if headers::is_readable(value) {
                trimmed_header(contents, name) == Ok::<_, ApiErrorView>(
                    if s.len() > 0 {
                        Some(s)
                    } else {
                        None
                    },
                )
            } else {
                &&& trimmed_header(contents, name) is Err
                &&& trimmed_header(contents, name)->Err_0.status() == 400
                &&& trimmed_header(contents, name)->Err_0 is InvalidHeaderValue
                &&& trimmed_header(contents, name)->Err_0->header_name == name
            }
        },
{
}

/// A header tells a number exactly if its text is one, and it lies within the bounds.
pub proof fn law_number_header(
    contents: Contents,
    name: Seq<char>,
    signed: bool,
    low: int,
    high: int,
    n: int,
)
    ensures
        int_header(contents, name, signed, low, high) == Some(n) <==> {
            &&& readable_text(contents, name) is Some
            &&& text::int_value(readable_text(contents, name)->0, signed) == Some(n)
            &&& low <= n <= high
        },
{
}

/// A request passes exactly if a key is configured and its bearer token is that key.
pub proof fn law_requiring_the_key(
    proxy_auth: &ProxyAuth,
    headers: &HeaderMap<HeaderValue>,
    r: Result<(), ApiError>,
)
    requires
        call_ensures(require_proxy_api_key, (proxy_auth, headers), r),
    ensures
        r is Ok <==> proxy_auth@ is Some && bearer_token(headers::header_contents(*headers))
            == proxy_auth@,
        r matches Err(err) ==> (err@ is ProxyAuthNotConfigured <==> proxy_auth@ is None),
        r matches Err(err) ==> (err@ is ProxyAuthMissing <==> proxy_auth@ is Some && bearer_token(
            headers::header_contents(*headers),
        ) is None),
{
    law_refusals_for_the_key(proxy_auth@, headers::header_contents(*headers));
}

/// What is read of a header is its first value: as it is, trimmed, or as a number within the bounds of
/// its kind.
pub proof fn law_reading_headers(
    headers: &HeaderMap<HeaderValue>,
    name: &str,
    plain: Option<&str>,
    trimmed: Result<Option<String>, ApiError>,
    wide: Option<i64>,
    narrow: Option<u8>,
)
    requires
        call_ensures(readable, (headers, name), plain),
        call_ensures(header_value, (headers, name), trimmed),
        call_ensures(parse_i64_header, (headers, name), wide),
        call_ensures(parse_u8_header, (headers, name), narrow),
        names_header(name@),
    ensures
        ({
            let contents = headers::header_contents(*headers);
            let key = text::lowered(name@);
            let here = contents.contains_key(key) && contents[key].len() > 0;
            &&& plain is Some <==> here && headers::is_readable(contents[key][0])
            &&& plain matches Some(s) ==> s@ == headers::as_text(contents[key][0])
            &&& trimmed is Err <==> here && !headers::is_readable(contents[key][0])
            &&& trimmed matches Ok(Some(s)) ==> plain is Some && s@ == text::trimmed(plain->0@)
                && s@.len() > 0
            &&& trimmed matches Ok(None) ==> plain is None || text::trimmed(plain->0@).len() == 0
            &&& wide is Some <==> plain is Some && text::int_value(plain->0@, true) is Some
                && i64::MIN <= text::int_value(plain->0@, true)->0 <= i64::MAX
            &&& wide matches Some(n) ==> text::int_value(plain->0@, true) == Some(n as int)
            &&& narrow is Some <==> plain is Some && text::int_value(plain->0@, false) is Some && 0
                <= text::int_value(plain->0@, false)->0 <= 255
            &&& narrow matches Some(n) ==> text::int_value(plain->0@, false) == Some(n as int)
        }),
{
    let contents = headers::header_contents(*headers);
    law_first_value_is_read(contents, name@);
    law_trimmed_header(contents, name@);
}

} // verus!
