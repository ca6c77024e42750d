//! The headers of requests to the upstream.

use axum::http::HeaderMap;
use axum::http::HeaderName;
use axum::http::HeaderValue;
use vstd::prelude::*;
use vstd::set_lib::*;
use vstd::string::*;

use crate::accounts::AuthView;
use crate::accounts::ResolvedUpstreamAuth;
use crate::errors::ApiError;
use crate::errors::ApiErrorView;
use crate::headers;
use crate::request_headers;
use crate::request_headers::Contents;
use crate::text;

verus! {

/// The header with the account's id at the upstream.
pub const CHATGPT_ACCOUNT_ID_HEADER: &'static str = "chatgpt-account-id";

/// The header that marks a FedRAMP account.
pub const FEDRAMP_HEADER: &'static str = "x-openai-fedramp";

/// The header that names the client.
pub const ORIGINATOR_HEADER: &'static str = "originator";

/// The header with the client's version.
pub const VERSION_HEADER: &'static str = "version";

/// The version that is told where the client tells none.
pub const CLIENT_VERSION: &'static str = "0.121.0";

/// The header with the id of a request.
pub const X_CLIENT_REQUEST_ID_HEADER: &'static str = "x-client-request-id";

/// The type of answers that come bit by bit.
pub const EVENT_STREAM: &'static str = "text/event-stream";

/// How many headers are added to those of a request.
pub const ADDED_HEADERS: usize = 9;

/// A header of a request that is not forwarded to the upstream.
pub open spec fn skipped(name: Seq<char>) -> bool {
    ||| name == "host"@
    ||| name == "content-length"@
    ||| name == "connection"@
    ||| name == "authorization"@
    ||| text::lowered(name) == request_headers::ACCOUNT_ID_HEADER@
}

/// Whether a header of a request is not forwarded to the upstream.
pub fn should_skip_request_header(header_name: &HeaderName) -> (r: bool)
    ensures
        r == skipped(headers::name_text(*header_name)),
{
    let name = headers::name_str(header_name);
    text::same(name, "host") || text::same(name, "content-length") || text::same(name, "connection")
        || text::same(name, "authorization") || text::same(
        text::to_lower(name).as_str(),
        request_headers::ACCOUNT_ID_HEADER,
    )
}

/// The headers of a request that are forwarded to the upstream, of each its last value.
pub open spec fn forwarded(incoming: Contents) -> Contents {
    Map::new(
        |name: Seq<char>| incoming.contains_key(name) && !skipped(name),
        |name: Seq<char>| seq![incoming[name].last()],
    )
}

/// The headers with one more, where there is none of that name.
pub open spec fn with_default(contents: Contents, name: Seq<char>, value: Seq<u8>) -> Contents {
    if contents.contains_key(name) {
        contents
    } else {
        contents.insert(name, seq![value])
    }
}

/// The error of a header that cannot be built.
pub open spec fn unbuilt(what: Seq<char>) -> ApiErrorView {
    ApiErrorView::Internal("failed to build "@ + what + " header: "@ + headers::BAD_VALUE@)
}

/// The value of the authorization header for a token.
pub open spec fn bearer(token: Seq<char>) -> Seq<u8> {
    headers::as_bytes("Bearer "@ + token)
}

/// The headers of a request to the upstream, as far as they do not tell of the account.
pub open spec fn described(
    incoming: Contents,
    session_id: Seq<char>,
    originator: Seq<u8>,
) -> Contents {
    let session = headers::as_bytes(session_id);
    let a = with_default(forwarded(incoming), "accept"@, headers::as_bytes(EVENT_STREAM@));
    let b = a.insert("content-type"@, seq![headers::as_bytes("application/json"@)]);
    let c = with_default(b, ORIGINATOR_HEADER@, originator);
    let d = with_default(c, request_headers::SESSION_ID_HEADER@, session);
    let e = with_default(d, X_CLIENT_REQUEST_ID_HEADER@, session);
    with_default(e, VERSION_HEADER@, headers::as_bytes(CLIENT_VERSION@))
}

/// The headers with those that tell of the account.
pub open spec fn authorized(contents: Contents, auth: AuthView) -> Contents {
    let a = contents.insert("authorization"@, seq![bearer(auth.bearer_token)]);
    let b = match auth.chatgpt_account_id {
        Some(id) => a.insert(CHATGPT_ACCOUNT_ID_HEADER@, seq![headers::as_bytes(id)]),
        None => a,
    };
    if auth.is_fedramp_account {
        b.insert(FEDRAMP_HEADER@, seq![headers::as_bytes("true"@)])
    } else {
        b
    }
}

/// Why the upstream cannot be told the session.
pub open spec fn session_refusal(incoming: Contents, session_id: Seq<char>) -> Option<
    ApiErrorView,
> {
    let kept = forwarded(incoming);
    if headers::is_value(headers::as_bytes(session_id)) {
        None
    } else if !kept.contains_key(request_headers::SESSION_ID_HEADER@) {
        Some(unbuilt(request_headers::SESSION_ID_HEADER@))
    } else if !kept.contains_key(X_CLIENT_REQUEST_ID_HEADER@) {
        Some(unbuilt(X_CLIENT_REQUEST_ID_HEADER@))
    } else {
        None
    }
}

/// The headers of a request to the upstream, or why they cannot be built.
pub open spec fn upstream_headers(
    incoming: Contents,
    auth: AuthView,
    session_id: Seq<char>,
    originator: Seq<u8>,
) -> Result<Contents, ApiErrorView> {
    let refusal = session_refusal(incoming, session_id);
    if refusal is Some {
        Err(refusal->0)
    } else if !headers::is_value(bearer(auth.bearer_token)) {
        Err(unbuilt("authorization"@))
    } else if auth.chatgpt_account_id is Some && !headers::is_value(
        headers::as_bytes(auth.chatgpt_account_id->0),
    ) {
        Err(unbuilt("ChatGPT account id"@))
    } else {
        Ok(authorized(described(incoming, session_id, originator), auth))
    }
}

/// `r` is the given result.
pub open spec fn headers_are(
    r: Result<HeaderMap<HeaderValue>, ApiError>,
    expected: Result<Contents, ApiErrorView>,
) -> bool {
    match r {
        Ok(headers) => expected == Ok::<_, ApiErrorView>(headers::header_contents(headers)),
        Err(err) => expected == Err::<Contents, _>(err@),
    }
}

/// The error of headers that a map has no room for.
pub open spec fn overfull() -> ApiErrorView {
    ApiErrorView::Internal("failed to build upstream headers: "@ + headers::MAP_FULL@)
}

/// `r` is what the headers of a request to the upstream come to. Where very many headers are forwarded,
/// there may be no room for them.
pub open spec fn builds(
    r: Result<HeaderMap<HeaderValue>, ApiError>,
    incoming: Contents,
    auth: AuthView,
    session_id: Seq<char>,
    originator: Seq<u8>,
) -> bool {
    ||| headers_are(r, upstream_headers(incoming, auth, session_id, originator))
    ||| forwarded(incoming).dom().len() + ADDED_HEADERS > headers::ALWAYS_ROOM && r is Err
        && r->Err_0@ == overfull()
}

/// Each name has a value.
pub open spec fn solid(contents: Contents) -> bool {
    forall|name: Seq<char>| #[trigger] contents.contains_key(name) ==> contents[name].len() > 0
}

/// There is room for `n` more names.
pub open spec fn has_room(contents: Contents, n: int) -> bool {
    contents.dom().finite() && contents.dom().len() + n <= headers::ALWAYS_ROOM + 1
}

pub(crate) proof fn lemma_values_grow(
    entries: Seq<(HeaderName, HeaderValue)>,
    k: int,
    name: Seq<char>,
)
    requires
        0 <= k <= entries.len(),
    ensures
        headers::values_of(entries.take(k), name).len() <= headers::values_of(entries, name).len(),
    decreases entries.len() - k,
{
    if k < entries.len() {
        lemma_values_grow(entries, k + 1, name);
        assert(entries.take(k + 1).drop_last() =~= entries.take(k));
    } else {
        assert(entries.take(k) =~= entries);
    }
}

pub(crate) proof fn lemma_within(part: Contents, whole: Contents)
    requires
        whole.dom().finite(),
        forall|name: Seq<char>| #[trigger] part.contains_key(name) ==> whole.contains_key(name),
    ensures
        part.dom().finite(),
        part.dom().len() <= whole.dom().len(),
{
    assert(part.dom().subset_of(whole.dom())) by {
        assert forall|name: Seq<char>| #[trigger] part.dom().contains(name) implies whole.dom().contains(
            name,
        ) by {
            assert(part.contains_key(name));
        }
    }
    lemma_len_subset(part.dom(), whole.dom());
}

proof fn lemma_forwarded_within(incoming: Contents)
    requires
        incoming.dom().finite(),
    ensures
        forwarded(incoming).dom().finite(),
        forwarded(incoming).dom().len() <= incoming.dom().len(),
{
    let kept = forwarded(incoming);
    assert forall|n: Seq<char>| #[trigger] kept.contains_key(n) implies incoming.contains_key(n) by {}
    lemma_within(kept, incoming);
}

fn overfull_error(message: &str) -> (err: ApiError)
    requires
        message@ == headers::MAP_FULL@,
    ensures
        err@ == overfull(),
{
    ApiError::Internal("failed to build upstream headers: ".to_string().concat(message))
}

/// The headers of a request that are forwarded to the upstream.
fn forward(incoming: &HeaderMap<HeaderValue>) -> (r: Result<HeaderMap<HeaderValue>, ApiError>)
    ensures
        match r {
            Ok(r) => headers::header_contents(r) == forwarded(headers::header_contents(*incoming)),
            Err(err) => err@ == overfull() && forwarded(
                headers::header_contents(*incoming),
            ).dom().len() > headers::ALWAYS_ROOM,
        },
        headers::header_contents(*incoming).dom().finite(),
{
    let ghost from = headers::header_contents(*incoming);
    let entries = headers::entries(incoming);
    let mut r = headers::no_headers();
    let ghost all = entries@;
    for entry in it: entries
        invariant
            it.seq() == all,
            headers::lists_contents(all, from),
            from == headers::header_contents(*incoming),
            forall|name: Seq<char>|
                #![trigger headers::header_contents(r).contains_key(name)]
                headers::header_contents(r).contains_key(name) <==> !skipped(name)
                    && headers::values_of(all.take(it.index()), name).len() > 0,
            forall|name: Seq<char>|
                #![trigger headers::header_contents(r)[name]]
                headers::header_contents(r).contains_key(name) ==> headers::header_contents(r)[name]
                    == seq![headers::values_of(all.take(it.index()), name).last()],
    {
        let ghost k = it.index();
        let ghost before = headers::header_contents(r);
        assert(all.take(k + 1).drop_last() =~= all.take(k));
        let (name, value) = entry;
        proof {
            assert forall|n: Seq<char>| #[trigger] before.contains_key(
                n,
            ) implies from.contains_key(n) by {
                lemma_values_grow(all, k, n);
                assert(headers::values_of(all, n).len() > 0);
            }
            lemma_forwarded_within(from);
            assert forall|n: Seq<char>| #[trigger] before.contains_key(n) implies forwarded(
                from,
            ).contains_key(n) by {
                assert(from.contains_key(n));
            }
            lemma_within(before, forwarded(from));
        }
        if !should_skip_request_header(&name) {
            match headers::insert(&mut r, name, value) {
                Ok(_) => {},
                Err(message) => {
                    return Err(overfull_error(message.as_str()));
                },
            }
        }
    }
    proof {
        assert(all.take(all.len() as int) =~= all);
        let contents = headers::header_contents(r);
        assert forall|n: Seq<char>| #[trigger] contents.dom().contains(n) <==> forwarded(
            from,
        ).dom().contains(n) by {
            assert(contents.contains_key(n) == contents.dom().contains(n));
            assert(headers::values_of(all, n).len() > 0 <==> from.contains_key(n));
        }
        assert forall|n: Seq<char>| #[trigger] contents.dom().contains(n) implies contents[n]
            == forwarded(from)[n] by {
            assert(contents.contains_key(n));
            assert(from.contains_key(n) ==> from[n] == headers::values_of(all, n));
            assert(headers::values_of(all, n).len() > 0 <==> from.contains_key(n));
        }
        assert(contents =~= forwarded(from));
    }
    Ok(r)
}

/// Whether there is a header of a name.
fn has_header(headers: &HeaderMap<HeaderValue>, name: &'static str) -> (r: bool)
    requires
        solid(headers::header_contents(*headers)),
        headers::is_name(name@),
        text::lowered(name@) == name@,
    ensures
        r == headers::header_contents(*headers).contains_key(name@),
{
    headers::get(headers, name).is_some()
}

/// Adds a header in place of those of its name.
fn put(headers: &mut HeaderMap<HeaderValue>, name: &'static str, value: HeaderValue) -> (r: Result<
    (),
    ApiError,
>)
    requires
        solid(headers::header_contents(*old(headers))),
        headers::is_name(name@),
    ensures
        ({
            let before = headers::header_contents(*old(headers));
            let after = headers::header_contents(*final(headers));
            match r {
                Ok(_) => {
                    &&& after == before.insert(name@, seq![headers::value_bytes(value)])
                    &&& solid(after)
                    &&& forall|n: int| #[trigger] has_room(before, n) ==> has_room(after, n - 1)
                },
                Err(err) => err@ == overfull() && !has_room(before, 1),
            }
        }),
{
    let ghost before = headers::header_contents(*headers);
    match headers::insert(headers, headers::static_name(name), value) {
        Ok(_) => {},
        Err(message) => {
            return Err(overfull_error(message.as_str()));
        },
    }
    proof {
        let after = headers::header_contents(*headers);
        assert(after.dom() =~= before.dom().insert(name@));
        assert forall|n: Seq<char>| #[trigger] after.contains_key(n) implies after[n].len() > 0 by {
            if n != name@ {
                assert(before.contains_key(n));
            }
        }
    }
    Ok(())
}

/// A text of the characters of header names without capitals is a header name.
pub open spec fn is_plain_name(name: Seq<char>) -> bool {
    headers::is_name(name) && text::lowered(name) == name
}

proof fn lemma_names()
    ensures
        is_plain_name("accept"@),
        is_plain_name("content-type"@),
        is_plain_name("originator"@),
        is_plain_name("session_id"@),
        is_plain_name("x-client-request-id"@),
        is_plain_name("version"@),
        is_plain_name("authorization"@),
        is_plain_name("chatgpt-account-id"@),
        is_plain_name("x-openai-fedramp"@),
{
    reveal_strlit("accept");
    assert(text::lowered("accept"@) =~= "accept"@);
    reveal_strlit("content-type");
    assert(text::lowered("content-type"@) =~= "content-type"@);
    reveal_strlit("originator");
    assert(text::lowered("originator"@) =~= "originator"@);
    reveal_strlit("session_id");
    assert(text::lowered("session_id"@) =~= "session_id"@);
    reveal_strlit("x-client-request-id");
    assert(text::lowered("x-client-request-id"@) =~= "x-client-request-id"@);
    reveal_strlit("version");
    assert(text::lowered("version"@) =~= "version"@);
    reveal_strlit("authorization");
    assert(text::lowered("authorization"@) =~= "authorization"@);
    reveal_strlit("chatgpt-account-id");
    assert(text::lowered("chatgpt-account-id"@) =~= "chatgpt-account-id"@);
    reveal_strlit("x-openai-fedramp");
    assert(text::lowered("x-openai-fedramp"@) =~= "x-openai-fedramp"@);
}

proof fn lemma_names_differ()
    ensures
        "accept"@.len() == 6,
        "version"@.len() == 7,
        "originator"@.len() == 10,
        "session_id"@.len() == 10,
        "originator"@ != "session_id"@,
        "content-type"@.len() == 12,
        "authorization"@.len() == 13,
        "x-openai-fedramp"@.len() == 16,
        "chatgpt-account-id"@.len() == 18,
        "x-client-request-id"@.len() == 19,
{
    reveal_strlit("accept");
    reveal_strlit("version");
    reveal_strlit("originator");
    reveal_strlit("session_id");
    reveal_strlit("content-type");
    reveal_strlit("authorization");
    reveal_strlit("x-openai-fedramp");
    reveal_strlit("chatgpt-account-id");
    reveal_strlit("x-client-request-id");
    assert("originator"@[0] == 'o');
    assert("session_id"@[0] == 's');
}

proof fn lemma_values()
    ensures
        headers::is_readable(headers::as_bytes("text/event-stream"@)),
        headers::is_readable(headers::as_bytes("application/json"@)),
        headers::is_readable(headers::as_bytes("0.121.0"@)),
        headers::is_readable(headers::as_bytes("true"@)),
{
    reveal_strlit("text/event-stream");
    reveal_strlit("application/json");
    reveal_strlit("0.121.0");
    reveal_strlit("true");
    headers::lemma_plain("text/event-stream"@);
    headers::lemma_plain("application/json"@);
    headers::lemma_plain("0.121.0"@);
    headers::lemma_plain("true"@);
}

fn unbuilt_error(what: &str, message: &str) -> (err: ApiError)
    requires
        message@ == headers::BAD_VALUE@,
    ensures
        err@ == unbuilt(what@),
{
    ApiError::Internal(
        "failed to build ".to_string().concat(what).concat(" header: ").concat(message),
    )
}

/// Adds a header with the id of the session, where there is none of that name.
fn put_session(headers: &mut HeaderMap<HeaderValue>, name: &'static str, session_id: &str) -> (r:
    Result<(), ApiError>)
    requires
        solid(headers::header_contents(*old(headers))),
        is_plain_name(name@),
    ensures
        ({
            let before = headers::header_contents(*old(headers));
            let after = headers::header_contents(*final(headers));
            let ok = before.contains_key(name@) || headers::is_value(
                headers::as_bytes(session_id@),
            );
            match r {
                Ok(_) => {
                    &&& ok
                    &&& after == with_default(before, name@, headers::as_bytes(session_id@))
                    &&& solid(after)
                    &&& forall|n: int| #[trigger] has_room(before, n) ==> has_room(after, n - 1)
                },
                Err(err) => if ok {
                    err@ == overfull() && !has_room(before, 1)
                } else {
                    err@ == unbuilt(name@)
                },
            }
        }),
{
    if has_header(headers, name) {
        return Ok(());
    }
    match headers::value_from_str(session_id) {
        Ok(value) => put(headers, name, value),
        Err(message) => Err(unbuilt_error(name, message.as_str())),
    }
}

/// Adds a header where there is none of its name.
fn put_default(headers: &mut HeaderMap<HeaderValue>, name: &'static str, value: HeaderValue) -> (r:
    Result<(), ApiError>)
    requires
        solid(headers::header_contents(*old(headers))),
        is_plain_name(name@),
    ensures
        ({
            let before = headers::header_contents(*old(headers));
            let after = headers::header_contents(*final(headers));
            match r {
                Ok(_) => {
                    &&& after == with_default(before, name@, headers::value_bytes(value))
                    &&& solid(after)
                    &&& forall|n: int| #[trigger] has_room(before, n) ==> has_room(after, n - 1)
                },
                Err(err) => err@ == overfull() && !has_room(before, 1),
            }
        }),
{
    if has_header(headers, name) {
        return Ok(());
    }
    put(headers, name, value)
}

/// The headers of a request to the upstream, as far as they do not tell of the account.
fn describe(
    incoming_headers: &HeaderMap<HeaderValue>,
    session_id: &str,
    originator: HeaderValue,
) -> (r: Result<HeaderMap<HeaderValue>, ApiError>)
    ensures
        ({
            let incoming = headers::header_contents(*incoming_headers);
            let refusal = session_refusal(incoming, session_id@);
            match r {
                Ok(upstream) => {
                    let contents = headers::header_contents(upstream);
                    &&& refusal is None
                    &&& contents == described(
                        incoming,
                        session_id@,
                        headers::value_bytes(originator),
                    )
                    &&& solid(contents)
                    &&& has_room(forwarded(incoming), ADDED_HEADERS as int + 1) ==> has_room(
                        contents,
                        4,
                    )
                },
                Err(err) => {
                    ||| refusal == Some(err@)
                    ||| err@ == overfull() && !has_room(
                        forwarded(incoming),
                        ADDED_HEADERS as int + 1,
                    )
                },
            }
        }),
        forwarded(headers::header_contents(*incoming_headers)).dom().finite(),
{
    let ghost incoming = headers::header_contents(*incoming_headers);
    let forwards = forward(incoming_headers);
    proof {
        lemma_names();
        lemma_names_differ();
        lemma_values();
        lemma_forwarded_within(incoming);
    }
    let mut upstream = forwards?;
    let ghost fits = has_room(forwarded(incoming), ADDED_HEADERS as int + 1);
    assert(fits ==> has_room(headers::header_contents(upstream), ADDED_HEADERS as int + 1));
    put_default(&mut upstream, "accept", headers::static_value(EVENT_STREAM))?;
    assert(fits ==> has_room(headers::header_contents(upstream), ADDED_HEADERS as int));
    put(&mut upstream, "content-type", headers::static_value("application/json"))?;
    assert(fits ==> has_room(headers::header_contents(upstream), ADDED_HEADERS - 1));
    put_default(&mut upstream, ORIGINATOR_HEADER, originator)?;
    assert(fits ==> has_room(headers::header_contents(upstream), ADDED_HEADERS - 2));
    put_session(&mut upstream, request_headers::SESSION_ID_HEADER, session_id)?;
    assert(fits ==> has_room(headers::header_contents(upstream), ADDED_HEADERS - 3));
    put_session(&mut upstream, X_CLIENT_REQUEST_ID_HEADER, session_id)?;
    assert(fits ==> has_room(headers::header_contents(upstream), ADDED_HEADERS - 4));
    put_default(&mut upstream, VERSION_HEADER, headers::static_value(CLIENT_VERSION))?;
    assert(fits ==> has_room(headers::header_contents(upstream), ADDED_HEADERS - 5));
    Ok(upstream)
}

/// The headers of a request to the upstream: those of the incoming request that are forwarded, the
/// missing ones of those that the upstream wants, and those that tell of the account.
pub fn build_upstream_headers(
    incoming_headers: &HeaderMap<HeaderValue>,
    auth: &ResolvedUpstreamAuth,
    session_id: &str,
    originator: HeaderValue,
) -> (r: Result<HeaderMap<HeaderValue>, ApiError>)
    ensures
        builds(
            r,
            headers::header_contents(*incoming_headers),
            auth@,
            session_id@,
            headers::value_bytes(originator),
        ),
{
    let ghost incoming = headers::header_contents(*incoming_headers);
    let mut upstream = describe(incoming_headers, session_id, originator)?;
    proof {
        lemma_names();
        lemma_values();
    }
    let ghost fits = has_room(forwarded(incoming), ADDED_HEADERS as int + 1);
    let authorization = "Bearer ".to_string().concat(auth.bearer_token.as_str());
    match headers::value_from_str(authorization.as_str()) {
        Ok(value) => {
            put(&mut upstream, "authorization", value)?;
        },
        Err(message) => {
            return Err(unbuilt_error("authorization", message.as_str()));
        },
    }
    assert(fits ==> has_room(headers::header_contents(upstream), 3));
    if let Some(chatgpt_account_id) = &auth.chatgpt_account_id {
        match headers::value_from_str(chatgpt_account_id.as_str()) {
            Ok(value) => {
                put(&mut upstream, CHATGPT_ACCOUNT_ID_HEADER, value)?;
            },
            Err(message) => {
                return Err(unbuilt_error("ChatGPT account id", message.as_str()));
            },
        }
    }
    assert(fits ==> has_room(headers::header_contents(upstream), 2));
    if auth.is_fedramp_account {
        put(&mut upstream, FEDRAMP_HEADER, headers::static_value("true"))?;
    }
    Ok(upstream)
}

proof fn lemma_skipped_differ()
    ensures
        "host"@.len() == 4,
        "content-length"@.len() == 14,
        "connection"@.len() == 10,
        "connection"@ != "originator"@,
        "connection"@ != "session_id"@,
        "x-codex-account-id"@.len() == 18,
        "x-codex-account-id"@ != "chatgpt-account-id"@,
        text::lowered("x-codex-account-id"@) == "x-codex-account-id"@,
{
    reveal_strlit("host");
    reveal_strlit("content-length");
    reveal_strlit("connection");
    reveal_strlit("originator");
    reveal_strlit("session_id");
    reveal_strlit("x-codex-account-id");
    reveal_strlit("chatgpt-account-id");
    assert("connection"@[0] == 'c');
    assert("originator"@[0] == 'o');
    assert("session_id"@[0] == 's');
    assert("x-codex-account-id"@[0] == 'x');
    assert("chatgpt-account-id"@[0] == 'c');
    assert(text::lowered("x-codex-account-id"@) =~= "x-codex-account-id"@);
}

/// The upstream sees the account's token and nothing else as authorization: the proxy's own key does
/// not get there. Nor do the headers that belong to one connection, or the choice of the account.
pub proof fn law_only_the_account_is_authorized(
    incoming: Contents,
    auth: AuthView,
    session_id: Seq<char>,
    originator: Seq<u8>,
)
    ensures
        upstream_headers(incoming, auth, session_id, originator) matches Ok(contents) ==> {
            &&& contents.contains_key("authorization"@)
            &&& contents["authorization"@] == seq![bearer(auth.bearer_token)]
            &&& !contents.contains_key("host"@)
            &&& !contents.contains_key("content-length"@)
            &&& !contents.contains_key("connection"@)
            &&& !contents.contains_key(request_headers::ACCOUNT_ID_HEADER@)
        },
{
    lemma_names_differ();
    lemma_skipped_differ();
}

/// What the client sends to the proxy alone does not reach the upstream: two requests that differ only
/// in their authorization, in the headers that belong to one connection and in the account that they
/// ask for get the same headers. That holds however many headers they have: what `build_upstream_headers`
/// may answer is the same, also where there may be no room.
pub proof fn law_skipped_headers_do_not_matter(
    incoming: Contents,
    other: Contents,
    auth: AuthView,
    session_id: Seq<char>,
    originator: Seq<u8>,
)
    requires
        forall|name: Seq<char>|
            !skipped(name) ==> (#[trigger] incoming.contains_key(name) <==> other.contains_key(
                name,
            )),
        forall|name: Seq<char>|
            !skipped(name) && #[trigger] incoming.contains_key(name) ==> incoming[name]
                == other[name],
    ensures
        upstream_headers(incoming, auth, session_id, originator) == upstream_headers(
            other,
            auth,
            session_id,
            originator,
        ),
        forall|r: Result<HeaderMap<HeaderValue>, ApiError>| #[trigger]
            builds(r, incoming, auth, session_id, originator) <==> builds(
                r,
                other,
                auth,
                session_id,
                originator,
            ),
{
    assert(forwarded(incoming) =~= forwarded(other));
}

/// A header that is set in any case.
pub open spec fn is_set(name: Seq<char>, auth: AuthView) -> bool {
    ||| name == "content-type"@
    ||| name == "authorization"@
    ||| name == CHATGPT_ACCOUNT_ID_HEADER@ && auth.chatgpt_account_id is Some
    ||| name == FEDRAMP_HEADER@ && auth.is_fedramp_account
}

/// Every other header of the request gets to the upstream with its last value.
pub proof fn law_other_headers_are_forwarded(
    incoming: Contents,
    auth: AuthView,
    session_id: Seq<char>,
    originator: Seq<u8>,
    name: Seq<char>,
)
    requires
        incoming.contains_key(name),
        !skipped(name),
        !is_set(name, auth),
    ensures
        upstream_headers(incoming, auth, session_id, originator) matches Ok(contents) ==> {
            &&& contents.contains_key(name)
            &&& contents[name] == seq![incoming[name].last()]
        },
{
    let kept = forwarded(incoming);
    assert(kept.contains_key(name));
    assert(kept[name] == seq![incoming[name].last()]);
}

/// The upstream is told the session and an id of the request, that of the session where the request
/// has none of its own.
pub proof fn law_session_is_told(
    incoming: Contents,
    auth: AuthView,
    session_id: Seq<char>,
    originator: Seq<u8>,
)
    requires
        !incoming.contains_key(request_headers::SESSION_ID_HEADER@),
        !incoming.contains_key(X_CLIENT_REQUEST_ID_HEADER@),
    ensures
        upstream_headers(incoming, auth, session_id, originator) matches Ok(contents) ==> {
            &&& contents.contains_key(request_headers::SESSION_ID_HEADER@)
            &&& contents[request_headers::SESSION_ID_HEADER@] == seq![
                headers::as_bytes(session_id),
            ]
            &&& contents.contains_key(X_CLIENT_REQUEST_ID_HEADER@)
            &&& contents[X_CLIENT_REQUEST_ID_HEADER@] == seq![headers::as_bytes(session_id)]
        },
{
    lemma_names_differ();
}

/// A name that a request's own connection to the proxy, its key or the choice of its account is told
/// under does not get to the upstream, and every other does: with its last value, unless it is one that
/// is set in any case. So the encoding of a compressed body is told, for one.
pub proof fn law_all_but_five_headers_are_forwarded(
    incoming: Contents,
    auth: AuthView,
    session_id: Seq<char>,
    originator: Seq<u8>,
    name: Seq<char>,
)
    requires
        incoming.contains_key(name),
        name != "host"@,
        name != "content-length"@,
        name != "connection"@,
        name != "authorization"@,
        text::lowered(name) != "x-codex-account-id"@,
        name != "content-type"@,
        name == "chatgpt-account-id"@ ==> auth.chatgpt_account_id is None,
        name == "x-openai-fedramp"@ ==> !auth.is_fedramp_account,
    ensures
        upstream_headers(incoming, auth, session_id, originator) matches Ok(contents) ==> {
            &&& contents.contains_key(name)
            &&& contents[name] == seq![incoming[name].last()]
        },
{
    law_other_headers_are_forwarded(incoming, auth, session_id, originator, name);
}

/// The encoding that a client tells for its body is told to the upstream.
pub proof fn law_content_encoding_is_forwarded(
    incoming: Contents,
    auth: AuthView,
    session_id: Seq<char>,
    originator: Seq<u8>,
)
    requires
        incoming.contains_key("content-encoding"@),
    ensures
        upstream_headers(incoming, auth, session_id, originator) matches Ok(contents) ==> {
            &&& contents.contains_key("content-encoding"@)
            &&& contents["content-encoding"@] == seq![incoming["content-encoding"@].last()]
        },
{
    lemma_names_differ();
    lemma_skipped_differ();
    reveal_strlit("content-encoding");
    reveal_strlit("x-openai-fedramp");
    assert("content-encoding"@.len() == 16);
    assert("content-encoding"@[0] == 'c');
    assert("x-openai-fedramp"@[0] == 'x');
    assert(text::lowered("content-encoding"@).len() == 16);
    law_all_but_five_headers_are_forwarded(
        incoming,
        auth,
        session_id,
        originator,
        "content-encoding"@,
    );
}

/// A header with the given value, where the client gives none.
pub open spec fn given_or(incoming: Contents, name: Seq<char>, value: Seq<u8>) -> Seq<Seq<u8>> {
    if incoming.contains_key(name) {
        seq![incoming[name].last()]
    } else {
        seq![value]
    }
}

/// What the upstream is told in any case, and what it is told where the client does not tell it.
pub proof fn law_upstream_is_told(
    incoming: Contents,
    auth: AuthView,
    session_id: Seq<char>,
    originator: Seq<u8>,
)
    ensures
        upstream_headers(incoming, auth, session_id, originator) matches Ok(contents) ==> {
            let session = headers::as_bytes(session_id);
            &&& contents.contains_key("content-type"@)
            &&& contents["content-type"@] == seq![headers::as_bytes("application/json"@)]
            &&& contents.contains_key("authorization"@)
            &&& contents["authorization"@] == seq![
                headers::as_bytes("Bearer "@ + auth.bearer_token),
            ]
            &&& contents.contains_key("accept"@)
            &&& contents["accept"@] == given_or(
                incoming,
                "accept"@,
                headers::as_bytes("text/event-stream"@),
            )
            &&& contents.contains_key("originator"@)
            &&& contents["originator"@] == given_or(incoming, "originator"@, originator)
            &&& contents.contains_key("session_id"@)
            &&& contents["session_id"@] == given_or(incoming, "session_id"@, session)
            &&& contents.contains_key("x-client-request-id"@)
            &&& contents["x-client-request-id"@] == given_or(
                incoming,
                "x-client-request-id"@,
                session,
            )
            &&& contents.contains_key("version"@)
            &&& contents["version"@] == given_or(
                incoming,
                "version"@,
                headers::as_bytes("0.121.0"@),
            )
        },
{
    lemma_names_differ();
    lemma_skipped_differ();
    lemma_lowered_lengths();
}

proof fn lemma_lowered_lengths()
    ensures
        text::lowered("accept"@).len() == 6,
        text::lowered("version"@).len() == 7,
        text::lowered("originator"@).len() == 10,
        text::lowered("session_id"@).len() == 10,
        text::lowered("x-client-request-id"@).len() == 19,
        text::lowered("x-openai-fedramp"@).len() == 16,
        text::lowered("chatgpt-account-id"@) == "chatgpt-account-id"@,
        "x-codex-account-id"@ != "chatgpt-account-id"@,
        "x-codex-account-id"@.len() == 18,
{
    lemma_names_differ();
    lemma_skipped_differ();
    lemma_names();
}

/// The upstream is told which account it is that asks, and whether it is a FedRAMP account, exactly if
/// that is known. Otherwise what the client says of it, if anything, is passed on.
pub proof fn law_account_is_told(
    incoming: Contents,
    auth: AuthView,
    session_id: Seq<char>,
    originator: Seq<u8>,
)
    ensures
        upstream_headers(incoming, auth, session_id, originator) matches Ok(contents) ==> {
            &&& auth.chatgpt_account_id matches Some(id) ==> contents.contains_key(
                "chatgpt-account-id"@,
            ) && contents["chatgpt-account-id"@] == seq![headers::as_bytes(id)]
            &&& auth.chatgpt_account_id is None ==> (contents.contains_key("chatgpt-account-id"@)
                <==> incoming.contains_key("chatgpt-account-id"@))
            &&& auth.is_fedramp_account ==> contents.contains_key("x-openai-fedramp"@)
                && contents["x-openai-fedramp"@] == seq![headers::as_bytes("true"@)]
            &&& !auth.is_fedramp_account ==> (contents.contains_key("x-openai-fedramp"@)
                <==> incoming.contains_key("x-openai-fedramp"@))
        },
{
    lemma_names_differ();
    lemma_skipped_differ();
    lemma_lowered_lengths();
}

/// No header gets to the upstream that the client did not send and that is not one of those that are
/// set.
pub proof fn law_no_other_headers_are_sent(
    incoming: Contents,
    auth: AuthView,
    session_id: Seq<char>,
    originator: Seq<u8>,
    name: Seq<char>,
)
    requires
        !incoming.contains_key(name),
        name != "content-type"@,
        name != "authorization"@,
        name != "accept"@,
        name != "originator"@,
        name != "session_id"@,
        name != "x-client-request-id"@,
        name != "version"@,
        name == "chatgpt-account-id"@ ==> auth.chatgpt_account_id is None,
        name == "x-openai-fedramp"@ ==> !auth.is_fedramp_account,
    ensures
        upstream_headers(incoming, auth, session_id, originator) matches Ok(contents)
            ==> !contents.contains_key(name),
{
}

/// The headers cannot be built exactly if the session, the token or the account's id cannot be the
/// value of a header; the session only where the client does not name it itself.
pub proof fn law_when_headers_cannot_be_built(
    incoming: Contents,
    auth: AuthView,
    session_id: Seq<char>,
    originator: Seq<u8>,
)
    ensures
        upstream_headers(incoming, auth, session_id, originator) is Err <==> {
            ||| !headers::is_value(headers::as_bytes(session_id)) && !(incoming.contains_key(
                "session_id"@,
            ) && incoming.contains_key("x-client-request-id"@))
            ||| !headers::is_value(headers::as_bytes("Bearer "@ + auth.bearer_token))
            ||| auth.chatgpt_account_id is Some && !headers::is_value(
                headers::as_bytes(auth.chatgpt_account_id->0),
            )
        },
        upstream_headers(incoming, auth, session_id, originator) matches Err(err) ==> err
            is Internal && err.status() == 502,
        headers::is_value(headers::as_bytes(session_id)) && !headers::is_value(
            headers::as_bytes("Bearer "@ + auth.bearer_token),
        ) ==> upstream_headers(incoming, auth, session_id, originator) == Err::<Contents, _>(
            ApiErrorView::Internal(
                "failed to build "@ + "authorization"@ + " header: "@
                    + "failed to parse header value"@,
            ),
        ),
        !headers::is_value(headers::as_bytes(session_id)) && !incoming.contains_key("session_id"@)
            ==> upstream_headers(incoming, auth, session_id, originator) == Err::<Contents, _>(
            ApiErrorView::Internal(
                "failed to build "@ + "session_id"@ + " header: "@
                    + "failed to parse header value"@,
            ),
        ),
        headers::is_value(headers::as_bytes(session_id)) && headers::is_value(
            headers::as_bytes("Bearer "@ + auth.bearer_token),
        ) && auth.chatgpt_account_id is Some && !headers::is_value(
            headers::as_bytes(auth.chatgpt_account_id->0),
        ) ==> upstream_headers(incoming, auth, session_id, originator) == Err::<Contents, _>(
            ApiErrorView::Internal(
                "failed to build "@ + "ChatGPT account id"@ + " header: "@
                    + "failed to parse header value"@,
            ),
        ),
{
    lemma_names_differ();
    lemma_skipped_differ();
    lemma_lowered_lengths();
}

/// Which headers of a request are not forwarded: five, and no others.
pub proof fn law_five_headers_are_skipped(name: Seq<char>)
    ensures
        skipped(name) <==> name == "host"@ || name == "content-length"@ || name == "connection"@
            || name == "authorization"@ || text::lowered(name) == "x-codex-account-id"@,
{
}

/// A header of a request is skipped exactly if it is one of the five that are meant for the proxy or
/// belong to one connection.
pub proof fn law_skipping_headers(name: &HeaderName, r: bool)
    requires
        call_ensures(should_skip_request_header, (name,), r),
    ensures
        r <==> {
            let s = headers::name_text(*name);
            s == "host"@ || s == "content-length"@ || s == "connection"@ || s == "authorization"@
                || text::lowered(s) == "x-codex-account-id"@
        },
{
    law_five_headers_are_skipped(headers::name_text(*name));
}

/// The headers that are built for the upstream hold the last value of every header of the request other
/// than the five that are skipped and those that are set in any case, are authorized with the account's
/// token alone, and tell the encoding of the body where the client does.
pub proof fn law_building_upstream_headers(
    incoming_headers: &HeaderMap<HeaderValue>,
    auth: &ResolvedUpstreamAuth,
    session_id: &str,
    originator: HeaderValue,
    r: Result<HeaderMap<HeaderValue>, ApiError>,
    name: Seq<char>,
)
    requires
        call_ensures(build_upstream_headers, (incoming_headers, auth, session_id, originator), r),
        r is Ok,
    ensures
        ({
            let incoming = headers::header_contents(*incoming_headers);
            let sent = headers::header_contents(r->Ok_0);
            &&& sent.contains_key("authorization"@)
            &&& sent["authorization"@] == seq![
                headers::as_bytes("Bearer "@ + auth.bearer_token@),
            ]
            &&& sent["content-type"@] == seq![headers::as_bytes("application/json"@)]
            &&& !sent.contains_key("host"@)
            &&& !sent.contains_key("content-length"@)
            &&& !sent.contains_key("connection"@)
            &&& !sent.contains_key("x-codex-account-id"@)
            &&& incoming.contains_key("content-encoding"@) ==> sent.contains_key(
                "content-encoding"@,
            ) && sent["content-encoding"@] == seq![incoming["content-encoding"@].last()]
            &&& incoming.contains_key(name) && name != "host"@ && name != "content-length"@ && name
                != "connection"@ && name != "authorization"@ && text::lowered(name)
                != "x-codex-account-id"@ && name != "content-type"@ && name != "chatgpt-account-id"@
                && name != "x-openai-fedramp"@ ==> sent.contains_key(name) && sent[name] == seq![
                incoming[name].last(),
            ]
        }),
{
    let incoming = headers::header_contents(*incoming_headers);
    let origin = headers::value_bytes(originator);
    law_only_the_account_is_authorized(incoming, auth@, session_id@, origin);
    law_upstream_is_told(incoming, auth@, session_id@, origin);
    if incoming.contains_key("content-encoding"@) {
        law_content_encoding_is_forwarded(incoming, auth@, session_id@, origin);
    }
    if incoming.contains_key(name) && name != "host"@ && name != "content-length"@ && name
        != "connection"@ && name != "authorization"@ && text::lowered(name)
        != "x-codex-account-id"@ && name != "content-type"@ && name != "chatgpt-account-id"@ && name
        != "x-openai-fedramp"@ {
        law_all_but_five_headers_are_forwarded(incoming, auth@, session_id@, origin, name);
    }
}

} // verus!
