use axum::http::HeaderMap;
use axum::http::HeaderName;
use axum::http::HeaderValue;
use axum::http::StatusCode;
use openai_codex_proxy::accounts::AccountState;
use openai_codex_proxy::accounts::ResolvedUpstreamAuth;
use openai_codex_proxy::accounts::RouteError;
use openai_codex_proxy::accounts::StoredAccount;
use openai_codex_proxy::accounts::auth_snapshot;
use openai_codex_proxy::downstream::downstream_headers;
use openai_codex_proxy::errors::ApiError;
use openai_codex_proxy::errors::status_string;
use openai_codex_proxy::json;
use openai_codex_proxy::proxy;
use openai_codex_proxy::proxy::Outcome;
use openai_codex_proxy::proxy::ProxyRequest;
use openai_codex_proxy::proxy_auth::ProxyAuth;
use openai_codex_proxy::proxy_auth::generate_api_key;
use openai_codex_proxy::registry::AccountRegistry;
use openai_codex_proxy::request_headers;
use openai_codex_proxy::selection::AccountLease;
use openai_codex_proxy::selection::SelectionStep;
use openai_codex_proxy::selection::resume_with_usage;
use openai_codex_proxy::upstream;

fn headers(items: &[(&str, &str)]) -> HeaderMap<HeaderValue> {
    let mut map = HeaderMap::new();
    for (name, value) in items {
        map.append(
            HeaderName::from_bytes(name.as_bytes()).unwrap(),
            HeaderValue::from_bytes(value.as_bytes()).unwrap(),
        );
    }
    map
}

fn key(key: &str) -> ProxyAuth {
    ProxyAuth::load_or_create(Some(key.to_string()))
}

fn auth(token: &str, account: Option<&str>, fedramp: bool) -> ResolvedUpstreamAuth {
    ResolvedUpstreamAuth {
        bearer_token: token.to_string(),
        chatgpt_account_id: account.map(|s| s.to_string()),
        is_fedramp_account: fedramp,
    }
}

fn values(map: &HeaderMap<HeaderValue>, name: &str) -> Vec<String> {
    map.get_all(name).iter().map(|v| String::from_utf8(v.as_bytes().to_vec()).unwrap()).collect()
}

fn one_account() -> (AccountRegistry, AccountLease) {
    let mut accounts = AccountRegistry::load_or_create(vec![StoredAccount {
        id: "a".to_string(),
        state: AccountState::Healthy,
        used_percent: None,
        resets_at: None,
        preference: 0,
        codex_home: String::new(),
    }]);
    let step = accounts.select_account(None, Some("s"), &Vec::new()).unwrap();
    let step = match step {
        SelectionStep::ResolveAuth(wait) => {
            accounts.resume_with_auth(wait, Ok(auth("t", None, false)))
        }
        _ => panic!("unexpected"),
    };
    match step {
        SelectionStep::Done(Ok(selected)) => (accounts, selected.lease),
        _ => panic!("unexpected"),
    }
}

fn request(items: &[(&str, &str)]) -> Result<ProxyRequest, ApiError> {
    let mut all = vec![("authorization", "Bearer k")];
    all.extend_from_slice(items);
    ProxyRequest::begin(&key("k"), &headers(&all), b"{}".to_vec(), "inst", &Vec::new())
}

#[test]
fn keys_are_set_and_verified() {
    let mut none = ProxyAuth::load_or_create(None);
    assert!(!none.is_configured());
    assert_eq!(none.api_key(), None);
    assert!(!none.verify_bearer_token(""));
    none.set_api_key("sk-local");
    assert!(none.is_configured());
    assert_eq!(none.api_key(), Some("sk-local"));
    assert!(none.verify_bearer_token("sk-local"));
    assert!(!none.verify_bearer_token("sk-locaL"));
    none.set_api_key("other");
    assert!(!none.verify_bearer_token("sk-local"));
}

#[test]
fn generated_keys_are_long_and_random() {
    let first = generate_api_key();
    assert_eq!(first.len(), 68);
    assert!(first.starts_with("ocp_"));
    assert!(first[4..].chars().all(|c| c.is_ascii_digit() || ('a'..='f').contains(&c)));
    assert_eq!(&first[16..17], "4");
    assert_eq!(&first[48..49], "4");
    assert_ne!(first, generate_api_key());
}

#[test]
fn the_key_is_required() {
    let pass = |auth: &ProxyAuth, items: &[(&str, &str)]| {
        request_headers::require_proxy_api_key(auth, &headers(items))
    };
    assert!(pass(&key("k"), &[("authorization", "Bearer k")]).is_ok());
    assert!(pass(&key("k"), &[("authorization", "Bearer   k ")]).is_ok());
    assert!(pass(&key("k"), &[("Authorization", "Bearer k"), ("authorization", "x")]).is_ok());
    let none = ProxyAuth::load_or_create(None);
    assert!(matches!(
        pass(&none, &[("authorization", "Bearer k")]),
        Err(ApiError::ProxyAuthNotConfigured)
    ));
    for items in [
        vec![],
        vec![("authorization", "Bearer ")],
        vec![("authorization", "bearer k")],
        vec![("authorization", "Basic k")],
        vec![("authorization", "Bearer k\u{e9}")],
    ] {
        assert!(matches!(pass(&key("k"), &items), Err(ApiError::ProxyAuthMissing)));
    }
    assert!(matches!(
        pass(&key("k"), &[("authorization", "Bearer kk")]),
        Err(ApiError::ProxyAuthInvalid)
    ));
}

#[test]
fn header_values_are_trimmed() {
    let get = |value: &str| request_headers::header_value(&headers(&[("x-a", value)]), "X-A");
    assert_eq!(get(" v ").unwrap(), Some("v".to_string()));
    assert_eq!(get("  ").unwrap(), None);
    assert_eq!(request_headers::header_value(&headers(&[]), "x-a").unwrap(), None);
    let err = get("\u{e9}").unwrap_err();
    assert_eq!(err.message(), "invalid value for X-A: failed to convert header to a str");
    assert_eq!(err.status(), 400);
}

#[test]
fn header_numbers_are_read() {
    let map = headers(&[("a", "-12"), ("b", "255"), ("c", "256"), ("d", "x"), ("e", "+7")]);
    assert_eq!(request_headers::parse_i64_header(&map, "a"), Some(-12));
    assert_eq!(request_headers::parse_i64_header(&map, "d"), None);
    assert_eq!(request_headers::parse_i64_header(&map, "z"), None);
    assert_eq!(request_headers::parse_u8_header(&map, "a"), None);
    assert_eq!(request_headers::parse_u8_header(&map, "b"), Some(255));
    assert_eq!(request_headers::parse_u8_header(&map, "c"), None);
    assert_eq!(request_headers::parse_u8_header(&map, "e"), Some(7));
}

#[test]
fn some_headers_are_not_forwarded() {
    let skip = |name: &'static str| {
        upstream::should_skip_request_header(&HeaderName::from_static(name))
    };
    for name in ["host", "content-length", "connection", "authorization", "x-codex-account-id"] {
        assert!(skip(name));
    }
    assert!(!skip("accept"));
    assert!(!skip("session_id"));
}

#[test]
fn upstream_headers_are_built() {
    let incoming = headers(&[
        ("host", "localhost"),
        ("authorization", "Bearer proxy-key"),
        ("content-length", "2"),
        ("connection", "close"),
        ("x-codex-account-id", "a"),
        ("content-type", "text/plain"),
        ("x-multi", "one"),
        ("x-multi", "two"),
        ("user-agent", "codex"),
    ]);
    let sent = upstream::build_upstream_headers(
        &incoming,
        &auth("tok", Some("ws"), true),
        "sess",
        HeaderValue::from_static("orig"),
    )
    .unwrap();
    for (name, expected) in [
        ("authorization", "Bearer tok"),
        ("accept", "text/event-stream"),
        ("content-type", "application/json"),
        ("originator", "orig"),
        ("session_id", "sess"),
        ("x-client-request-id", "sess"),
        ("version", "0.121.0"),
        ("chatgpt-account-id", "ws"),
        ("x-openai-fedramp", "true"),
        ("x-multi", "two"),
        ("user-agent", "codex"),
    ] {
        assert_eq!(values(&sent, name), vec![expected.to_string()], "{name}");
    }
    assert_eq!(sent.keys_len(), 11);
}

#[test]
fn given_headers_are_kept() {
    let incoming = headers(&[
        ("accept", "application/json"),
        ("originator", "me"),
        ("session_id", "mine"),
        ("x-client-request-id", "req"),
        ("version", "9"),
        ("chatgpt-account-id", "client"),
    ]);
    let sent = upstream::build_upstream_headers(
        &incoming,
        &auth("tok", None, false),
        "bad\nsession",
        HeaderValue::from_static("orig"),
    )
    .unwrap();
    for (name, expected) in [
        ("accept", "application/json"),
        ("originator", "me"),
        ("session_id", "mine"),
        ("x-client-request-id", "req"),
        ("version", "9"),
        ("chatgpt-account-id", "client"),
        ("authorization", "Bearer tok"),
    ] {
        assert_eq!(values(&sent, name), vec![expected.to_string()], "{name}");
    }
    assert!(!sent.contains_key("x-openai-fedramp"));
}

#[test]
fn bad_header_values_are_errors() {
    let build = |items: &[(&str, &str)], auth: &ResolvedUpstreamAuth, session: &str| {
        upstream::build_upstream_headers(
            &headers(items),
            auth,
            session,
            HeaderValue::from_static("o"),
        )
        .unwrap_err()
        .message()
    };
    let good = auth("t", None, false);
    assert_eq!(
        build(&[], &good, "a\nb"),
        "internal error: failed to build session_id header: failed to parse header value"
    );
    assert_eq!(
        build(&[("session_id", "x")], &good, "a\nb"),
        "internal error: failed to build x-client-request-id header: failed to parse header value"
    );
    assert_eq!(
        build(&[], &auth("t\u{0}", None, false), "s"),
        "internal error: failed to build authorization header: failed to parse header value"
    );
    assert_eq!(
        build(&[], &auth("t", Some("\u{7f}"), false), "s"),
        "internal error: failed to build ChatGPT account id header: failed to parse header value"
    );
}

#[test]
fn a_request_without_room_for_more_headers_is_an_error() {
    let build = |n: usize| {
        let mut incoming = HeaderMap::new();
        for i in 0..n {
            incoming.insert(
                HeaderName::from_bytes(format!("x-{i}").as_bytes()).unwrap(),
                HeaderValue::from_static("v"),
            );
        }
        upstream::build_upstream_headers(
            &incoming,
            &auth("t", None, false),
            "s",
            HeaderValue::from_static("o"),
        )
    };
    for n in [6544, 6545, 24569] {
        assert_eq!(build(n).unwrap().keys_len(), n + 7);
    }
    for n in [24570, 24576] {
        assert_eq!(
            build(n).unwrap_err().message(),
            "internal error: failed to build upstream headers: max size reached"
        );
    }
}

#[test]
fn what_is_meant_for_the_proxy_does_not_change_upstream_headers() {
    let build = |items: &[(&str, &str)]| {
        upstream::build_upstream_headers(
            &headers(items),
            &auth("tok", Some("ws"), false),
            "sess",
            HeaderValue::from_static("orig"),
        )
        .unwrap()
    };
    let bare = build(&[("x-a", "1"), ("x-a", "2"), ("accept", "*/*")]);
    let full = build(&[
        ("authorization", "Bearer proxy-key"),
        ("host", "localhost"),
        ("content-length", "7"),
        ("connection", "close"),
        ("x-codex-account-id", "a"),
        ("x-a", "1"),
        ("x-a", "2"),
        ("accept", "*/*"),
    ]);
    assert_eq!(bare, full);
    assert_eq!(values(&full, "x-a"), vec!["2".to_string()]);
}

#[test]
fn downstream_headers_are_built() {
    let answer = headers(&[
        ("content-length", "5"),
        ("connection", "close"),
        ("x-empty", ""),
        ("x-two", "1"),
        ("x-two", ""),
        ("x-two", "2"),
        ("content-type", ""),
    ]);
    let told = downstream_headers(&answer, "acct", -3).unwrap();
    assert_eq!(values(&told, "content-type"), vec!["text/event-stream"]);
    assert_eq!(values(&told, "x-two"), vec!["1", "2"]);
    assert_eq!(values(&told, "x-openai-codex-proxy-account-id"), vec!["acct"]);
    assert_eq!(values(&told, "x-openai-codex-proxy-account-score"), vec!["-3"]);
    assert_eq!(told.keys_len(), 4);
}

#[test]
fn downstream_headers_are_added_to_those_of_the_same_name() {
    let answer = headers(&[
        ("content-type", "application/json"),
        ("x-openai-codex-proxy-account-id", "theirs"),
    ]);
    let told = downstream_headers(&answer, "acct", 100).unwrap();
    assert_eq!(values(&told, "content-type"), vec!["application/json"]);
    assert_eq!(values(&told, "x-openai-codex-proxy-account-id"), vec!["theirs", "acct"]);
    assert_eq!(values(&told, "x-openai-codex-proxy-account-score"), vec!["100"]);
}

#[test]
fn an_answer_without_room_for_more_headers_is_an_error() {
    let mut answer = HeaderMap::new();
    for i in 0..24576 {
        answer.insert(
            HeaderName::from_bytes(format!("x-{i}").as_bytes()).unwrap(),
            HeaderValue::from_static("v"),
        );
    }
    let err = downstream_headers(&answer, "a", 1).unwrap_err();
    assert_eq!(
        err.message(),
        "internal error: failed to build downstream response: max size reached"
    );
    for i in 0..3 {
        answer.remove(format!("x-{i}"));
    }
    assert_eq!(downstream_headers(&answer, "a", 1).unwrap().keys_len(), 24576);
}

#[test]
fn an_account_id_that_is_no_header_value_is_an_error() {
    let err = downstream_headers(&headers(&[]), "a\nb", 1).unwrap_err();
    assert_eq!(
        err.message(),
        "internal error: failed to build downstream response: failed to parse header value"
    );
}

#[test]
fn errors_have_statuses_and_messages() {
    let cases: Vec<(ApiError, u16, &str)> = vec![
        (ApiError::ProxyAuthNotConfigured, 503, "proxy API key is not configured"),
        (ApiError::ProxyAuthMissing, 401, "missing proxy API key"),
        (ApiError::ProxyAuthInvalid, 401, "invalid proxy API key"),
        (
            ApiError::InvalidHeaderValue {
                header_name: "h".to_string(),
                message: "m".to_string(),
            },
            400,
            "invalid value for h: m",
        ),
        (ApiError::UpstreamTransport("t".to_string()), 502, "upstream transport error: t"),
        (ApiError::Internal("i".to_string()), 502, "internal error: i"),
        (
            ApiError::Route(RouteError::NoAccountsConfigured),
            503,
            "no upstream accounts are configured",
        ),
        (
            ApiError::Route(RouteError::AccountAuthFailed { account_id: "a".to_string() }),
            502,
            "failed to resolve auth for account a",
        ),
        (
            ApiError::Route(RouteError::NoEligibleAccounts { requested_account_id: None }),
            429,
            "no eligible authenticated account found for account id None",
        ),
    ];
    for (err, status, message) in cases {
        assert_eq!(err.status(), status);
        assert_eq!(err.message(), message);
        let (told, body) = err.into_response();
        assert_eq!(told, status);
        let text = json::to_value(body).to_string();
        assert_eq!(
            text,
            format!("{{\"error\":{{\"message\":\"{message}\",\"type\":\"proxy_error\"}}}}")
        );
    }
}

#[test]
fn statuses_are_written_with_their_phrase() {
    for code in [100, 200, 404, 429, 500, 599, 799, 999] {
        assert_eq!(status_string(code), StatusCode::from_u16(code).unwrap().to_string());
    }
}

#[test]
fn health_is_told() {
    assert_eq!(
        json::to_value(proxy::health()).to_string(),
        "{\"status\":\"ok\",\"upstream_responses_url\":\
         \"https://chatgpt.com/backend-api/codex/responses\"}"
    );
}

#[test]
fn requests_name_account_and_session() {
    let r = request(&[("x-codex-account-id", " a "), ("session_id", "s1")]).unwrap();
    assert_eq!(r.requested_account_id(), Some("a"));
    assert_eq!(r.session_id(), "s1");
    assert_eq!(r.rewritten_model(), None);
    assert!(r.excluded_account_ids().is_empty());
    assert_eq!(
        String::from_utf8(r.body().clone()).unwrap(),
        "{\"client_metadata\":{\"x-codex-installation-id\":\"inst\"},\
         \"store\":false,\"stream\":true}"
    );
}

#[test]
fn requests_without_a_session_get_one() {
    let first = request(&[]).unwrap();
    let second = request(&[("session_id", "\u{e9}")]).unwrap();
    assert_eq!(first.session_id().len(), 36);
    assert_eq!(second.session_id().len(), 36);
    assert_ne!(first.session_id(), second.session_id());
    assert_eq!(first.requested_account_id(), None);
}

#[test]
fn requests_are_checked_in_order() {
    let bad = headers(&[("x-codex-account-id", "\u{e9}")]);
    let r = ProxyRequest::begin(&key("k"), &bad, Vec::new(), "inst", &Vec::new());
    assert!(matches!(r, Err(ApiError::ProxyAuthMissing)));
    let r = request(&[("x-codex-account-id", "\u{e9}")]);
    match r {
        Err(ApiError::InvalidHeaderValue { header_name, .. }) => {
            assert_eq!(header_name, "x-codex-account-id")
        }
        _ => panic!("unexpected"),
    }
}

#[test]
fn requests_tell_of_a_replaced_model() {
    let map = headers(&[("authorization", "Bearer k")]);
    let r = ProxyRequest::begin_with(
        &key("k"),
        &map,
        b"{\"model\":\"old\"}".to_vec(),
        "inst",
        &vec!["new".to_string()],
        "fresh".to_string(),
    )
    .unwrap();
    assert_eq!(r.session_id(), "fresh");
    assert_eq!(r.rewritten_model(), Some("old -> new"));
}

#[test]
fn successes_are_passed_on() {
    let (mut accounts, lease) = one_account();
    accounts.note_failure(0);
    let mut r = request(&[]).unwrap();
    let answer = headers(&[("content-type", "text/x")]);
    match r.on_response(&mut accounts, &lease, 204, &answer, &Vec::new()) {
        Outcome::Respond(map) => {
            assert_eq!(values(&map, "x-openai-codex-proxy-account-id"), vec!["a"]);
            assert_eq!(values(&map, "x-openai-codex-proxy-account-score"), vec!["100"]);
            assert_eq!(values(&map, "content-type"), vec!["text/x"]);
        }
        _ => panic!("unexpected"),
    }
    assert_eq!(accounts.summary(0, auth_snapshot(None), None).unwrap().recent_failures, 0);
    assert!(r.excluded_account_ids().is_empty());
}

#[test]
fn refusals_for_the_limit_are_retried_elsewhere() {
    let (mut accounts, lease) = one_account();
    let mut r = request(&[("session_id", "s")]).unwrap();
    let answer = headers(&[
        ("x-codex-primary-reset-at", "9999999999"),
        ("x-codex-primary-used-percent", "88"),
    ]);
    assert_eq!(accounts.bound_account_id("s"), Some("a".to_string()));
    match r.on_response(&mut accounts, &lease, 429, &answer, &b"limit".to_vec()) {
        Outcome::Retry => {}
        _ => panic!("unexpected"),
    }
    assert_eq!(r.excluded_account_ids(), &vec!["a".to_string()]);
    let record = accounts.get_record("a").unwrap();
    assert_eq!(record.state, AccountState::RateLimited);
    assert_eq!(record.resets_at, Some(9999999999));
    assert_eq!(record.used_percent, Some(88));
    assert_eq!(accounts.bound_account_id("s"), None);
    let step = accounts
        .select_account(r.requested_account_id(), Some(r.session_id()), r.excluded_account_ids())
        .unwrap();
    assert!(matches!(
        step,
        SelectionStep::Done(Err(RouteError::NoEligibleAccounts { .. }))
    ));
}

/// Sends a request to account after account, which answer as told by their ids. Returns the ids in
/// their order, and the last status or why no account was found.
fn send_all(
    accounts: &mut AccountRegistry,
    r: &mut ProxyRequest,
    status_of: &dyn Fn(&str) -> u16,
) -> (Vec<String>, Result<u16, RouteError>) {
    let mut called = Vec::new();
    loop {
        let mut step = accounts
            .select_account(
                r.requested_account_id(),
                Some(r.session_id()),
                r.excluded_account_ids(),
            )
            .unwrap();
        let selected = loop {
            step = match step {
                SelectionStep::Done(Ok(selected)) => break selected,
                SelectionStep::Done(Err(err)) => return (called, Err(err)),
                SelectionStep::ResolveAuth(wait) => {
                    accounts.resume_with_auth(wait, Ok(auth("t", None, false)))
                }
                SelectionStep::FetchUsage(wait) => resume_with_usage(wait, None),
            };
        };
        let id = selected.lease.account_id();
        let status = status_of(&id);
        called.push(id);
        let outcome =
            r.on_response(accounts, &selected.lease, status, &headers(&[]), &Vec::new());
        selected.lease.release(accounts);
        if !matches!(outcome, Outcome::Retry) {
            return (called, Ok(status));
        }
    }
}

fn three_accounts() -> AccountRegistry {
    let stored = |(id, preference): (&str, i32)| StoredAccount {
        id: id.to_string(),
        state: AccountState::Healthy,
        used_percent: None,
        resets_at: None,
        preference,
        codex_home: String::new(),
    };
    AccountRegistry::load_or_create([("a", 3), ("b", 2), ("c", 1)].map(stored).to_vec())
}

#[test]
fn a_request_goes_on_until_an_account_takes_it() {
    let mut r = request(&[]).unwrap();
    let (called, end) = send_all(&mut three_accounts(), &mut r, &|id| match id {
        "c" => 200,
        _ => 429,
    });
    assert_eq!(called, vec!["a".to_string(), "b".to_string(), "c".to_string()]);
    assert_eq!(end.unwrap(), 200);
    assert_eq!(r.excluded_account_ids(), &vec!["a".to_string(), "b".to_string()]);
    let mut r = request(&[]).unwrap();
    let (called, end) = send_all(&mut three_accounts(), &mut r, &|_| 500);
    assert_eq!(called, vec!["a".to_string()]);
    assert_eq!(end.unwrap(), 500);
}

#[test]
fn a_request_ends_when_all_accounts_turned_it_away() {
    let mut r = request(&[]).unwrap();
    let (called, end) = send_all(&mut three_accounts(), &mut r, &|_| 429);
    assert_eq!(called, vec!["a".to_string(), "b".to_string(), "c".to_string()]);
    assert!(matches!(
        end,
        Err(RouteError::NoEligibleAccounts { requested_account_id: None })
    ));
    let mut r = request(&[("x-codex-account-id", "b")]).unwrap();
    let (called, end) = send_all(&mut three_accounts(), &mut r, &|_| 429);
    assert_eq!(called, vec!["b".to_string()]);
    let err = ApiError::Route(end.unwrap_err());
    assert_eq!(err.into_response().0, 429);
}

#[test]
fn refusals_without_word_rest_the_account_for_a_while() {
    let (mut accounts, lease) = one_account();
    let mut r = request(&[]).unwrap();
    r.on_response_at(&mut accounts, &lease, 429, &headers(&[]), &Vec::new(), 1000);
    assert_eq!(accounts.get_record("a").unwrap().resets_at, Some(1300));
}

#[test]
fn other_refusals_are_told() {
    for (status, body, message) in [
        (500, "  boom \n", "internal error: upstream returned 500 Internal Server Error: boom"),
        (404, " ", "internal error: upstream returned 404 Not Found"),
        (302, "", "internal error: upstream returned 302 Found"),
    ] {
        let (mut accounts, lease) = one_account();
        let mut r = request(&[]).unwrap();
        let body = body.as_bytes().to_vec();
        match r.on_response(&mut accounts, &lease, status, &headers(&[]), &body) {
            Outcome::Fail(err) => assert_eq!(err.message(), message),
            _ => panic!("unexpected"),
        }
        assert_eq!(accounts.summary(0, auth_snapshot(None), None).unwrap().recent_failures, 1);
    }
}

#[test]
fn refusals_that_are_not_text_are_told_with_marks() {
    let (mut accounts, lease) = one_account();
    let mut r = request(&[]).unwrap();
    match r.on_response(&mut accounts, &lease, 400, &headers(&[]), &vec![b'x', 0xff]) {
        Outcome::Fail(err) => assert_eq!(
            err.message(),
            "internal error: upstream returned 400 Bad Request: x\u{fffd}"
        ),
        _ => panic!("unexpected"),
    }
}
