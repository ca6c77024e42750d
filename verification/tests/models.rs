use axum::http::HeaderMap;
use axum::http::HeaderValue;
use openai_codex_proxy::accounts::AccountHandle;
use openai_codex_proxy::accounts::AccountState;
use openai_codex_proxy::accounts::AccountSummary;
use openai_codex_proxy::accounts::StoredAccount;
use openai_codex_proxy::accounts::TokenFacts;
use openai_codex_proxy::accounts::auth_snapshot;
use openai_codex_proxy::body;
use openai_codex_proxy::json;
use openai_codex_proxy::models;
use openai_codex_proxy::models::CachedCodexClientVersion;
use openai_codex_proxy::models::ModelsBody;
use openai_codex_proxy::models::ModelsObstacle;
use openai_codex_proxy::models::ModelsQuery;
use openai_codex_proxy::models::ModelsStep;
use openai_codex_proxy::models::SlugsError;
use openai_codex_proxy::registry::AccountRegistry;
use serde_json::Value;

const MODELS: &str = r#"{"models":[
    {"slug":"b","visibility":"list","name":"B","context_window":1000,
     "input_modalities":["text","image"]},
    {"slug":"hidden","visibility":"hide"},
    {"slug":"a","visibility":"list","name":null},
    {"slug":5,"visibility":"list"},
    {"visibility":"list"},
    {"slug":"c"},
    7]}"#;

fn parse(s: &str) -> Value {
    serde_json::from_str(s).unwrap()
}

fn summary(id: &str, authenticated: bool) -> AccountSummary {
    let handle = AccountHandle::new(StoredAccount {
        id: id.to_string(),
        state: AccountState::Healthy,
        used_percent: None,
        resets_at: None,
        preference: 0,
        codex_home: String::new(),
    });
    let mut auth = auth_snapshot(None);
    auth.authenticated = authenticated;
    handle.summary(auth, None)
}

fn value_of(map: &HeaderMap<HeaderValue>, name: &str) -> Option<String> {
    map.get(name).map(|v| v.to_str().unwrap().to_string())
}

fn told(body: ModelsBody) -> Value {
    match body {
        ModelsBody::Json(json) => json::to_value(json),
        ModelsBody::Text(text) => parse(text),
    }
}

#[test]
fn versions_are_normalized() {
    for (raw, expected) in [
        ("rust-v0.124.0", Some("0.124.0")),
        (" v1.2 ", Some("1.2")),
        ("0.1", Some("0.1")),
        ("v 3 ", Some("3")),
        ("0.1-alpha", None),
        ("v0.1-v", None),
        ("", None),
        ("   ", None),
        ("v", None),
        ("1.2.3-dev4", Some("4")),
    ] {
        assert_eq!(
            models::normalize_codex_client_version(raw),
            expected.map(|s| s.to_string()),
            "{raw:?}"
        );
    }
}

#[test]
fn normal_versions_stay_as_they_are() {
    let version = models::normalize_codex_client_version("rust-v0.124.0").unwrap();
    assert_eq!(models::normalize_codex_client_version(&version), Some(version));
}

#[test]
fn looked_up_versions_hold_for_a_day() {
    let cached = CachedCodexClientVersion { version: "v1.0".to_string(), fetched_at: 1000 };
    assert_eq!(cached.current_at(1000), Some(("1.0".to_string(), true)));
    assert_eq!(cached.current_at(0), Some(("1.0".to_string(), true)));
    assert_eq!(cached.current_at(1000 + 86400), Some(("1.0".to_string(), true)));
    assert_eq!(cached.current_at(1001 + 86400), None);
    let plain = CachedCodexClientVersion { version: "1.0".to_string(), fetched_at: 0 };
    assert_eq!(plain.current_at(5), Some(("1.0".to_string(), false)));
    assert_eq!(plain.current(), None);
    let bad = CachedCodexClientVersion { version: "x".to_string(), fetched_at: 0 };
    assert_eq!(bad.current_at(5), None);
    let then = CachedCodexClientVersion::looked_up_at("2.0".to_string(), 7);
    assert_eq!(then.version, "2.0");
    assert_eq!(then.fetched_at, 7);
    let fresh = CachedCodexClientVersion::looked_up("2.0".to_string());
    assert_eq!(fresh.current(), Some(("2.0".to_string(), false)));
}

#[test]
fn releases_tell_their_version() {
    assert_eq!(models::release_version("rust-v0.130.0"), Ok("0.130.0".to_string()));
    assert_eq!(
        models::release_version("nightly"),
        Err("GitHub latest release tag_name was invalid: nightly".to_string())
    );
    assert_eq!(models::resolve_codex_client_version(None), "0.124.0");
    assert_eq!(models::resolve_codex_client_version(Some("1.2".to_string())), "1.2");
    assert_eq!(
        models::models_url("0.124.0"),
        "https://chatgpt.com/backend-api/codex/models?client_version=0.124.0"
    );
}

#[test]
fn models_are_listed_for_openai_clients() {
    let models = parse(MODELS)["models"].clone();
    let list = models::rewrite_models_for_openai_compatibility(json::from_value(models));
    assert_eq!(
        json::to_value(list),
        parse(
            r#"[{"id":"a","object":"model","name":null},
                {"id":"b","object":"model","name":"B","context_length":1000,
                 "architecture":{"modality":"multimodal","tokenizer":"o200k_base",
                                 "input_modalities":["text","image"]}}]"#
        )
    );
}

#[test]
fn what_is_no_list_of_models_stays() {
    let value = parse(r#"{"x":1}"#);
    let list = models::rewrite_models_for_openai_compatibility(json::from_value(value.clone()));
    assert_eq!(json::to_value(list), value);
}

#[test]
fn slugs_are_sorted() {
    let slugs = models::upstream_model_slugs(200, &MODELS.as_bytes().to_vec()).unwrap();
    assert_eq!(slugs, vec!["a".to_string(), "b".to_string()]);
    let none = models::upstream_model_slugs(200, &b"{\"models\":3}".to_vec()).unwrap();
    assert!(none.is_empty());
    let none = models::upstream_model_slugs(200, &b"[]".to_vec()).unwrap();
    assert!(none.is_empty());
}

#[test]
fn slugs_are_those_of_the_upstreams_list() {
    let slugs = models::upstream_model_slugs(200, &MODELS.as_bytes().to_vec()).unwrap();
    let (_, body) = models::list_upstream_models(Some((200, Some(MODELS.as_bytes().to_vec()))));
    let list = told(body);
    let ids: Vec<String> = list["data"]
        .as_array()
        .unwrap()
        .iter()
        .map(|m| m["id"].as_str().unwrap().to_string())
        .collect();
    assert_eq!(ids, slugs);
}

#[test]
fn refused_slugs_are_errors() {
    match models::upstream_model_slugs(503, &Vec::new()) {
        Err(SlugsError::Refused(message)) => assert_eq!(
            message,
            "upstream models request failed with status 503 Service Unavailable"
        ),
        _ => panic!("unexpected"),
    }
    assert!(matches!(
        models::upstream_model_slugs(200, &b"{".to_vec()),
        Err(SlugsError::Unreadable)
    ));
}

#[test]
fn models_are_answered() {
    let (status, body) = models::list_upstream_models(Some((200, Some(MODELS.as_bytes().to_vec()))));
    assert_eq!(status, 200);
    let list = told(body);
    assert_eq!(list["object"], parse("\"list\""));
    assert_eq!(list["data"].as_array().unwrap().len(), 2);
    let (_, body) = models::list_upstream_models(Some((200, Some(b"{}".to_vec()))));
    assert_eq!(told(body), parse(r#"{"object":"list","data":[]}"#));
}

#[test]
fn models_that_cannot_be_had_are_answered_empty() {
    for answer in [
        None,
        Some((500, Some(MODELS.as_bytes().to_vec()))),
        Some((200, None)),
        Some((200, Some(b"nope".to_vec()))),
    ] {
        let (status, body) = models::list_upstream_models(answer);
        assert_eq!(status, 200);
        match body {
            ModelsBody::Text(text) => assert_eq!(text, r#"{"object":"list","data":[]}"#),
            ModelsBody::Json(_) => panic!("unexpected"),
        }
    }
}

fn registry(ids: &[&str]) -> AccountRegistry {
    let stored = |id: &&str| StoredAccount {
        id: id.to_string(),
        state: AccountState::Healthy,
        used_percent: None,
        resets_at: None,
        preference: 0,
        codex_home: format!("/homes/{id}"),
    };
    AccountRegistry::load_or_create(ids.iter().map(stored).collect())
}

fn facts(token: Result<String, String>) -> Option<TokenFacts> {
    Some(TokenFacts { token, account_id: None, fedramp: false })
}

#[test]
fn models_come_from_the_cache() {
    let cache = MODELS.as_bytes().to_vec();
    let accounts = vec![summary("a", false), summary("b", true)];
    for registry in [registry(&["a", "b"]), registry(&[])] {
        match models::list_models(&registry, &accounts, Some(&cache)).unwrap() {
            ModelsStep::Reply(status, body) => {
                assert_eq!(status, 200);
                assert_eq!(
                    told(body),
                    parse(
                        r#"{"object":"list","data":[
                            {"id":"a","object":"model","name":null},
                            {"id":"b","object":"model","name":"B","context_length":1000,
                             "architecture":{"modality":"multimodal","tokenizer":"o200k_base",
                                             "input_modalities":["text","image"]}}]}"#
                    )
                );
            }
            ModelsStep::Ask(_) => panic!("unexpected"),
        }
    }
    assert_eq!(
        models::fetch_model_slugs(Some(&cache)),
        Some(vec!["a".to_string(), "b".to_string()])
    );
    let empty = br#"{"fetched_at":"2026-01-01T00:00:00Z","models":[]}"#.to_vec();
    assert_eq!(models::fetch_model_slugs(Some(&empty)), Some(Vec::new()));
    match models::list_models(&registry(&[]), &accounts, Some(&empty)).unwrap() {
        ModelsStep::Reply(status, body) => {
            assert_eq!(status, 200);
            assert_eq!(told(body), parse(r#"{"object":"list","data":[]}"#));
        }
        ModelsStep::Ask(_) => panic!("unexpected"),
    }
}

#[test]
fn the_upstream_is_asked_where_the_cache_cannot_be_read() {
    let accounts = vec![summary("a", false), summary("b", true)];
    let broken = [&b"nope"[..], b"{}", br#"{"models":3}"#, b"[]"].map(|bytes| bytes.to_vec());
    for cache in [None].into_iter().chain(broken.iter().map(Some)) {
        match models::list_models(&registry(&["a", "b"]), &accounts, cache).unwrap() {
            ModelsStep::Ask(query) => assert_eq!(query.codex_home(), "/homes/b"),
            ModelsStep::Reply(..) => panic!("unexpected"),
        }
        assert_eq!(models::fetch_model_slugs(cache), None);
        let gone = models::list_models(&registry(&[]), &accounts, cache).err().unwrap();
        assert!(matches!(gone, ModelsObstacle::NoRecord(_)));
    }
}

#[test]
fn models_are_not_told_where_nobody_is_logged_in() {
    let cache = MODELS.as_bytes().to_vec();
    let accounts = vec![summary("a", false)];
    let none = models::list_models(&registry(&["a"]), &accounts, Some(&cache)).err().unwrap();
    assert!(matches!(none, ModelsObstacle::NoAccount));
}

#[test]
fn stale_models_are_replaced_from_the_cache() {
    let cache = br#"{"models":[{"slug":"m-2","visibility":"list"},
        {"slug":"m-1-codex","visibility":"list"},{"slug":"old","visibility":"hide"}]}"#
        .to_vec();
    let known = models::valid_models(Some(&cache), &vec!["old".to_string()]);
    let rewrite = |sent: &str| {
        let (bytes, note) =
            body::rewrite_body_for_upstream("inst", sent.as_bytes().to_vec(), None, &known);
        (serde_json::from_slice::<Value>(&bytes).unwrap()["model"].clone(), note)
    };
    assert_eq!(
        rewrite(r#"{"model":"old-codex"}"#),
        (parse("\"m-1-codex\""), Some("old-codex -> m-1-codex".to_string()))
    );
    assert_eq!(
        rewrite(r#"{"model":"old"}"#),
        (parse("\"m-1-codex\""), Some("old -> m-1-codex".to_string()))
    );
    assert_eq!(rewrite(r#"{"model":"m-2"}"#), (parse("\"m-2\""), None));
}

#[test]
fn requests_may_name_the_models_of_the_cache() {
    let cache = MODELS.as_bytes().to_vec();
    let upstream = vec!["u".to_string()];
    assert_eq!(
        models::valid_models(Some(&cache), &upstream),
        vec!["a".to_string(), "b".to_string()]
    );
    assert_eq!(models::valid_models(None, &upstream), upstream);
    assert_eq!(models::valid_models(Some(&b"nope".to_vec()), &upstream), upstream);
}

#[test]
fn the_first_account_that_is_logged_in_asks_for_models() {
    let mut told = vec![summary("a", false), summary("b", true), summary("c", true)];
    told[1].auth.account_id = Some("ws".to_string());
    let query = ModelsQuery::begin(&registry(&["a", "b", "c"]), &told).unwrap();
    assert_eq!(query.codex_home(), "/homes/b");
    let map = query.authorize(facts(Ok("t".to_string()))).unwrap();
    assert_eq!(value_of(&map, "authorization"), Some("Bearer t".to_string()));
    assert_eq!(value_of(&map, "chatgpt-account-id"), Some("ws".to_string()));
}

#[test]
fn obstacles_are_named_and_answered() {
    let none = ModelsQuery::begin(&registry(&["a"]), &vec![summary("a", false)]).unwrap_err();
    assert!(matches!(none, ModelsObstacle::NoAccount));
    assert_eq!(none.message(), "no authenticated account found for models fetch");
    let (status, body) = none.reply();
    assert_eq!(status, 503);
    assert_eq!(told(body), parse("{}"));
    let gone = ModelsQuery::begin(&registry(&[]), &vec![summary("a", true)]).unwrap_err();
    assert_eq!(gone.message(), "failed to get record for account a");
    let query = ModelsQuery::begin(&registry(&["a"]), &vec![summary("a", true)]).unwrap();
    let missing = query.authorize(None).unwrap_err();
    assert_eq!(missing.message(), "auth manager returned no auth for account a");
    let broken = query.authorize(facts(Err("x".to_string()))).unwrap_err();
    assert_eq!(broken.message(), "failed to get token for account a");
}

#[test]
fn model_requests_are_authorized() {
    let map = models::models_headers("tok", Some("ws"));
    assert_eq!(value_of(&map, "authorization"), Some("Bearer tok".to_string()));
    assert_eq!(value_of(&map, "chatgpt-account-id"), Some("ws".to_string()));
    assert_eq!(map.len(), 2);
    let map = models::models_headers("to\nk", Some("w\ns"));
    assert_eq!(value_of(&map, "authorization"), Some(String::new()));
    assert_eq!(map.len(), 1);
    assert_eq!(models::models_headers("tok", None).len(), 1);
}
