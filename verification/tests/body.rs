use openai_codex_proxy::body;
use openai_codex_proxy::json;
use serde_json::Value;

fn parse(s: &str) -> Value {
    serde_json::from_str(s).unwrap()
}

fn strings(items: &[&str]) -> Vec<String> {
    items.iter().map(|s| s.to_string()).collect()
}

fn rewrite(s: &str, models: &[&str]) -> (Value, Option<String>) {
    let (bytes, note) =
        body::rewrite_json_body("inst-1", s.as_bytes().to_vec(), &strings(models));
    (serde_json::from_slice(&bytes).unwrap(), note)
}

#[test]
fn json_goes_through_unchanged() {
    let value = parse(
        r#"{"a":[1,-2.5,1e300,true,null,"x",{}],"b":{"c":18446744073709551615},"":[]}"#,
    );
    assert_eq!(json::to_value(json::from_value(value.clone())), value);
    let bytes = serde_json::to_vec(&value).unwrap();
    let read = json::read(&bytes).unwrap();
    assert_eq!(json::write(read).unwrap(), bytes);
}

#[test]
fn what_is_not_json_is_not_read() {
    assert!(json::read(b"{").is_none());
    assert!(json::read(b"").is_none());
    assert!(json::read(b"[1] x").is_none());
}

#[test]
fn picks_a_codex_model_for_a_codex_model() {
    let models = strings(&["gpt-5", "gpt-5-mini", "GPT-5-Codex", "gpt-5.1-codex"]);
    assert_eq!(
        body::pick_best_replacement("codex-mini-latest", &models),
        Some("GPT-5-Codex".to_string())
    );
}

#[test]
fn picks_a_small_model_for_a_small_model() {
    let models = strings(&["gpt-5", "gpt-5-mini"]);
    assert_eq!(body::pick_best_replacement("o4-MINI", &models), Some("gpt-5-mini".to_string()));
    assert_eq!(
        body::pick_best_replacement("codex-mini", &models),
        Some("gpt-5-mini".to_string())
    );
}

#[test]
fn picks_the_first_model_otherwise() {
    let models = strings(&["gpt-5", "gpt-5-mini"]);
    assert_eq!(body::pick_best_replacement("gpt-4", &models), Some("gpt-5".to_string()));
    assert_eq!(body::pick_best_replacement("gpt-4", &strings(&[])), None);
}

#[test]
fn replacement_is_one_of_the_models() {
    let models = strings(&["b", "a-codex"]);
    for requested in ["codex", "mini", "x", ""] {
        let replacement = body::pick_best_replacement(requested, &models).unwrap();
        assert!(models.contains(&replacement));
    }
}

#[test]
fn recognizes_zstd() {
    assert!(body::is_zstd_encoding("zstd"));
    assert!(body::is_zstd_encoding("gzip, ZSTD "));
    assert!(!body::is_zstd_encoding("gzip"));
    assert!(!body::is_zstd_encoding("zstd2"));
    assert!(!body::is_zstd_encoding(""));
}

#[test]
fn extracts_text_of_messages() {
    let text = |s: &str| body::extract_message_text(&json::from_value(parse(s)));
    assert_eq!(text(r#"{"content":"  hi  "}"#), Some("hi".to_string()));
    assert_eq!(text(r#"{"content":"   "}"#), None);
    assert_eq!(
        text(r#"{"content":[{"text":" a "},{"text":""},{"type":"x"},{"text":"b"}]}"#),
        Some("a\n\nb".to_string())
    );
    assert_eq!(text(r#"{"content":[]}"#), None);
    assert_eq!(text(r#"{"content":5}"#), None);
    assert_eq!(text(r#"{}"#), None);
    assert_eq!(text(r#""x""#), None);
}

#[test]
fn lifts_leading_instructions() {
    let mut json = json::from_value(parse(
        r#"{"input":[
            {"role":"developer","content":"one"},
            {"role":"system","content":[{"text":"two"}]},
            {"role":"system","content":""},
            {"role":"user","content":"three"},
            {"role":"system","content":"four"}]}"#,
    ));
    body::lift_input_instructions(&mut json);
    assert_eq!(
        json::to_value(json),
        parse(
            r#"{"instructions":"one\n\ntwo","input":[
                {"role":"user","content":"three"},
                {"role":"system","content":"four"}]}"#
        )
    );
}

#[test]
fn lifts_nothing_over_given_instructions() {
    for s in [
        r#"{"instructions":null,"input":[{"role":"system","content":"a"}]}"#,
        r#"{"input":[{"role":"user","content":"a"}]}"#,
        r#"{"input":[{"role":"system","content":""}]}"#,
        r#"{"input":"text"}"#,
        r#"{}"#,
        r#"[1]"#,
    ] {
        let mut json = json::from_value(parse(s));
        body::lift_input_instructions(&mut json);
        assert_eq!(json::to_value(json), parse(s));
    }
}

#[test]
fn normalizes_for_the_upstream() {
    let mut json = json::from_value(parse(
        r#"{"store":true,"temperature":1,"max_output_tokens":5,"reasoning":{},
            "include":"x","client_metadata":3,"other":1}"#,
    ));
    body::normalize_for_codex_upstream(&mut json);
    assert_eq!(
        json::to_value(json),
        parse(
            r#"{"store":false,"stream":true,"reasoning":{},
                "include":["reasoning.encrypted_content"],"client_metadata":{},"other":1}"#
        )
    );
}

#[test]
fn asks_for_encrypted_reasoning_once() {
    let mut json = json::from_value(parse(
        r#"{"reasoning":null,"include":["a","reasoning.encrypted_content"]}"#,
    ));
    body::normalize_for_codex_upstream(&mut json);
    assert_eq!(
        json::to_value(json),
        parse(
            r#"{"store":false,"stream":true,"reasoning":null,
                "include":["a","reasoning.encrypted_content"],"client_metadata":{}}"#
        )
    );
}

#[test]
fn rewrites_a_stale_model() {
    let (value, note) = rewrite(r#"{"model":"gpt-4","x":[1]}"#, &["gpt-5", "gpt-5-codex"]);
    assert_eq!(note, Some("gpt-4 -> gpt-5".to_string()));
    assert_eq!(
        value,
        parse(
            r#"{"model":"gpt-5","x":[1],"store":false,"stream":true,
                "client_metadata":{"x-codex-installation-id":"inst-1"}}"#
        )
    );
}

#[test]
fn keeps_a_known_model() {
    let (value, note) = rewrite(r#"{"model":"gpt-5"}"#, &["gpt-5", "gpt-5-codex"]);
    assert_eq!(note, None);
    assert_eq!(value["model"], parse("\"gpt-5\""));
    let (value, note) = rewrite(r#"{"model":"gpt-4"}"#, &[]);
    assert_eq!(note, None);
    assert_eq!(value["model"], parse("\"gpt-4\""));
}

#[test]
fn keeps_a_named_installation() {
    let (value, _) =
        rewrite(r#"{"client_metadata":{"x-codex-installation-id":"mine","a":1}}"#, &[]);
    assert_eq!(
        value["client_metadata"],
        parse(r#"{"x-codex-installation-id":"mine","a":1}"#)
    );
}

#[test]
fn rewriting_twice_is_rewriting_once() {
    let s = r#"{"model":"m","reasoning":{},"input":[{"role":"system","content":"a"}]}"#;
    let (once, _) = rewrite(s, &["gpt-5"]);
    let (twice, note) = rewrite(&once.to_string(), &["gpt-5"]);
    assert_eq!(once, twice);
    assert_eq!(note, None);
}

#[test]
fn leaves_what_is_not_json_alone() {
    let (bytes, note) = body::rewrite_json_body("inst", b"not json".to_vec(), &strings(&["m"]));
    assert_eq!(bytes, b"not json".to_vec());
    assert_eq!(note, None);
}

#[test]
fn rewrites_inside_compressed_bodies() {
    let plain = br#"{"model":"gpt-4"}"#;
    let packed = zstd::stream::encode_all(&plain[..], 1).unwrap();
    let (sent, note) =
        body::rewrite_body_for_upstream("inst", packed.clone(), Some("zstd"), &strings(&["m"]));
    assert_ne!(sent, packed);
    let unpacked = zstd::stream::decode_all(&sent[..]).unwrap();
    assert_eq!(
        serde_json::from_slice::<Value>(&unpacked).unwrap(),
        parse(
            r#"{"model":"m","store":false,"stream":true,
                "client_metadata":{"x-codex-installation-id":"inst"}}"#
        )
    );
    assert_eq!(note, Some("gpt-4 -> m".to_string()));
}

#[test]
fn leaves_broken_compressed_bodies_alone() {
    let body = br#"{"model":"gpt-4"}"#.to_vec();
    let (sent, note) =
        body::rewrite_body_for_upstream("inst", body.clone(), Some("zstd"), &strings(&["m"]));
    assert_eq!(sent, body);
    assert_eq!(note, None);
}

#[test]
fn rewrites_plain_bodies_whatever_the_encoding_says() {
    let body = br#"{"model":"gpt-4"}"#.to_vec();
    for encoding in [None, Some("gzip")] {
        let (sent, note) =
            body::rewrite_body_for_upstream("inst", body.clone(), encoding, &strings(&["m"]));
        assert_eq!(serde_json::from_slice::<Value>(&sent).unwrap()["model"], parse("\"m\""));
        assert_eq!(note, Some("gpt-4 -> m".to_string()));
    }
}
