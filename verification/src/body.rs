//! Rewriting of request bodies into what the upstream Responses endpoint accepts.

use vstd::prelude::*;
use vstd::string::*;

use crate::json;
use crate::json::Json;
use crate::json::JsonObject;
use crate::json::JsonView;
use crate::text;

verus! {

/// The key under which the client metadata of a request names the installation.
pub const X_CODEX_INSTALLATION_ID_HEADER: &'static str = "x-codex-installation-id";

/// What `include` has to list for a request with reasoning.
pub const ENCRYPTED_REASONING: &'static str = "reasoning.encrypted_content";

/// A blank line between two paragraphs.
pub const PARAGRAPH_BREAK: &'static str = "\n\n";

/// The first model whose name holds `part`, whatever the case of its letters.
pub open spec fn first_with(models: Seq<Seq<char>>, part: Seq<char>) -> Option<Seq<char>>
    decreases models.len(),
{
    if models.len() == 0 {
        None
    } else if text::occurs(part, text::lowered(models[0])) {
        Some(models[0])
    } else {
        first_with(models.drop_first(), part)
    }
}

/// The model that takes the place of one that the upstream does not know: for a model of the Codex
/// family the first of that family, else for a small variant the first small variant, else the
/// first model of all.
pub open spec fn best_replacement(requested: Seq<char>, models: Seq<Seq<char>>) -> Option<
    Seq<char>,
> {
    let lower = text::lowered(requested);
    let codex = first_with(models, "codex"@);
    let mini = first_with(models, "mini"@);
    if text::occurs("codex"@, lower) && codex is Some {
        codex
    } else if text::occurs("mini"@, lower) && mini is Some {
        mini
    } else if models.len() > 0 {
        Some(models[0])
    } else {
        None
    }
}

fn find_with(models: &Vec<String>, part: &str) -> (r: Option<usize>)
    ensures
        match r {
            Some(i) => i < models@.len() && first_with(text::texts(models@), part@) == Some(
                models@[i as int]@,
            ),
            None => first_with(text::texts(models@), part@) is None,
        },
{
    let ghost all = text::texts(models@);
    assert(all.skip(0) == all);
    for i in 0..models.len()
        invariant
            all == text::texts(models@),
            first_with(all, part@) == first_with(all.skip(i as int), part@),
    {
        let lower = text::to_lower(models[i].as_str());
        assert(all.skip(i as int)[0] == models@[i as int]@);
        assert(all.skip(i as int).drop_first() == all.skip(i + 1));
        if text::contains(lower.as_str(), part) {
            return Some(i);
        }
    }
    None
}

/// Picks the model that takes the place of one that the upstream does not know.
pub fn pick_best_replacement(requested_model: &str, valid_models: &Vec<String>) -> (r: Option<
    String,
>)
    ensures
        match r {
            Some(model) => best_replacement(requested_model@, text::texts(valid_models@)) == Some(
                model@,
            ),
            None => best_replacement(requested_model@, text::texts(valid_models@)) is None,
        },
{
    let lower = text::to_lower(requested_model);
    if text::contains(lower.as_str(), "codex") {
        if let Some(i) = find_with(valid_models, "codex") {
            return Some(valid_models[i].clone());
        }
    }
    if text::contains(lower.as_str(), "mini") {
        if let Some(i) = find_with(valid_models, "mini") {
            return Some(valid_models[i].clone());
        }
    }
    if valid_models.len() > 0 {
        assert(text::texts(valid_models@)[0] == valid_models@[0]@);
        Some(valid_models[0].clone())
    } else {
        None
    }
}

/// One of the comma-separated entries of a content encoding is `zstd`, whatever the case of its
/// letters.
pub open spec fn names_zstd(value: Seq<char>) -> bool {
    exists|i: int|
        0 <= i < text::split_on(value, ',').len() && text::lowered(
            text::trimmed(#[trigger] text::split_on(value, ',')[i]),
        ) == "zstd"@
}

/// Whether a content encoding names `zstd`.
pub fn is_zstd_encoding(value: &str) -> (r: bool)
    ensures
        r == names_zstd(value@),
{
    let entries = text::split(value, ',');
    let ghost all = text::split_on(value@, ',');
    for i in 0..entries.len()
        invariant
            all == text::split_on(value@, ','),
            all == text::texts(entries@),
            forall|k: int|
                0 <= k < i ==> text::lowered(text::trimmed(#[trigger] all[k])) != "zstd"@,
    {
        assert(all[i as int] == entries@[i as int]@);
        if text::same(text::to_lower(text::trim(entries[i].as_str())).as_str(), "zstd") {
            return true;
        }
    }
    false
}

/// The trimmed text of one part of a message, unless it is empty.
pub open spec fn part_text(part: JsonView) -> Option<Seq<char>> {
    match part.text_field("text"@) {
        Some(s) if text::trimmed(s).len() > 0 => Some(text::trimmed(s)),
        _ => None,
    }
}

/// The trimmed texts of the parts of a message, without the empty ones.
pub open spec fn part_texts(parts: Seq<JsonView>) -> Seq<Seq<char>>
    decreases parts.len(),
{
    if parts.len() == 0 {
        Seq::empty()
    } else {
        match part_text(parts.last()) {
            Some(s) => part_texts(parts.drop_last()).push(s),
            None => part_texts(parts.drop_last()),
        }
    }
}

/// The text of a message: its content where that is a string, the texts of its parts, with blank
/// lines between them, where it is an array; nothing where that leaves no text.
pub open spec fn message_text(message: JsonView) -> Option<Seq<char>> {
    match message.field("content"@) {
        Some(JsonView::Text(s)) if text::trimmed(s).len() > 0 => Some(text::trimmed(s)),
        Some(JsonView::Array(parts)) if part_texts(parts).len() > 0 => Some(
            text::joined(part_texts(parts), PARAGRAPH_BREAK@),
        ),
        _ => None,
    }
}

/// The text of a message.
pub fn extract_message_text(message: &Json) -> (r: Option<String>)
    ensures
        match r {
            Some(s) => message_text(message@) == Some(s@),
            None => message_text(message@) is None,
        },
{
    match message.field("content") {
        Some(Json::Text(s)) => {
            let trimmed = text::trim(s.as_str());
            if trimmed.is_empty() {
                None
            } else {
                Some(trimmed.to_string())
            }
        },
        Some(Json::Array(items)) => {
            let ghost parts = Json::Array(*items)@->Array_0;
            let mut texts: Vec<String> = Vec::new();
            assert(text::texts(texts@) =~= part_texts(parts.take(0)));
            for i in 0..items.len()
                invariant
                    parts == Json::Array(*items)@->Array_0,
                    text::texts(texts@) == part_texts(parts.take(i as int)),
            {
                let ghost before = texts@;
                assert(parts.take(i + 1).drop_last() == parts.take(i as int));
                assert(parts.take(i + 1).last() == items@[i as int]@);
                if let Some(s) = items[i].text_field("text") {
                    let trimmed = text::trim(s);
                    if !trimmed.is_empty() {
                        texts.push(trimmed.to_string());
                        assert(text::texts(texts@) =~= text::texts(before).push(
                            text::trimmed(s@),
                        ));
                    }
                }
            }
            assert(parts.take(parts.len() as int) == parts);
            if texts.is_empty() {
                None
            } else {
                Some(text::join(&texts, PARAGRAPH_BREAK))
            }
        },
        _ => None,
    }
}

/// A message with the role of a developer or of the system.
pub open spec fn is_instruction(item: JsonView) -> bool {
    item.text_field("role"@) == Some("developer"@) || item.text_field("role"@) == Some("system"@)
}

/// How many of the items, from the first on, are instructions.
pub open spec fn instruction_count(items: Seq<JsonView>) -> nat
    decreases items.len(),
{
    if items.len() > 0 && is_instruction(items[0]) {
        1 + instruction_count(items.drop_first())
    } else {
        0
    }
}

/// The texts of the messages that have one.
pub open spec fn message_texts(items: Seq<JsonView>) -> Seq<Seq<char>>
    decreases items.len(),
{
    if items.len() == 0 {
        Seq::empty()
    } else {
        match message_text(items.last()) {
            Some(s) => message_texts(items.drop_last()).push(s),
            None => message_texts(items.drop_last()),
        }
    }
}

/// A request with the instructions that its input starts with moved into `instructions`, unless it
/// has `instructions` already or those of its input hold no text.
pub open spec fn lifted(json: JsonView) -> JsonView {
    match (json.field("instructions"@), json.field("input"@)) {
        (None, Some(JsonView::Array(items))) => {
            let n = instruction_count(items) as int;
            let parts = message_texts(items.take(n));
            if parts.len() == 0 {
                json
            } else {
                JsonView::Object(
                    json->Object_0.insert("input"@, JsonView::Array(items.skip(n))).insert(
                        "instructions"@,
                        JsonView::Text(text::joined(parts, PARAGRAPH_BREAK@)),
                    ),
                )
            }
        },
        _ => json,
    }
}

proof fn lemma_instruction_count(items: Seq<JsonView>, n: int)
    requires
        0 <= n <= items.len(),
        forall|i: int| 0 <= i < n ==> is_instruction(#[trigger] items[i]),
        n < items.len() ==> !is_instruction(items[n]),
    ensures
        instruction_count(items) == n,
    decreases n,
{
    if n > 0 {
        let rest = items.drop_first();
        assert(is_instruction(items[0]));
        assert forall|i: int| 0 <= i < n - 1 implies is_instruction(#[trigger] rest[i]) by {
            assert(rest[i] == items[i + 1]);
        }
        lemma_instruction_count(rest, n - 1);
    }
}

/// The number of instructions that an array of input items starts with, and their texts.
fn leading_instructions(items: &Vec<Json>) -> (r: (usize, Vec<String>))
    ensures
        ({
            let views = Json::Array(*items)@->Array_0;
            let n = instruction_count(views) as int;
            &&& r.0 == n
            &&& n <= items@.len()
            &&& text::texts(r.1@) == message_texts(views.take(n))
        }),
{
    let ghost views = Json::Array(*items)@->Array_0;
    let mut parts: Vec<String> = Vec::new();
    let mut n: usize = 0;
    assert(text::texts(parts@) =~= message_texts(views.take(0)));
    while n < items.len()
        invariant_except_break
            n <= items@.len(),
        invariant
            n <= items@.len(),
            views == Json::Array(*items)@->Array_0,
            forall|i: int| 0 <= i < n ==> is_instruction(#[trigger] views[i]),
            text::texts(parts@) == message_texts(views.take(n as int)),
        ensures
            n < items@.len() ==> !is_instruction(views[n as int]),
        decreases items@.len() - n,
    {
        let item = &items[n];
        assert(views[n as int] == item@);
        let instruction = match item.text_field("role") {
            Some(role) => text::same(role, "developer") || text::same(role, "system"),
            None => false,
        };
        if !instruction {
            break;
        }
        let ghost before = parts@;
        assert(views.take(n + 1).drop_last() == views.take(n as int));
        assert(views.take(n + 1).last() == item@);
        if let Some(s) = extract_message_text(item) {
            parts.push(s);
            assert(text::texts(parts@) =~= text::texts(before).push(s@));
        }
        n += 1;
    }
    proof {
        lemma_instruction_count(views, n as int);
    }
    (n, parts)
}

/// Moves the instructions that the input of a request starts with into `instructions`.
pub fn lift_input_instructions(json: &mut Json)
    ensures
        final(json)@ == lifted(old(json)@),
{
    if let Json::Object(root) = json {
        if root.contains_key("instructions") {
            return;
        }
        let (n, parts) = match root.get("input") {
            Some(Json::Array(items)) => leading_instructions(items),
            _ => {
                return;
            },
        };
        if parts.is_empty() {
            return;
        }
        let ghost members = root@;
        if let Some(Json::Array(mut items)) = root.remove("input") {
            let ghost views = Json::Array(items)@->Array_0;
            let rest = Json::Array(items.split_off(n));
            assert(rest@->Array_0 =~= views.skip(n as int));
            root.insert("input".to_string(), rest);
            let instructions = text::join(&parts, PARAGRAPH_BREAK);
            root.insert("instructions".to_string(), Json::Text(instructions));
            assert(root@ =~= lifted(JsonView::Object(members))->Object_0);
        }
    }
}

/// The items of an array, none where the value is missing or no array.
pub open spec fn items_of(value: Option<JsonView>) -> Seq<JsonView> {
    match value {
        Some(JsonView::Array(items)) => items,
        _ => Seq::empty(),
    }
}

/// `items`, with encrypted reasoning among them.
pub open spec fn with_encrypted_reasoning(items: Seq<JsonView>) -> Seq<JsonView> {
    let required = JsonView::Text(ENCRYPTED_REASONING@);
    if items.contains(required) {
        items
    } else {
        items.push(required)
    }
}

/// The members of a request that streams, is not stored upstream, and leaves the sampling
/// parameters that the upstream refuses out.
pub open spec fn streamed(members: Map<Seq<char>, JsonView>) -> Map<Seq<char>, JsonView> {
    members.insert("store"@, JsonView::Bool(false)).insert("stream"@, JsonView::Bool(true)).remove(
        "temperature"@,
    ).remove("max_output_tokens"@)
}

/// The members of a request, with encrypted reasoning in `include` where it asks for reasoning.
pub open spec fn reasoned(members: Map<Seq<char>, JsonView>) -> Map<Seq<char>, JsonView> {
    if members.contains_key("reasoning"@) {
        members.insert(
            "include"@,
            JsonView::Array(
                with_encrypted_reasoning(items_of(JsonView::Object(members).field("include"@))),
            ),
        )
    } else {
        members
    }
}

/// The members of a request, with an object as `client_metadata`.
pub open spec fn described(members: Map<Seq<char>, JsonView>) -> Map<Seq<char>, JsonView> {
    match JsonView::Object(members).field("client_metadata"@) {
        Some(JsonView::Object(_)) => members,
        _ => members.insert("client_metadata"@, JsonView::Object(Map::empty())),
    }
}

/// A request as the upstream accepts it.
pub open spec fn normalized(json: JsonView) -> JsonView {
    match json {
        JsonView::Object(members) => JsonView::Object(described(reasoned(streamed(members)))),
        _ => json,
    }
}

/// The items, with encrypted reasoning among them.
fn add_encrypted_reasoning(items: Vec<Json>) -> (r: Vec<Json>)
    ensures
        Json::Array(r)@ == JsonView::Array(with_encrypted_reasoning(Json::Array(items)@->Array_0)),
{
    let ghost views = Json::Array(items)@->Array_0;
    let ghost required = JsonView::Text(ENCRYPTED_REASONING@);
    for i in 0..items.len()
        invariant
            views == Json::Array(items)@->Array_0,
            required == JsonView::Text(ENCRYPTED_REASONING@),
            forall|k: int| 0 <= k < i ==> (#[trigger] views[k]) != required,
    {
        assert(views[i as int] == items@[i as int]@);
        if let Some(s) = items[i].text() {
            if text::same(s, ENCRYPTED_REASONING) {
                assert(views.contains(required));
                return items;
            }
        }
    }
    assert(!views.contains(required));
    let mut all = items;
    all.push(Json::Text(ENCRYPTED_REASONING.to_string()));
    assert(all@.last()@ == required);
    assert(Json::Array(all)@->Array_0 =~= views.push(required));
    all
}

/// Makes a request one that the upstream accepts.
pub fn normalize_for_codex_upstream(json: &mut Json)
    ensures
        final(json)@ == normalized(old(json)@),
{
    if let Json::Object(root) = json {
        let ghost members = root@;
        root.insert("store".to_string(), Json::Bool(false));
        root.insert("stream".to_string(), Json::Bool(true));
        let _ = root.remove("temperature");
        let _ = root.remove("max_output_tokens");
        assert(root@ == streamed(members));
        if root.contains_key("reasoning") {
            let ghost before = root@;
            let items: Vec<Json> = match root.remove("include") {
                Some(Json::Array(items)) => items,
                _ => Vec::new(),
            };
            assert(Json::Array(items)@->Array_0 =~= items_of(
                JsonView::Object(before).field("include"@),
            ));
            root.insert("include".to_string(), Json::Array(add_encrypted_reasoning(items)));
            assert(root@ =~= reasoned(before));
        }
        let described = match root.get("client_metadata") {
            Some(Json::Object(_)) => true,
            _ => false,
        };
        if !described {
            root.insert("client_metadata".to_string(), Json::Object(JsonObject::new()));
        }
    }
}

/// A request for a model of the given list: one that names another model names the best
/// replacement instead. An empty list holds every model.
pub open spec fn remodeled(json: JsonView, models: Seq<Seq<char>>) -> JsonView {
    match json.text_field("model"@) {
        Some(model) if models.len() > 0 && !models.contains(model) => JsonView::Object(
            json->Object_0.insert("model"@, JsonView::Text(best_replacement(model, models)->0)),
        ),
        _ => json,
    }
}

/// What was done about the model of a request: its name and that of its replacement.
pub open spec fn remodeling(json: JsonView, models: Seq<Seq<char>>) -> Option<Seq<char>> {
    match json.text_field("model"@) {
        Some(model) if models.len() > 0 && !models.contains(model) => Some(
            model + " -> "@ + best_replacement(model, models)->0,
        ),
        _ => None,
    }
}

/// A request whose client metadata names the installation, unless it names one already.
pub open spec fn installed(json: JsonView, installation_id: Seq<char>) -> JsonView {
    match json.field("client_metadata"@) {
        Some(JsonView::Object(metadata)) if !metadata.contains_key(
            X_CODEX_INSTALLATION_ID_HEADER@,
        ) => JsonView::Object(
            json->Object_0.insert(
                "client_metadata"@,
                JsonView::Object(
                    metadata.insert(
                        X_CODEX_INSTALLATION_ID_HEADER@,
                        JsonView::Text(installation_id),
                    ),
                ),
            ),
        ),
        _ => json,
    }
}

/// A request as it is sent upstream.
pub open spec fn rewritten(
    installation_id: Seq<char>,
    json: JsonView,
    models: Seq<Seq<char>>,
) -> JsonView {
    installed(normalized(lifted(remodeled(json, models))), installation_id)
}

/// Replaces the model of a request where the list does not hold it, and tells the replacement.
fn replace_model(json: &mut Json, valid_models: &Vec<String>) -> (r: Option<String>)
    ensures
        final(json)@ == remodeled(old(json)@, text::texts(valid_models@)),
        match r {
            Some(s) => remodeling(old(json)@, text::texts(valid_models@)) == Some(s@),
            None => remodeling(old(json)@, text::texts(valid_models@)) is None,
        },
{
    let model = match json.text_field("model") {
        Some(model) => model.to_string(),
        None => {
            return None;
        },
    };
    if valid_models.is_empty() || text::lists(valid_models, model.as_str()) {
        return None;
    }
    if let Some(replacement) = pick_best_replacement(model.as_str(), valid_models) {
        let note = model.concat(" -> ").concat(replacement.as_str());
        if let Json::Object(root) = json {
            root.insert("model".to_string(), Json::Text(replacement));
        }
        Some(note)
    } else {
        None
    }
}

/// Names the installation in the client metadata of a request, unless one is named there already.
fn name_installation(json: &mut Json, installation_id: &str)
    ensures
        final(json)@ == installed(old(json)@, installation_id@),
{
    if let Json::Object(root) = json {
        let ghost members = root@;
        match root.remove("client_metadata") {
            Some(Json::Object(mut metadata)) => {
                if !metadata.contains_key(X_CODEX_INSTALLATION_ID_HEADER) {
                    metadata.insert(
                        X_CODEX_INSTALLATION_ID_HEADER.to_string(),
                        Json::Text(installation_id.to_string()),
                    );
                }
                root.insert("client_metadata".to_string(), Json::Object(metadata));
                assert(root@ =~= installed(
                    JsonView::Object(members),
                    installation_id@,
                )->Object_0);
            },
            Some(other) => {
                root.insert("client_metadata".to_string(), other);
                assert(root@ =~= members);
            },
            None => {
                assert(root@ =~= members);
            },
        }
    }
}

/// Rewrites a request into what is sent upstream, and tells what was done about its model.
pub fn rewrite_json(installation_id: &str, json: &mut Json, valid_models: &Vec<String>) -> (r:
    Option<String>)
    ensures
        final(json)@ == rewritten(installation_id@, old(json)@, text::texts(valid_models@)),
        match r {
            Some(s) => remodeling(old(json)@, text::texts(valid_models@)) == Some(s@),
            None => remodeling(old(json)@, text::texts(valid_models@)) is None,
        },
{
    let note = replace_model(json, valid_models);
    lift_input_instructions(json);
    normalize_for_codex_upstream(json);
    name_installation(json, installation_id);
    note
}

/// A request body as it is sent upstream, and what was done about its model. A body that is no JSON
/// text is sent as it is.
pub open spec fn rewritten_bytes(
    installation_id: Seq<char>,
    body: Seq<u8>,
    models: Seq<Seq<char>>,
) -> (Seq<u8>, Option<Seq<char>>) {
    match json::json_read(body) {
        None => (body, None),
        Some(json) => match json::json_written(rewritten(installation_id, json, models)) {
            Some(bytes) => (bytes, remodeling(json, models)),
            None => (body, None),
        },
    }
}

/// Rewrites a request body that is not compressed.
pub fn rewrite_json_body(installation_id: &str, body: Vec<u8>, valid_models: &Vec<String>) -> (r: (
    Vec<u8>,
    Option<String>,
))
    ensures
        (r.0@, text::text_in(r.1)) == rewritten_bytes(
            installation_id@,
            body@,
            text::texts(valid_models@),
        ),
{
    match json::read(body.as_slice()) {
        None => (body, None),
        Some(mut json) => {
            let note = rewrite_json(installation_id, &mut json, valid_models);
            match json::write(json) {
                Some(bytes) => (bytes, note),
                None => (body, None),
            }
        },
    }
}

/// What zstd data decompresses to.
pub uninterp spec fn zstd_decoded(bytes: Seq<u8>) -> Option<Seq<u8>>;

/// The zstd data of a compression at the given level.
pub uninterp spec fn zstd_encoded(bytes: Seq<u8>, level: i32) -> Option<Seq<u8>>;

/// `zstd::stream::decode_all`: what it gives, and whether it succeeds, is a function of the bytes.
#[verifier::external_body]
fn zstd_decode(bytes: &Vec<u8>) -> (r: Option<Vec<u8>>)
    ensures
        match r {
            Some(decoded) => zstd_decoded(bytes@) == Some(decoded@),
            None => zstd_decoded(bytes@) is None,
        },
{
    zstd::stream::decode_all(std::io::Cursor::new(bytes)).ok()
}

/// `zstd::stream::encode_all`: what it gives, and whether it succeeds, is a function of the bytes and
/// the level, and decompressing what it gives yields the bytes again.
#[verifier::external_body]
fn zstd_encode(bytes: &Vec<u8>, level: i32) -> (r: Option<Vec<u8>>)
    ensures
        match r {
            Some(encoded) => zstd_encoded(bytes@, level) == Some(encoded@) && zstd_decoded(encoded@)
                == Some(bytes@),
            None => zstd_encoded(bytes@, level) is None,
        },
{
    zstd::stream::encode_all(std::io::Cursor::new(bytes), level).ok()
}

/// The compression level of the bodies that are sent upstream.
pub const ZSTD_LEVEL: i32 = 3;

/// A request body, compressed as its content encoding says, as it is sent upstream, and what was
/// done about its model. A body that does not decompress, or that cannot be compressed again, is
/// sent as it is.
pub open spec fn rewritten_body(
    installation_id: Seq<char>,
    body: Seq<u8>,
    content_encoding: Option<Seq<char>>,
    models: Seq<Seq<char>>,
) -> (Seq<u8>, Option<Seq<char>>) {
    if content_encoding is Some && names_zstd(content_encoding->0) {
        match zstd_decoded(body) {
            None => (body, None),
            Some(decoded) => {
                let (bytes, note) = rewritten_bytes(installation_id, decoded, models);
                match zstd_encoded(bytes, ZSTD_LEVEL) {
                    Some(encoded) => (encoded, note),
                    None => (body, None),
                }
            },
        }
    } else {
        rewritten_bytes(installation_id, body, models)
    }
}

/// Rewrites a request body into what is sent upstream, and tells what was done about its model.
///
/// What is sent upstream in place of a compressed body decompresses to the rewriting of what the
/// received body decompresses to. A body that does not decompress, or whose rewriting cannot be
/// compressed, is sent as it is.
pub fn rewrite_body_for_upstream(
    installation_id: &str,
    body: Vec<u8>,
    content_encoding: Option<&str>,
    valid_models: &Vec<String>,
) -> (r: (Vec<u8>, Option<String>))
    ensures
        (r.0@, text::text_in(r.1)) == rewritten_body(
            installation_id@,
            body@,
            text::str_in(content_encoding),
            text::texts(valid_models@),
        ),
        content_encoding is Some && names_zstd(content_encoding->0@) ==> match zstd_decoded(body@) {
            None => r.0@ == body@ && r.1 is None,
            Some(decoded) => {
                let (bytes, note) = rewritten_bytes(
                    installation_id@,
                    decoded,
                    text::texts(valid_models@),
                );
                if zstd_encoded(bytes, ZSTD_LEVEL) is Some {
                    zstd_decoded(r.0@) == Some(bytes) && text::text_in(r.1) == note
                } else {
                    r.0@ == body@ && r.1 is None
                }
            },
        },
{
    let compressed = match content_encoding {
        Some(value) => is_zstd_encoding(value),
        None => false,
    };
    if compressed {
        let decoded = match zstd_decode(&body) {
            Some(decoded) => decoded,
            None => {
                return (body, None);
            },
        };
        let (bytes, note) = rewrite_json_body(installation_id, decoded, valid_models);
        match zstd_encode(&bytes, ZSTD_LEVEL) {
            Some(encoded) => (encoded, note),
            None => (body, None),
        }
    } else {
        rewrite_json_body(installation_id, body, valid_models)
    }
}

proof fn lemma_first_with(models: Seq<Seq<char>>, part: Seq<char>)
    ensures
        first_with(models, part) matches Some(model) ==> models.contains(model),
    decreases models.len(),
{
    if models.len() > 0 {
        lemma_first_with(models.drop_first(), part);
        if text::occurs(part, text::lowered(models[0])) {
            assert(models.contains(models[0]));
        } else if let Some(model) = first_with(models.drop_first(), part) {
            let i = choose|i: int|
                0 <= i < models.drop_first().len() && models.drop_first()[i] == model;
            assert(models[i + 1] == model);
        }
    }
}

/// The replacement of a model is one of the models to choose from, and there is one whenever there
/// are models to choose from.
pub proof fn law_replacement_is_listed(requested: Seq<char>, models: Seq<Seq<char>>)
    ensures
        best_replacement(requested, models) is Some <==> models.len() > 0,
        best_replacement(requested, models) matches Some(model) ==> models.contains(model),
{
    lemma_first_with(models, "codex"@);
    lemma_first_with(models, "mini"@);
    if models.len() > 0 {
        assert(models.contains(models[0]));
    }
}

/// The members of a request that rewriting may touch.
pub open spec fn is_rewritten_key(key: Seq<char>) -> bool {
    ||| key == "model"@
    ||| key == "input"@
    ||| key == "instructions"@
    ||| key == "store"@
    ||| key == "stream"@
    ||| key == "temperature"@
    ||| key == "max_output_tokens"@
    ||| key == "include"@
    ||| key == "client_metadata"@
}

proof fn lemma_keys_differ()
    ensures
        "model"@ != "input"@,
        "model"@ != "store"@,
        "input"@ != "store"@,
        "model"@.len() == 5,
        "input"@.len() == 5,
        "store"@.len() == 5,
        "stream"@.len() == 6,
        "include"@.len() == 7,
        "reasoning"@.len() == 9,
        "temperature"@.len() == 11,
        "instructions"@.len() == 12,
        "client_metadata"@.len() == 15,
        "max_output_tokens"@.len() == 17,
{
    reveal_strlit("model");
    reveal_strlit("input");
    reveal_strlit("store");
    reveal_strlit("stream");
    reveal_strlit("include");
    reveal_strlit("reasoning");
    reveal_strlit("temperature");
    reveal_strlit("instructions");
    reveal_strlit("client_metadata");
    reveal_strlit("max_output_tokens");
    assert("model"@[0] == 'm');
    assert("input"@[0] == 'i');
    assert("store"@[0] == 's');
}

/// Rewriting leaves every member of a request but the ones listed as it was, and a request that is
/// no object as a whole.
pub proof fn law_other_members_are_kept(
    installation_id: Seq<char>,
    json: JsonView,
    models: Seq<Seq<char>>,
    key: Seq<char>,
)
    requires
        !is_rewritten_key(key),
    ensures
        rewritten(installation_id, json, models).field(key) == json.field(key),
        json !is Object ==> rewritten(installation_id, json, models) == json,
{
}

/// A rewritten request names a model of the list, where the list is not empty and the request names
/// a model at all. A model that the list holds is kept, and another is replaced by the best of the
/// list.
pub proof fn law_model_is_listed(
    installation_id: Seq<char>,
    json: JsonView,
    models: Seq<Seq<char>>,
)
    requires
        json.text_field("model"@) is Some,
    ensures
        rewritten(installation_id, json, models).text_field("model"@) is Some,
        models.len() > 0 ==> models.contains(
            rewritten(installation_id, json, models).text_field("model"@)->0,
        ),
        models.len() == 0 || models.contains(json.text_field("model"@)->0) ==> rewritten(
            installation_id,
            json,
            models,
        ).text_field("model"@) == json.text_field("model"@),
        models.len() > 0 && !models.contains(json.text_field("model"@)->0) ==> rewritten(
            installation_id,
            json,
            models,
        ).text_field("model"@) == best_replacement(json.text_field("model"@)->0, models),
{
    lemma_keys_differ();
    law_replacement_is_listed(json.text_field("model"@)->0, models);
    let remodel = remodeled(json, models);
    assert(lifted(remodel).field("model"@) == remodel.field("model"@));
    assert(normalized(lifted(remodel)).field("model"@) == remodel.field("model"@));
}

/// A rewritten request streams, is not stored, carries none of the refused sampling parameters,
/// names an installation, and includes encrypted reasoning where it asks for reasoning.
pub proof fn law_upstream_form(
    installation_id: Seq<char>,
    json: JsonView,
    models: Seq<Seq<char>>,
)
    requires
        json is Object,
    ensures
        ({
            let r = rewritten(installation_id, json, models);
            &&& r is Object
            &&& r.field("store"@) == Some(JsonView::Bool(false))
            &&& r.field("stream"@) == Some(JsonView::Bool(true))
            &&& r.field("temperature"@) is None
            &&& r.field("max_output_tokens"@) is None
            &&& r.field("client_metadata"@) is Some
            &&& r.field("client_metadata"@)->0.field(X_CODEX_INSTALLATION_ID_HEADER@) is Some
            &&& r.field("reasoning"@) == json.field("reasoning"@)
            &&& r.field("reasoning"@) is Some ==> items_of(r.field("include"@)).contains(
                JsonView::Text(ENCRYPTED_REASONING@),
            )
        }),
{
    lemma_keys_differ();
    let l = lifted(remodeled(json, models));
    assert(l is Object);
    assert(l.field("reasoning"@) == json.field("reasoning"@));
    let s = streamed(l->Object_0);
    assert(JsonView::Object(s).field("reasoning"@) == json.field("reasoning"@));
    let items = items_of(JsonView::Object(s).field("include"@));
    let required = JsonView::Text(ENCRYPTED_REASONING@);
    assert(with_encrypted_reasoning(items).contains(required)) by {
        assert(items.push(required)[items.len() as int] == required);
    }
}

/// An installation that a request names is kept, and one is named where it names none.
pub proof fn law_named_installation_is_kept(
    installation_id: Seq<char>,
    json: JsonView,
    models: Seq<Seq<char>>,
)
    requires
        json is Object,
    ensures
        ({
            let key = X_CODEX_INSTALLATION_ID_HEADER@;
            let named = match json.field("client_metadata"@) {
                Some(metadata) => metadata.field(key),
                None => None,
            };
            rewritten(installation_id, json, models).field("client_metadata"@)->0.field(key) == Some(
                match named {
                    Some(value) => value,
                    None => JsonView::Text(installation_id),
                },
            )
        }),
{
    lemma_keys_differ();
    let l = lifted(remodeled(json, models));
    assert(l.field("client_metadata"@) == json.field("client_metadata"@));
    let r = reasoned(streamed(l->Object_0));
    assert(JsonView::Object(r).field("client_metadata"@) == json.field("client_metadata"@));
}

/// Rewriting a rewritten request changes nothing.
pub proof fn law_rewriting_is_idempotent(
    installation_id: Seq<char>,
    json: JsonView,
    models: Seq<Seq<char>>,
)
    ensures
        ({
            let once = rewritten(installation_id, json, models);
            rewritten(installation_id, once, models) == once
        }),
{
    if json is Object {
        let once = rewritten(installation_id, json, models);
        lemma_keys_differ();
        law_upstream_form(installation_id, json, models);
        if json.text_field("model"@) is Some {
            law_model_is_listed(installation_id, json, models);
        }
        let r = remodeled(json, models);
        let l = lifted(r);
        let n = normalized(l);
        assert(l.field("model"@) == r.field("model"@));
        assert(once.field("model"@) == r.field("model"@));
        assert(remodeled(once, models) == once);
        assert(once.field("instructions"@) == l.field("instructions"@));
        assert(once.field("input"@) == l.field("input"@));
        assert(lifted(once) == once);
        let m = once->Object_0;
        assert(streamed(m) =~= m);
        assert(reasoned(m) =~= m);
        assert(described(m) == m);
        assert(normalized(once) == once);
    }
}

proof fn lemma_first_with_is_first(models: Seq<Seq<char>>, part: Seq<char>) -> (i: int)
    ensures
        match first_with(models, part) {
            Some(model) => {
                &&& 0 <= i < models.len()
                &&& model == models[i]
                &&& text::occurs(part, text::lowered(models[i]))
                &&& forall|j: int|
                    0 <= j < i ==> !text::occurs(part, text::lowered(#[trigger] models[j]))
            },
            None => forall|j: int|
                0 <= j < models.len() ==> !text::occurs(part, text::lowered(#[trigger] models[j])),
        },
    decreases models.len(),
{
    if models.len() == 0 {
        0
    } else if text::occurs(part, text::lowered(models[0])) {
        0
    } else {
        let rest = models.drop_first();
        let i = lemma_first_with_is_first(rest, part);
        assert forall|j: int| 0 < j < models.len() implies #[trigger] models[j] == rest[j - 1] by {}
        i + 1
    }
}

/// A model holds a word, whatever the case of its letters.
pub open spec fn holds(model: Seq<char>, word: Seq<char>) -> bool {
    text::occurs(word, text::lowered(model))
}

/// Model number `i` is the first of the list that holds a word.
pub open spec fn is_first_holding(models: Seq<Seq<char>>, word: Seq<char>, i: int) -> bool {
    &&& 0 <= i < models.len()
    &&& holds(models[i], word)
    &&& forall|j: int| 0 <= j < i ==> !holds(#[trigger] models[j], word)
}

/// A model that holds `codex` anywhere in its name is replaced by the first of the list that does, if
/// there is one; else one that holds `mini` by the first that does, if there is one; else any model by
/// the first of the list.
pub proof fn law_replacement_keeps_the_family(requested: Seq<char>, models: Seq<Seq<char>>, i: int)
    ensures
        holds(requested, "codex"@) && is_first_holding(models, "codex"@, i) ==> best_replacement(
            requested,
            models,
        ) == Some(models[i]),
        !(holds(requested, "codex"@) && exists|j: int|
            0 <= j < models.len() && holds(#[trigger] models[j], "codex"@)) && holds(
            requested,
            "mini"@,
        ) && is_first_holding(models, "mini"@, i) ==> best_replacement(requested, models) == Some(
            models[i],
        ),
        models.len() > 0 && !(holds(requested, "codex"@) && exists|j: int|
            0 <= j < models.len() && holds(#[trigger] models[j], "codex"@)) && !(holds(
            requested,
            "mini"@,
        ) && exists|j: int| 0 <= j < models.len() && holds(#[trigger] models[j], "mini"@))
            ==> best_replacement(requested, models) == Some(models[0]),
{
    let c = lemma_first_with_is_first(models, "codex"@);
    let m = lemma_first_with_is_first(models, "mini"@);
    if is_first_holding(models, "codex"@, i) {
        assert(holds(models[i], "codex"@));
        if c < i {
            assert(!holds(models[c], "codex"@));
        }
        assert(c == i);
    }
    if is_first_holding(models, "mini"@, i) {
        assert(holds(models[i], "mini"@));
        if m < i {
            assert(!holds(models[m], "mini"@));
        }
        assert(m == i);
    }
    if first_with(models, "codex"@) is Some {
        assert(holds(models[c], "codex"@));
    }
    if first_with(models, "mini"@) is Some {
        assert(holds(models[m], "mini"@));
    }
}

/// A stale model of a request is replaced by one of the same family wherever the list has one.
pub proof fn law_stale_model_stays_in_its_family(
    installation_id: Seq<char>,
    json: JsonView,
    models: Seq<Seq<char>>,
    i: int,
)
    requires
        json.text_field("model"@) is Some,
        !models.contains(json.text_field("model"@)->0),
        holds(json.text_field("model"@)->0, "codex"@),
        is_first_holding(models, "codex"@, i),
    ensures
        rewritten(installation_id, json, models).text_field("model"@) == Some(models[i]),
{
    law_model_is_listed(installation_id, json, models);
    law_replacement_keeps_the_family(json.text_field("model"@)->0, models, i);
}

/// What was done about the model is told exactly if the model is stale, as its name, an arrow, and the
/// name in its place.
pub proof fn law_replacement_is_told(
    installation_id: Seq<char>,
    json: JsonView,
    models: Seq<Seq<char>>,
)
    ensures
        remodeling(json, models) is Some <==> {
            &&& json.text_field("model"@) is Some
            &&& models.len() > 0
            &&& !models.contains(json.text_field("model"@)->0)
        },
        remodeling(json, models) is Some ==> remodeling(json, models)->0 == json.text_field(
            "model"@,
        )->0 + " -> "@ + rewritten(installation_id, json, models).text_field("model"@)->0,
{
    if json.text_field("model"@) is Some {
        law_model_is_listed(installation_id, json, models);
        law_replacement_is_listed(json.text_field("model"@)->0, models);
    }
}

/// Two texts with a blank line between them, where there are two.
pub open spec fn together(a: Option<Seq<char>>, b: Option<Seq<char>>) -> Option<Seq<char>> {
    if a is Some && b is Some {
        Some(a->0 + "\n\n"@ + b->0)
    } else if a is Some {
        a
    } else {
        b
    }
}

proof fn lemma_part_texts_add(a: Seq<JsonView>, b: Seq<JsonView>)
    ensures
        part_texts(a + b) == part_texts(a) + part_texts(b),
    decreases b.len(),
{
    if b.len() == 0 {
        assert(a + b =~= a);
        assert(part_texts(a) + part_texts(b) =~= part_texts(a));
    } else {
        assert((a + b).drop_last() =~= a + b.drop_last());
        lemma_part_texts_add(a, b.drop_last());
        assert(part_texts(a + b) =~= part_texts(a) + part_texts(b));
    }
}

/// The text of a message whose content is one part after another is the text of the first parts, a
/// blank line, and that of the others.
pub proof fn law_message_parts_follow_each_other(
    message: JsonView,
    first: JsonView,
    second: JsonView,
    a: Seq<JsonView>,
    b: Seq<JsonView>,
)
    requires
        message.field("content"@) == Some(JsonView::Array(a + b)),
        first.field("content"@) == Some(JsonView::Array(a)),
        second.field("content"@) == Some(JsonView::Array(b)),
    ensures
        message_text(message) == together(message_text(first), message_text(second)),
{
    lemma_part_texts_add(a, b);
    lemma_text_of_parts(message, a + b);
    lemma_text_of_parts(first, a);
    lemma_text_of_parts(second, b);
    let x = part_texts(a);
    let y = part_texts(b);
    if x.len() > 0 && y.len() > 0 {
        text::law_joined(x, y, "\n\n"@);
        assert(message_text(message) == Some(text::joined(x + y, "\n\n"@)));
        assert(message_text(first) == Some(text::joined(x, "\n\n"@)));
        assert(message_text(second) == Some(text::joined(y, "\n\n"@)));
    } else if x.len() == 0 {
        assert(x + y =~= y);
        assert(message_text(first) is None);
    } else {
        assert(x + y =~= x);
        assert(message_text(second) is None);
    }
}

proof fn lemma_text_of_parts(message: JsonView, parts: Seq<JsonView>)
    requires
        message.field("content"@) == Some(JsonView::Array(parts)),
    ensures
        part_texts(parts).len() > 0 ==> message_text(message) == Some(
            text::joined(part_texts(parts), "\n\n"@),
        ),
        part_texts(parts).len() == 0 ==> message_text(message) is None,
{
}

/// A part of a message contributes its trimmed text, whatever else it holds, and nothing exactly if
/// its text is missing, no string, or blank.
pub proof fn law_part_contributes_its_text(message: JsonView, part: JsonView)
    requires
        message.field("content"@) == Some(JsonView::Array(seq![part])),
    ensures
        match part.field("text"@) {
            Some(JsonView::Text(s)) => if text::trimmed(s).len() > 0 {
                message_text(message) == Some(text::trimmed(s))
            } else {
                message_text(message) is None
            },
            _ => message_text(message) is None,
        },
{
    let none = Seq::<JsonView>::empty();
    assert(seq![part].drop_last() =~= none);
    assert(part_texts(none) =~= Seq::<Seq<char>>::empty());
    assert(seq![part].last() == part);
    if part_text(part) is Some {
        let s = part_text(part)->0;
        assert(part_texts(seq![part]) =~= seq![s]);
        text::law_joined(seq![s], Seq::empty(), "\n\n"@);
    } else {
        assert(part_texts(seq![part]) =~= Seq::<Seq<char>>::empty());
    }
}

/// A message whose content is a string has it as its text, trimmed, unless it is blank. One without
/// content, with content of another kind, or with no parts has none.
pub proof fn law_message_of_one_text(message: JsonView)
    ensures
        message.field("content"@) matches Some(JsonView::Text(s)) ==> (if text::trimmed(s).len() > 0 {
            message_text(message) == Some(text::trimmed(s))
        } else {
            message_text(message) is None
        }),
        message.field("content"@) is None ==> message_text(message) is None,
        message.field("content"@) matches Some(content) && content !is Text && content !is Array
            ==> message_text(message) is None,
        message.field("content"@) == Some(JsonView::Array(Seq::empty())) ==> message_text(
            message,
        ) is None,
{
}

proof fn lemma_part_is_listed(parts: Seq<JsonView>, k: int)
    requires
        0 <= k < parts.len(),
        part_text(parts[k]) is Some,
    ensures
        part_texts(parts).contains(part_text(parts[k])->0),
    decreases parts.len(),
{
    let init = parts.drop_last();
    let s = part_text(parts[k])->0;
    if k < init.len() {
        lemma_part_is_listed(init, k);
        let j = choose|j: int| 0 <= j < part_texts(init).len() && part_texts(init)[j] == s;
        assert(part_texts(parts)[j] == s);
    } else {
        assert(part_texts(parts)[part_texts(parts).len() - 1] == s);
    }
}

/// A message with a part whose text is not blank always has a text, whatever other members the part
/// has and whatever other parts there are.
pub proof fn law_message_with_text_has_text(message: JsonView, parts: Seq<JsonView>, k: int, s: Seq<char>)
    requires
        message.field("content"@) == Some(JsonView::Array(parts)),
        0 <= k < parts.len(),
        parts[k].field("text"@) == Some(JsonView::Text(s)),
        text::trimmed(s).len() > 0,
    ensures
        message_text(message) is Some,
        text::occurs(text::trimmed(s), message_text(message)->0),
{
    let head = parts.take(k);
    let mid = seq![parts[k]];
    let tail = parts.skip(k + 1);
    assert(parts =~= head + mid + tail);
    let a = JsonView::Object(map!["content"@ => JsonView::Array(head)]);
    let b = JsonView::Object(map!["content"@ => JsonView::Array(mid)]);
    let ab = JsonView::Object(map!["content"@ => JsonView::Array(head + mid)]);
    let c = JsonView::Object(map!["content"@ => JsonView::Array(tail)]);
    law_part_contributes_its_text(b, parts[k]);
    law_message_parts_follow_each_other(ab, a, b, head, mid);
    law_message_parts_follow_each_other(message, ab, c, head + mid, tail);
    let t = text::trimmed(s);
    let whole = message_text(message)->0;
    let before = if message_text(a) is Some {
        message_text(a)->0 + "\n\n"@
    } else {
        Seq::<char>::empty()
    };
    let after = if message_text(c) is Some {
        "\n\n"@ + message_text(c)->0
    } else {
        Seq::<char>::empty()
    };
    assert(whole =~= before + t + after);
    text::law_occurs(t, whole);
}

/// The input of a request begins with `n` messages of a developer or of the system, and no more.
pub open spec fn begins_with_instructions(items: Seq<JsonView>, n: int) -> bool {
    &&& 0 <= n <= items.len()
    &&& forall|i: int|
        0 <= i < n ==> (#[trigger] items[i]).text_field("role"@) == Some("developer"@)
            || items[i].text_field("role"@) == Some("system"@)
    &&& n < items.len() ==> items[n].text_field("role"@) != Some("developer"@)
        && items[n].text_field("role"@) != Some("system"@)
}

proof fn lemma_message_texts(items: Seq<JsonView>)
    ensures
        message_texts(items) == items.filter_map(|m: JsonView| message_text(m)),
        message_texts(items).len() > 0 <==> exists|i: int|
            0 <= i < items.len() && message_text(#[trigger] items[i]) is Some,
    decreases items.len(),
{
    if items.len() > 0 {
        let init = items.drop_last();
        lemma_message_texts(init);
        if message_text(items.last()) is Some {
            assert(message_text(items[items.len() - 1]) is Some);
            assert(message_texts(items) =~= items.filter_map(|m: JsonView| message_text(m)));
        } else {
            if message_texts(init).len() > 0 {
                let i = choose|i: int|
                    0 <= i < init.len() && message_text(#[trigger] init[i]) is Some;
                assert(items[i] == init[i]);
            }
            if exists|i: int| 0 <= i < items.len() && message_text(#[trigger] items[i]) is Some {
                let i = choose|i: int|
                    0 <= i < items.len() && message_text(#[trigger] items[i]) is Some;
                assert(init[i] == items[i]);
            }
        }
    }
}

proof fn lemma_rewritten_input(installation_id: Seq<char>, json: JsonView, models: Seq<Seq<char>>)
    ensures
        rewritten(installation_id, json, models).field("input"@) == lifted(json).field("input"@),
        rewritten(installation_id, json, models).field("instructions"@) == lifted(json).field(
            "instructions"@,
        ),
{
    lemma_keys_differ();
    if json is Object {
        let r = remodeled(json, models);
        assert(r.field("input"@) == json.field("input"@));
        assert(r.field("instructions"@) == json.field("instructions"@));
        let l = lifted(r);
        assert(l.field("input"@) == lifted(json).field("input"@));
        assert(l.field("instructions"@) == lifted(json).field("instructions"@));
        let n = normalized(l);
        assert(n.field("input"@) == l.field("input"@));
        assert(n.field("instructions"@) == l.field("instructions"@));
    }
}

/// A request without instructions of its own whose input begins with messages of a developer or of the
/// system has them moved: all of them leave the input, nothing else does, and their texts are its
/// instructions, in their order, with blank lines between them. If none of them has a text, nothing is
/// moved.
pub proof fn law_leading_instructions_are_moved(
    installation_id: Seq<char>,
    json: JsonView,
    models: Seq<Seq<char>>,
    items: Seq<JsonView>,
    n: int,
)
    requires
        json.field("instructions"@) is None,
        json.field("input"@) == Some(JsonView::Array(items)),
        begins_with_instructions(items, n),
    ensures
        ({
            let r = rewritten(installation_id, json, models);
            let leading = items.take(n);
            if exists|i: int| 0 <= i < n && message_text(#[trigger] leading[i]) is Some {
                &&& r.field("input"@) == Some(JsonView::Array(items.skip(n)))
                &&& r.field("instructions"@) == Some(
                    JsonView::Text(
                        text::joined(leading.filter_map(|m: JsonView| message_text(m)), "\n\n"@),
                    ),
                )
            } else {
                &&& r.field("input"@) == Some(JsonView::Array(items))
                &&& r.field("instructions"@) is None
            }
        }),
{
    lemma_keys_differ();
    lemma_rewritten_input(installation_id, json, models);
    assert forall|i: int| 0 <= i < n implies is_instruction(#[trigger] items[i]) by {}
    lemma_instruction_count(items, n);
    lemma_message_texts(items.take(n));
}

/// A leading message of a developer or of the system that has a part whose text is not blank is always
/// moved into the instructions, whatever other members the part has.
pub proof fn law_leading_message_with_text_is_moved(
    installation_id: Seq<char>,
    json: JsonView,
    models: Seq<Seq<char>>,
    items: Seq<JsonView>,
    n: int,
    i: int,
    parts: Seq<JsonView>,
    k: int,
    s: Seq<char>,
)
    requires
        json.field("instructions"@) is None,
        json.field("input"@) == Some(JsonView::Array(items)),
        begins_with_instructions(items, n),
        0 <= i < n,
        items[i].field("content"@) == Some(JsonView::Array(parts)),
        0 <= k < parts.len(),
        parts[k].field("text"@) == Some(JsonView::Text(s)),
        text::trimmed(s).len() > 0,
    ensures
        ({
            let r = rewritten(installation_id, json, models);
            &&& r.field("input"@) == Some(JsonView::Array(items.skip(n)))
            &&& r.text_field("instructions"@) is Some
        }),
{
    law_leading_instructions_are_moved(installation_id, json, models, items, n);
    law_message_with_text_has_text(items[i], parts, k, s);
    let leading = items.take(n);
    assert(leading[i] == items[i]);
    assert(message_text(leading[i]) is Some);
}

/// A request that has instructions of its own keeps them and its whole input, and so does one whose
/// input is no array.
pub proof fn law_given_instructions_are_kept(
    installation_id: Seq<char>,
    json: JsonView,
    models: Seq<Seq<char>>,
)
    requires
        json.field("instructions"@) is Some || !(json.field("input"@) matches Some(input)
            && input is Array),
    ensures
        rewritten(installation_id, json, models).field("instructions"@) == json.field(
            "instructions"@,
        ),
        rewritten(installation_id, json, models).field("input"@) == json.field("input"@),
{
    lemma_rewritten_input(installation_id, json, models);
}

/// A request that asks for reasoning includes encrypted reasoning after what it included before, but not
/// twice. One that does not includes what it did before.
pub proof fn law_encrypted_reasoning_is_included(
    installation_id: Seq<char>,
    json: JsonView,
    models: Seq<Seq<char>>,
    before: Seq<JsonView>,
)
    requires
        json is Object,
        json.field("include"@) matches Some(JsonView::Array(items)) ==> before == items,
        !(json.field("include"@) matches Some(JsonView::Array(_))) ==> before.len() == 0,
    ensures
        ({
            let r = rewritten(installation_id, json, models);
            let required = JsonView::Text("reasoning.encrypted_content"@);
            &&& json.field("reasoning"@) is None ==> r.field("include"@) == json.field("include"@)
            &&& json.field("reasoning"@) is Some && before.contains(required) ==> r.field(
                "include"@,
            ) == Some(JsonView::Array(before))
            &&& json.field("reasoning"@) is Some && !before.contains(required) ==> r.field(
                "include"@,
            ) == Some(JsonView::Array(before + seq![required]))
        }),
{
    lemma_keys_differ();
    let l = lifted(remodeled(json, models));
    assert(l is Object);
    assert(l.field("reasoning"@) == json.field("reasoning"@));
    assert(l.field("include"@) == json.field("include"@));
    let s = streamed(l->Object_0);
    assert(JsonView::Object(s).field("reasoning"@) == json.field("reasoning"@));
    assert(JsonView::Object(s).field("include"@) == json.field("include"@));
    let required = JsonView::Text("reasoning.encrypted_content"@);
    assert(items_of(json.field("include"@)) =~= before);
    assert(before.push(required) =~= before + seq![required]);
}

/// The client metadata of a request keep every member, and get the installation's id where they name
/// none. Where they are missing or no object, they are an object with that id alone.
pub proof fn law_client_metadata(
    installation_id: Seq<char>,
    json: JsonView,
    models: Seq<Seq<char>>,
    key: Seq<char>,
)
    requires
        json is Object,
    ensures
        ({
            let r = rewritten(installation_id, json, models).field("client_metadata"@);
            let given = match json.field("client_metadata"@) {
                Some(metadata) => metadata.field(key),
                None => None,
            };
            &&& r is Some
            &&& r->0 is Object
            &&& key != "x-codex-installation-id"@ ==> r->0.field(key) == given
            &&& key == "x-codex-installation-id"@ && given is Some ==> r->0.field(key) == given
            &&& key == "x-codex-installation-id"@ && given is None ==> r->0.field(key) == Some(
                JsonView::Text(installation_id),
            )
        }),
{
    lemma_keys_differ();
    let l = lifted(remodeled(json, models));
    assert(l.field("client_metadata"@) == json.field("client_metadata"@));
    let m = reasoned(streamed(l->Object_0));
    assert(JsonView::Object(m).field("client_metadata"@) == json.field("client_metadata"@));
}

/// Nothing but the model, the input, the instructions, `store`, `stream`, `temperature`,
/// `max_output_tokens`, `include` and the client metadata of a request is ever touched.
pub proof fn law_only_named_members_change(
    installation_id: Seq<char>,
    json: JsonView,
    models: Seq<Seq<char>>,
    key: Seq<char>,
)
    requires
        key != "model"@,
        key != "input"@,
        key != "instructions"@,
        key != "store"@,
        key != "stream"@,
        key != "temperature"@,
        key != "max_output_tokens"@,
        key != "include"@,
        key != "client_metadata"@,
    ensures
        rewritten(installation_id, json, models).field(key) == json.field(key),
{
    law_other_members_are_kept(installation_id, json, models, key);
}

/// A request that names no model, or whose model is no string, keeps what it has under that name.
pub proof fn law_request_without_model_stays_so(
    installation_id: Seq<char>,
    json: JsonView,
    models: Seq<Seq<char>>,
)
    requires
        json.text_field("model"@) is None,
    ensures
        rewritten(installation_id, json, models).field("model"@) == json.field("model"@),
{
    lemma_keys_differ();
    let l = lifted(json);
    assert(l.field("model"@) == json.field("model"@));
    assert(normalized(l).field("model"@) == l.field("model"@));
}

/// A content encoding without a comma names `zstd` exactly if it is that, whatever the case of its
/// letters and the white space around it. One with a comma does if what stands on either side of the
/// comma does.
pub proof fn law_zstd_among_encodings(a: Seq<char>, b: Seq<char>)
    ensures
        !a.contains(',') ==> (names_zstd(a) <==> text::lowered(text::trimmed(a)) == "zstd"@),
        names_zstd(a + seq![','] + b) <==> names_zstd(a) || names_zstd(b),
{
    text::law_split_on(a, b, ',');
    let x = text::split_on(a, ',');
    let y = text::split_on(b, ',');
    let xy = text::split_on(a + seq![','] + b, ',');
    assert(xy == x + y);
    if !a.contains(',') {
        assert(x[0] == a);
        if names_zstd(a) {
            let i = choose|i: int|
                0 <= i < x.len() && text::lowered(text::trimmed(#[trigger] x[i])) == "zstd"@;
            assert(x[i] == a);
        }
    }
    if names_zstd(a) {
        let i = choose|i: int|
            0 <= i < x.len() && text::lowered(text::trimmed(#[trigger] x[i])) == "zstd"@;
        assert(xy[i] == x[i]);
    }
    if names_zstd(b) {
        let i = choose|i: int|
            0 <= i < y.len() && text::lowered(text::trimmed(#[trigger] y[i])) == "zstd"@;
        assert(xy[x.len() + i] == y[i]);
    }
    if names_zstd(a + seq![','] + b) {
        let i = choose|i: int|
            0 <= i < xy.len() && text::lowered(text::trimmed(#[trigger] xy[i])) == "zstd"@;
        if i < x.len() {
            assert(x[i] == xy[i]);
        } else {
            assert(y[i - x.len()] == xy[i]);
        }
    }
}

/// A body that is no JSON is sent as it is. Any other is sent as its rewriting is written, with word
/// of a replaced model.
pub proof fn law_plain_body(
    installation_id: Seq<char>,
    body: Seq<u8>,
    content_encoding: Option<Seq<char>>,
    models: Seq<Seq<char>>,
)
    requires
        content_encoding is None || !names_zstd(content_encoding->0),
    ensures
        ({
            let sent = rewritten_body(installation_id, body, content_encoding, models);
            &&& json::json_read(body) is None ==> sent.0 == body && sent.1 is None
            &&& json::json_read(body) matches Some(json) ==> (match json::json_written(
                rewritten(installation_id, json, models),
            ) {
                Some(bytes) => sent.0 == bytes && sent.1 == remodeling(json, models),
                None => sent.0 == body && sent.1 is None,
            })
        }),
{
}

/// A compressed body is sent as the compression, at level 3, of what would be sent of its contents
/// without compression, with the same word of a replaced model. One that does not decompress is sent as
/// it is.
pub proof fn law_compressed_body(
    installation_id: Seq<char>,
    body: Seq<u8>,
    content_encoding: Seq<char>,
    models: Seq<Seq<char>>,
)
    requires
        names_zstd(content_encoding),
    ensures
        ({
            let sent = rewritten_body(installation_id, body, Some(content_encoding), models);
            match zstd_decoded(body) {
                None => sent.0 == body && sent.1 is None,
                Some(contents) => {
                    let plain = rewritten_body(installation_id, contents, None, models);
                    match zstd_encoded(plain.0, 3) {
                        Some(encoded) => sent.0 == encoded && sent.1 == plain.1,
                        None => sent.0 == body && sent.1 is None,
                    }
                },
            }
        }),
{
}

/// A model that holds `codex` anywhere in its name is replaced by the first of the list that does, if
/// there is one; else one that holds `mini` by the first that does, if there is one; else any model by
/// the first of the list. There is none to take its place exactly if the list is empty.
pub proof fn law_picking_a_replacement(
    requested: &str,
    models: &Vec<String>,
    r: Option<String>,
    i: int,
)
    requires
        call_ensures(pick_best_replacement, (requested, models), r),
    ensures
        ({
            let all = text::texts(models@);
            let codex = holds(requested@, "codex"@) && exists|j: int|
                0 <= j < all.len() && holds(#[trigger] all[j], "codex"@);
            let mini = holds(requested@, "mini"@) && exists|j: int|
                0 <= j < all.len() && holds(#[trigger] all[j], "mini"@);
            &&& r is None <==> models@.len() == 0
            &&& codex && is_first_holding(all, "codex"@, i) ==> r is Some && r->0@ == all[i]
            &&& !codex && mini && is_first_holding(all, "mini"@, i) ==> r is Some && r->0@ == all[i]
            &&& !codex && !mini && models@.len() > 0 ==> r is Some && r->0@ == models@[0]@
        }),
{
    let all = text::texts(models@);
    law_replacement_keeps_the_family(requested@, all, i);
    law_replacement_is_listed(requested@, all);
    if models@.len() > 0 {
        assert(all[0] == models@[0]@);
    }
}

/// The text of a message with parts holds the trimmed text of each part that has one that is not blank,
/// whatever else the part holds, and a message has no text exactly if no part has one.
pub proof fn law_extracting_text(
    message: &Json,
    parts: Seq<JsonView>,
    r: Option<String>,
    k: int,
    s: Seq<char>,
)
    requires
        call_ensures(extract_message_text, (message,), r),
        message@.field("content"@) == Some(JsonView::Array(parts)),
        0 <= k < parts.len(),
        parts[k].field("text"@) == Some(JsonView::Text(s)),
        text::trimmed(s).len() > 0,
    ensures
        r is Some,
        text::occurs(text::trimmed(s), r->0@),
        parts.len() == 1 ==> r->0@ == text::trimmed(s),
{
    law_message_with_text_has_text(message@, parts, k, s);
    if parts.len() == 1 {
        assert(parts =~= seq![parts[0]]);
        law_part_contributes_its_text(message@, parts[0]);
    }
}

/// The text of a message whose content is a string is the string, trimmed.
pub proof fn law_extracting_plain_text(message: &Json, r: Option<String>, s: Seq<char>)
    requires
        call_ensures(extract_message_text, (message,), r),
        message@.field("content"@) == Some(JsonView::Text(s)),
    ensures
        text::trimmed(s).len() > 0 ==> r is Some && r->0@ == text::trimmed(s),
        text::trimmed(s).len() == 0 ==> r is None,
{
    law_message_of_one_text(message@);
}

/// Two messages whose parts have the same texts have the same text, whatever else the parts hold.
pub proof fn law_only_texts_matter(
    first: &Json,
    second: &Json,
    a: Seq<JsonView>,
    b: Seq<JsonView>,
    r: Option<String>,
    s: Option<String>,
)
    requires
        call_ensures(extract_message_text, (first,), r),
        call_ensures(extract_message_text, (second,), s),
        first@.field("content"@) == Some(JsonView::Array(a)),
        second@.field("content"@) == Some(JsonView::Array(b)),
        a.len() == b.len(),
        forall|k: int|
            0 <= k < a.len() ==> (#[trigger] a[k]).field("text"@) == b[k].field("text"@),
    ensures
        text::text_in(r) == text::text_in(s),
{
    lemma_same_part_texts(a, b);
}

proof fn lemma_same_part_texts(a: Seq<JsonView>, b: Seq<JsonView>)
    requires
        a.len() == b.len(),
        forall|k: int|
            0 <= k < a.len() ==> (#[trigger] a[k]).field("text"@) == b[k].field("text"@),
    ensures
        part_texts(a) == part_texts(b),
    decreases a.len(),
{
    if a.len() > 0 {
        let x = a.drop_last();
        let y = b.drop_last();
        assert forall|k: int| 0 <= k < x.len() implies (#[trigger] x[k]).field("text"@)
            == y[k].field("text"@) by {
            assert(a[k].field("text"@) == b[k].field("text"@));
        }
        lemma_same_part_texts(x, y);
        assert(a[a.len() - 1].field("text"@) == b[a.len() - 1].field("text"@));
    }
}

/// A content encoding without a comma is taken for `zstd` exactly if it is that, whatever the case of
/// its letters and the white space around it.
pub proof fn law_recognizing_zstd(value: &str, r: bool)
    requires
        call_ensures(is_zstd_encoding, (value,), r),
        !value@.contains(','),
    ensures
        r <==> text::lowered(text::trimmed(value@)) == "zstd"@,
{
    law_zstd_among_encodings(value@, Seq::empty());
}

/// Rewriting a request makes it stream, stores it nowhere, leaves out what the upstream refuses, and
/// names an installation; it moves leading instructions, and keeps every member that is not named here.
pub proof fn law_rewriting_a_request(
    installation_id: &str,
    json: &mut Json,
    models: &Vec<String>,
    note: Option<String>,
    key: Seq<char>,
)
    requires
        call_ensures(rewrite_json, (installation_id, json, models), note),
        old(json)@ is Object,
    ensures
        ({
            let before = old(json)@;
            let after = final(json)@;
            &&& after.field("store"@) == Some(JsonView::Bool(false))
            &&& after.field("stream"@) == Some(JsonView::Bool(true))
            &&& after.field("temperature"@) is None
            &&& after.field("max_output_tokens"@) is None
            &&& after.field("client_metadata"@) is Some
            &&& after.field("client_metadata"@)->0.field("x-codex-installation-id"@) is Some
            &&& before.field("instructions"@) is Some ==> after.field("input"@) == before.field(
                "input"@,
            ) && after.field("instructions"@) == before.field("instructions"@)
            &&& before.text_field("model"@) is Some && models@.len() > 0 ==> text::texts(
                models@,
            ).contains(after.text_field("model"@)->0)
            &&& before.text_field("model"@) is Some && text::texts(models@).contains(
                before.text_field("model"@)->0,
            ) ==> after.field("model"@) == before.field("model"@) && note is None
            &&& key != "model"@ && key != "input"@ && key != "instructions"@ && key != "store"@ && key
                != "stream"@ && key != "temperature"@ && key != "max_output_tokens"@ && key
                != "include"@ && key != "client_metadata"@ ==> after.field(key) == before.field(key)
        }),
{
    let before = json@;
    let all = text::texts(models@);
    law_upstream_form(installation_id@, before, all);
    if before.field("instructions"@) is Some {
        law_given_instructions_are_kept(installation_id@, before, all);
    }
    if before.text_field("model"@) is Some {
        law_model_is_listed(installation_id@, before, all);
        let after = rewritten(installation_id@, before, all);
        json::law_text_fields(before, "model"@, before.text_field("model"@)->0);
        json::law_text_fields(after, "model"@, before.text_field("model"@)->0);
    }
    if key != "model"@ && key != "input"@ && key != "instructions"@ && key != "store"@ && key
        != "stream"@ && key != "temperature"@ && key != "max_output_tokens"@ && key != "include"@
        && key != "client_metadata"@ {
        law_only_named_members_change(installation_id@, before, all, key);
    }
}

/// Rewriting moves a leading message of a developer or of the system that has a text into the
/// instructions, whatever else its parts hold.
pub proof fn law_rewriting_moves_instructions(
    installation_id: &str,
    json: &mut Json,
    models: &Vec<String>,
    note: Option<String>,
    items: Seq<JsonView>,
    n: int,
)
    requires
        call_ensures(rewrite_json, (installation_id, json, models), note),
        old(json)@.field("instructions"@) is None,
        old(json)@.field("input"@) == Some(JsonView::Array(items)),
        begins_with_instructions(items, n),
        exists|i: int| 0 <= i < n && message_text(#[trigger] items[i]) is Some,
    ensures
        final(json)@.field("input"@) == Some(JsonView::Array(items.skip(n))),
        final(json)@.field("instructions"@) == Some(
            JsonView::Text(
                text::joined(items.take(n).filter_map(|m: JsonView| message_text(m)), "\n\n"@),
            ),
        ),
{
    law_leading_instructions_are_moved(
        installation_id@,
        json@,
        text::texts(models@),
        items,
        n,
    );
    let i = choose|i: int| 0 <= i < n && message_text(#[trigger] items[i]) is Some;
    let leading = items.take(n);
    assert(leading[i] == items[i]);
}

/// What is no object is sent as it is.
pub proof fn law_what_is_no_object_stays(
    installation_id: Seq<char>,
    json: JsonView,
    models: Seq<Seq<char>>,
)
    requires
        json !is Object,
    ensures
        rewritten(installation_id, json, models) == json,
        remodeling(json, models) is None,
{
}

/// A message has no text where its content is neither a string nor an array, where it is a blank string,
/// and where no part of it has a text that is not blank.
pub proof fn law_message_without_text(message: JsonView)
    ensures
        message.field("content"@) is None ==> message_text(message) is None,
        message.field("content"@) matches Some(content) ==> {
            &&& content !is Text && content !is Array ==> message_text(message) is None
            &&& content matches JsonView::Text(s) ==> (text::trimmed(s).len() == 0 ==> message_text(
                message,
            ) is None)
            &&& content matches JsonView::Array(parts) ==> ((forall|k: int|
                0 <= k < parts.len() ==> {
                    let part = (#[trigger] parts[k]).field("text"@);
                    part is None || part->0 !is Text || text::trimmed(part->0->Text_0).len() == 0
                }) ==> message_text(message) is None)
        },
{
    if let Some(JsonView::Array(parts)) = message.field("content"@) {
        if forall|k: int|
            0 <= k < parts.len() ==> {
                let part = (#[trigger] parts[k]).field("text"@);
                part is None || part->0 !is Text || text::trimmed(part->0->Text_0).len() == 0
            } {
            lemma_no_part_texts(parts);
        }
    }
}

proof fn lemma_no_part_texts(parts: Seq<JsonView>)
    requires
        forall|k: int|
            0 <= k < parts.len() ==> {
                let part = (#[trigger] parts[k]).field("text"@);
                part is None || part->0 !is Text || text::trimmed(part->0->Text_0).len() == 0
            },
    ensures
        part_texts(parts).len() == 0,
    decreases parts.len(),
{
    if parts.len() > 0 {
        let before = parts.drop_last();
        assert forall|k: int| 0 <= k < before.len() implies ({
            let part = (#[trigger] before[k]).field("text"@);
            part is None || part->0 !is Text || text::trimmed(part->0->Text_0).len() == 0
        }) by {
            assert(before[k] == parts[k]);
        }
        lemma_no_part_texts(before);
        assert(parts[parts.len() - 1] == parts.last());
    }
}

/// The body that is sent is the rewritten JSON of the one that was received, in the encoding in which it
/// was received. A body that is no JSON, or that cannot be decompressed, is sent as it is.
pub proof fn law_rewriting_a_body(
    installation_id: &str,
    body: Vec<u8>,
    content_encoding: Option<&str>,
    models: &Vec<String>,
    r: (Vec<u8>, Option<String>),
)
    requires
        call_ensures(
            rewrite_body_for_upstream,
            (installation_id, body, content_encoding, models),
            r,
        ),
    ensures
        ({
            let packed = content_encoding is Some && names_zstd(content_encoding->0@);
            let all = text::texts(models@);
            &&& !packed && json::json_read(body@) is None ==> r.0@ == body@ && r.1 is None
            &&& packed && zstd_decoded(body@) is None ==> r.0@ == body@ && r.1 is None
            &&& !packed && json::json_read(body@) is Some && json::json_written(
                rewritten(installation_id@, json::json_read(body@)->0, all),
            ) is Some ==> Some(r.0@) == json::json_written(
                rewritten(installation_id@, json::json_read(body@)->0, all),
            ) && text::text_in(r.1) == remodeling(json::json_read(body@)->0, all)
            &&& packed && zstd_decoded(body@) is Some && json::json_read(
                zstd_decoded(body@)->0,
            ) is None && zstd_encoded(zstd_decoded(body@)->0, 3) is Some ==> zstd_decoded(r.0@)
                == zstd_decoded(body@) && r.1 is None
        }),
{
    law_plain_body(installation_id@, body@, None, text::texts(models@));
}

/// Lifting instructions changes the input and the instructions alone, and normalizing changes neither.
pub proof fn law_lifting_and_normalizing(
    lifts: &mut Json,
    normals: &mut Json,
    key: Seq<char>,
)
    requires
        call_ensures(lift_input_instructions, (lifts,), ()),
        call_ensures(normalize_for_codex_upstream, (normals,), ()),
    ensures
        key != "input"@ && key != "instructions"@ ==> final(lifts)@.field(key) == old(
            lifts,
        )@.field(key),
        old(lifts)@.field("instructions"@) is Some ==> final(lifts)@ == old(lifts)@,
        old(normals)@ !is Object ==> final(normals)@ == old(normals)@,
        key != "store"@ && key != "stream"@ && key != "temperature"@ && key != "max_output_tokens"@
            && key != "include"@ && key != "client_metadata"@ ==> final(normals)@.field(key) == old(
            normals,
        )@.field(key),
        old(normals)@ is Object ==> final(normals)@.field("store"@) == Some(JsonView::Bool(false))
            && final(normals)@.field("stream"@) == Some(JsonView::Bool(true)),
{
    reveal_strlit("store");
    reveal_strlit("stream");
    reveal_strlit("temperature");
    reveal_strlit("max_output_tokens");
    reveal_strlit("include");
    reveal_strlit("client_metadata");
    assert("store"@.len() == 5);
    assert("stream"@.len() == 6);
    assert("temperature"@.len() == 11);
    assert("max_output_tokens"@.len() == 17);
    assert("include"@.len() == 7);
    assert("client_metadata"@.len() == 15);
}

} // verus!
