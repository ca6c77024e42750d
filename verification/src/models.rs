//! The models that requests may name: those of the Codex installation's cache, or, where that cannot be
//! read, those that the upstream tells; and the client version that the upstream is asked with.

use axum::http::HeaderMap;
use axum::http::HeaderValue;
use vstd::prelude::*;
use vstd::string::*;

use crate::accounts::AccountSummary;
use crate::accounts::TokenFacts;
use crate::body;
use crate::clock;
use crate::errors;
use crate::headers;
use crate::json;
use crate::json::Json;
use crate::json::JsonObject;
use crate::json::JsonView;
use crate::proxy;
use crate::ranking;
use crate::registry::AccountRegistry;
use crate::registry::RegistryView;
use crate::request_headers::Contents;
use crate::text;
use crate::upstream;

verus! {

/// The client version that the upstream is asked with where no other is known.
pub const DEFAULT_CODEX_CLIENT_VERSION: &'static str = "0.124.0";

/// The upstream's list of models.
pub const UPSTREAM_MODELS_URL: &'static str = "https://chatgpt.com/backend-api/codex/models";

/// For how many seconds a client version that was looked up holds.
pub const CODEX_CLIENT_VERSION_CACHE_TTL_SECS: u64 = 86400;

/// The answer without models.
pub const EMPTY_RESPONSE: &'static str = "{\"object\":\"list\",\"data\":[]}";

/// A character of a version number.
pub open spec fn is_version_char(c: char) -> bool {
    text::is_digit(c) || c == '.'
}

/// A version number: digits and dots, at least one of them.
pub open spec fn is_version(s: Seq<char>) -> bool {
    s.len() > 0 && forall|i: int| 0 <= i < s.len() ==> is_version_char(#[trigger] s[i])
}

/// The version number at the end of a release's name: what follows the last `v`, or all of it.
pub open spec fn version_in(raw: Seq<char>) -> Option<Seq<char>> {
    let name = text::trimmed(raw);
    let candidate = text::trimmed(
        match text::after_last(name, 'v') {
            Some(rest) => rest,
            None => name,
        },
    );
    if is_version(candidate) {
        Some(candidate)
    } else {
        None
    }
}

/// The version number at the end of a release's name.
pub fn normalize_codex_client_version(raw: &str) -> (r: Option<String>)
    ensures
        text::text_in(r) == version_in(raw@),
{
    let name = text::trim(raw);
    let candidate = text::trim(
        match text::strip_to_last(name, 'v') {
            Some(rest) => rest,
            None => name,
        },
    );
    let chars = text::chars_of(candidate);
    if chars.len() == 0 {
        return None;
    }
    for i in 0..chars.len()
        invariant
            chars@ == candidate@,
            !is_version(candidate@) ==> version_in(raw@) is None,
            forall|k: int| 0 <= k < i ==> is_version_char(#[trigger] candidate@[k]),
    {
        let c = chars[i];
        if !(('0' <= c && c <= '9') || c == '.') {
            assert(!is_version_char(candidate@[i as int]));
            return None;
        }
    }
    Some(candidate.to_string())
}

/// A client version that was looked up.
#[derive(Debug)]
pub struct CachedCodexClientVersion {
    pub version: String,
    /// When it was looked up, in seconds since the Unix epoch.
    pub fetched_at: u64,
}

/// A looked-up version still holds at `now`.
pub open spec fn is_recent(fetched_at: u64, now: u64) -> bool {
    now - fetched_at <= CODEX_CLIENT_VERSION_CACHE_TTL_SECS
}

/// The version number of a looked-up version that still holds at `now`.
pub open spec fn cached_version_at(version: Seq<char>, fetched_at: u64, now: u64) -> Option<
    Seq<char>,
> {
    if is_recent(fetched_at, now) {
        version_in(version)
    } else {
        None
    }
}

impl CachedCodexClientVersion {
    /// The version number of a looked-up version that still holds, and whether it was stored
    /// otherwise.
    pub fn current(&self) -> (r: Option<(String, bool)>)
        ensures
            exists|now: u64| #[trigger] self.is_current(r, now),
    {
        let now: u64 = clock::now_unix_seconds();
        let r = self.current_at(now);
        assert(self.is_current(r, now));
        r
    }

    /// `r` is the version number at `now`, and whether it was stored otherwise.
    pub open spec fn is_current(self, r: Option<(String, bool)>, now: u64) -> bool {
        match r {
            Some((version, changed)) => {
                &&& cached_version_at(self.version@, self.fetched_at, now) == Some(version@)
                &&& changed == (version@ != self.version@)
            },
            None => cached_version_at(self.version@, self.fetched_at, now) is None,
        }
    }

    /// The version number of a looked-up version that still holds at `now`, and whether it was stored
    /// otherwise.
    pub fn current_at(&self, now: u64) -> (r: Option<(String, bool)>)
        ensures
            self.is_current(r, now),
    {
        if now > self.fetched_at && now - self.fetched_at > CODEX_CLIENT_VERSION_CACHE_TTL_SECS {
            return None;
        }
        match normalize_codex_client_version(self.version.as_str()) {
            Some(version) => {
                let changed = !text::same(version.as_str(), self.version.as_str());
                Some((version, changed))
            },
            None => None,
        }
    }

    /// A version that is looked up now. Which time that is, is left open.
    pub fn looked_up(version: String) -> (r: CachedCodexClientVersion)
        ensures
            r.version == version,
    {
        CachedCodexClientVersion::looked_up_at(version, clock::now_unix_seconds())
    }

    /// A version that is looked up at `now`.
    pub fn looked_up_at(version: String, now: u64) -> (r: CachedCodexClientVersion)
        ensures
            r.version == version,
            r.fetched_at == now,
    {
        CachedCodexClientVersion { version, fetched_at: now }
    }
}

/// What the name of a release that tells no version is answered with.
pub open spec fn bad_tag(tag_name: Seq<char>) -> Seq<char> {
    "GitHub latest release tag_name was invalid: "@ + tag_name
}

/// The version number of a release, or what is wrong with its name.
pub fn release_version(tag_name: &str) -> (r: Result<String, String>)
    ensures
        match r {
            Ok(version) => version_in(tag_name@) == Some(version@),
            Err(message) => version_in(tag_name@) is None && message@ == bad_tag(tag_name@),
        },
{
    match normalize_codex_client_version(tag_name) {
        Some(version) => Ok(version),
        None => Err("GitHub latest release tag_name was invalid: ".to_string().concat(tag_name)),
    }
}

/// The client version that the upstream is asked with: the one that was looked up, else the default.
pub fn resolve_codex_client_version(looked_up: Option<String>) -> (version: String)
    ensures
        version@ == match looked_up {
            Some(version) => version@,
            None => DEFAULT_CODEX_CLIENT_VERSION@,
        },
{
    match looked_up {
        Some(version) => version,
        None => DEFAULT_CODEX_CLIENT_VERSION.to_string(),
    }
}

/// The address of the list of models for a client version.
pub fn models_url(client_version: &str) -> (url: String)
    ensures
        url@ == UPSTREAM_MODELS_URL@ + "?client_version="@ + client_version@,
{
    UPSTREAM_MODELS_URL.to_string().concat("?client_version=").concat(client_version)
}

/// The upstream lists a model for clients, under a name.
pub open spec fn is_offered(model: JsonView) -> bool {
    model.text_field("visibility"@) == Some("list"@) && model.text_field("slug"@) is Some
}

/// What a model that takes more than text is said to be.
pub open spec fn architecture(input_modalities: JsonView) -> JsonView {
    JsonView::Object(
        map![
            "modality"@ => JsonView::Text("multimodal"@),
            "tokenizer"@ => JsonView::Text("o200k_base"@),
            "input_modalities"@ => input_modalities,
        ],
    )
}

/// The members with one more, where there is a value for it.
pub open spec fn with_member(
    members: Map<Seq<char>, JsonView>,
    key: Seq<char>,
    value: Option<JsonView>,
) -> Map<Seq<char>, JsonView> {
    match value {
        Some(value) => members.insert(key, value),
        None => members,
    }
}

/// An offered model as OpenAI's list of models tells it.
pub open spec fn openai_model(model: JsonView) -> JsonView {
    let named = map![
        "id"@ => JsonView::Text(model.text_field("slug"@)->0),
        "object"@ => JsonView::Text("model"@),
    ];
    let a = with_member(named, "name"@, model.field("name"@));
    let b = with_member(a, "context_length"@, model.field("context_window"@));
    let c = with_member(
        b,
        "architecture"@,
        match model.field("input_modalities"@) {
            Some(input_modalities) => Some(architecture(input_modalities)),
            None => None,
        },
    );
    JsonView::Object(c)
}

/// The offered models of a list.
pub open spec fn offered(models: Seq<JsonView>) -> Seq<JsonView>
    decreases models.len(),
{
    if models.len() == 0 {
        Seq::empty()
    } else if is_offered(models.last()) {
        offered(models.drop_last()).push(models.last())
    } else {
        offered(models.drop_last())
    }
}

/// The names of models.
pub open spec fn slugs(models: Seq<JsonView>) -> Seq<Seq<char>> {
    models.map_values(|m: JsonView| m.text_field("slug"@)->0)
}

/// The positions of models in the order of their names.
pub open spec fn name_order(models: Seq<JsonView>) -> Seq<usize> {
    ranking::sorted(ranking::text_keys(slugs(models)))
}

/// A list of models as OpenAI tells it: the offered ones in the order of their names. What is no list
/// stays as it is.
pub open spec fn openai_models(models: JsonView) -> JsonView {
    match models {
        JsonView::Array(models) => {
            let found = offered(models);
            let order = name_order(found);
            JsonView::Array(
                Seq::new(found.len(), |k: int| openai_model(found[order[k] as int])),
            )
        },
        _ => models,
    }
}

/// The names of the offered models of a list, in their order.
pub open spec fn offered_slugs(models: JsonView) -> Seq<Seq<char>> {
    match models {
        JsonView::Array(models) => {
            let found = slugs(offered(models));
            let order = ranking::sorted(ranking::text_keys(found));
            Seq::new(found.len(), |k: int| found[order[k] as int])
        },
        _ => Seq::empty(),
    }
}

/// The models in the upstream's answer.
pub open spec fn models_in(body: JsonView) -> JsonView {
    match body.field("models"@) {
        Some(models) => models,
        None => JsonView::Array(Seq::empty()),
    }
}

/// The models in the Codex installation's cache: none where there is no cache, or one that is not JSON
/// or has no list of models.
pub open spec fn cached_models(cache: Option<Seq<u8>>) -> Option<JsonView> {
    match cache {
        Some(bytes) => match json::json_read(bytes) {
            Some(body) => match body.field("models"@) {
                Some(JsonView::Array(models)) => Some(JsonView::Array(models)),
                _ => None,
            },
            None => None,
        },
        None => None,
    }
}

/// The names of the offered models in the Codex installation's cache, in their order.
pub open spec fn cached_slugs(cache: Option<Seq<u8>>) -> Option<Seq<Seq<char>>> {
    match cached_models(cache) {
        Some(models) => Some(offered_slugs(models)),
        None => None,
    }
}

/// The bytes of a file that was read, if it was.
pub open spec fn bytes_in(file: Option<&Vec<u8>>) -> Option<Seq<u8>> {
    match file {
        Some(bytes) => Some(bytes@),
        None => None,
    }
}

/// A list of models in an answer to a client.
pub open spec fn listing(models: JsonView) -> JsonView {
    JsonView::Object(map!["object"@ => JsonView::Text("list"@), "data"@ => models])
}

fn insert_if_some(object: &mut JsonObject, key: &str, value: Option<Json>)
    ensures
        final(object)@ == with_member(
            old(object)@,
            key@,
            match value {
                Some(value) => Some(value@),
                None => None,
            },
        ),
{
    if let Some(value) = value {
        object.insert(key.to_string(), value);
    }
}

/// Whether the upstream lists a model for clients, and under which name.
fn offered_slug(model: &Json) -> (r: Option<String>)
    ensures
        match r {
            Some(slug) => is_offered(model@) && model@.text_field("slug"@) == Some(slug@),
            None => !is_offered(model@),
        },
{
    match model.text_field("visibility") {
        Some(visibility) => if text::same(visibility, "list") {
            match model.text_field("slug") {
                Some(slug) => Some(slug.to_string()),
                None => None,
            }
        } else {
            None
        },
        None => None,
    }
}

/// An offered model as OpenAI's list of models tells it.
fn rewrite_model(model: Json, slug: String) -> (r: Json)
    requires
        model@.text_field("slug"@) == Some(slug@),
    ensures
        r@ == openai_model(model@),
{
    proof {
        reveal_strlit("name");
        reveal_strlit("context_window");
        reveal_strlit("input_modalities");
        assert("name"@.len() == 4);
        assert("context_window"@.len() == 14);
        assert("input_modalities"@.len() == 16);
    }
    let ghost before = model@;
    let mut out = JsonObject::new();
    out.insert("id".to_string(), Json::Text(slug));
    out.insert("object".to_string(), Json::Text("model".to_string()));
    assert(out@ =~= map![
        "id"@ => JsonView::Text(before.text_field("slug"@)->0),
        "object"@ => JsonView::Text("model"@),
    ]);
    if let Json::Object(mut members) = model {
        let ghost all = members@;
        assert(before == JsonView::Object(all));
        let ghost named = out@;
        insert_if_some(&mut out, "name", members.remove("name"));
        assert(out@ == with_member(named, "name"@, before.field("name"@)));
        let ghost sized = out@;
        insert_if_some(&mut out, "context_length", members.remove("context_window"));
        assert(out@ == with_member(sized, "context_length"@, before.field("context_window"@)));
        if let Some(input_modalities) = members.remove("input_modalities") {
            let mut described = JsonObject::new();
            described.insert("modality".to_string(), Json::Text("multimodal".to_string()));
            described.insert("tokenizer".to_string(), Json::Text("o200k_base".to_string()));
            let ghost modalities = input_modalities@;
            described.insert("input_modalities".to_string(), input_modalities);
            assert(described@ =~= map![
                "modality"@ => JsonView::Text("multimodal"@),
                "tokenizer"@ => JsonView::Text("o200k_base"@),
                "input_modalities"@ => modalities,
            ]);
            out.insert("architecture".to_string(), Json::Object(described));
        }
    }
    Json::Object(out)
}

/// The values in a given order, each of which is taken once.
fn arranged(values: Vec<Json>, order: &Vec<usize>, Ghost(keys): Ghost<Seq<ranking::RankKeyView>>) -> (r:
    Vec<Json>)
    requires
        ranking::is_stable_order(keys, order@),
        values@.len() == keys.len(),
    ensures
        r@.len() == values@.len(),
        forall|k: int| 0 <= k < r@.len() ==> #[trigger] r@[k] == values@[order@[k] as int],
{
    let ghost all = values@;
    let mut slots: Vec<Option<Json>> = Vec::new();
    for value in it: values
        invariant
            it.seq() == all,
            slots@.len() == it.index(),
            forall|j: int| 0 <= j < slots@.len() ==> #[trigger] slots@[j] == Some(all[j]),
    {
        slots.push(Some(value));
    }
    let mut r: Vec<Json> = Vec::new();
    for k in 0..order.len()
        invariant
            ranking::is_stable_order(keys, order@),
            all.len() == keys.len(),
            slots@.len() == all.len(),
            r@.len() == k,
            forall|j: int| 0 <= j < k ==> #[trigger] r@[j] == all[order@[j] as int],
            forall|j: int| k <= j < order@.len() ==> slots@[#[trigger] order@[j] as int] == Some(
                all[order@[j] as int],
            ),
    {
        let i: usize = order[k];
        let ghost before = slots@;
        let mut taken: Option<Json> = None;
        std::mem::swap(&mut taken, &mut slots[i]);
        proof {
            assert forall|j: int| k < j < order@.len() implies slots@[#[trigger] order@[j] as int]
                == Some(all[order@[j] as int]) by {
                assert(ranking::precedes(keys, order@[k as int] as int, order@[j] as int));
                ranking::key_before_irreflexive(keys[order@[k as int] as int]);
            }
        }
        if let Some(value) = taken {
            r.push(value);
        }
    }
    r
}

/// A list of models as OpenAI tells it.
pub fn rewrite_models_for_openai_compatibility(models: Json) -> (r: Json)
    ensures
        r@ == openai_models(models@),
{
    match models {
        Json::Array(items) => {
            let ghost listed = Json::Array(items)@->Array_0;
            let ghost originals = items@;
            let mut found: Vec<Json> = Vec::new();
            let mut ids: Vec<String> = Vec::new();
            assert(offered(listed.take(0)) =~= Seq::empty());
            for item in it: items
                invariant
                    it.seq() == originals,
                    listed.len() == originals.len(),
                    forall|j: int| 0 <= j < listed.len() ==> #[trigger] listed[j] == originals[j]@,
                    found@.len() == offered(listed.take(it.index())).len(),
                    ids@.len() == found@.len(),
                    forall|j: int|
                        0 <= j < found@.len() ==> (#[trigger] found@[j])@ == openai_model(
                            offered(listed.take(it.index()))[j],
                        ),
                    forall|j: int|
                        0 <= j < ids@.len() ==> (#[trigger] ids@[j])@ == slugs(
                            offered(listed.take(it.index())),
                        )[j],
            {
                let ghost k = it.index();
                assert(listed.take(k + 1).drop_last() =~= listed.take(k));
                assert(listed.take(k + 1).last() == item@);
                if let Some(slug) = offered_slug(&item) {
                    ids.push(slug.clone());
                    found.push(rewrite_model(item, slug));
                }
            }
            assert(listed.take(listed.len() as int) =~= listed);
            let ghost chosen = offered(listed);
            assert(text::texts(ids@) =~= slugs(chosen));
            let order = ranking::text_order(&ids);
            let sorted = arranged(
                found,
                &order,
                Ghost(ranking::text_keys(text::texts(ids@))),
            );
            let result = Json::Array(sorted);
            assert(result@->Array_0 =~= openai_models(models@)->Array_0);
            result
        },
        other => other,
    }
}

/// The models in the upstream's answer.
fn take_models(body: Json) -> (models: Json)
    ensures
        models@ == models_in(body@),
{
    let none = Json::Array(Vec::new());
    assert(none@->Array_0 =~= Seq::empty());
    match body {
        Json::Object(mut members) => match members.remove("models") {
            Some(models) => models,
            None => none,
        },
        _ => none,
    }
}

/// The models in the Codex installation's cache.
fn read_cached_models(cache: Option<&Vec<u8>>) -> (r: Option<Json>)
    ensures
        match r {
            Some(models) => cached_models(bytes_in(cache)) == Some(models@),
            None => cached_models(bytes_in(cache)) is None,
        },
{
    let body = match cache {
        Some(bytes) => json::read(bytes.as_slice()),
        None => None,
    };
    match body {
        Some(Json::Object(mut members)) => match members.remove("models") {
            Some(Json::Array(models)) => Some(Json::Array(models)),
            _ => None,
        },
        _ => None,
    }
}

/// The names of the offered models of a list, in their order.
pub fn model_slugs(models: Json) -> (r: Vec<String>)
    ensures
        text::texts(r@) == offered_slugs(models@),
{
    match models {
        Json::Array(items) => {
            let ghost listed = Json::Array(items)@->Array_0;
            let mut found: Vec<String> = Vec::new();
            assert(offered(listed.take(0)) =~= Seq::empty());
            for i in 0..items.len()
                invariant
                    listed == Json::Array(items)@->Array_0,
                    found@.len() == offered(listed.take(i as int)).len(),
                    forall|j: int|
                        0 <= j < found@.len() ==> (#[trigger] found@[j])@ == slugs(
                            offered(listed.take(i as int)),
                        )[j],
            {
                assert(listed.take(i + 1).drop_last() =~= listed.take(i as int));
                assert(listed.take(i + 1).last() == items@[i as int]@);
                if let Some(slug) = offered_slug(&items[i]) {
                    found.push(slug);
                }
            }
            assert(listed.take(listed.len() as int) =~= listed);
            assert(text::texts(found@) =~= slugs(offered(listed)));
            let order = ranking::text_order(&found);
            let mut r: Vec<String> = Vec::new();
            for k in 0..order.len()
                invariant
                    order@.len() == found@.len(),
                    forall|j: int| 0 <= j < order@.len() ==> #[trigger] order@[j] < found@.len(),
                    r@.len() == k,
                    forall|j: int| 0 <= j < k ==> (#[trigger] r@[j])@ == found@[order@[j] as int]@,
            {
                r.push(found[order[k]].clone());
            }
            assert(text::texts(r@) =~= offered_slugs(models@));
            r
        },
        _ => {
            let none: Vec<String> = Vec::new();
            assert(text::texts(none@) =~= Seq::empty());
            none
        },
    }
}

/// The body of an answer about models.
pub enum ModelsBody {
    Json(Json),
    Text(&'static str),
}

/// The body of an answer about models, as mathematics sees it.
pub enum ModelsBodyView {
    Json(JsonView),
    Text(Seq<char>),
}

impl ModelsBody {
    pub open spec fn view(&self) -> ModelsBodyView {
        match self {
            ModelsBody::Json(json) => ModelsBodyView::Json(json@),
            ModelsBody::Text(s) => ModelsBodyView::Text(s@),
        }
    }
}

/// The answer to a client that asks for the models, where they are not in the cache and the upstream's
/// answer has the given status and body. It has no models where the upstream cannot be reached, refuses, or cannot be read.
pub open spec fn models_answer(answer: Option<(u16, Option<Seq<u8>>)>) -> ModelsBodyView {
    match answer {
        Some((status, Some(bytes))) if proxy::succeeds(status) => match json::json_read(bytes) {
            Some(body) => ModelsBodyView::Json(listing(openai_models(models_in(body)))),
            None => ModelsBodyView::Text(EMPTY_RESPONSE@),
        },
        _ => ModelsBodyView::Text(EMPTY_RESPONSE@),
    }
}

/// What the upstream answered, with the bytes of the body.
pub open spec fn answer_view(answer: Option<(u16, Option<Vec<u8>>)>) -> Option<
    (u16, Option<Seq<u8>>),
> {
    match answer {
        Some((status, Some(bytes))) => Some((status, Some(bytes@))),
        Some((status, None)) => Some((status, None)),
        None => None,
    }
}

/// A list of models in an answer to a client.
pub fn list_of(models: Json) -> (r: Json)
    ensures
        r@ == listing(openai_models(models@)),
{
    let data = rewrite_models_for_openai_compatibility(models);
    let ghost told = data@;
    let mut list = JsonObject::new();
    list.insert("object".to_string(), Json::Text("list".to_string()));
    list.insert("data".to_string(), data);
    assert(list@ =~= map!["object"@ => JsonView::Text("list"@), "data"@ => told]);
    Json::Object(list)
}

/// The status and the answer to a client that asks for the models, made from the upstream's answer.
pub fn list_upstream_models(answer: Option<(u16, Option<Vec<u8>>)>) -> (r: (u16, ModelsBody))
    ensures
        r.0 == 200,
        r.1@ == models_answer(answer_view(answer)),
{
    if let Some((status, Some(bytes))) = answer {
        if 200 <= status && status < 300 {
            if let Some(body) = json::read(bytes.as_slice()) {
                return (200, ModelsBody::Json(list_of(take_models(body))));
            }
        }
    }
    (200, ModelsBody::Text(EMPTY_RESPONSE))
}

/// Why the upstream cannot be asked for its models.
#[derive(Debug)]
pub enum ModelsObstacle {
    /// No account is logged in.
    NoAccount,
    /// The account with this id is gone.
    NoRecord(String),
    /// The account with this id has no credentials.
    NoAuth(String),
    /// The account with this id has no token.
    NoToken(String),
}

impl ObstacleView {
    /// What the obstacle is called.
    pub open spec fn text(self) -> Seq<char> {
        match self {
            ObstacleView::NoAccount => "no authenticated account found for models fetch"@,
            ObstacleView::NoRecord(id) => "failed to get record for account "@ + id,
            ObstacleView::NoAuth(id) => "auth manager returned no auth for account "@ + id,
            ObstacleView::NoToken(id) => "failed to get token for account "@ + id,
        }
    }
}

impl ModelsObstacle {
    pub open spec fn view(&self) -> ObstacleView {
        match self {
            ModelsObstacle::NoAccount => ObstacleView::NoAccount,
            ModelsObstacle::NoRecord(id) => ObstacleView::NoRecord(id@),
            ModelsObstacle::NoAuth(id) => ObstacleView::NoAuth(id@),
            ModelsObstacle::NoToken(id) => ObstacleView::NoToken(id@),
        }
    }

    /// What the obstacle is called.
    pub fn message(&self) -> (s: String)
        ensures
            s@ == self@.text(),
    {
        match self {
            ModelsObstacle::NoAccount =>
                "no authenticated account found for models fetch".to_string(),
            ModelsObstacle::NoRecord(id) => "failed to get record for account ".to_string().concat(
                id.as_str(),
            ),
            ModelsObstacle::NoAuth(id) =>
                "auth manager returned no auth for account ".to_string().concat(id.as_str()),
            ModelsObstacle::NoToken(id) => "failed to get token for account ".to_string().concat(
                id.as_str(),
            ),
        }
    }

    /// The status and the answer to a client that asks for the models.
    pub fn reply(&self) -> (r: (u16, ModelsBody))
        ensures
            r.0 == 503,
            r.1@ == ModelsBodyView::Json(JsonView::Object(Map::empty())),
    {
        (503, ModelsBody::Json(Json::Object(JsonObject::new())))
    }
}

/// The position of the first account that is logged in.
pub open spec fn first_authenticated(accounts: Seq<AccountSummary>) -> Option<int>
    decreases accounts.len(),
{
    if accounts.len() == 0 {
        None
    } else {
        match first_authenticated(accounts.drop_last()) {
            Some(i) => Some(i),
            None => if accounts.last().auth.authenticated {
                Some(accounts.len() - 1)
            } else {
                None
            },
        }
    }
}

/// A request for the upstream's models, on behalf of an account.
#[derive(Debug)]
pub struct ModelsQuery {
    account_id: String,
    codex_home: String,
    chatgpt_account_id: Option<String>,
}

/// A request for the upstream's models, as mathematics sees it.
pub struct ModelsQueryView {
    /// The account's id.
    pub account_id: Seq<char>,
    /// The directory with the account's credentials.
    pub codex_home: Seq<char>,
    /// The account's id at the upstream.
    pub chatgpt_account_id: Option<Seq<char>>,
}

/// Why the upstream cannot be asked for its models, as mathematics sees it.
pub enum ObstacleView {
    NoAccount,
    NoRecord(Seq<char>),
    NoAuth(Seq<char>),
    NoToken(Seq<char>),
}

/// The request that is made where the accounts are as they were told: on behalf of the first that is
/// logged in.
pub open spec fn queried(accounts: RegistryView, told: Seq<AccountSummary>) -> Result<
    ModelsQueryView,
    ObstacleView,
> {
    match first_authenticated(told) {
        None => Err(ObstacleView::NoAccount),
        Some(k) => match accounts.find(told[k].id@) {
            None => Err(ObstacleView::NoRecord(told[k].id@)),
            Some(i) => Ok(
                ModelsQueryView {
                    account_id: told[k].id@,
                    codex_home: accounts.handles[i].record.codex_home,
                    chatgpt_account_id: text::text_in(told[k].auth.account_id),
                },
            ),
        },
    }
}

/// The headers of the request, where its account has the given credentials.
pub open spec fn authorized(query: ModelsQueryView, facts: Option<TokenFacts>) -> Result<
    Contents,
    ObstacleView,
> {
    match facts {
        None => Err(ObstacleView::NoAuth(query.account_id)),
        Some(facts) => match facts.token {
            Err(_) => Err(ObstacleView::NoToken(query.account_id)),
            Ok(token) => Ok(models_headers_of(token@, query.chatgpt_account_id)),
        },
    }
}

/// The position of the first account that is logged in.
fn find_authenticated(accounts: &Vec<AccountSummary>) -> (r: Option<usize>)
    ensures
        match r {
            Some(i) => first_authenticated(accounts@) == Some(i as int) && i < accounts@.len(),
            None => first_authenticated(accounts@) is None,
        },
{
    assert(first_authenticated(accounts@.take(0)) is None);
    for i in 0..accounts.len()
        invariant
            first_authenticated(accounts@.take(i as int)) is None,
    {
        assert(accounts@.take(i + 1).drop_last() =~= accounts@.take(i as int));
        if accounts[i].auth.authenticated {
            proof {
                lemma_first_authenticated(accounts@, i + 1);
            }
            return Some(i);
        }
    }
    assert(accounts@.take(accounts@.len() as int) =~= accounts@);
    None
}

impl ModelsQuery {
    /// The request.
    pub closed spec fn view(&self) -> ModelsQueryView {
        ModelsQueryView {
            account_id: self.account_id@,
            codex_home: self.codex_home@,
            chatgpt_account_id: text::text_in(self.chatgpt_account_id),
        }
    }

    /// Begins a request for the upstream's models, on behalf of the first account that is logged in.
    pub fn begin(accounts: &AccountRegistry, told: &Vec<AccountSummary>) -> (r: Result<
        ModelsQuery,
        ModelsObstacle,
    >)
        ensures
            match r {
                Ok(query) => queried(accounts@, told@) == Ok::<_, ObstacleView>(query@),
                Err(obstacle) => queried(accounts@, told@) == Err::<ModelsQueryView, _>(obstacle@),
            },
    {
        let k: usize = match find_authenticated(told) {
            Some(k) => k,
            None => {
                return Err(ModelsObstacle::NoAccount);
            },
        };
        let account_id = told[k].id.clone();
        match accounts.get_record(account_id.as_str()) {
            Some(record) => Ok(
                ModelsQuery {
                    account_id,
                    codex_home: record.codex_home,
                    chatgpt_account_id: text::copy_text(&told[k].auth.account_id),
                },
            ),
            None => Err(ModelsObstacle::NoRecord(account_id)),
        }
    }

    /// The directory with the credentials of the request's account.
    pub fn codex_home(&self) -> (home: &str)
        ensures
            home@ == self@.codex_home,
    {
        self.codex_home.as_str()
    }

    /// The headers of the request, where its account has the given credentials.
    pub fn authorize(&self, facts: Option<TokenFacts>) -> (r: Result<
        HeaderMap<HeaderValue>,
        ModelsObstacle,
    >)
        ensures
            match r {
                Ok(headers) => authorized(self@, facts) == Ok::<_, ObstacleView>(
                    headers::header_contents(headers),
                ),
                Err(obstacle) => authorized(self@, facts) == Err::<Contents, _>(obstacle@),
            },
    {
        match facts {
            None => Err(ModelsObstacle::NoAuth(self.account_id.clone())),
            Some(facts) => match facts.token {
                Ok(token) => Ok(
                    models_headers(token.as_str(), text::borrow_text(&self.chatgpt_account_id)),
                ),
                Err(_) => Err(ModelsObstacle::NoToken(self.account_id.clone())),
            },
        }
    }
}

proof fn lemma_first_authenticated(accounts: Seq<AccountSummary>, k: int)
    requires
        0 <= k <= accounts.len(),
        first_authenticated(accounts.take(k)) is Some,
    ensures
        first_authenticated(accounts) == first_authenticated(accounts.take(k)),
    decreases accounts.len() - k,
{
    if k < accounts.len() {
        assert(accounts.take(k + 1).drop_last() =~= accounts.take(k));
        lemma_first_authenticated(accounts, k + 1);
    } else {
        assert(accounts.take(k) =~= accounts);
    }
}

/// The headers of a request for the upstream's models. What cannot be the value of a header is left
/// out, or is empty.
pub open spec fn models_headers_of(token: Seq<char>, account_id: Option<Seq<char>>) -> Contents {
    let authorization = if headers::is_value(upstream::bearer(token)) {
        upstream::bearer(token)
    } else {
        Seq::empty()
    };
    let contents = map!["authorization"@ => seq![authorization]];
    match account_id {
        Some(id) if headers::is_value(headers::as_bytes(id)) => contents.insert(
            upstream::CHATGPT_ACCOUNT_ID_HEADER@,
            seq![headers::as_bytes(id)],
        ),
        _ => contents,
    }
}

/// The headers of a request for the upstream's models.
pub fn models_headers(bearer_token: &str, chatgpt_account_id: Option<&str>) -> (r: HeaderMap<
    HeaderValue,
>)
    ensures
        headers::header_contents(r) == models_headers_of(
            bearer_token@,
            text::str_in(chatgpt_account_id),
        ),
{
    let mut r = headers::no_headers();
    let authorization = "Bearer ".to_string().concat(bearer_token);
    proof {
        reveal_strlit("authorization");
        reveal_strlit("chatgpt-account-id");
        reveal_strlit("");
        headers::lemma_plain(""@);
        vstd::utf8::is_ascii_chars_encode_utf8(""@);
        assert(headers::as_bytes(""@) =~= Seq::empty());
    }
    let value = match headers::value_from_str(authorization.as_str()) {
        Ok(value) => value,
        Err(_) => headers::static_value(""),
    };
    let _ = headers::insert(&mut r, headers::static_name("authorization"), value);
    assert(headers::header_contents(r) =~= map![
        "authorization"@ => seq![headers::value_bytes(value)],
    ]);
    if let Some(id) = chatgpt_account_id {
        if let Ok(value) = headers::value_from_str(id) {
            assert(headers::header_contents(r).dom() =~= set!["authorization"@]);
            let _ = headers::insert(
                &mut r,
                headers::static_name(upstream::CHATGPT_ACCOUNT_ID_HEADER),
                value,
            );
        }
    }
    r
}

/// What becomes of a client's question for the models.
pub enum ModelsStep {
    /// It is answered, with this status and body.
    Reply(u16, ModelsBody),
    /// The upstream has to be asked.
    Ask(ModelsQuery),
}

/// What becomes of a client's question for the models, as mathematics sees it.
pub enum ModelsStepView {
    Reply(u16, ModelsBodyView),
    Ask(ModelsQueryView),
}

impl ModelsStep {
    pub open spec fn view(&self) -> ModelsStepView {
        match self {
            ModelsStep::Reply(status, body) => ModelsStepView::Reply(*status, body@),
            ModelsStep::Ask(query) => ModelsStepView::Ask(query@),
        }
    }
}

/// What becomes of a client's question for the models, where the accounts are as they were told: if
/// one of them is logged in, it is answered with the offered models in the cache, and the upstream is
/// asked only if the cache cannot be read.
pub open spec fn answered(
    accounts: RegistryView,
    told: Seq<AccountSummary>,
    cache: Option<Seq<u8>>,
) -> Result<ModelsStepView, ObstacleView> {
    if first_authenticated(told) is None {
        Err(ObstacleView::NoAccount)
    } else {
        match cached_models(cache) {
            Some(models) => Ok(
                ModelsStepView::Reply(200, ModelsBodyView::Json(listing(openai_models(models)))),
            ),
            None => match queried(accounts, told) {
                Ok(query) => Ok(ModelsStepView::Ask(query)),
                Err(obstacle) => Err(obstacle),
            },
        }
    }
}

/// Answers a client that asks for the models from the bytes of the Codex installation's cache, or
/// tells that the upstream has to be asked.
pub fn list_models(
    accounts: &AccountRegistry,
    told: &Vec<AccountSummary>,
    cache: Option<&Vec<u8>>,
) -> (r: Result<ModelsStep, ModelsObstacle>)
    ensures
        match r {
            Ok(step) => answered(accounts@, told@, bytes_in(cache)) == Ok::<_, ObstacleView>(step@),
            Err(obstacle) => answered(accounts@, told@, bytes_in(cache)) == Err::<
                ModelsStepView,
                _,
            >(obstacle@),
        },
{
    if find_authenticated(told).is_none() {
        return Err(ModelsObstacle::NoAccount);
    }
    match read_cached_models(cache) {
        Some(models) => Ok(ModelsStep::Reply(200, ModelsBody::Json(list_of(models)))),
        None => match ModelsQuery::begin(accounts, told) {
            Ok(query) => Ok(ModelsStep::Ask(query)),
            Err(obstacle) => Err(obstacle),
        },
    }
}

/// The names of the offered models in the bytes of the Codex installation's cache, in their order,
/// unless it cannot be read.
pub fn fetch_model_slugs(cache: Option<&Vec<u8>>) -> (r: Option<Vec<String>>)
    ensures
        match r {
            Some(slugs) => cached_slugs(bytes_in(cache)) == Some(text::texts(slugs@)),
            None => cached_slugs(bytes_in(cache)) is None,
        },
{
    match read_cached_models(cache) {
        Some(models) => Some(model_slugs(models)),
        None => None,
    }
}

/// The names of the models that requests may name: those in the cache, or, where it cannot be read,
/// those that the upstream told.
pub open spec fn known_slugs(cache: Option<Seq<u8>>, upstream: Seq<Seq<char>>) -> Seq<Seq<char>> {
    match cached_slugs(cache) {
        Some(slugs) => slugs,
        None => upstream,
    }
}

/// The names of the models that requests may name.
pub fn valid_models(cache: Option<&Vec<u8>>, upstream: &Vec<String>) -> (r: Vec<String>)
    ensures
        text::texts(r@) == known_slugs(bytes_in(cache), text::texts(upstream@)),
{
    match fetch_model_slugs(cache) {
        Some(slugs) => slugs,
        None => text::copy_all(upstream),
    }
}

/// What an answer of the upstream other than a success is called.
pub open spec fn models_refusal(status: u16) -> Seq<char> {
    "upstream models request failed with status "@ + errors::status_text(status)
}

/// Why the upstream does not tell the names of the models.
#[derive(Debug)]
pub enum SlugsError {
    /// The upstream refuses, with this message.
    Refused(String),
    /// The upstream's answer is not JSON.
    Unreadable,
}

/// The names of the offered models in an answer of the upstream, in their order.
pub fn upstream_model_slugs(status: u16, bytes: &Vec<u8>) -> (r: Result<Vec<String>, SlugsError>)
    ensures
        match r {
            Ok(slugs) => {
                &&& proxy::succeeds(status)
                &&& json::json_read(bytes@) is Some
                &&& text::texts(slugs@) == offered_slugs(models_in(json::json_read(bytes@)->0))
            },
            Err(SlugsError::Refused(message)) => !proxy::succeeds(status) && message@
                == models_refusal(status),
            Err(SlugsError::Unreadable) => proxy::succeeds(status) && json::json_read(
                bytes@,
            ) is None,
        },
{
    if !(200 <= status && status < 300) {
        return Err(
            SlugsError::Refused(
                "upstream models request failed with status ".to_string().concat(
                    errors::status_string(status).as_str(),
                ),
            ),
        );
    }
    match json::read(bytes.as_slice()) {
        Some(body) => Ok(model_slugs(take_models(body))),
        None => Err(SlugsError::Unreadable),
    }
}

/// The models come from the cache wherever it can be read: a client is told those that it offers, in
/// the same order as requests may name them, and neither the accounts nor the upstream make a
/// difference to it, as long as an account is logged in.
pub proof fn law_models_come_from_the_cache(
    accounts: RegistryView,
    told: Seq<AccountSummary>,
    cache: Seq<u8>,
    models: Seq<JsonView>,
    k: int,
)
    requires
        first_authenticated(told) is Some,
        cached_models(Some(cache)) == Some(JsonView::Array(models)),
        models.len() <= usize::MAX,
        0 <= k < offered(models).len(),
    ensures
        ({
            let data = openai_models(JsonView::Array(models));
            let slugs = cached_slugs(Some(cache));
            &&& answered(accounts, told, Some(cache)) == Ok::<_, ObstacleView>(
                ModelsStepView::Reply(200, ModelsBodyView::Json(listing(data))),
            )
            &&& slugs is Some
            &&& data->Array_0.len() == slugs->0.len()
            &&& data->Array_0[k].text_field("id"@) == Some(slugs->0[k])
        }),
{
    law_listed_models_are_the_offered_ones(models, k);
}

/// A request that names a model which the cache does not offer is rewritten to the best of those that
/// it offers, whatever the upstream told.
pub proof fn law_stale_model_is_replaced_from_the_cache(
    cache: Seq<u8>,
    upstream: Seq<Seq<char>>,
    installation_id: Seq<char>,
    json: JsonView,
    slugs: Seq<Seq<char>>,
)
    requires
        cached_slugs(Some(cache)) == Some(slugs),
        slugs.len() > 0,
        json.text_field("model"@) is Some,
        !slugs.contains(json.text_field("model"@)->0),
    ensures
        ({
            let known = known_slugs(Some(cache), upstream);
            let named = body::rewritten(installation_id, json, known).text_field("model"@);
            &&& named is Some
            &&& named == body::best_replacement(json.text_field("model"@)->0, slugs)
            &&& slugs.contains(named->0)
        }),
{
    body::law_model_is_listed(installation_id, json, slugs);
}

/// A version number is its own version number.
pub proof fn law_version_is_normal(raw: Seq<char>)
    ensures
        version_in(raw) matches Some(version) ==> version_in(version) == Some(version),
        version_in(raw) matches Some(version) ==> is_version(version),
{
    if let Some(version) = version_in(raw) {
        text::lemma_trimmed(version);
        text::lemma_no_last(version, 'v');
    }
}

/// A looked-up version holds for a day, and no longer.
pub proof fn law_version_holds_for_a_day(version: Seq<char>, fetched_at: u64, now: u64)
    requires
        version_in(version) is Some,
    ensures
        cached_version_at(version, fetched_at, now) is Some <==> now <= fetched_at + 86400,
{
}

proof fn lemma_offered(models: Seq<JsonView>, k: int)
    requires
        0 <= k < offered(models).len(),
    ensures
        is_offered(offered(models)[k]),
        models.contains(offered(models)[k]),
    decreases models.len(),
{
    let init = models.drop_last();
    if k < offered(init).len() {
        lemma_offered(init, k);
        let j = choose|j: int| 0 <= j < init.len() && init[j] == offered(init)[k];
        assert(models[j] == init[j]);
    } else {
        assert(models[models.len() - 1] == models.last());
    }
}

proof fn lemma_lost(models: Seq<JsonView>, k: int)
    requires
        0 <= k < models.len(),
        is_offered(models[k]),
    ensures
        offered(models).contains(models[k]),
    decreases models.len(),
{
    let init = models.drop_last();
    if k < init.len() {
        lemma_lost(init, k);
        assert(init[k] == models[k]);
        let j = choose|j: int| 0 <= j < offered(init).len() && offered(init)[j] == models[k];
        assert(offered(models)[j] == models[k]);
    } else {
        assert(offered(models)[offered(models).len() - 1] == models[k]);
    }
}

/// The list that clients see holds the models that requests may name, in the same order, each of them
/// one that the upstream offers.
pub proof fn law_listed_models_are_the_offered_ones(models: Seq<JsonView>, k: int)
    requires
        models.len() <= usize::MAX,
        0 <= k < offered(models).len(),
    ensures
        ({
            let list = openai_models(JsonView::Array(models))->Array_0;
            let names = offered_slugs(JsonView::Array(models));
            &&& list.len() == names.len()
            &&& list[k].text_field("id"@) == Some(names[k])
            &&& list[k].text_field("object"@) == Some("model"@)
            &&& exists|model: JsonView| #[trigger]
                models.contains(model) && is_offered(model) && list[k] == openai_model(model)
        }),
{
    let found = offered(models);
    let keys = ranking::text_keys(slugs(found));
    let order = ranking::sorted(keys);
    lemma_offered_len(models);
    ranking::stable_order_exists(keys);
    assert(order[k] < keys.len());
    let model = found[order[k] as int];
    lemma_offered(models, order[k] as int);
    assert(models.contains(model));
    reveal_strlit("id");
    reveal_strlit("object");
    reveal_strlit("name");
    reveal_strlit("context_length");
    reveal_strlit("architecture");
    assert("id"@.len() == 2);
    assert("object"@.len() == 6);
    assert("name"@.len() == 4);
    assert("context_length"@.len() == 14);
    assert("architecture"@.len() == 12);
}

proof fn lemma_offered_len(models: Seq<JsonView>)
    ensures
        offered(models).len() <= models.len(),
    decreases models.len(),
{
    if models.len() > 0 {
        lemma_offered_len(models.drop_last());
    }
}

/// The names of the offered models are in the order of texts.
pub proof fn law_slugs_are_sorted(models: Seq<JsonView>, a: int, b: int)
    requires
        models.len() <= usize::MAX,
        0 <= a < b < offered(models).len(),
    ensures
        ({
            let names = offered_slugs(JsonView::Array(models));
            text::text_before(names[a], names[b]) || names[a] == names[b]
        }),
{
    let keys = ranking::text_keys(slugs(offered(models)));
    let order = ranking::sorted(keys);
    lemma_offered_len(models);
    ranking::stable_order_exists(keys);
    assert(order[a] < keys.len());
    assert(order[b] < keys.len());
    assert(ranking::precedes(keys, order[a] as int, order[b] as int));
}

/// No offered model is lost.
pub proof fn law_no_offered_model_is_lost(models: Seq<JsonView>, k: int)
    requires
        models.len() <= usize::MAX,
        0 <= k < models.len(),
        is_offered(models[k]),
    ensures
        offered_slugs(JsonView::Array(models)).contains(models[k].text_field("slug"@)->0),
{
    let found = offered(models);
    let keys = ranking::text_keys(slugs(found));
    let order = ranking::sorted(keys);
    let names = offered_slugs(JsonView::Array(models));
    lemma_offered_len(models);
    ranking::stable_order_exists(keys);
    lemma_lost(models, k);
    let j = choose|j: int| 0 <= j < found.len() && found[j] == models[k];
    assert(order.contains(j as usize));
    let i = choose|i: int| 0 <= i < order.len() && order[i] == j as usize;
    assert(names[i] == slugs(found)[j]);
}

/// A model is offered exactly if it is listed for clients and has a name.
pub proof fn law_offered_models(model: JsonView)
    ensures
        is_offered(model) <==> model.field("visibility"@) == Some(JsonView::Text("list"@))
            && model.field("slug"@) is Some && model.field("slug"@)->0 is Text,
{
}

proof fn lemma_offered_filters(models: Seq<JsonView>)
    ensures
        offered(models) == models.filter(|m: JsonView| is_offered(m)),
    decreases models.len(),
{
    reveal(Seq::filter);
    if models.len() > 0 {
        lemma_offered_filters(models.drop_last());
    }
}

/// As many models are listed as the list offers, each of them once.
pub proof fn law_each_offered_model_is_listed_once(models: Seq<JsonView>)
    ensures
        openai_models(JsonView::Array(models)) is Array,
        openai_models(JsonView::Array(models))->Array_0.len() == models.filter(
            |m: JsonView|
                m.field("visibility"@) == Some(JsonView::Text("list"@)) && m.field("slug"@) is Some
                    && m.field("slug"@)->0 is Text,
        ).len(),
        offered_slugs(JsonView::Array(models)).len() == openai_models(
            JsonView::Array(models),
        )->Array_0.len(),
{
    lemma_offered_filters(models);
    let p = |m: JsonView| is_offered(m);
    let q = |m: JsonView|
        m.field("visibility"@) == Some(JsonView::Text("list"@)) && m.field("slug"@) is Some
            && m.field("slug"@)->0 is Text;
    assert forall|m: JsonView| #[trigger] p(m) == q(m) by {
        law_offered_models(m);
    }
    assert(p =~= q);
}

/// What is no list of models is told as it is, and offers none.
pub proof fn law_what_is_no_list_stays(models: JsonView)
    requires
        models !is Array,
    ensures
        openai_models(models) == models,
        offered_slugs(models).len() == 0,
{
}

/// A model is told under its name as an object of the kind `model`, with its name for people, its
/// context and what it takes as input exactly where it tells them, and with nothing else.
pub proof fn law_told_model(model: JsonView, slug: Seq<char>, key: Seq<char>)
    requires
        model.field("slug"@) == Some(JsonView::Text(slug)),
    ensures
        ({
            let told = openai_model(model);
            &&& told.field("id"@) == Some(JsonView::Text(slug))
            &&& told.field("object"@) == Some(JsonView::Text("model"@))
            &&& told.field("name"@) == model.field("name"@)
            &&& told.field("context_length"@) == model.field("context_window"@)
            &&& told.field("architecture"@) is Some <==> model.field("input_modalities"@) is Some
            &&& told.field("architecture"@) matches Some(architecture) ==> {
                &&& architecture.field("input_modalities"@) == model.field("input_modalities"@)
                &&& architecture.field("modality"@) == Some(JsonView::Text("multimodal"@))
                &&& architecture.field("tokenizer"@) == Some(JsonView::Text("o200k_base"@))
            }
            &&& key != "id"@ && key != "object"@ && key != "name"@ && key != "context_length"@ && key
                != "architecture"@ ==> told.field(key) is None
        }),
{
    reveal_strlit("id");
    reveal_strlit("object");
    reveal_strlit("name");
    reveal_strlit("context_length");
    reveal_strlit("architecture");
    reveal_strlit("modality");
    reveal_strlit("tokenizer");
    reveal_strlit("input_modalities");
    assert("id"@.len() == 2);
    assert("object"@.len() == 6);
    assert("name"@.len() == 4);
    assert("context_length"@.len() == 14);
    assert("architecture"@.len() == 12);
    assert("modality"@.len() == 8);
    assert("tokenizer"@.len() == 9);
    assert("input_modalities"@.len() == 16);
}

/// A list that clients are told is an object of the kind `list` with the models as its data, and
/// nothing else.
pub proof fn law_told_list(models: JsonView, key: Seq<char>)
    ensures
        listing(models).field("object"@) == Some(JsonView::Text("list"@)),
        listing(models).field("data"@) == Some(models),
        key != "object"@ && key != "data"@ ==> listing(models).field(key) is None,
{
    reveal_strlit("object");
    reveal_strlit("data");
    assert("object"@.len() == 6);
    assert("data"@.len() == 4);
}

/// The cache has models exactly if it is there, is JSON, and has an array under `models`, and they are
/// that array.
pub proof fn law_cached_models(cache: Seq<u8>, models: JsonView)
    ensures
        cached_models(None) is None,
        cached_models(Some(cache)) == Some(models) <==> {
            &&& models is Array
            &&& json::json_read(cache) is Some
            &&& json::json_read(cache)->0.field("models"@) == Some(models)
        },
{
}

/// The models in the upstream's answer are those under `models`, and none where there is nothing under
/// that name.
pub proof fn law_models_of_an_answer(body: JsonView)
    ensures
        body.field("models"@) matches Some(models) ==> models_in(body) == models,
        body.field("models"@) is None ==> models_in(body) == JsonView::Array(Seq::empty()),
{
}

/// Where the upstream was asked, its models are told exactly if it answered with a success that is JSON.
/// Otherwise an empty list is told.
pub proof fn law_upstream_models_are_told(status: u16, bytes: Seq<u8>)
    ensures
        models_answer(None) == ModelsBodyView::Text("{\"object\":\"list\",\"data\":[]}"@),
        models_answer(Some((status, None))) == ModelsBodyView::Text(
            "{\"object\":\"list\",\"data\":[]}"@,
        ),
        200 <= status < 300 && json::json_read(bytes) is Some ==> models_answer(
            Some((status, Some(bytes))),
        ) == ModelsBodyView::Json(
            listing(openai_models(models_in(json::json_read(bytes)->0))),
        ),
        !(200 <= status < 300) || json::json_read(bytes) is None ==> models_answer(
            Some((status, Some(bytes))),
        ) == ModelsBodyView::Text("{\"object\":\"list\",\"data\":[]}"@),
{
}

/// The account that the upstream is asked for is the first that is logged in.
pub proof fn law_first_login_asks(told: Seq<AccountSummary>, k: int)
    ensures
        0 <= k < told.len() && told[k].auth.authenticated && (forall|j: int|
            0 <= j < k ==> !(#[trigger] told[j]).auth.authenticated) ==> first_authenticated(told)
            == Some(k),
        first_authenticated(told) is None <==> forall|j: int|
            0 <= j < told.len() ==> !(#[trigger] told[j]).auth.authenticated,
    decreases told.len(),
{
    if told.len() > 0 {
        let init = told.drop_last();
        law_first_login_asks(init, k);
        assert(told[told.len() - 1] == told.last());
        if first_authenticated(init) is None {
            assert forall|j: int| 0 <= j < init.len() implies !(
            #[trigger] told[j]).auth.authenticated by {
                assert(init[j] == told[j]);
            }
        } else {
            let j = choose|j: int| 0 <= j < init.len() && (#[trigger] init[j]).auth.authenticated;
            assert(told[j].auth.authenticated);
        }
        if 0 <= k < told.len() && told[k].auth.authenticated && (forall|j: int|
            0 <= j < k ==> !(#[trigger] told[j]).auth.authenticated) {
            if k < init.len() {
                assert(init[k] == told[k]);
                assert forall|j: int| 0 <= j < k implies !(
                #[trigger] init[j]).auth.authenticated by {
                    assert(init[j] == told[j]);
                }
            } else {
                assert forall|j: int| 0 <= j < init.len() implies !(
                #[trigger] init[j]).auth.authenticated by {
                    assert(init[j] == told[j]);
                }
            }
        }
    }
}

/// The upstream is asked on behalf of an account that is told to be logged in, with its own directory
/// and the id that it has at the upstream. Nobody asks exactly if nobody is logged in, or the account is
/// gone.
pub proof fn law_who_asks_for_models(accounts: RegistryView, told: Seq<AccountSummary>, k: int)
    requires
        0 <= k < told.len(),
        told[k].auth.authenticated,
        forall|j: int| 0 <= j < k ==> !(#[trigger] told[j]).auth.authenticated,
    ensures
        accounts.find(told[k].id@) is None ==> queried(accounts, told) == Err::<ModelsQueryView, _>(
            ObstacleView::NoRecord(told[k].id@),
        ),
        accounts.find(told[k].id@) matches Some(i) ==> {
            &&& queried(accounts, told) is Ok
            &&& queried(accounts, told)->Ok_0.account_id == told[k].id@
            &&& queried(accounts, told)->Ok_0.codex_home == accounts.handles[i].record.codex_home
            &&& queried(accounts, told)->Ok_0.chatgpt_account_id == text::text_in(
                told[k].auth.account_id,
            )
        },
{
    law_first_login_asks(told, k);
}

/// A client is told the models only if some account is logged in, and the upstream is asked only if the
/// cache has none.
pub proof fn law_when_models_are_told(
    accounts: RegistryView,
    told: Seq<AccountSummary>,
    cache: Option<Seq<u8>>,
)
    ensures
        (forall|j: int| 0 <= j < told.len() ==> !(#[trigger] told[j]).auth.authenticated)
            ==> answered(accounts, told, cache) == Err::<ModelsStepView, _>(
            ObstacleView::NoAccount,
        ),
        answered(accounts, told, cache) matches Ok(ModelsStepView::Ask(_)) ==> cached_models(
            cache,
        ) is None,
        (exists|j: int| 0 <= j < told.len() && (#[trigger] told[j]).auth.authenticated)
            && cached_models(cache) is Some ==> answered(accounts, told, cache) matches Ok(
            ModelsStepView::Reply(_, _),
        ),
{
    law_first_login_asks(told, 0);
}

/// A request for the upstream's models is authorized with the token of its account, and tells the
/// account's id at the upstream where it is known. What cannot be a value is left out: the token leaves
/// an empty value. Nothing else is told.
pub proof fn law_headers_of_a_models_request(
    token: Seq<char>,
    account_id: Option<Seq<char>>,
    name: Seq<char>,
)
    ensures
        ({
            let told = models_headers_of(token, account_id);
            let bytes = headers::as_bytes("Bearer "@ + token);
            &&& told.contains_key("authorization"@)
            &&& headers::is_value(bytes) ==> told["authorization"@] == seq![bytes]
            &&& !headers::is_value(bytes) ==> told["authorization"@] == seq![Seq::<u8>::empty()]
            &&& told.contains_key("chatgpt-account-id"@) <==> account_id is Some
                && headers::is_value(headers::as_bytes(account_id->0))
            &&& told.contains_key("chatgpt-account-id"@) ==> told["chatgpt-account-id"@] == seq![
                headers::as_bytes(account_id->0),
            ]
            &&& name != "authorization"@ && name != "chatgpt-account-id"@ ==> !told.contains_key(
                name,
            )
        }),
{
    reveal_strlit("authorization");
    reveal_strlit("chatgpt-account-id");
    assert("authorization"@.len() == 13);
    assert("chatgpt-account-id"@.len() == 18);
}

/// The obstacles come in their turn: no credentials, then no token.
pub proof fn law_obstacles_of_a_models_request(query: ModelsQueryView, facts: TokenFacts)
    ensures
        authorized(query, None) == Err::<Contents, _>(ObstacleView::NoAuth(query.account_id)),
        facts.token is Err ==> authorized(query, Some(facts)) == Err::<Contents, _>(
            ObstacleView::NoToken(query.account_id),
        ),
        facts.token matches Ok(token) ==> authorized(query, Some(facts)) == Ok::<_, ObstacleView>(
            models_headers_of(token@, query.chatgpt_account_id),
        ),
{
}

/// A version number is what follows the last `v` of a release's name, where it is made of digits and
/// dots, and the whole name where there is no `v`.
pub proof fn law_version_of_a_release(before: Seq<char>, version: Seq<char>)
    requires
        version.len() > 0,
        forall|k: int|
            0 <= k < version.len() ==> '0' <= #[trigger] version[k] <= '9' || version[k] == '.',
    ensures
        version_in(before + seq!['v'] + version) == Some(version),
        version_in(version) == Some(version),
{
    assert forall|k: int| 0 <= k < version.len() implies is_version_char(#[trigger] version[k])
        && version[k] != 'v' && !text::is_white(version[k]) by {}
    assert(is_version(version));
    text::lemma_trimmed(version);
    text::lemma_no_last(version, 'v');
    let raw = before + seq!['v'] + version;
    text::law_trimmed(raw);
    let (i, j) = choose|i: int, j: int|
        {
            &&& 0 <= i <= j <= raw.len()
            &&& text::trimmed(raw) == #[trigger] raw.subrange(i, j)
            &&& forall|k: int| 0 <= k < i ==> text::is_white(#[trigger] raw[k])
            &&& forall|k: int| j <= k < raw.len() ==> text::is_white(#[trigger] raw[k])
        };
    assert(raw[before.len() as int] == 'v');
    assert(!text::is_white('v'));
    assert(i <= before.len());
    assert(raw[raw.len() - 1] == version.last());
    assert(version[version.len() - 1] == version.last());
    assert(j == raw.len());
    let name = raw.subrange(i, j);
    let at = before.len() - i + 1;
    assert(name[at - 1] == 'v');
    assert forall|k: int| at <= k < name.len() implies #[trigger] name[k] != 'v' by {
        assert(name[k] == version[k - at]);
    }
    text::lemma_after_last(name, 'v', at);
    assert(name.skip(at) =~= version);
}

/// A version number is made of digits and dots, whatever it was found in.
pub proof fn law_version_has_digits_and_dots(raw: Seq<char>, k: int)
    ensures
        version_in(raw) matches Some(version) ==> version.len() > 0 && (0 <= k < version.len()
            ==> '0' <= version[k] <= '9' || version[k] == '.'),
{
    if let Some(version) = version_in(raw) {
        if 0 <= k < version.len() {
            assert(is_version_char(version[k]));
        }
    }
}

/// A name that ends in something other than digits and dots after its last `v` tells no version.
pub proof fn law_what_is_no_version(raw: Seq<char>)
    requires
        raw.len() > 0,
        !('0' <= raw.last() <= '9'),
        raw.last() != '.',
        !text::is_white(raw.last()),
    ensures
        version_in(raw) is None,
{
    let name = text::trimmed(raw);
    text::law_trimmed_end(raw);
    match text::after_last(name, 'v') {
        Some(rest) => {
            if rest.len() > 0 {
                assert(rest.last() == name.last());
                text::law_trimmed_end(rest);
                lemma_bad_end(text::trimmed(rest));
            } else {
                text::lemma_trimmed(rest);
            }
        },
        None => {
            text::law_trimmed_end(name);
            lemma_bad_end(text::trimmed(name));
        },
    }
}

proof fn lemma_bad_end(s: Seq<char>)
    requires
        s.len() > 0,
        !is_version_char(s.last()),
    ensures
        !is_version(s),
{
    assert(!is_version_char(s[s.len() - 1]));
}

/// An obstacle says what is missing, and names the account that it is about.
pub proof fn law_obstacles_name_the_account(id: Seq<char>)
    ensures
        ObstacleView::NoAccount.text() == "no authenticated account found for models fetch"@,
        ObstacleView::NoRecord(id).text() == "failed to get record for account "@ + id,
        ObstacleView::NoAuth(id).text() == "auth manager returned no auth for account "@ + id,
        ObstacleView::NoToken(id).text() == "failed to get token for account "@ + id,
        id.is_suffix_of(ObstacleView::NoRecord(id).text()),
        id.is_suffix_of(ObstacleView::NoAuth(id).text()),
        id.is_suffix_of(ObstacleView::NoToken(id).text()),
{
    let a = ObstacleView::NoRecord(id).text();
    let b = ObstacleView::NoAuth(id).text();
    let c = ObstacleView::NoToken(id).text();
    assert(a.skip(a.len() - id.len()) =~= id);
    assert(b.skip(b.len() - id.len()) =~= id);
    assert(c.skip(c.len() - id.len()) =~= id);
}

/// The models are asked for at the upstream with the version that was looked up, else with the one that
/// is known to work.
pub proof fn law_asking_for_models(
    looked_up: Option<String>,
    version: String,
    named: &str,
    url: String,
)
    requires
        call_ensures(resolve_codex_client_version, (looked_up,), version),
        call_ensures(models_url, (named,), url),
    ensures
        looked_up matches Some(found) ==> version@ == found@,
        looked_up is None ==> version@ == DEFAULT_CODEX_CLIENT_VERSION@,
        url@ == "https://chatgpt.com/backend-api/codex/models"@ + "?client_version="@ + named@,
        named@.is_suffix_of(url@),
{
    assert(url@.skip(url@.len() - named@.len()) =~= named@);
}

/// The version of a release is read from its name, and one that holds none is named in the reason.
pub proof fn law_reading_a_release(tag_name: &str, r: Result<String, String>)
    requires
        call_ensures(release_version, (tag_name,), r),
    ensures
        r is Ok <==> version_in(tag_name@) is Some,
        r matches Ok(version) ==> version_in(tag_name@) == Some(version@),
        r matches Err(reason) ==> reason@ == "GitHub latest release tag_name was invalid: "@
            + tag_name@,
{
}

/// A version that was looked up is kept with its time, and is good for a day.
pub proof fn law_keeping_a_version(
    version: String,
    at: u64,
    kept: CachedCodexClientVersion,
    now: u64,
    r: Option<(String, bool)>,
)
    requires
        call_ensures(CachedCodexClientVersion::looked_up_at, (version, at), kept),
        call_ensures(CachedCodexClientVersion::current_at, (&kept, now), r),
        version_in(version@) == Some(version@),
    ensures
        r is Some <==> now <= at + 86400,
        r matches Some((current, changed)) ==> current@ == version@ && !changed,
{
    law_version_holds_for_a_day(version@, at, now);
}

/// Where models cannot be asked for, the answer is 503 and empty. Where they can, it is 200 whatever the
/// upstream says.
pub proof fn law_answers_on_models(
    obstacle: &ModelsObstacle,
    refused: (u16, ModelsBody),
    answer: Option<(u16, Option<Vec<u8>>)>,
    told: (u16, ModelsBody),
)
    requires
        call_ensures(ModelsObstacle::reply, (obstacle,), refused),
        call_ensures(list_upstream_models, (answer,), told),
    ensures
        refused.0 == 503,
        refused.1@ == ModelsBodyView::Json(JsonView::Object(Map::empty())),
        told.0 == 200,
        answer is None ==> told.1@ == ModelsBodyView::Text("{\"object\":\"list\",\"data\":[]}"@),
        answer matches Some((status, _)) ==> (!(200 <= status < 300) ==> told.1@
            == ModelsBodyView::Text("{\"object\":\"list\",\"data\":[]}"@)),
{
    if let Some((status, body)) = answer {
        if let Some(bytes) = body {
            law_upstream_models_are_told(status, bytes@);
        } else {
            law_upstream_models_are_told(status, Seq::empty());
        }
    } else {
        law_upstream_models_are_told(0, Seq::empty());
    }
}

/// The names of the upstream's models are known exactly if it answered with a success that is JSON, and
/// a refusal is told apart from an answer that cannot be read.
pub proof fn law_reading_upstream_names(
    status: u16,
    bytes: &Vec<u8>,
    r: Result<Vec<String>, SlugsError>,
)
    requires
        call_ensures(upstream_model_slugs, (status, bytes), r),
    ensures
        r is Ok <==> 200 <= status < 300 && json::json_read(bytes@) is Some,
        r matches Ok(slugs) ==> text::texts(slugs@) == offered_slugs(
            models_in(json::json_read(bytes@)->0),
        ),
        !(200 <= status < 300) ==> r is Err && r->Err_0 is Refused && r->Err_0->Refused_0@
            == "upstream models request failed with status "@ + errors::status_text(status),
        200 <= status < 300 && json::json_read(bytes@) is None ==> r is Err
            && r->Err_0 is Unreadable,
{
    proxy::law_successes(status);
}

/// The known models are those of the cache, even where it lists none, and those of the upstream only
/// where there is no cache.
pub proof fn law_known_models(
    cache: Option<&Vec<u8>>,
    fetched: Option<Vec<String>>,
    upstream: &Vec<String>,
    known: Vec<String>,
)
    requires
        call_ensures(fetch_model_slugs, (cache,), fetched),
        call_ensures(valid_models, (cache, upstream), known),
    ensures
        fetched matches Some(slugs) ==> text::texts(known@) == text::texts(slugs@),
        fetched is None ==> text::texts(known@) == text::texts(upstream@),
        cache is None ==> fetched is None,
        fetched is Some <==> cache is Some && json::json_read(cache->0@) is Some && json::json_read(
            cache->0@,
        )->0.field("models"@) is Some && json::json_read(cache->0@)->0.field("models"@)->0 is Array,
        fetched is Some ==> text::texts(fetched->0@) == offered_slugs(
            json::json_read(cache->0@)->0.field("models"@)->0,
        ),
{
}

/// The models that are told are those that are offered, each with its name, sorted by their names; the
/// list holds them under `data`. What is no list of models is told as it is.
pub proof fn law_telling_models(
    models: Json,
    told: Json,
    names: Vec<String>,
    list: Json,
    all: Seq<JsonView>,
    a: int,
    b: int,
)
    requires
        call_ensures(rewrite_models_for_openai_compatibility, (models,), told),
        call_ensures(model_slugs, (models,), names),
        call_ensures(list_of, (models,), list),
        all.len() <= usize::MAX,
        models@ == JsonView::Array(all),
    ensures
        list@.field("object"@) == Some(JsonView::Text("list"@)),
        list@.field("data"@) == Some(told@),
        told@ is Array,
        told@->Array_0.len() == names@.len(),
        names@.len() == all.filter(
            |m: JsonView|
                m.field("visibility"@) == Some(JsonView::Text("list"@)) && m.field("slug"@) is Some
                    && m.field("slug"@)->0 is Text,
        ).len(),
        0 <= a < names@.len() ==> told@->Array_0[a].text_field("id"@) == Some(names@[a]@),
        0 <= a < b < names@.len() ==> text::text_before(names@[a]@, names@[b]@) || names@[a]@
            == names@[b]@,
        0 <= a < all.len() && all[a].field("visibility"@) == Some(JsonView::Text("list"@))
            && all[a].text_field("slug"@) is Some ==> text::texts(names@).contains(
            all[a].text_field("slug"@)->0,
        ),
{
    law_told_list(openai_models(models@), ""@);
    law_each_offered_model_is_listed_once(all);
    assert(text::texts(names@).len() == names@.len());
    assert(offered(all).len() == names@.len());
    if 0 <= a < names@.len() {
        law_listed_models_are_the_offered_ones(all, a);
        assert(text::texts(names@)[a] == names@[a]@);
        if a < b < names@.len() {
            law_slugs_are_sorted(all, a, b);
            assert(text::texts(names@)[b] == names@[b]@);
        }
    }
    if 0 <= a < all.len() && all[a].field("visibility"@) == Some(JsonView::Text("list"@))
        && all[a].text_field("slug"@) is Some {
        law_offered_models(all[a]);
        law_no_offered_model_is_lost(all, a);
    }
}

/// The first account that is logged in asks for the models, from its own directory and in its own name,
/// and with its own token.
pub proof fn law_querying_models(
    accounts: &AccountRegistry,
    told: &Vec<AccountSummary>,
    r: Result<ModelsQuery, ModelsObstacle>,
    k: int,
)
    requires
        call_ensures(ModelsQuery::begin, (accounts, told), r),
        0 <= k < told@.len(),
        told@[k].auth.authenticated,
        forall|j: int| 0 <= j < k ==> !(#[trigger] told@[j]).auth.authenticated,
    ensures
        r is Ok <==> accounts@.find(told@[k].id@) is Some,
        r matches Ok(query) ==> {
            &&& query@.account_id == told@[k].id@
            &&& query@.codex_home == accounts@.handles[accounts@.find(
                told@[k].id@,
            )->0].record.codex_home
            &&& query@.chatgpt_account_id == text::text_in(told@[k].auth.account_id)
        },
        r matches Err(obstacle) ==> obstacle@ == ObstacleView::NoRecord(told@[k].id@),
{
    law_who_asks_for_models(accounts@, told@, k);
}

/// A query is authorized exactly if its account has a token, and then with that token.
pub proof fn law_authorizing_a_query(
    query: &ModelsQuery,
    facts: Option<TokenFacts>,
    r: Result<HeaderMap<HeaderValue>, ModelsObstacle>,
)
    requires
        call_ensures(ModelsQuery::authorize, (query, facts), r),
    ensures
        r is Ok <==> facts is Some && facts->0.token is Ok,
        facts is None ==> r->Err_0@ == ObstacleView::NoAuth(query@.account_id),
        facts is Some && facts->0.token is Err ==> r->Err_0@ == ObstacleView::NoToken(
            query@.account_id,
        ),
        r matches Ok(built) ==> {
            let bytes = headers::as_bytes("Bearer "@ + facts->0.token->Ok_0@);
            let sent = headers::header_contents(built);
            &&& sent.contains_key("authorization"@)
            &&& headers::is_value(bytes) ==> sent["authorization"@] == seq![bytes]
        },
{
    if facts is Some {
        law_obstacles_of_a_models_request(query@, facts->0);
        if facts->0.token is Ok {
            law_headers_of_a_models_request(
                facts->0.token->Ok_0@,
                query@.chatgpt_account_id,
                ""@,
            );
        }
    }
}

} // verus!
