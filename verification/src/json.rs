//! JSON values, and their exchange with `serde_json`.

use vstd::prelude::*;

use crate::string_map::StringMap;
use crate::string_map;
use crate::text;

verus! {

/// A JSON number, carried through as `serde_json` read it.
#[verifier::external_type_specification]
#[verifier::external_body]
pub struct ExNumber(serde_json::Number);

/// A JSON value of `serde_json`. What it holds is `value_json`.
#[verifier::external_type_specification]
#[verifier::external_body]
pub struct ExValue(serde_json::Value);

/// A JSON value as mathematics sees it.
pub enum JsonView {
    Null,
    Bool(bool),
    Number(serde_json::Number),
    Text(Seq<char>),
    Array(Seq<JsonView>),
    Object(Map<Seq<char>, JsonView>),
}

/// A JSON value.
pub enum Json {
    Null,
    Bool(bool),
    Number(serde_json::Number),
    Text(String),
    Array(Vec<Json>),
    Object(JsonObject),
}

/// A JSON object.
pub struct JsonObject {
    map: StringMap<Json>,
}

impl Json {
    /// The value that this stands for.
    pub open spec fn view(&self) -> JsonView
        decreases self,
    {
        match self {
            Json::Null => JsonView::Null,
            Json::Bool(b) => JsonView::Bool(*b),
            Json::Number(n) => JsonView::Number(*n),
            Json::Text(s) => JsonView::Text(s@),
            Json::Array(items) => JsonView::Array(
                Seq::new(
                    items@.len(),
                    |i: int|
                        if 0 <= i < items@.len() {
                            items@[i].view()
                        } else {
                            JsonView::Null
                        },
                ),
            ),
            Json::Object(object) => JsonView::Object(object.view()),
        }
    }
}

spec fn object_view(entries: Seq<(String, Json)>) -> Map<Seq<char>, JsonView>
    decreases entries,
{
    if entries.len() == 0 {
        Map::empty()
    } else {
        object_view(entries.drop_last()).insert(
            entries[entries.len() - 1].0@,
            entries[entries.len() - 1].1.view(),
        )
    }
}

proof fn lemma_object_view(entries: Seq<(String, Json)>)
    ensures
        object_view(entries) == string_map::entries_map(entries).map_values(|j: Json| j.view()),
    decreases entries.len(),
{
    let mapped = string_map::entries_map(entries).map_values(|j: Json| j.view());
    if entries.len() > 0 {
        lemma_object_view(entries.drop_last());
    }
    assert(object_view(entries) =~= mapped);
}

impl JsonObject {
    /// The map from the keys to the values.
    pub closed spec fn view(&self) -> Map<Seq<char>, JsonView>
        decreases self,
    {
        object_view(self.map.entries@)
    }

    proof fn lemma_view(&self)
        ensures
            self@ == self.map@.map_values(|j: Json| j.view()),
    {
        self.map.lemma_view();
        lemma_object_view(self.map.entries@);
    }

    /// The object without members.
    pub fn new() -> (object: JsonObject)
        ensures
            object@ == Map::<Seq<char>, JsonView>::empty(),
    {
        let object = JsonObject { map: StringMap::new() };
        proof {
            object.lemma_view();
        }
        assert(object@ =~= Map::<Seq<char>, JsonView>::empty());
        object
    }

    /// The value of a key.
    pub fn get(&self, key: &str) -> (r: Option<&Json>)
        ensures
            match r {
                Some(v) => self@.contains_key(key@) && self@[key@] == v@,
                None => !self@.contains_key(key@),
            },
    {
        proof {
            self.lemma_view();
        }
        self.map.get(key)
    }

    /// Whether a key has a value.
    pub fn contains_key(&self, key: &str) -> (r: bool)
        ensures
            r == self@.contains_key(key@),
    {
        self.get(key).is_some()
    }

    /// Takes a key and its value out of the object.
    pub fn remove(&mut self, key: &str) -> (r: Option<Json>)
        ensures
            final(self)@ == old(self)@.remove(key@),
            match r {
                Some(v) => old(self)@.contains_key(key@) && old(self)@[key@] == v@,
                None => !old(self)@.contains_key(key@),
            },
    {
        proof {
            self.lemma_view();
        }
        let r = self.map.remove(key);
        proof {
            self.lemma_view();
            assert(self@ =~= old(self)@.remove(key@));
        }
        r
    }

    /// Gives a key a value, in place of the one that it had.
    pub fn insert(&mut self, key: String, value: Json)
        ensures
            final(self)@ == old(self)@.insert(key@, value@),
    {
        proof {
            self.lemma_view();
        }
        let ghost k = key@;
        self.map.insert(key, value);
        proof {
            self.lemma_view();
            assert(self@ =~= old(self)@.insert(k, value@));
        }
    }
}

impl JsonView {
    /// The value of a key, where this is an object that has the key.
    pub open spec fn field(self, key: Seq<char>) -> Option<JsonView> {
        match self {
            JsonView::Object(members) if members.contains_key(key) => Some(members[key]),
            _ => None,
        }
    }

    /// The characters, where this is a string.
    pub open spec fn text(self) -> Option<Seq<char>> {
        match self {
            JsonView::Text(s) => Some(s),
            _ => None,
        }
    }

    /// The characters of the value of a key, where there is one and it is a string.
    pub open spec fn text_field(self, key: Seq<char>) -> Option<Seq<char>> {
        match self.field(key) {
            Some(value) => value.text(),
            None => None,
        }
    }
}

impl Json {
    /// The value of a key, where this is an object that has the key.
    pub fn field(&self, key: &str) -> (r: Option<&Json>)
        ensures
            match r {
                Some(v) => self@.field(key@) == Some(v@),
                None => self@.field(key@) is None,
            },
    {
        match self {
            Json::Object(object) => object.get(key),
            _ => None,
        }
    }

    /// The characters, where this is a string.
    pub fn text(&self) -> (r: Option<&str>)
        ensures
            match r {
                Some(s) => self@.text() == Some(s@),
                None => self@.text() is None,
            },
    {
        match self {
            Json::Text(s) => Some(s.as_str()),
            _ => None,
        }
    }

    /// The characters of the value of a key, where there is one and it is a string.
    pub fn text_field(&self, key: &str) -> (r: Option<&str>)
        ensures
            match r {
                Some(s) => self@.text_field(key@) == Some(s@),
                None => self@.text_field(key@) is None,
            },
    {
        match self.field(key) {
            Some(value) => value.text(),
            None => None,
        }
    }
}

/// What a JSON value of `serde_json` holds.
pub uninterp spec fn value_json(value: serde_json::Value) -> JsonView;

/// One level of a JSON value of `serde_json`.
pub enum Node {
    Null,
    Bool(bool),
    Number(serde_json::Number),
    Text(String),
    Array(Vec<serde_json::Value>),
    Object(Vec<(String, serde_json::Value)>),
}

impl Node {
    /// The JSON value whose first level this is.
    pub open spec fn json(self) -> JsonView {
        match self {
            Node::Null => JsonView::Null,
            Node::Bool(b) => JsonView::Bool(b),
            Node::Number(n) => JsonView::Number(n),
            Node::Text(s) => JsonView::Text(s@),
            Node::Array(items) => JsonView::Array(
                items@.map_values(|v: serde_json::Value| value_json(v)),
            ),
            Node::Object(members) => JsonView::Object(
                string_map::entries_map(members@).map_values(|v: serde_json::Value| value_json(v)),
            ),
        }
    }

    /// The members of an object have distinct keys.
    pub open spec fn distinct(self) -> bool {
        self matches Node::Object(members) ==> string_map::keys_distinct(members@)
    }
}

/// Takes a `serde_json::Value` apart by one level: its variants are those of `Node`, and the keys
/// of its `Map` are distinct.
#[verifier::external_body]
fn open_value(value: serde_json::Value) -> (node: Node)
    ensures
        node.json() == value_json(value),
        node.distinct(),
{
    match value {
        serde_json::Value::Null => Node::Null,
        serde_json::Value::Bool(b) => Node::Bool(b),
        serde_json::Value::Number(n) => Node::Number(n),
        serde_json::Value::String(s) => Node::Text(s),
        serde_json::Value::Array(items) => Node::Array(items),
        serde_json::Value::Object(members) => Node::Object(members.into_iter().collect()),
    }
}

/// Builds a `serde_json::Value` from its first level, an object by collecting its members into a
/// `serde_json::Map`, which keeps each of them where their keys are distinct.
#[verifier::external_body]
fn close_node(node: Node) -> (value: serde_json::Value)
    requires
        node.distinct(),
    ensures
        value_json(value) == node.json(),
{
    match node {
        Node::Null => serde_json::Value::Null,
        Node::Bool(b) => serde_json::Value::Bool(b),
        Node::Number(n) => serde_json::Value::Number(n),
        Node::Text(s) => serde_json::Value::String(s),
        Node::Array(items) => serde_json::Value::Array(items),
        Node::Object(members) => serde_json::Value::Object(members.into_iter().collect()),
    }
}

/// The JSON value that a `serde_json::Value` holds.
pub fn from_value(value: serde_json::Value) -> (json: Json)
    ensures
        json@ == value_json(value),
    decreases value_json(value),
{
    match open_value(value) {
        Node::Null => Json::Null,
        Node::Bool(b) => Json::Bool(b),
        Node::Number(n) => Json::Number(n),
        Node::Text(s) => Json::Text(s),
        Node::Array(values) => {
            let ghost view = values@.map_values(|v: serde_json::Value| value_json(v));
            let mut items: Vec<Json> = Vec::new();
            for v in it: values
                invariant
                    it.seq() == values@,
                    view == values@.map_values(|v: serde_json::Value| value_json(v)),
                    value_json(value) == JsonView::Array(view),
                    items@.len() == it.index(),
                    forall|i: int| 0 <= i < items@.len() ==> (#[trigger] items@[i])@ == view[i],
            {
                proof {
                    let whole = value_json(value);
                    assert(view[it.index()] == value_json(v));
                    assert(decreases_to!(whole => whole->Array_0));
                    assert(decreases_to!(view => view[it.index()]));
                }
                items.push(from_value(v));
            }
            let json = Json::Array(items);
            assert(json@->Array_0 =~= view);
            json
        },
        Node::Object(members) => {
            let mut object = JsonObject::new();
            let ghost map = string_map::entries_map(members@);
            let ghost view = map.map_values(|v: serde_json::Value| value_json(v));
            for member in it: members
                invariant
                    it.seq() == members@,
                    string_map::keys_distinct(members@),
                    map == string_map::entries_map(members@),
                    view == map.map_values(|v: serde_json::Value| value_json(v)),
                    value_json(value) == JsonView::Object(view),
                    object@ == string_map::entries_map(members@.take(it.index())).map_values(
                        |v: serde_json::Value| value_json(v),
                    ),
            {
                let ghost i = it.index();
                proof {
                    string_map::lemma_entries_map_value(members@, i);
                    string_map::lemma_entries_map_keys(members@, member.0@);
                    assert(members@.take(i + 1).drop_last() == members@.take(i));
                    assert(view.contains_key(member.0@));
                    assert(view[member.0@] == value_json(member.1));
                    assert(view.dom() =~= map.dom());
                    let whole = value_json(value);
                    assert(decreases_to!(whole => whole->Object_0));
                    assert(decreases_to!(view => view[member.0@]));
                }
                let (key, v) = member;
                let j = from_value(v);
                object.insert(key, j);
                assert(object@ =~= string_map::entries_map(members@.take(i + 1)).map_values(
                    |v: serde_json::Value| value_json(v),
                ));
            }
            assert(members@.take(members@.len() as int) == members@);
            Json::Object(object)
        },
    }
}

/// The `serde_json::Value` that holds a JSON value.
pub fn to_value(json: Json) -> (value: serde_json::Value)
    ensures
        value_json(value) == json@,
    decreases json,
{
    match json {
        Json::Null => close_node(Node::Null),
        Json::Bool(b) => close_node(Node::Bool(b)),
        Json::Number(n) => close_node(Node::Number(n)),
        Json::Text(s) => close_node(Node::Text(s)),
        Json::Array(items) => {
            let mut values: Vec<serde_json::Value> = Vec::new();
            for item in it: items
                invariant
                    it.seq() == items@,
                    json == Json::Array(items),
                    values@.len() == it.index(),
                    forall|i: int|
                        0 <= i < values@.len() ==> value_json(#[trigger] values@[i]) == items@[i]@,
            {
                proof {
                    assert(decreases_to!(json => json->Array_0));
                    assert(decreases_to!(items => items@));
                    assert(decreases_to!(items@ => items@[it.index()]));
                }
                values.push(to_value(item));
            }
            let node = Node::Array(values);
            assert(node.json()->Array_0 =~= json@->Array_0);
            close_node(node)
        },
        Json::Object(object) => {
            let entries = object.map.into_entries();
            let mut members: Vec<(String, serde_json::Value)> = Vec::new();
            assert(members@ =~= Seq::<(String, serde_json::Value)>::empty());
            for entry in it: entries
                invariant
                    it.seq() == entries@,
                    json == Json::Object(object),
                    object.map.entries@ == entries@,
                    string_map::keys_distinct(entries@),
                    members@.len() == it.index(),
                    forall|i: int|
                        0 <= i < members@.len() ==> (#[trigger] members@[i]).0@ == entries@[i].0@
                            && value_json(members@[i].1) == entries@[i].1@,
            {
                proof {
                    let i = it.index();
                    assert(decreases_to!(json => json->Object_0));
                    assert(decreases_to!(object => object.map));
                    assert(decreases_to!(object.map => object.map.entries));
                    assert(decreases_to!(object.map.entries => object.map.entries@));
                    assert(decreases_to!(entries@ => entries@[i]));
                    assert(decreases_to!(entries@[i] => entries@[i].1));
                }
                let (key, j) = entry;
                members.push((key, to_value(j)));
            }
            proof {
                assert forall|a: int, b: int| 0 <= a < b < members@.len() implies (
                #[trigger] members@[a]).0@ != (#[trigger] members@[b]).0@ by {
                    assert(entries@[a].0@ != entries@[b].0@);
                }
                lemma_members(members@, entries@);
            }
            let node = Node::Object(members);
            assert(node.json()->Object_0 =~= object@);
            close_node(node)
        },
    }
}

proof fn lemma_members(members: Seq<(String, serde_json::Value)>, entries: Seq<(String, Json)>)
    requires
        members.len() == entries.len(),
        forall|i: int|
            0 <= i < members.len() ==> (#[trigger] members[i]).0@ == entries[i].0@ && value_json(
                members[i].1,
            ) == entries[i].1@,
    ensures
        string_map::entries_map(members).map_values(|v: serde_json::Value| value_json(v))
            == object_view(entries),
    decreases members.len(),
{
    let mapped = string_map::entries_map(members).map_values(
        |v: serde_json::Value| value_json(v),
    );
    if members.len() > 0 {
        assert forall|i: int| 0 <= i < members.drop_last().len() implies (
        #[trigger] members.drop_last()[i]).0@ == entries.drop_last()[i].0@ && value_json(
            members.drop_last()[i].1,
        ) == entries.drop_last()[i].1@ by {
            assert(members.drop_last()[i] == members[i]);
        }
        lemma_members(members.drop_last(), entries.drop_last());
        assert(members[members.len() - 1].0@ == entries[entries.len() - 1].0@);
    }
    assert(mapped =~= object_view(entries));
}

/// The JSON value that the bytes spell, if they are one JSON text.
pub uninterp spec fn json_read(bytes: Seq<u8>) -> Option<JsonView>;

/// The bytes that spell a JSON value.
pub uninterp spec fn json_written(json: JsonView) -> Option<Seq<u8>>;

/// `serde_json::from_slice` into a `serde_json::Value`: what it reads, and whether it succeeds, is a
/// function of the bytes.
#[verifier::external_body]
fn read_value(bytes: &[u8]) -> (r: Option<serde_json::Value>)
    ensures
        match r {
            Some(value) => json_read(bytes@) == Some(value_json(value)),
            None => json_read(bytes@) is None,
        },
{
    serde_json::from_slice::<serde_json::Value>(bytes).ok()
}

/// `serde_json::to_vec` of a `serde_json::Value`: what it writes, and whether it succeeds, is a
/// function of what the value holds.
#[verifier::external_body]
fn write_value(value: &serde_json::Value) -> (r: Option<Vec<u8>>)
    ensures
        match r {
            Some(bytes) => json_written(value_json(*value)) == Some(bytes@),
            None => json_written(value_json(*value)) is None,
        },
{
    serde_json::to_vec(value).ok()
}

/// Reads one JSON text.
pub fn read(bytes: &[u8]) -> (r: Option<Json>)
    ensures
        match r {
            Some(json) => json_read(bytes@) == Some(json@),
            None => json_read(bytes@) is None,
        },
{
    match read_value(bytes) {
        Some(value) => Some(from_value(value)),
        None => None,
    }
}

/// Writes a JSON value.
pub fn write(json: Json) -> (r: Option<Vec<u8>>)
    ensures
        match r {
            Some(bytes) => json_written(json@) == Some(bytes@),
            None => json_written(json@) is None,
        },
{
    let value = to_value(json);
    write_value(&value)
}

/// Only an object has values under keys, one under each key that it holds.
pub proof fn law_fields(json: JsonView, members: Map<Seq<char>, JsonView>, key: Seq<char>)
    ensures
        json !is Object ==> json.field(key) is None,
        members.contains_key(key) ==> JsonView::Object(members).field(key) == Some(members[key]),
        !members.contains_key(key) ==> JsonView::Object(members).field(key) is None,
{
}

/// The text under a key is there exactly if the value under the key is a string, and is its
/// characters.
pub proof fn law_text_fields(json: JsonView, key: Seq<char>, s: Seq<char>)
    ensures
        json.text_field(key) == Some(s) <==> json.field(key) == Some(JsonView::Text(s)),
        json.field(key) is None ==> json.text_field(key) is None,
        json.text() == Some(s) <==> json == JsonView::Text(s),
{
}

} // verus!
