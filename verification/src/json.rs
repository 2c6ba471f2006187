//! JSON documents as plain values.
use vstd::prelude::*;
use vstd::string::*;

use crate::text::same;

verus! {

/// A JSON document. A number is kept as far as it is read: as the `u64` that
/// it is, or as `None` where it is negative, fractional or too large.
#[derive(Debug, PartialEq, Eq)]
pub enum Json {
    Null,
    Bool(bool),
    Number(Option<u64>),
    Text(String),
    Array(Vec<Json>),
    Object(Vec<(String, Json)>),
}

/// What a JSON document says. The entries of an object stand in the order in
/// which they are walked.
pub enum JsonModel {
    Null,
    Bool(bool),
    Number(Option<u64>),
    Text(Seq<char>),
    Array(Seq<JsonModel>),
    Object(Seq<(Seq<char>, JsonModel)>),
}

/// What `json` says.
pub open spec fn json_model(json: Json) -> JsonModel
    decreases json,
{
    match json {
        Json::Null => JsonModel::Null,
        Json::Bool(b) => JsonModel::Bool(b),
        Json::Number(n) => JsonModel::Number(n),
        Json::Text(s) => JsonModel::Text(s@),
        Json::Array(items) => JsonModel::Array(
            Seq::new(
                items@.len(),
                |i: int|
                    if 0 <= i < items@.len() {
                        json_model(items@[i])
                    } else {
                        JsonModel::Null
                    },
            ),
        ),
        Json::Object(entries) => JsonModel::Object(
            Seq::new(
                entries@.len(),
                |i: int|
                    if 0 <= i < entries@.len() {
                        (entries@[i].0@, json_model(entries@[i].1))
                    } else {
                        (Seq::<char>::empty(), JsonModel::Null)
                    },
            ),
        ),
    }
}

impl DeepView for Json {
    type V = JsonModel;

    open spec fn deep_view(&self) -> JsonModel {
        json_model(*self)
    }
}

fn copy_of(json: &Json) -> (r: Json)
    ensures
        r.deep_view() == json.deep_view(),
    decreases json,
{
    match json {
        Json::Null => Json::Null,
        Json::Bool(b) => Json::Bool(*b),
        Json::Number(n) => Json::Number(*n),
        Json::Text(s) => Json::Text(s.clone()),
        Json::Array(items) => {
            let mut out: Vec<Json> = Vec::new();
            let mut i: usize = 0;
            while i < items.len()
                invariant
                    i <= items@.len(),
                    *json == Json::Array(*items),
                    out@.len() == i,
                    forall|j: int|
                        0 <= j < i ==> json_model(#[trigger] out@[j]) == json_model(items@[j]),
                decreases items@.len() - i,
            {
                assert(decreases_to!(*json => json->Array_0));
                assert(decreases_to!(*items => items@));
                assert(decreases_to!(items@ => items@[i as int]));
                out.push(copy_of(&items[i]));
                i = i + 1;
            }
            let r = Json::Array(out);
            assert(r.deep_view()->Array_0 =~= json.deep_view()->Array_0);
            r
        },
        Json::Object(entries) => {
            let mut out: Vec<(String, Json)> = Vec::new();
            let mut i: usize = 0;
            while i < entries.len()
                invariant
                    i <= entries@.len(),
                    *json == Json::Object(*entries),
                    out@.len() == i,
                    forall|j: int|
                        0 <= j < i ==> (#[trigger] out@[j]).0@ == entries@[j].0@ && json_model(
                            out@[j].1,
                        ) == json_model(entries@[j].1),
                decreases entries@.len() - i,
            {
                assert(decreases_to!(*json => json->Object_0));
                assert(decreases_to!(*entries => entries@));
                assert(decreases_to!(entries@ => entries@[i as int]));
                assert(decreases_to!(entries@[i as int] => entries@[i as int].1));
                out.push((entries[i].0.clone(), copy_of(&entries[i].1)));
                i = i + 1;
            }
            let r = Json::Object(out);
            assert(r.deep_view()->Object_0 =~= json.deep_view()->Object_0);
            r
        },
    }
}

impl Clone for Json {
    fn clone(&self) -> (r: Self)
        ensures
            r.deep_view() == self.deep_view(),
    {
        copy_of(self)
    }
}

/// The value of the first entry with the key `key`.
pub open spec fn entry_of(entries: Seq<(Seq<char>, JsonModel)>, key: Seq<char>) -> Option<JsonModel>
    decreases entries.len(),
{
    if entries.len() == 0 {
        None
    } else if entries[0].0 == key {
        Some(entries[0].1)
    } else {
        entry_of(entries.skip(1), key)
    }
}

/// Whether no object in `json`, at whatever depth, has two members with one key.
pub open spec fn has_distinct_keys(json: JsonModel) -> bool
    decreases json,
{
    match json {
        JsonModel::Array(items) => forall|i: int|
            0 <= i < items.len() ==> has_distinct_keys(#[trigger] items[i]),
        JsonModel::Object(entries) => {
            &&& forall|i: int, j: int|
                0 <= i < j < entries.len() ==> (#[trigger] entries[i]).0 != (
                #[trigger] entries[j]).0
            &&& forall|i: int|
                0 <= i < entries.len() ==> has_distinct_keys((#[trigger] entries[i]).1)
        },
        _ => true,
    }
}

impl JsonModel {
    /// The member `key` of an object.
    pub open spec fn get(self, key: Seq<char>) -> Option<JsonModel> {
        match self {
            JsonModel::Object(entries) => entry_of(entries, key),
            _ => None,
        }
    }

    /// The characters of a text.
    pub open spec fn as_str(self) -> Option<Seq<char>> {
        match self {
            JsonModel::Text(s) => Some(s),
            _ => None,
        }
    }

    /// The value of a number that is an unsigned integer of 64 bits.
    pub open spec fn as_u64(self) -> Option<u64> {
        match self {
            JsonModel::Number(n) => n,
            _ => None,
        }
    }
}

impl Json {
    /// The member `key` of an object.
    pub fn get(&self, key: &str) -> (r: Option<&Json>)
        ensures
            r.deep_view() == self.deep_view().get(key@),
    {
        match self {
            Json::Object(entries) => {
                let ghost all = self.deep_view()->Object_0;
                let mut i: usize = 0;
                assert(all.skip(0) =~= all);
                while i < entries.len()
                    invariant
                        i <= entries@.len(),
                        self.deep_view() == JsonModel::Object(all),
                        all.len() == entries@.len(),
                        forall|j: int|
                            0 <= j < all.len() ==> #[trigger] all[j] == (
                                entries@[j].0@,
                                json_model(entries@[j].1),
                            ),
                        entry_of(all, key@) == entry_of(all.skip(i as int), key@),
                    decreases entries@.len() - i,
                {
                    let ghost rest = all.skip(i as int);
                    assert(rest[0] == all[i as int]);
                    if same(entries[i].0.as_str(), key) {
                        return Some(&entries[i].1);
                    }
                    assert(rest.skip(1) =~= all.skip(i + 1));
                    i = i + 1;
                }
                None
            },
            _ => None,
        }
    }

    /// The characters of a text.
    pub fn as_str(&self) -> (r: Option<&String>)
        ensures
            r.deep_view() == self.deep_view().as_str(),
    {
        match self {
            Json::Text(s) => Some(s),
            _ => None,
        }
    }

    /// The value of a number that is an unsigned integer of 64 bits.
    pub fn as_u64(&self) -> (r: Option<u64>)
        ensures
            r == self.deep_view().as_u64(),
    {
        match self {
            Json::Number(n) => *n,
            _ => None,
        }
    }
}

/// Where no object in a document has two members with one key, none in a member
/// of it has.
pub proof fn law_members_have_distinct_keys(json: JsonModel, key: Seq<char>)
    requires
        has_distinct_keys(json),
    ensures
        json.get(key) matches Some(member) ==> has_distinct_keys(member),
{
    match json {
        JsonModel::Object(entries) => lemma_entry_has_distinct_keys(entries, key),
        _ => {},
    }
}

proof fn lemma_entry_has_distinct_keys(entries: Seq<(Seq<char>, JsonModel)>, key: Seq<char>)
    requires
        forall|i: int| 0 <= i < entries.len() ==> has_distinct_keys((#[trigger] entries[i]).1),
    ensures
        entry_of(entries, key) matches Some(member) ==> has_distinct_keys(member),
    decreases entries.len(),
{
    if entries.len() > 0 && entries[0].0 != key {
        let rest = entries.skip(1);
        assert forall|i: int| 0 <= i < rest.len() implies has_distinct_keys(
            (#[trigger] rest[i]).1,
        ) by {
            assert(rest[i] == entries[i + 1]);
        }
        lemma_entry_has_distinct_keys(rest, key);
    }
}

// ---------------------------------------------------------------------------
// Reading
// ---------------------------------------------------------------------------

/// `serde_json::Value`, a parsed document.
#[verifier::external_type_specification]
#[verifier::external_body]
pub struct ExValue(serde_json::Value);

/// `serde_json::Error`, why a text is no document.
#[verifier::external_type_specification]
#[verifier::external_body]
pub struct ExError(serde_json::Error);

/// What a parsed document holds.
pub uninterp spec fn json_of(value: serde_json::Value) -> JsonModel;

/// What the document in `text` says, where `text` is one.
pub uninterp spec fn parsed_json(text: Seq<char>) -> Option<JsonModel>;

/// Calls `serde_json::from_str`, which reads one JSON document out of a text
/// and fails where the text is none. Which texts are documents, and what they
/// say, is what `parsed_json` names.
#[verifier::external_body]
fn parse_value(text: &str) -> (r: Result<serde_json::Value, serde_json::Error>)
    ensures
        r is Ok <==> parsed_json(text@) is Some,
        r matches Ok(value) ==> parsed_json(text@) == Some(json_of(value)),
{
    serde_json::from_str::<serde_json::Value>(text)
}

/// A parsed document with its outermost layer opened.
enum Layer {
    Null,
    Bool(bool),
    Number(Option<u64>),
    Text(String),
    Array(Vec<serde_json::Value>),
    Object(Vec<(String, serde_json::Value)>),
}

spec fn layer_model(layer: Layer) -> JsonModel {
    match layer {
        Layer::Null => JsonModel::Null,
        Layer::Bool(b) => JsonModel::Bool(b),
        Layer::Number(n) => JsonModel::Number(n),
        Layer::Text(s) => JsonModel::Text(s@),
        Layer::Array(items) => JsonModel::Array(
            Seq::new(items@.len(), |i: int| json_of(items@[i])),
        ),
        Layer::Object(entries) => JsonModel::Object(
            Seq::new(entries@.len(), |i: int| (entries@[i].0@, json_of(entries@[i].1))),
        ),
    }
}

/// Takes a `serde_json::Value` apart, one layer deep: its variant, and the
/// values that the variant holds. A number is read with
/// `serde_json::Number::as_u64`; the members of an object come in the order of
/// its `into_iter`, and no two of them have the same key.
#[verifier::external_body]
fn open_value(value: serde_json::Value) -> (r: Layer)
    ensures
        layer_model(r) == json_of(value),
        r matches Layer::Object(entries) ==> forall|i: int, j: int|
            0 <= i < j < entries@.len() ==> entries@[i].0@ != entries@[j].0@,
{
    match value {
        serde_json::Value::Null => Layer::Null,
        serde_json::Value::Bool(b) => Layer::Bool(b),
        serde_json::Value::Number(n) => Layer::Number(n.as_u64()),
        serde_json::Value::String(s) => Layer::Text(s),
        serde_json::Value::Array(items) => Layer::Array(items),
        serde_json::Value::Object(map) => Layer::Object(map.into_iter().collect()),
    }
}

fn from_value(value: serde_json::Value) -> (r: Json)
    ensures
        r.deep_view() == json_of(value),
        has_distinct_keys(r.deep_view()),
    decreases json_of(value),
{
    let ghost whole = json_of(value);
    match open_value(value) {
        Layer::Null => Json::Null,
        Layer::Bool(b) => Json::Bool(b),
        Layer::Number(n) => Json::Number(n),
        Layer::Text(s) => Json::Text(s),
        Layer::Array(items) => {
            let ghost models = whole->Array_0;
            let mut out: Vec<Json> = Vec::new();
            for item in it: items
                invariant
                    it.seq() == items@,
                    models.len() == items@.len(),
                    forall|j: int|
                        0 <= j < models.len() ==> #[trigger] models[j] == json_of(items@[j]),
                    whole == JsonModel::Array(models),
                    whole == json_of(value),
                    out@.len() == it.index(),
                    forall|j: int|
                        0 <= j < out@.len() ==> json_model(#[trigger] out@[j]) == models[j]
                            && has_distinct_keys(models[j]),
            {
                assert(models[it.index() as int] == json_of(item));
                assert(decreases_to!(models => models[it.index() as int]));
                assert(decreases_to!(whole => whole->Array_0));
                out.push(from_value(item));
            }
            let r = Json::Array(out);
            assert(r.deep_view()->Array_0 =~= models);
            r
        },
        Layer::Object(entries) => {
            let ghost models = whole->Object_0;
            let mut out: Vec<(String, Json)> = Vec::new();
            for entry in it: entries
                invariant
                    it.seq() == entries@,
                    models.len() == entries@.len(),
                    forall|j: int|
                        0 <= j < models.len() ==> #[trigger] models[j] == (
                            entries@[j].0@,
                            json_of(entries@[j].1),
                        ),
                    whole == JsonModel::Object(models),
                    whole == json_of(value),
                    out@.len() == it.index(),
                    forall|j: int|
                        0 <= j < out@.len() ==> ((#[trigger] out@[j]).0@, json_model(out@[j].1))
                            == models[j] && has_distinct_keys(models[j].1),
            {
                assert(models[it.index() as int] == (entry.0@, json_of(entry.1)));
                assert(decreases_to!(models => models[it.index() as int]));
                assert(decreases_to!(whole => whole->Object_0));
                assert(decreases_to!(models[it.index() as int] => models[it.index() as int].1));
                out.push((entry.0, from_value(entry.1)));
            }
            let r = Json::Object(out);
            assert(r.deep_view()->Object_0 =~= models);
            r
        },
    }
}

/// Reads the JSON document in `text`. No object in it has two members with one
/// key.
pub fn parse_json(text: &str) -> (r: Option<Json>)
    ensures
        r.deep_view() == parsed_json(text@),
        r matches Some(document) ==> has_distinct_keys(document.deep_view()),
{
    match parse_value(text) {
        Ok(value) => Some(from_value(value)),
        Err(_) => None,
    }
}

/// A member of an object is found by its key, wherever it stands, the first where
/// several have that key; what is not in an object is not found, and nothing but
/// an object has members.
pub proof fn law_members_are_found_by_key(json: JsonModel, key: Seq<char>, i: int)
    ensures
        match json {
            JsonModel::Object(entries) => {
                &&& 0 <= i < entries.len() && entries[i].0 == key && (forall|j: int|
                    0 <= j < i ==> (#[trigger] entries[j]).0 != key) ==> json.get(key) == Some(
                    entries[i].1,
                )
                &&& (forall|j: int| 0 <= j < entries.len() ==> (#[trigger] entries[j]).0 != key)
                    ==> json.get(key) is None
            },
            _ => json.get(key) is None,
        },
{
    match json {
        JsonModel::Object(entries) => {
            if 0 <= i < entries.len() && entries[i].0 == key && (forall|j: int|
                0 <= j < i ==> (#[trigger] entries[j]).0 != key) {
                lemma_entry_is_found(entries, i);
            }
            if forall|j: int| 0 <= j < entries.len() ==> (#[trigger] entries[j]).0 != key {
                lemma_entry_is_missing(entries, key);
            }
        },
        _ => {},
    }
}

proof fn lemma_entry_is_found(entries: Seq<(Seq<char>, JsonModel)>, i: int)
    requires
        0 <= i < entries.len(),
        forall|j: int| 0 <= j < i ==> (#[trigger] entries[j]).0 != entries[i].0,
    ensures
        entry_of(entries, entries[i].0) == Some(entries[i].1),
    decreases entries.len(),
{
    if i > 0 {
        let rest = entries.skip(1);
        assert(rest[i - 1] == entries[i]);
        assert(entries[0].0 != entries[i].0);
        assert forall|j: int| 0 <= j < i - 1 implies (#[trigger] rest[j]).0 != rest[i - 1].0 by {
            assert(rest[j] == entries[j + 1]);
        }
        lemma_entry_is_found(rest, i - 1);
    }
}

proof fn lemma_entry_is_missing(entries: Seq<(Seq<char>, JsonModel)>, key: Seq<char>)
    requires
        forall|j: int| 0 <= j < entries.len() ==> (#[trigger] entries[j]).0 != key,
    ensures
        entry_of(entries, key) is None,
    decreases entries.len(),
{
    if entries.len() > 0 {
        let rest = entries.skip(1);
        assert forall|j: int| 0 <= j < rest.len() implies (#[trigger] rest[j]).0 != key by {
            assert(rest[j] == entries[j + 1]);
        }
        assert(entries[0].0 != key);
        lemma_entry_is_missing(rest, key);
    }
}

/// A text reads as its characters and a number as its value; nothing else reads
/// as either.
pub proof fn law_texts_and_numbers_are_told_apart(json: JsonModel)
    ensures
        json.as_str() == (if json is Text {
            Some(json->Text_0)
        } else {
            None
        }),
        json.as_u64() == (if json is Number {
            json->Number_0
        } else {
            None
        }),
{
}

/// What is known of a document is what it holds: each item in its place, and each
/// member under its key.
pub proof fn law_documents_are_known_part_by_part(json: Json, i: int)
    ensures
        match json {
            Json::Null => json.deep_view() is Null,
            Json::Bool(b) => json.deep_view() == JsonModel::Bool(b),
            Json::Number(n) => json.deep_view() == JsonModel::Number(n),
            Json::Text(text) => json.deep_view() == JsonModel::Text(text@),
            Json::Array(items) => json.deep_view() matches JsonModel::Array(parts) && parts.len()
                == items@.len() && (0 <= i < parts.len() ==> parts[i] == items@[i].deep_view()),
            Json::Object(members) => json.deep_view() matches JsonModel::Object(parts)
                && parts.len() == members@.len() && (0 <= i < parts.len() ==> parts[i].0
                == members@[i].0@ && parts[i].1 == members@[i].1.deep_view()),
        },
{
}

/// A member that is asked for by its key is given as it is in the document; a text
/// reads as itself, a number as its value, and nothing else as either.
pub proof fn law_members_are_given_by_key(
    json: &Json,
    key: &str,
    i: int,
    member: Option<&Json>,
    text: Option<&String>,
    number: Option<u64>,
)
    requires
        call_ensures(Json::get, (json, key), member),
        call_ensures(Json::as_str, (json,), text),
        call_ensures(Json::as_u64, (json,), number),
    ensures
        match json {
            Json::Object(members) => {
                &&& 0 <= i < members@.len() && members@[i].0@ == key@ && (forall|j: int|
                    0 <= j < i ==> (#[trigger] members@[j]).0@ != key@) ==> member is Some
                    && member->0.deep_view() == members@[i].1.deep_view()
                &&& (forall|j: int| 0 <= j < members@.len() ==> (#[trigger] members@[j]).0@ != key@)
                    ==> member is None
            },
            _ => member is None,
        },
        text is Some <==> *json is Text,
        text is Some ==> text->0@ == json->Text_0@,
        number == (if *json is Number {
            json->Number_0
        } else {
            None
        }),
{
    law_members_are_found_by_key(json.deep_view(), key@, i);
    law_texts_and_numbers_are_told_apart(json.deep_view());
    match json {
        Json::Object(members) => {
            let parts = json.deep_view()->Object_0;
            assert forall|j: int| 0 <= j < parts.len() implies (#[trigger] parts[j]).0
                == members@[j].0@ by {}
            if 0 <= i < members@.len() && members@[i].0@ == key@ && (forall|j: int|
                0 <= j < i ==> (#[trigger] members@[j]).0@ != key@) {
                assert forall|j: int| 0 <= j < i implies (#[trigger] parts[j]).0 != key@ by {
                    assert(members@[j].0@ != key@);
                }
            }
            if forall|j: int| 0 <= j < members@.len() ==> (#[trigger] members@[j]).0@ != key@ {
                assert forall|j: int| 0 <= j < parts.len() implies (#[trigger] parts[j]).0
                    != key@ by {
                    assert(members@[j].0@ != key@);
                }
            }
        },
        _ => {},
    }
}

}
