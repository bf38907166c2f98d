//! The bridge to `serde_json`.
use crate::json::{self, Json, JsonModel, JsonNumber, Members, NumberModel};
use serde_json::Value;
use vstd::prelude::*;

verus! {

/// A value of `serde_json`.
#[verifier::external_type_specification]
#[verifier::external_body]
pub struct ExValue(serde_json::Value);

/// Why `serde_json` could not read a text.
#[verifier::external_type_specification]
#[verifier::external_body]
pub struct ExError(serde_json::Error);

/// What a value of `serde_json` holds. A float stands there by its JSON text.
pub uninterp spec fn value_model(value: serde_json::Value) -> JsonModel;

/// What `serde_json::from_str` reads from a text, or nothing where it fails.
pub uninterp spec fn json_of_text(text: Seq<char>) -> Option<JsonModel>;

/// What `Value::to_string` writes for a value.
pub uninterp spec fn text_of_json(json: JsonModel) -> Seq<char>;

/// The JSON text of the float that a decimal text stands for, or nothing where the text stands
/// for no finite float.
pub uninterp spec fn float_of_text(text: Seq<char>) -> Option<Seq<char>>;

/// What the items of an array hold.
pub open spec fn item_models(items: Seq<Value>) -> Seq<JsonModel> {
    Seq::new(items.len(), |i: int| value_model(items[i]))
}

/// What borrowed members of an object hold.
pub open spec fn entry_models(entries: Seq<(&String, &Value)>) -> Seq<(Seq<char>, JsonModel)> {
    Seq::new(entries.len(), |i: int| (entries[i].0@, value_model(*entries[i].1)))
}

/// What owned members of an object hold.
pub open spec fn owned_models(entries: Seq<(String, Value)>) -> Seq<(Seq<char>, JsonModel)> {
    Seq::new(entries.len(), |i: int| (entries[i].0@, value_model(entries[i].1)))
}

/// `Value::as_str` gives the characters of a string, and nothing for another value.
pub assume_specification[ Value::as_str ](value: &Value) -> (r: Option<&str>)
    ensures
        (match r {
            Some(text) => value_model(*value) == JsonModel::String(text@),
            None => !(value_model(*value) is String),
        }),
;

/// `Value::as_bool` gives the value of a boolean, and nothing for another value.
pub assume_specification[ Value::as_bool ](value: &Value) -> (r: Option<bool>)
    ensures
        (match r {
            Some(b) => value_model(*value) == JsonModel::Bool(b),
            None => !(value_model(*value) is Bool),
        }),
;

/// `Value::as_u64` gives every integer that is not negative, and nothing for another value: a
/// number of `serde_json` holds no integer above `u64::MAX`.
pub assume_specification[ Value::as_u64 ](value: &Value) -> (r: Option<u64>)
    ensures
        (match r {
            Some(n) => value_model(*value) == JsonModel::Number(NumberModel::Int(n as int)),
            None => !(value_model(*value) matches JsonModel::Number(NumberModel::Int(n))
                && n >= 0),
        }),
;

/// `Value::as_i64` gives every integer up to `i64::MAX`, and nothing for another value: a number
/// of `serde_json` holds no integer below `i64::MIN`.
pub assume_specification[ Value::as_i64 ](value: &Value) -> (r: Option<i64>)
    ensures
        (match r {
            Some(n) => value_model(*value) == JsonModel::Number(NumberModel::Int(n as int)),
            None => !(value_model(*value) matches JsonModel::Number(NumberModel::Int(n))
                && n <= i64::MAX),
        }),
;

/// `Value::is_number` tells numbers from other values.
pub assume_specification[ Value::is_number ](value: &Value) -> (r: bool)
    ensures
        r == (value_model(*value) is Number),
;

/// `Value::as_array` gives the items of an array in their order, and nothing for another value.
pub assume_specification[ Value::as_array ](value: &Value) -> (r: Option<&Vec<Value>>)
    ensures
        (match r {
            Some(items) => value_model(*value) == JsonModel::Array(item_models(items@)),
            None => !(value_model(*value) is Array),
        }),
;

/// Calls `Value::as_object` and lists the members of the map: each key once, with its value.
/// Nothing for another value. In which order the members come is left open.
#[verifier::external_body]
fn object_entries(value: &Value) -> (r: Option<Vec<(&String, &Value)>>)
    ensures
        (match r {
            Some(entries) => value_model(*value) == JsonModel::Object(
                json::member_map(entry_models(entries@)),
            ) && json::distinct_keys(entry_models(entries@)),
            None => !(value_model(*value) is Object),
        }),
{
    value.as_object().map(|members| members.iter().collect())
}

/// Calls `serde_json::from_str` for a `Value`: it fails exactly where `json_of_text` names
/// nothing, and else gives a value that holds what it names.
#[verifier::external_body]
fn parse_value(text: &str) -> (r: Result<Value, serde_json::Error>)
    ensures
        (match r {
            Ok(value) => json_of_text(text@) == Some(value_model(value)),
            Err(_) => json_of_text(text@) is None,
        }),
{
    serde_json::from_str(text)
}

/// Calls `Value::to_string`: the compact JSON text, with the members of an object sorted by their
/// keys. It depends on what the value holds and on nothing else. Of a float it is the shortest
/// text that reads back as that float, so reading and writing it once more changes nothing.
#[verifier::external_body]
fn value_to_text(value: &Value) -> (r: String)
    ensures
        r@ == text_of_json(value_model(*value)),
        value_model(*value) matches JsonModel::Number(NumberModel::Float(text)) ==> r@ == text
            && float_of_text(r@) == Some(r@),
{
    value.to_string()
}

/// Calls `str::parse` for a float and `Number::from_f64`: a text of a finite float becomes that
/// float, any other text nothing.
#[verifier::external_body]
fn float_value(text: &str) -> (r: Option<Value>)
    ensures
        (match r {
            Some(value) => float_of_text(text@) is Some && value_model(value) == JsonModel::Number(
                NumberModel::Float(float_of_text(text@)->0),
            ),
            None => float_of_text(text@) is None,
        }),
{
    text.parse().ok().and_then(serde_json::Number::from_f64).map(Value::Number)
}

/// The parts of which a value of `serde_json` is built.
enum Part {
    Null,
    Bool(bool),
    Unsigned(u64),
    Signed(i64),
    String(String),
    Array(Vec<Value>),
    Object(Vec<(String, Value)>),
}

/// What a part makes.
spec fn part_model(part: Part) -> JsonModel {
    match part {
        Part::Null => JsonModel::Null,
        Part::Bool(b) => JsonModel::Bool(b),
        Part::Unsigned(n) => JsonModel::Number(NumberModel::Int(n as int)),
        Part::Signed(n) => JsonModel::Number(NumberModel::Int(n as int)),
        Part::String(text) => JsonModel::String(text@),
        Part::Array(items) => JsonModel::Array(item_models(items@)),
        Part::Object(members) => JsonModel::Object(json::member_map(owned_models(members@))),
    }
}

/// Calls the constructor of `Value` that fits the part. Members, no two of them with one key, are
/// collected into the map of `serde_json`, which then holds all of them.
#[verifier::external_body]
fn build_value(part: Part) -> (r: Value)
    requires
        part matches Part::Object(members) ==> json::distinct_keys(owned_models(members@)),
    ensures
        value_model(r) == part_model(part),
{
    match part {
        Part::Null => Value::Null,
        Part::Bool(b) => Value::Bool(b),
        Part::Unsigned(n) => Value::from(n),
        Part::Signed(n) => Value::from(n),
        Part::String(text) => Value::String(text),
        Part::Array(items) => Value::Array(items),
        Part::Object(members) => Value::Object(members.into_iter().collect()),
    }
}

/// Reads a value of `serde_json`, which is written as it was read.
fn read_value(value: &Value) -> (r: Json)
    ensures
        r@ == value_model(*value),
        json::canonical(r@) == r@,
    decreases value_model(*value),
{
    if let Some(text) = value.as_str() {
        return Json::String(text.to_owned());
    }
    if let Some(b) = value.as_bool() {
        return Json::Bool(b);
    }
    if let Some(n) = value.as_u64() {
        return Json::Number(JsonNumber::Unsigned(n));
    }
    if let Some(n) = value.as_i64() {
        return Json::Number(JsonNumber::Signed(n));
    }
    if value.is_number() {
        return Json::Number(JsonNumber::Float(value_to_text(value)));
    }
    if let Some(items) = value.as_array() {
        let mut read: Vec<Json> = Vec::new();
        let mut i: usize = 0;
        while i < items.len()
            invariant
                value_model(*value) == JsonModel::Array(item_models(items@)),
                i <= items.len(),
                read@.len() == i,
                forall|j: int|
                    0 <= j < i ==> (#[trigger] read@[j])@ == value_model(items@[j])
                        && json::canonical(read@[j]@) == read@[j]@,
            decreases items.len() - i,
        {
            proof {
                let models = item_models(items@);
                assert(decreases_to!(value_model(*value) => value_model(*value)->Array_0));
                assert(decreases_to!(models => models[i as int]));
            }
            read.push(read_value(&items[i]));
            i += 1;
        }
        assert(Json::Array(read)@->Array_0 =~= item_models(items@));
        assert(json::canonical(Json::Array(read)@)->Array_0 =~= item_models(items@));
        return Json::Array(read);
    }
    if let Some(entries) = object_entries(value) {
        let ghost models = entry_models(entries@);
        let mut read: Vec<(String, Json)> = Vec::new();
        let mut i: usize = 0;
        while i < entries.len()
            invariant
                models == entry_models(entries@),
                value_model(*value) == JsonModel::Object(json::member_map(models)),
                json::distinct_keys(models),
                i <= entries.len(),
                read@.len() == i,
                forall|j: int|
                    0 <= j < i ==> (#[trigger] read@[j]).0@ == models[j].0 && read@[j].1@
                        == models[j].1 && json::canonical(models[j].1) == models[j].1,
            decreases entries.len() - i,
        {
            let entry = entries[i];
            proof {
                json::member_map_holds_its_list(models);
                assert(models[i as int] == (entry.0@, value_model(*entry.1)));
                assert(decreases_to!(value_model(*value) => value_model(*value)->Object_0[entry.0@]));
            }
            read.push((entry.0.clone(), read_value(entry.1)));
            i += 1;
        }
        proof {
            assert forall|j: int, k: int| 0 <= j < k < read@.len() implies (#[trigger] read@[j]).0@
                != (#[trigger] read@[k]).0@ by {
                assert(models[j].0 != models[k].0);
            }
        }
        let members = Members { entries: read };
        assert(members.list() =~= models);
        proof {
            canonical_of_members(models, models);
        }
        return Json::Object(members);
    }
    Json::Null
}

/// Writing what a list of members makes is making it of what is written.
proof fn canonical_of_members(
    list: Seq<(Seq<char>, JsonModel)>,
    written: Seq<(Seq<char>, JsonModel)>,
)
    requires
        list.len() == written.len(),
        forall|i: int|
            0 <= i < list.len() ==> (#[trigger] written[i]) == (list[i].0, json::canonical(list[i].1)),
    ensures
        JsonModel::Object(json::member_map(written)) == json::canonical(
            JsonModel::Object(json::member_map(list)),
        ),
    decreases list.len(),
{
    if list.len() > 0 {
        let front = list.drop_last();
        let front_written = written.drop_last();
        assert forall|i: int| 0 <= i < front.len() implies (#[trigger] front_written[i]) == (
            front[i].0,
            json::canonical(front[i].1),
        ) by {
            assert(written[i] == front_written[i]);
        }
        canonical_of_members(front, front_written);
        assert(written[list.len() - 1] == (list.last().0, json::canonical(list.last().1)));
    }
    assert(json::member_map(written) =~= json::canonical(
        JsonModel::Object(json::member_map(list)),
    )->Object_0);
}

/// Builds the value of `serde_json` that is written for a JSON value.
fn write_value(json: &Json) -> (r: Value)
    ensures
        value_model(r) == json::canonical(json@),
    decreases json,
{
    match json {
        Json::Null => build_value(Part::Null),
        Json::Bool(b) => build_value(Part::Bool(*b)),
        Json::Number(JsonNumber::Unsigned(n)) => build_value(Part::Unsigned(*n)),
        Json::Number(JsonNumber::Signed(n)) => build_value(Part::Signed(*n)),
        Json::Number(JsonNumber::Float(text)) => match float_value(text.as_str()) {
            Some(value) => value,
            None => build_value(Part::Null),
        },
        Json::String(text) => build_value(Part::String(text.clone())),
        Json::Array(items) => {
            let mut written: Vec<Value> = Vec::new();
            let mut i: usize = 0;
            while i < items.len()
                invariant
                    *json is Array,
                    json->Array_0 == *items,
                    i <= items.len(),
                    written@.len() == i,
                    forall|j: int|
                        0 <= j < i ==> value_model(#[trigger] written@[j]) == json::canonical(
                            items@[j]@,
                        ),
                decreases items.len() - i,
            {
                proof {
                    assert(decreases_to!(json => json->Array_0));
                    assert(decreases_to!(items => items@));
                    assert(decreases_to!(items@ => items@[i as int]));
                }
                written.push(write_value(&items[i]));
                i += 1;
            }
            assert(item_models(written@) =~= json::canonical(json@)->Array_0);
            build_value(Part::Array(written))
        },
        Json::Object(members) => {
            let mut written: Vec<(String, Value)> = Vec::new();
            let mut i: usize = 0;
            while i < members.entries.len()
                invariant
                    *json is Object,
                    json->Object_0 == *members,
                    i <= members.entries.len(),
                    written@.len() == i,
                    forall|j: int|
                        0 <= j < i ==> (#[trigger] written@[j]).0@ == members.entries@[j].0@
                            && value_model(written@[j].1) == json::canonical(members.entries@[j].1@),
                decreases members.entries.len() - i,
            {
                let entry = &members.entries[i];
                proof {
                    assert(decreases_to!(json => json->Object_0));
                    assert(decreases_to!(members => members.entries));
                    assert(decreases_to!(members.entries => members.entries@));
                    assert(decreases_to!(members.entries@ => members.entries@[i as int]));
                    assert(decreases_to!(entry => entry.1));
                }
                written.push((entry.0.clone(), write_value(&entry.1)));
                i += 1;
            }
            proof {
                canonical_of_members(members.list(), owned_models(written@));
                use_type_invariant(members);
                let models = owned_models(written@);
                assert forall|j: int, k: int| 0 <= j < k < models.len() implies (
                #[trigger] models[j]).0 != (#[trigger] models[k]).0 by {
                    assert(written@[j].0@ == members.entries@[j].0@);
                    assert(written@[k].0@ == members.entries@[k].0@);
                }
            }
            build_value(Part::Object(written))
        },
    }
}

/// The text is not JSON.
#[derive(Clone, Copy, Debug, PartialEq, Eq, Structural)]
pub struct BadJson;

impl Json {
    /// Reads a JSON text. What was read is written as it was read.
    pub fn parse(text: &str) -> (r: Result<Json, BadJson>)
        ensures
            (match r {
                Ok(json) => json_of_text(text@) == Some(json@) && json::canonical(json@) == json@,
                Err(_) => json_of_text(text@) is None,
            }),
    {
        match parse_value(text) {
            Ok(value) => Ok(read_value(&value)),
            Err(_) => Err(BadJson),
        }
    }

    /// Writes the value as JSON text.
    pub fn to_text(&self) -> (r: String)
        ensures
            r@ == json::json_text(self@),
    {
        let value = write_value(self);
        value_to_text(&value)
    }
}

} // verus!
