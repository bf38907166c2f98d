//! What holds of reading and writing JSON values.
use crate::json::{self, Json, JsonModel, JsonNumber, NumberModel};
use crate::text;
use vstd::prelude::*;

verus! {

/// Each kind of value is read as what it is, and as nothing else.
pub proof fn each_kind_is_read_as_itself(
    b: bool,
    s: Seq<char>,
    items: Seq<JsonModel>,
    members: Map<Seq<char>, JsonModel>,
    value: JsonModel,
)
    ensures
        JsonModel::Bool(b).boolean() == Some(b),
        JsonModel::String(s).string() == Some(s),
        JsonModel::Object(members).members() == Some(members),
        value.boolean() is Some <==> value is Bool,
        value.string() is Some <==> value is String,
        value.members() is Some <==> value is Object,
        value.number_text() is Some <==> value is Number,
        value.unsigned() is Some ==> value is Number,
        value.signed() is Some ==> value is Number,
{
}

/// Integers are read as they are wherever they fit, and floats are read as no integer.
pub proof fn integers_are_read_where_they_fit(n: int, s: Seq<char>)
    ensures
        ({
            let integer = JsonModel::Number(NumberModel::Int(n));
            let float = JsonModel::Number(NumberModel::Float(s));
            &&& integer.unsigned() is Some <==> 0 <= n <= 0xffff_ffff_ffff_ffff
            &&& integer.unsigned() matches Some(m) ==> m == n
            &&& integer.signed() is Some <==> -0x8000_0000_0000_0000 <= n
                <= 0x7fff_ffff_ffff_ffff
            &&& integer.signed() matches Some(m) ==> m == n
            &&& integer.number_text() == Some(text::integer_text(n))
            &&& float.unsigned() is None && float.signed() is None
            &&& float.number_text() == Some(s)
        }),
{
}

/// The member of an object under a key is what the object holds there; other values have no
/// members, and a member is read as a string only if it is one.
pub proof fn members_are_read_by_their_keys(
    members: Map<Seq<char>, JsonModel>,
    key: Seq<char>,
    other: JsonModel,
)
    ensures
        members.contains_key(key) ==> JsonModel::Object(members).member(key) == Some(members[key]),
        !members.contains_key(key) ==> JsonModel::Object(members).member(key) is None,
        !(other is Object) ==> other.member(key) is None && other.member_string(key) is None,
        JsonModel::Object(members).member_string(key) == if members.contains_key(key) {
            members[key].string()
        } else {
            None
        },
{
}

/// What a value in memory is.
pub proof fn values_are_what_they_hold(b: bool, u: u64, i: i64, s: String, items: Vec<Json>)
    ensures
        Json::Null@ == JsonModel::Null,
        Json::Bool(b)@ == JsonModel::Bool(b),
        Json::Number(JsonNumber::Unsigned(u))@ == JsonModel::Number(NumberModel::Int(u as int)),
        Json::Number(JsonNumber::Signed(i))@ == JsonModel::Number(NumberModel::Int(i as int)),
        Json::Number(JsonNumber::Float(s))@ == JsonModel::Number(NumberModel::Float(s@)),
        Json::String(s)@ == JsonModel::String(s@),
        Json::Array(items)@ is Array,
        Json::Array(items)@->Array_0.len() == items@.len(),
        forall|k: int|
            0 <= k < items@.len() ==> (#[trigger] Json::Array(items)@->Array_0[k]) == items@[k]@,
{
}

/// Writing a value changes nothing but its floats, at any depth: each of them is written as the
/// float that its text stands for, and as `null` where it stands for none.
pub proof fn writing_changes_only_floats(
    b: bool,
    n: int,
    s: Seq<char>,
    items: Seq<JsonModel>,
    members: Map<Seq<char>, JsonModel>,
)
    ensures
        json::canonical(JsonModel::Null) == JsonModel::Null,
        json::canonical(JsonModel::Bool(b)) == JsonModel::Bool(b),
        json::canonical(JsonModel::String(s)) == JsonModel::String(s),
        json::canonical(JsonModel::Number(NumberModel::Int(n))) == JsonModel::Number(
            NumberModel::Int(n),
        ),
        json::canonical(JsonModel::Number(NumberModel::Float(s)))
            == match json::value::float_of_text(s) {
            Some(written) => JsonModel::Number(NumberModel::Float(written)),
            None => JsonModel::Null,
        },
        json::canonical(JsonModel::Array(items)) is Array,
        json::canonical(JsonModel::Array(items))->Array_0.len() == items.len(),
        forall|k: int|
            0 <= k < items.len() ==> (#[trigger] json::canonical(
                JsonModel::Array(items),
            )->Array_0[k]) == json::canonical(items[k]),
        json::canonical(JsonModel::Object(members)) is Object,
        json::canonical(JsonModel::Object(members))->Object_0.dom() == members.dom(),
        forall|key: Seq<char>|
            members.contains_key(key) ==> (#[trigger] json::canonical(
                JsonModel::Object(members),
            )->Object_0[key]) == json::canonical(members[key]),
        forall|value: JsonModel|
            #[trigger] json::json_text(value) == json::value::text_of_json(json::canonical(value)),
{
    assert(json::canonical(JsonModel::Object(members))->Object_0.dom() =~= members.dom());
}

/// An object keeps what is added to it under its key, and what it held under other keys; of two
/// values that are added under one key it keeps the later one.
pub proof fn an_object_keeps_what_is_added(
    list: Seq<(Seq<char>, JsonModel)>,
    key: Seq<char>,
    value: JsonModel,
    other: Seq<char>,
)
    ensures
        json::member_map(list.push((key, value))).contains_key(key),
        json::member_map(list.push((key, value)))[key] == value,
        other != key ==> (json::member_map(list.push((key, value))).contains_key(other)
            <==> json::member_map(list).contains_key(other)),
        other != key && json::member_map(list).contains_key(other) ==> json::member_map(
            list.push((key, value)),
        )[other] == json::member_map(list)[other],
{
    assert(list.push((key, value)).drop_last() =~= list);
}

} // verus!
