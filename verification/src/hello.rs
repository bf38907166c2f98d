//! The greeting with which the game introduces itself to the hub.
use crate::json::{Json, JsonModel, Members, NumberModel};
use vstd::prelude::*;

pub mod laws;

verus! {

/// A field of the configuration page: its key, its type, its label and its default.
pub open spec fn field_members(
    key: Seq<char>,
    kind: Seq<char>,
    label: Seq<char>,
    default: JsonModel,
) -> Map<Seq<char>, JsonModel> {
    map![
        "key"@ => JsonModel::String(key),
        "type"@ => JsonModel::String(kind),
        "label"@ => JsonModel::String(label),
        "default"@ => default,
    ]
}

/// A field of the configuration page with nothing more to it.
pub open spec fn field_model(
    key: Seq<char>,
    kind: Seq<char>,
    label: Seq<char>,
    default: JsonModel,
) -> JsonModel {
    JsonModel::Object(field_members(key, kind, label, default))
}

/// A section of the configuration page.
pub open spec fn section_model(title: Seq<char>, fields: Seq<JsonModel>) -> JsonModel {
    JsonModel::Object(
        map![
            "section"@ => JsonModel::String(title),
            "fields"@ => JsonModel::Array(fields),
        ],
    )
}

/// The fields that concern all grades.
pub open spec fn general_fields() -> Seq<JsonModel> {
    seq![
        JsonModel::Object(
            field_members("github_url"@, "text"@, "GitHub 链接"@, JsonModel::String("https://github.com/pingfanH/phigrab"@))
                .insert("description"@, JsonModel::String("仅展示，可复制"@)),
        ),
        field_model("channel"@, "channel"@, "输出通道"@, JsonModel::String("both"@)),
        JsonModel::Object(
            field_members("throttle_ms"@, "number"@, "节流(ms)"@, JsonModel::Number(NumberModel::Int(80)))
                .insert("min"@, JsonModel::Number(NumberModel::Int(0)))
                .insert("max"@, JsonModel::Number(NumberModel::Int(1000)))
                .insert("description"@, JsonModel::String("同一判定档在该间隔内多次命中只触发一次"@)),
        ),
    ]
}

/// The fields of bad hits.
pub open spec fn bad_fields() -> Seq<JsonModel> {
    seq![
        field_model("bad_enable"@, "bool"@, "Bad 触发"@, JsonModel::Bool(true)),
        field_model("bad_delta"@, "percent"@, "Bad 强度"@, JsonModel::Number(NumberModel::Int(35))),
        field_model("bad_duration"@, "duration"@, "Bad 时长"@, JsonModel::Number(NumberModel::Float("1.0"@))),
        field_model("bad_preset"@, "preset"@, "Bad 波形"@, JsonModel::String("CS2-受伤"@)),
    ]
}

/// The fields of misses.
pub open spec fn miss_fields() -> Seq<JsonModel> {
    seq![
        field_model("miss_enable"@, "bool"@, "Miss 触发"@, JsonModel::Bool(true)),
        field_model("miss_delta"@, "percent"@, "Miss 强度"@, JsonModel::Number(NumberModel::Int(60))),
        field_model("miss_duration"@, "duration"@, "Miss 时长"@, JsonModel::Number(NumberModel::Float("1.5"@))),
        field_model("miss_preset"@, "preset"@, "Miss 波形"@, JsonModel::String("CS2-受伤"@)),
    ]
}

/// The fields of perfect and of good hits.
pub open spec fn perfect_good_fields() -> Seq<JsonModel> {
    seq![
        field_model("perfect_enable"@, "bool"@, "Perfect 触发"@, JsonModel::Bool(false)),
        field_model("perfect_delta"@, "percent"@, "Perfect 强度"@, JsonModel::Number(NumberModel::Int(10))),
        field_model("perfect_duration"@, "duration"@, "Perfect 时长"@, JsonModel::Number(NumberModel::Float("1.0"@))),
        field_model("perfect_preset"@, "preset"@, "Perfect 波形"@, JsonModel::String(""@)),
        field_model("good_enable"@, "bool"@, "Good 触发"@, JsonModel::Bool(false)),
        field_model("good_delta"@, "percent"@, "Good 强度"@, JsonModel::Number(NumberModel::Int(20))),
        field_model("good_duration"@, "duration"@, "Good 时长"@, JsonModel::Number(NumberModel::Float("1.0"@))),
        field_model("good_preset"@, "preset"@, "Good 波形"@, JsonModel::String(""@)),
    ]
}

/// The sections of the configuration page, from which the hub builds it.
pub open spec fn config_schema() -> Seq<JsonModel> {
    seq![
        section_model("通用"@, general_fields()),
        section_model("Bad"@, bad_fields()),
        section_model("Miss"@, miss_fields()),
        section_model("Perfect/Good"@, perfect_good_fields()),
    ]
}

/// Who the game is, for a game of this version.
pub open spec fn manifest_model(version: Seq<char>) -> JsonModel {
    JsonModel::Object(
        map![
            "id"@ => JsonModel::String("phira"@),
            "name"@ => JsonModel::String("Phira 判定联动"@),
            "version"@ => JsonModel::String(version),
            "sdk"@ => JsonModel::String("1"@),
            "author"@ => JsonModel::String("phira"@),
            "description"@ => JsonModel::String("把 Phira 的 Perfect/Good/Bad/Miss 判定映射为电击触发。"@),
            "config_schema"@ => JsonModel::Array(config_schema()),
        ],
    )
}

/// The greeting with a session token, from a game of this version.
pub open spec fn hello_model(token: Seq<char>, version: Seq<char>) -> JsonModel {
    JsonModel::Object(
        map![
            "op"@ => JsonModel::String("hello"@),
            "token"@ => JsonModel::String(token),
            "manifest"@ => manifest_model(version),
        ],
    )
}

/// What the items of an array are.
spec fn models(items: Seq<Json>) -> Seq<JsonModel> {
    Seq::new(items.len(), |i: int| items[i]@)
}

/// An array of these items.
fn array(items: Vec<Json>) -> (r: Json)
    ensures
        r@ == JsonModel::Array(models(items@)),
{
    let array = Json::Array(items);
    assert(array@->Array_0 =~= models(items@));
    array
}

/// The members of a field of the configuration page.
fn field_with(key: &str, kind: &str, label: &str, default: Json) -> (r: Members)
    ensures
        r@ == field_members(key@, kind@, label@, default@),
{
    Members::new().with("key", Json::text(key)).with("type", Json::text(kind)).with(
        "label",
        Json::text(label),
    ).with("default", default)
}

/// A field of the configuration page with nothing more to it.
fn field(key: &str, kind: &str, label: &str, default: Json) -> (r: Json)
    ensures
        r@ == field_model(key@, kind@, label@, default@),
{
    Json::Object(field_with(key, kind, label, default))
}

/// A section of the configuration page.
fn section(title: &str, fields: Vec<Json>) -> (r: Json)
    ensures
        r@ == section_model(title@, models(fields@)),
{
    Json::Object(
        Members::new().with("section", Json::text(title)).with("fields", array(fields)),
    )
}

/// The section that concerns all grades.
fn general_section() -> (r: Json)
    ensures
        r@ == section_model("通用"@, general_fields()),
{
    let mut fields: Vec<Json> = Vec::new();
    fields.push(
        Json::Object(
            field_with("github_url", "text", "GitHub 链接", Json::text("https://github.com/pingfanH/phigrab"))
                .with("description", Json::text("仅展示，可复制")),
        ),
    );
    fields.push(field("channel", "channel", "输出通道", Json::text("both")));
    fields.push(
        Json::Object(
            field_with("throttle_ms", "number", "节流(ms)", Json::integer(80))
                .with("min", Json::integer(0))
                .with("max", Json::integer(1000))
                .with("description", Json::text("同一判定档在该间隔内多次命中只触发一次")),
        ),
    );
    assert(models(fields@) =~= general_fields());
    section("通用", fields)
}

/// The section of bad hits.
fn bad_section() -> (r: Json)
    ensures
        r@ == section_model("Bad"@, bad_fields()),
{
    let mut fields: Vec<Json> = Vec::new();
    fields.push(field("bad_enable", "bool", "Bad 触发", Json::Bool(true)));
    fields.push(field("bad_delta", "percent", "Bad 强度", Json::integer(35)));
    fields.push(field("bad_duration", "duration", "Bad 时长", Json::float("1.0")));
    fields.push(field("bad_preset", "preset", "Bad 波形", Json::text("CS2-受伤")));
    assert(models(fields@) =~= bad_fields());
    section("Bad", fields)
}

/// The section of misses.
fn miss_section() -> (r: Json)
    ensures
        r@ == section_model("Miss"@, miss_fields()),
{
    let mut fields: Vec<Json> = Vec::new();
    fields.push(field("miss_enable", "bool", "Miss 触发", Json::Bool(true)));
    fields.push(field("miss_delta", "percent", "Miss 强度", Json::integer(60)));
    fields.push(field("miss_duration", "duration", "Miss 时长", Json::float("1.5")));
    fields.push(field("miss_preset", "preset", "Miss 波形", Json::text("CS2-受伤")));
    assert(models(fields@) =~= miss_fields());
    section("Miss", fields)
}

/// The section of perfect and of good hits.
fn perfect_good_section() -> (r: Json)
    ensures
        r@ == section_model("Perfect/Good"@, perfect_good_fields()),
{
    let mut fields: Vec<Json> = Vec::new();
    fields.push(field("perfect_enable", "bool", "Perfect 触发", Json::Bool(false)));
    fields.push(field("perfect_delta", "percent", "Perfect 强度", Json::integer(10)));
    fields.push(field("perfect_duration", "duration", "Perfect 时长", Json::float("1.0")));
    fields.push(field("perfect_preset", "preset", "Perfect 波形", Json::text("")));
    fields.push(field("good_enable", "bool", "Good 触发", Json::Bool(false)));
    fields.push(field("good_delta", "percent", "Good 强度", Json::integer(20)));
    fields.push(field("good_duration", "duration", "Good 时长", Json::float("1.0")));
    fields.push(field("good_preset", "preset", "Good 波形", Json::text("")));
    assert(models(fields@) =~= perfect_good_fields());
    section("Perfect/Good", fields)
}

/// The greeting with a session token, from a game of this version.
pub fn hello_message(token: &str, version: &str) -> (r: Json)
    ensures
        r@ == hello_model(token@, version@),
{
    let mut schema: Vec<Json> = Vec::new();
    schema.push(general_section());
    schema.push(bad_section());
    schema.push(miss_section());
    schema.push(perfect_good_section());
    assert(models(schema@) =~= config_schema());
    let manifest = Members::new().with("id", Json::text("phira")).with(
        "name",
        Json::text("Phira 判定联动"),
    ).with("version", Json::text(version)).with("sdk", Json::text("1")).with(
        "author",
        Json::text("phira"),
    ).with(
        "description",
        Json::text("把 Phira 的 Perfect/Good/Bad/Miss 判定映射为电击触发。"),
    ).with("config_schema", array(schema));
    Json::Object(
        Members::new().with("op", Json::text("hello")).with("token", Json::text(token)).with(
            "manifest",
            Json::Object(manifest),
        ),
    )
}

} // verus!
