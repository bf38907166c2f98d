//! What holds of the configuration page of the greeting.
use crate::grade::Grade;
use crate::hello;
use crate::json;
use crate::json::{JsonModel, NumberModel};
use crate::mapping::{self, MappingModel};
use vstd::prelude::*;

verus! {

/// The fields of sections of a configuration page, section after section.
pub open spec fn fields_of(sections: Seq<JsonModel>) -> Seq<JsonModel>
    decreases sections.len(),
{
    if sections.len() == 0 {
        Seq::empty()
    } else {
        fields_of(sections.drop_last()) + sections.last().member("fields"@)->0->Array_0
    }
}

/// The configuration page of a greeting: the key and the default of each of its fields.
pub open spec fn page(greeting: JsonModel) -> Seq<(Seq<char>, JsonModel)> {
    let schema = greeting.member("manifest"@)->0.member("config_schema"@)->0->Array_0;
    let fields = fields_of(schema);
    Seq::new(
        fields.len(),
        |i: int| (fields[i].member_string("key"@)->0, fields[i].member("default"@)->0),
    )
}

/// Whether a key is that of a parameter on the configuration page: it names a parameter of the
/// mapping, and the strength of a grade by its delta.
pub open spec fn is_page_key(key: Seq<char>) -> bool {
    ||| key == "channel"@
    ||| key == "throttle_ms"@
    ||| exists|grade: Grade| #[trigger]
        mapping::laws::belongs_to(grade, key) && key != mapping::grade_keys(grade).strength
}

/// The page as it is.
spec fn entries() -> Seq<(Seq<char>, JsonModel)> {
    seq![
        ("github_url"@, JsonModel::String("https://github.com/pingfanH/phigrab"@)),
        ("channel"@, JsonModel::String("both"@)),
        ("throttle_ms"@, JsonModel::Number(NumberModel::Int(80))),
        ("bad_enable"@, JsonModel::Bool(true)),
        ("bad_delta"@, JsonModel::Number(NumberModel::Int(35))),
        ("bad_duration"@, JsonModel::Number(NumberModel::Float("1.0"@))),
        ("bad_preset"@, JsonModel::String("CS2-受伤"@)),
        ("miss_enable"@, JsonModel::Bool(true)),
        ("miss_delta"@, JsonModel::Number(NumberModel::Int(60))),
        ("miss_duration"@, JsonModel::Number(NumberModel::Float("1.5"@))),
        ("miss_preset"@, JsonModel::String("CS2-受伤"@)),
        ("perfect_enable"@, JsonModel::Bool(false)),
        ("perfect_delta"@, JsonModel::Number(NumberModel::Int(10))),
        ("perfect_duration"@, JsonModel::Number(NumberModel::Float("1.0"@))),
        ("perfect_preset"@, JsonModel::String(""@)),
        ("good_enable"@, JsonModel::Bool(false)),
        ("good_delta"@, JsonModel::Number(NumberModel::Int(20))),
        ("good_duration"@, JsonModel::Number(NumberModel::Float("1.0"@))),
        ("good_preset"@, JsonModel::String(""@)),
    ]
}

/// The place of a key on the page, which its first and its last character tell.
spec fn rank(key: Seq<char>) -> int {
    let first = key.first();
    let last = key.last();
    if first == 'g' && last == 'l' {
        0
    } else if first == 'c' && last == 'l' {
        1
    } else if first == 't' && last == 's' {
        2
    } else if first == 'b' && last == 'e' {
        3
    } else if first == 'b' && last == 'a' {
        4
    } else if first == 'b' && last == 'n' {
        5
    } else if first == 'b' && last == 't' {
        6
    } else if first == 'm' && last == 'e' {
        7
    } else if first == 'm' && last == 'a' {
        8
    } else if first == 'm' && last == 'n' {
        9
    } else if first == 'm' && last == 't' {
        10
    } else if first == 'p' && last == 'e' {
        11
    } else if first == 'p' && last == 'a' {
        12
    } else if first == 'p' && last == 'n' {
        13
    } else if first == 'p' && last == 't' {
        14
    } else if first == 'g' && last == 'e' {
        15
    } else if first == 'g' && last == 'a' {
        16
    } else if first == 'g' && last == 'n' {
        17
    } else if first == 'g' && last == 't' {
        18
    } else {
        -1
    }
}

proof fn ranks()
    ensures
        rank("github_url"@) == 0,
        rank("channel"@) == 1,
        rank("throttle_ms"@) == 2,
        rank("bad_enable"@) == 3,
        rank("bad_delta"@) == 4,
        rank("bad_duration"@) == 5,
        rank("bad_preset"@) == 6,
        rank("miss_enable"@) == 7,
        rank("miss_delta"@) == 8,
        rank("miss_duration"@) == 9,
        rank("miss_preset"@) == 10,
        rank("perfect_enable"@) == 11,
        rank("perfect_delta"@) == 12,
        rank("perfect_duration"@) == 13,
        rank("perfect_preset"@) == 14,
        rank("good_enable"@) == 15,
        rank("good_delta"@) == 16,
        rank("good_duration"@) == 17,
        rank("good_preset"@) == 18,
        rank("bad_strength"@) == -1,
        rank("miss_strength"@) == -1,
        rank("perfect_strength"@) == -1,
        rank("good_strength"@) == -1,
{
    reveal_strlit("github_url");
    reveal_strlit("channel");
    reveal_strlit("throttle_ms");
    reveal_strlit("bad_enable");
    reveal_strlit("bad_delta");
    reveal_strlit("bad_duration");
    reveal_strlit("bad_preset");
    reveal_strlit("miss_enable");
    reveal_strlit("miss_delta");
    reveal_strlit("miss_duration");
    reveal_strlit("miss_preset");
    reveal_strlit("perfect_enable");
    reveal_strlit("perfect_delta");
    reveal_strlit("perfect_duration");
    reveal_strlit("perfect_preset");
    reveal_strlit("good_enable");
    reveal_strlit("good_delta");
    reveal_strlit("good_duration");
    reveal_strlit("good_preset");
    reveal_strlit("bad_strength");
    reveal_strlit("miss_strength");
    reveal_strlit("perfect_strength");
    reveal_strlit("good_strength");
}

proof fn fields_are_read()
    ensures
        forall|key: Seq<char>, kind: Seq<char>, label: Seq<char>, default: JsonModel|
            ({
                let members = #[trigger] hello::field_members(key, kind, label, default);
                &&& members.contains_key("key"@) && members["key"@] == JsonModel::String(key)
                &&& members.contains_key("default"@) && members["default"@] == default
            }),
        "key"@ != "description"@ && "key"@ != "min"@ && "key"@ != "max"@,
        "default"@ != "description"@ && "default"@ != "min"@ && "default"@ != "max"@,
{
    reveal_strlit("key");
    reveal_strlit("type");
    reveal_strlit("label");
    reveal_strlit("default");
    reveal_strlit("description");
    reveal_strlit("min");
    reveal_strlit("max");
    assert("key"@.len() != "type"@.len());
    assert("key"@.len() != "label"@.len());
    assert("key"@.len() != "default"@.len());
    assert("key"@.len() != "description"@.len());
    assert("key"@[0] != "min"@[0]);
    assert("key"@[0] != "max"@[0]);
    assert("default"@.len() != "type"@.len());
    assert("default"@.len() != "label"@.len());
    assert("default"@.len() != "description"@.len());
    assert("default"@.len() != "min"@.len());
    assert("default"@.len() != "max"@.len());
}

proof fn fields_of_the_greeting()
    ensures
        fields_of(hello::config_schema()) == hello::general_fields() + hello::bad_fields()
            + hello::miss_fields() + hello::perfect_good_fields(),
{
    let schema = hello::config_schema();
    let third = schema.drop_last();
    let second = third.drop_last();
    let first = second.drop_last();
    assert(first.drop_last() =~= Seq::empty());
    assert(fields_of(first.drop_last()) =~= Seq::empty());
    assert(fields_of(first) =~= hello::general_fields());
    assert(fields_of(second) =~= fields_of(first) + hello::bad_fields());
    assert(fields_of(third) =~= fields_of(second) + hello::miss_fields());
    assert(fields_of(schema) =~= fields_of(third) + hello::perfect_good_fields());
}

proof fn page_is_its_entries(token: Seq<char>, version: Seq<char>)
    ensures
        page(hello::hello_model(token, version)) == entries(),
{
    fields_of_the_greeting();
    fields_are_read();
    assert(page(hello::hello_model(token, version)) =~= entries());
}

proof fn entries_by_rank(i: int)
    requires
        0 <= i < 19,
    ensures
        rank(entries()[i].0) == i,
{
    ranks();
}

proof fn entries_are_distinct()
    ensures
        json::distinct_keys(entries()),
{
    let entries = entries();
    assert forall|i: int, j: int| 0 <= i < j < entries.len() implies (#[trigger] entries[i]).0 != (
    #[trigger] entries[j]).0 by {
        entries_by_rank(i);
        entries_by_rank(j);
    }
}

/// No key stands twice on the configuration page.
pub proof fn the_keys_of_the_page_are_distinct(token: Seq<char>, version: Seq<char>)
    ensures
        json::distinct_keys(page(hello::hello_model(token, version))),
        page(hello::hello_model(token, version)).len() == 19,
{
    page_is_its_entries(token, version);
    entries_are_distinct();
}

/// Besides the link to the game's home the configuration page offers the parameters of the
/// mapping, all of them and nothing else.
pub proof fn the_page_offers_the_parameters(
    token: Seq<char>,
    version: Seq<char>,
    key: Seq<char>,
)
    requires
        key != "github_url"@,
    ensures
        is_page_key(key) <==> exists|i: int|
            0 <= i < page(hello::hello_model(token, version)).len() && (#[trigger] page(
                hello::hello_model(token, version),
            )[i]).0 == key,
{
    page_is_its_entries(token, version);
    ranks();
    let entries = entries();
    assert(entries[0].0 == "github_url"@);
    assert(entries[1].0 == "channel"@);
    assert(entries[2].0 == "throttle_ms"@);
    assert(entries[3].0 == "bad_enable"@);
    assert(entries[4].0 == "bad_delta"@);
    assert(entries[5].0 == "bad_duration"@);
    assert(entries[6].0 == "bad_preset"@);
    assert(entries[7].0 == "miss_enable"@);
    assert(entries[8].0 == "miss_delta"@);
    assert(entries[9].0 == "miss_duration"@);
    assert(entries[10].0 == "miss_preset"@);
    assert(entries[11].0 == "perfect_enable"@);
    assert(entries[12].0 == "perfect_delta"@);
    assert(entries[13].0 == "perfect_duration"@);
    assert(entries[14].0 == "perfect_preset"@);
    assert(entries[15].0 == "good_enable"@);
    assert(entries[16].0 == "good_delta"@);
    assert(entries[17].0 == "good_duration"@);
    assert(entries[18].0 == "good_preset"@);
    let grades = seq![Grade::Bad, Grade::Miss, Grade::Perfect, Grade::Good];
    assert forall|i: int| 0 <= i < entries.len() && (#[trigger] entries[i]).0 == key implies is_page_key(
        key,
    ) by {
        if i >= 3 {
            assert(mapping::laws::belongs_to(grades[(i - 3) / 4], key));
        }
    }
}

/// The default of every parameter on the configuration page is a value that the mapping takes.
pub proof fn the_mapping_takes_the_defaults_of_the_page(
    token: Seq<char>,
    version: Seq<char>,
    i: int,
)
    requires
        0 <= i < page(hello::hello_model(token, version)).len(),
    ensures
        ({
            let (key, default) = page(hello::hello_model(token, version))[i];
            key == "github_url"@ || mapping::laws::accepted(key, default)
        }),
{
    page_is_its_entries(token, version);
    reveal_strlit("both");
}

proof fn strengths_are_not_on_the_page(grade: Grade, i: int)
    requires
        0 <= i < 19,
    ensures
        entries()[i].0 != mapping::grade_keys(grade).strength,
{
    ranks();
    entries_by_rank(i);
}

proof fn page_names_no_parameter_twice()
    ensures
        forall|i: int, j: int|
            0 <= i < j < 19 ==> !mapping::laws::same_parameter(
                (#[trigger] entries()[i]).0,
                (#[trigger] entries()[j]).0,
            ),
{
    entries_are_distinct();
    assert forall|i: int, j: int| 0 <= i < j < 19 implies !mapping::laws::same_parameter(
        (#[trigger] entries()[i]).0,
        (#[trigger] entries()[j]).0,
    ) by {
        let key = entries()[i].0;
        let other = entries()[j].0;
        if mapping::laws::same_parameter(key, other) {
            let grade = choose|grade: Grade| #[trigger]
                mapping::laws::names_strength(grade, key) && mapping::laws::names_strength(
                    grade,
                    other,
                );
            strengths_are_not_on_the_page(grade, i);
            strengths_are_not_on_the_page(grade, j);
        }
    }
}

/// Whatever the mapping was before, taking over all defaults of the configuration page, at once or
/// one after the other, makes it the default mapping. Whether misses are spaced is not on the
/// page and stays.
pub proof fn the_defaults_of_the_page_make_the_default_mapping(
    token: Seq<char>,
    version: Seq<char>,
    mapping: MappingModel,
)
    ensures
        ({
            let page = page(hello::hello_model(token, version));
            let after = MappingModel {
                throttle_miss: mapping.throttle_miss,
                ..mapping::default_mapping()
            };
            &&& mapping.updated(json::member_map(page)) == after
            &&& mapping::laws::taken_over(mapping, page) == after
        }),
{
    page_is_its_entries(token, version);
    entries_are_distinct();
    page_names_no_parameter_twice();
    let entries = entries();
    let given = json::member_map(entries);
    json::member_map_holds_its_list(entries);
    assert(given.contains_key(entries[0].0) && given[entries[0].0] == entries[0].1);
    assert(given.contains_key(entries[1].0) && given[entries[1].0] == entries[1].1);
    assert(given.contains_key(entries[2].0) && given[entries[2].0] == entries[2].1);
    assert(given.contains_key(entries[3].0) && given[entries[3].0] == entries[3].1);
    assert(given.contains_key(entries[4].0) && given[entries[4].0] == entries[4].1);
    assert(given.contains_key(entries[5].0) && given[entries[5].0] == entries[5].1);
    assert(given.contains_key(entries[6].0) && given[entries[6].0] == entries[6].1);
    assert(given.contains_key(entries[7].0) && given[entries[7].0] == entries[7].1);
    assert(given.contains_key(entries[8].0) && given[entries[8].0] == entries[8].1);
    assert(given.contains_key(entries[9].0) && given[entries[9].0] == entries[9].1);
    assert(given.contains_key(entries[10].0) && given[entries[10].0] == entries[10].1);
    assert(given.contains_key(entries[11].0) && given[entries[11].0] == entries[11].1);
    assert(given.contains_key(entries[12].0) && given[entries[12].0] == entries[12].1);
    assert(given.contains_key(entries[13].0) && given[entries[13].0] == entries[13].1);
    assert(given.contains_key(entries[14].0) && given[entries[14].0] == entries[14].1);
    assert(given.contains_key(entries[15].0) && given[entries[15].0] == entries[15].1);
    assert(given.contains_key(entries[16].0) && given[entries[16].0] == entries[16].1);
    assert(given.contains_key(entries[17].0) && given[entries[17].0] == entries[17].1);
    assert(given.contains_key(entries[18].0) && given[entries[18].0] == entries[18].1);
    assert forall|grade: Grade| !given.contains_key(
        (#[trigger] mapping::grade_keys(grade)).strength,
    ) by {
        let strength = mapping::grade_keys(grade).strength;
        if given.contains_key(strength) {
            let i = choose|i: int| 0 <= i < entries.len() && (#[trigger] entries[i]).0 == strength;
            strengths_are_not_on_the_page(grade, i);
        }
    }
    reveal_strlit("both");
    mapping::laws::a_configuration_is_the_sum_of_its_parameters(mapping, entries);
    assert(mapping.updated(given).perfect =~= mapping::default_mapping().perfect);
    assert(mapping.updated(given).good =~= mapping::default_mapping().good);
    assert(mapping.updated(given).bad =~= mapping::default_mapping().bad);
    assert(mapping.updated(given).miss =~= mapping::default_mapping().miss);
}

proof fn greeting_keys_are_distinct()
    ensures
        "op"@ != "token"@,
        "op"@ != "manifest"@,
        "token"@ != "manifest"@,
        "version"@ != "sdk"@,
        "version"@ != "author"@,
        "version"@ != "description"@,
        "version"@ != "config_schema"@,
        "id"@ != "name"@,
        "id"@ != "version"@,
        "id"@ != "sdk"@,
        "id"@ != "author"@,
        "id"@ != "description"@,
        "id"@ != "config_schema"@,
        "sdk"@ != "author"@,
        "sdk"@ != "description"@,
        "sdk"@ != "config_schema"@,
{
    reveal_strlit("op");
    reveal_strlit("token");
    reveal_strlit("manifest");
    reveal_strlit("id");
    reveal_strlit("name");
    reveal_strlit("version");
    reveal_strlit("sdk");
    reveal_strlit("author");
    reveal_strlit("description");
    reveal_strlit("config_schema");
    assert("op"@.len() != "token"@.len() && "op"@.len() != "manifest"@.len());
    assert("token"@.len() != "manifest"@.len());
    assert("version"@.len() != "sdk"@.len() && "version"@.len() != "author"@.len());
    assert("version"@.len() != "description"@.len() && "version"@.len() != "config_schema"@.len());
    assert("id"@.len() != "name"@.len() && "id"@.len() != "version"@.len());
    assert("id"@.len() != "sdk"@.len() && "id"@.len() != "author"@.len());
    assert("id"@.len() != "description"@.len() && "id"@.len() != "config_schema"@.len());
    assert("sdk"@.len() != "author"@.len() && "sdk"@.len() != "description"@.len());
    assert("sdk"@.len() != "config_schema"@.len());
}

/// The greeting carries the token and the version that it is made with, whatever they are, and
/// says that it is one.
pub proof fn the_greeting_carries_token_and_version(token: Seq<char>, version: Seq<char>)
    ensures
        ({
            let greeting = hello::hello_model(token, version);
            &&& greeting is Object
            &&& greeting.member("op"@) == Some(JsonModel::String("hello"@))
            &&& greeting.member("token"@) == Some(JsonModel::String(token))
            &&& greeting.member("manifest"@) is Some
            &&& greeting.member("manifest"@)->0.member("version"@) == Some(
                JsonModel::String(version),
            )
            &&& greeting.member("manifest"@)->0.member("id"@) == Some(JsonModel::String("phira"@))
            &&& greeting.member("manifest"@)->0.member("sdk"@) == Some(JsonModel::String("1"@))
        }),
{
    greeting_keys_are_distinct();
}

/// Greetings differ in the token and in the version that they carry, and in nothing else: one is
/// made of another by putting its own token and its own version in their places.
pub proof fn greetings_differ_in_token_and_version_only(
    token: Seq<char>,
    version: Seq<char>,
    other_token: Seq<char>,
    other_version: Seq<char>,
)
    ensures
        ({
            let other = hello::hello_model(other_token, other_version)->Object_0;
            let manifest = other["manifest"@]->Object_0;
            hello::hello_model(token, version) == JsonModel::Object(
                other.insert("token"@, JsonModel::String(token)).insert(
                    "manifest"@,
                    JsonModel::Object(manifest.insert("version"@, JsonModel::String(version))),
                ),
            )
        }),
{
    greeting_keys_are_distinct();
    let own = hello::hello_model(token, version)->Object_0;
    let other = hello::hello_model(other_token, other_version)->Object_0;
    let manifest = other["manifest"@]->Object_0.insert("version"@, JsonModel::String(version));
    assert(own["manifest"@]->Object_0 =~= manifest);
    assert(own =~= other.insert("token"@, JsonModel::String(token)).insert(
        "manifest"@,
        JsonModel::Object(manifest),
    ));
}

} // verus!
