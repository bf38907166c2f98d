//! What holds of every change of the mapping and of every trigger.
use crate::grade::Grade;
use crate::json;
use crate::json::{JsonModel, NumberModel};
use crate::mapping::{self, Config, GradeCfg, GradeCfgModel, Mapping, MappingModel};
use vstd::prelude::*;

verus! {

/// Whether a value is of the type of the parameter that a key names.
pub open spec fn accepted(key: Seq<char>, value: JsonModel) -> bool {
    ||| key == "channel"@ && mapping::channel_name(value) is Some
    ||| key == "throttle_ms"@ && mapping::interval(value) is Some
    ||| accepted_for(Grade::Perfect, key, value)
    ||| accepted_for(Grade::Good, key, value)
    ||| accepted_for(Grade::Bad, key, value)
    ||| accepted_for(Grade::Miss, key, value)
}

/// Whether a key names a parameter of a grade and a value is of its type.
pub open spec fn accepted_for(grade: Grade, key: Seq<char>, value: JsonModel) -> bool {
    let keys = mapping::grade_keys(grade);
    ||| key == keys.enable && value.boolean() is Some
    ||| (key == keys.delta || key == keys.strength) && mapping::percent(value) is Some
    ||| key == keys.duration && value.number_text() is Some
    ||| key == keys.preset && value.string() is Some
}

/// Whether a key names a parameter of a grade.
pub open spec fn belongs_to(grade: Grade, key: Seq<char>) -> bool {
    let keys = mapping::grade_keys(grade);
    ||| key == keys.enable
    ||| key == keys.delta
    ||| key == keys.strength
    ||| key == keys.duration
    ||| key == keys.preset
}

/// Whether two keys are the same, or name the strength of one grade.
pub open spec fn same_parameter(key: Seq<char>, other: Seq<char>) -> bool {
    key == other || exists|grade: Grade| #[trigger] names_strength(grade, key) && names_strength(
        grade,
        other,
    )
}

/// Whether a key names the strength of a grade.
pub open spec fn names_strength(grade: Grade, key: Seq<char>) -> bool {
    key == mapping::grade_keys(grade).delta || key == mapping::grade_keys(grade).strength
}

/// A key that is unknown, or a value of another type than its parameter has, changes nothing.
pub proof fn what_is_not_accepted_changes_nothing(
    mapping: MappingModel,
    key: Seq<char>,
    value: JsonModel,
)
    requires
        !accepted(key, value),
    ensures
        mapping.updated_one(key, value) == mapping,
{
}

/// Of two changes of one parameter the later one counts, as far as its value is accepted.
pub proof fn the_later_change_counts(
    mapping: MappingModel,
    key: Seq<char>,
    first: JsonModel,
    second: JsonModel,
)
    ensures
        mapping.updated_one(key, first).updated_one(key, second) == if accepted(key, second) {
            mapping.updated_one(key, second)
        } else {
            mapping.updated_one(key, first)
        },
{
    a_key_names_one_parameter(key);
    if !accepted(key, second) {
        what_is_not_accepted_changes_nothing(mapping.updated_one(key, first), key, second);
    }
}

/// Parameters may be taken over one after the other: one that is not yet given may be added
/// last.
pub proof fn parameters_may_come_one_by_one(
    mapping: MappingModel,
    given: Map<Seq<char>, JsonModel>,
    key: Seq<char>,
    value: JsonModel,
)
    requires
        forall|other: Seq<char>|
            #[trigger] given.contains_key(other) ==> !same_parameter(key, other),
    ensures
        mapping.updated(given.insert(key, value)) == mapping.updated(given).updated_one(key, value),
{
    assert(!given.contains_key(key));
    strength_is_not_yet_given(given, Grade::Perfect, key);
    strength_is_not_yet_given(given, Grade::Good, key);
    strength_is_not_yet_given(given, Grade::Bad, key);
    strength_is_not_yet_given(given, Grade::Miss, key);
}

/// The mapping after parameters that are taken over one after the other.
pub open spec fn taken_over(
    mapping: MappingModel,
    list: Seq<(Seq<char>, JsonModel)>,
) -> MappingModel
    decreases list.len(),
{
    if list.len() == 0 {
        mapping
    } else {
        taken_over(mapping, list.drop_last()).updated_one(list.last().0, list.last().1)
    }
}

/// Different parameters that are taken over one after the other, in whatever order they are
/// listed, make the mapping that the configuration made of them makes.
pub proof fn a_configuration_is_the_sum_of_its_parameters(
    mapping: MappingModel,
    list: Seq<(Seq<char>, JsonModel)>,
)
    requires
        forall|i: int, j: int|
            0 <= i < j < list.len() ==> !same_parameter(
                (#[trigger] list[i]).0,
                (#[trigger] list[j]).0,
            ),
    ensures
        taken_over(mapping, list) == mapping.updated(json::member_map(list)),
    decreases list.len(),
{
    if list.len() == 0 {
        assert(mapping.updated(Map::<Seq<char>, JsonModel>::empty()) =~= mapping);
    } else {
        let front = list.drop_last();
        assert forall|i: int, j: int| 0 <= i < j < front.len() implies !same_parameter(
            (#[trigger] front[i]).0,
            (#[trigger] front[j]).0,
        ) by {
            assert(front[i] == list[i] && front[j] == list[j]);
        }
        a_configuration_is_the_sum_of_its_parameters(mapping, front);
        assert(json::distinct_keys(front)) by {
            assert forall|i: int, j: int| 0 <= i < j < front.len() implies (#[trigger] front[i]).0
                != (#[trigger] front[j]).0 by {
                assert(!same_parameter(front[i].0, front[j].0));
            }
        }
        json::member_map_holds_its_list(front);
        let given = json::member_map(front);
        let key = list.last().0;
        assert forall|other: Seq<char>| #[trigger] given.contains_key(other) implies !same_parameter(
            key,
            other,
        ) by {
            let i = choose|i: int| 0 <= i < front.len() && (#[trigger] front[i]).0 == other;
            assert(!same_parameter(list[i].0, list[list.len() - 1].0));
            assert(same_parameter(key, other) ==> same_parameter(other, key));
        }
        parameters_may_come_one_by_one(mapping, given, key, list.last().1);
    }
}

proof fn strength_is_not_yet_given(
    given: Map<Seq<char>, JsonModel>,
    grade: Grade,
    key: Seq<char>,
)
    requires
        forall|other: Seq<char>|
            #[trigger] given.contains_key(other) ==> !same_parameter(key, other),
    ensures
        names_strength(grade, key) ==> !given.contains_key(mapping::grade_keys(grade).delta)
            && !given.contains_key(mapping::grade_keys(grade).strength),
{
    let keys = mapping::grade_keys(grade);
    if names_strength(grade, key) {
        assert(names_strength(grade, keys.delta) && names_strength(grade, keys.strength));
        assert(same_parameter(key, keys.delta));
        assert(same_parameter(key, keys.strength));
    }
}

/// A strength counts under either of its keys, and when both are given it counts before a delta.
pub proof fn both_keys_name_the_strength(
    mapping: MappingModel,
    grade: Grade,
    value: JsonModel,
    given: Map<Seq<char>, JsonModel>,
)
    requires
        given.contains_key(mapping::grade_keys(grade).strength),
        mapping::percent(given[mapping::grade_keys(grade).strength]) is Some,
    ensures
        mapping.updated_one(mapping::grade_keys(grade).delta, value) == mapping.updated_one(
            mapping::grade_keys(grade).strength,
            value,
        ),
        Some(mapping.updated(given).grade(grade).delta) == mapping::percent(
            given[mapping::grade_keys(grade).strength],
        ),
{
    a_key_names_one_parameter(mapping::grade_keys(grade).delta);
    a_key_names_one_parameter(mapping::grade_keys(grade).strength);
}

/// Changes of different parameters may come in either order.
pub proof fn changes_of_different_parameters_commute(
    mapping: MappingModel,
    key: Seq<char>,
    value: JsonModel,
    other_key: Seq<char>,
    other_value: JsonModel,
)
    requires
        !same_parameter(key, other_key),
    ensures
        mapping.updated_one(key, value).updated_one(other_key, other_value)
            == mapping.updated_one(other_key, other_value).updated_one(key, value),
{
    let none = Map::<Seq<char>, JsonModel>::empty();
    assert(same_parameter(other_key, key) ==> same_parameter(key, other_key));
    parameters_may_come_one_by_one(mapping, none.insert(key, value), other_key, other_value);
    parameters_may_come_one_by_one(mapping, none.insert(other_key, other_value), key, value);
    assert(none.insert(key, value).insert(other_key, other_value) =~= none.insert(
        other_key,
        other_value,
    ).insert(key, value));
}

/// A configuration that is given twice does no more than given once.
pub proof fn a_configuration_given_twice_counts_once(
    mapping: MappingModel,
    given: Map<Seq<char>, JsonModel>,
)
    ensures
        mapping.updated(given).updated(given) == mapping.updated(given),
{
}

/// A change of a parameter of one grade leaves the other grades, the channel and the spacing as
/// they are.
pub proof fn a_change_concerns_one_grade(
    mapping: MappingModel,
    grade: Grade,
    other: Grade,
    key: Seq<char>,
    value: JsonModel,
)
    requires
        belongs_to(grade, key),
        other != grade,
    ensures
        mapping.updated_one(key, value).grade(other) == mapping.grade(other),
        mapping.updated_one(key, value).channel == mapping.channel,
        mapping.updated_one(key, value).throttle_ms == mapping.throttle_ms,
        mapping.updated_one(key, value).throttle_miss == mapping.throttle_miss,
{
    a_key_names_one_parameter(key);
}

/// What is configured for a grade shows in its next trigger: the strength, the duration, the
/// waveform, and whether there is a trigger at all.
pub proof fn a_change_shows_in_the_next_trigger(
    mapping: MappingModel,
    grade: Grade,
    enable: bool,
    strength: i32,
    duration: Seq<char>,
    preset: Seq<char>,
)
    requires
        mapping.grade(grade).enable,
    ensures
        ({
            let keys = mapping::grade_keys(grade);
            let enabled = mapping.updated_one(keys.enable, JsonModel::Bool(enable));
            let strong = JsonModel::Number(NumberModel::Int(strength as int));
            let long = JsonModel::Number(NumberModel::Float(duration));
            let stronger = mapping.updated_one(keys.strength, strong);
            let longer = mapping.updated_one(keys.duration, long);
            let waved = mapping.updated_one(keys.preset, JsonModel::String(preset));
            &&& enabled.trigger(grade) is Some == enable
            &&& enable ==> enabled.trigger(grade) == mapping.trigger(grade)
            &&& stronger.trigger(grade) is Some
            &&& stronger.trigger(grade)->0.member("delta_pct"@) == Some(strong)
            &&& longer.trigger(grade) is Some
            &&& longer.trigger(grade)->0.member("duration_s"@) == Some(long)
            &&& waved.trigger(grade) is Some
            &&& waved.trigger(grade)->0.member("preset"@) == if preset.len() > 0 {
                Some(JsonModel::String(preset))
            } else {
                None
            }
        }),
{
    keys_are_distinct();
    trigger_keys_are_distinct();
}

/// The members that the protocol knows of a trigger.
pub open spec fn protocol_members() -> Set<Seq<char>> {
    set![
        "op"@,
        "action"@,
        "delta_pct"@,
        "strength_mode"@,
        "duration_s"@,
        "preset"@,
        "channel"@,
        "label"@,
    ]
}

/// A trigger has no member that the protocol does not know, and it has all of them but for the
/// waveform, which it names exactly when it asks for one.
pub proof fn triggers_keep_to_the_protocol(
    mapping: MappingModel,
    grade: Grade,
    trigger: JsonModel,
)
    requires
        mapping.trigger(grade) == Some(trigger),
    ensures
        trigger.members() is Some,
        trigger.members()->0.dom() == if mapping.grade(grade).preset.len() > 0 {
            protocol_members()
        } else {
            protocol_members().remove("preset"@)
        },
        trigger.member("preset"@) is Some <==> trigger.member_string("action"@) == Some("both"@),
        trigger.member("preset"@) is None <==> trigger.member_string("action"@) == Some(
            "strength"@,
        ),
        trigger.member_string("channel"@) is Some && trigger.member_string("channel"@)->0.len() > 0,
        trigger.member_string("op"@) == Some("trigger"@),
        trigger.member_string("strength_mode"@) == Some("rollback"@),
        trigger.member_string("label"@) == Some(grade.name()),
{
    trigger_keys_are_distinct();
    reveal_strlit("both");
    reveal_strlit("strength");
    assert("both"@.len() != "strength"@.len());
    let dom = trigger.members()->0.dom();
    assert(dom =~= if mapping.grade(grade).preset.len() > 0 {
        protocol_members()
    } else {
        protocol_members().remove("preset"@)
    });
}

/// A duration that was read from JSON as a float is written in the trigger as it was read.
pub proof fn a_duration_is_sent_as_it_was_read(
    mapping: MappingModel,
    grade: Grade,
    duration: JsonModel,
)
    requires
        mapping.grade(grade).enable,
        duration matches JsonModel::Number(NumberModel::Float(_)),
        json::canonical(duration) == duration,
    ensures
        ({
            let after = mapping.updated_one(mapping::grade_keys(grade).duration, duration);
            &&& after.trigger(grade) is Some
            &&& json::canonical(after.trigger(grade)->0).member("duration_s"@) == Some(duration)
        }),
{
    keys_are_distinct();
    trigger_keys_are_distinct();
}

proof fn trigger_keys_are_distinct()
    ensures
        "op"@ != "action"@,
        "op"@ != "delta_pct"@,
        "op"@ != "strength_mode"@,
        "op"@ != "duration_s"@,
        "op"@ != "channel"@,
        "op"@ != "label"@,
        "op"@ != "preset"@,
        "action"@ != "delta_pct"@,
        "action"@ != "strength_mode"@,
        "action"@ != "duration_s"@,
        "action"@ != "channel"@,
        "action"@ != "label"@,
        "action"@ != "preset"@,
        "delta_pct"@ != "strength_mode"@,
        "delta_pct"@ != "duration_s"@,
        "delta_pct"@ != "channel"@,
        "delta_pct"@ != "label"@,
        "delta_pct"@ != "preset"@,
        "strength_mode"@ != "duration_s"@,
        "strength_mode"@ != "channel"@,
        "strength_mode"@ != "label"@,
        "strength_mode"@ != "preset"@,
        "duration_s"@ != "channel"@,
        "duration_s"@ != "label"@,
        "duration_s"@ != "preset"@,
        "channel"@ != "label"@,
        "channel"@ != "preset"@,
        "label"@ != "preset"@,
{
    reveal_strlit("op");
    reveal_strlit("action");
    reveal_strlit("delta_pct");
    reveal_strlit("strength_mode");
    reveal_strlit("duration_s");
    reveal_strlit("channel");
    reveal_strlit("label");
    reveal_strlit("preset");
    assert("op"@.len() != "action"@.len());
    assert("op"@.len() != "delta_pct"@.len());
    assert("op"@.len() != "strength_mode"@.len());
    assert("op"@.len() != "duration_s"@.len());
    assert("op"@.len() != "channel"@.len());
    assert("op"@.len() != "label"@.len());
    assert("op"@.len() != "preset"@.len());
    assert("action"@.len() != "delta_pct"@.len());
    assert("action"@.len() != "strength_mode"@.len());
    assert("action"@.len() != "duration_s"@.len());
    assert("action"@.len() != "channel"@.len());
    assert("action"@.len() != "label"@.len());
    assert("action"@[0] != "preset"@[0]);
    assert("delta_pct"@.len() != "strength_mode"@.len());
    assert("delta_pct"@.len() != "duration_s"@.len());
    assert("delta_pct"@.len() != "channel"@.len());
    assert("delta_pct"@.len() != "label"@.len());
    assert("delta_pct"@.len() != "preset"@.len());
    assert("strength_mode"@.len() != "duration_s"@.len());
    assert("strength_mode"@.len() != "channel"@.len());
    assert("strength_mode"@.len() != "label"@.len());
    assert("strength_mode"@.len() != "preset"@.len());
    assert("duration_s"@.len() != "channel"@.len());
    assert("duration_s"@.len() != "label"@.len());
    assert("duration_s"@.len() != "preset"@.len());
    assert("channel"@.len() != "label"@.len());
    assert("channel"@.len() != "preset"@.len());
    assert("label"@.len() != "preset"@.len());
}

proof fn a_key_names_one_parameter(key: Seq<char>)
    ensures
        belongs_to(Grade::Perfect, key) ==> !belongs_to(Grade::Good, key) && !belongs_to(
            Grade::Bad,
            key,
        ) && !belongs_to(Grade::Miss, key),
        belongs_to(Grade::Good, key) ==> !belongs_to(Grade::Bad, key) && !belongs_to(
            Grade::Miss,
            key,
        ),
        belongs_to(Grade::Bad, key) ==> !belongs_to(Grade::Miss, key),
        key == "channel"@ || key == "throttle_ms"@ ==> !belongs_to(Grade::Perfect, key)
            && !belongs_to(Grade::Good, key) && !belongs_to(Grade::Bad, key) && !belongs_to(
            Grade::Miss,
            key,
        ),
        "channel"@ != "throttle_ms"@,
        mapping::grade_keys(Grade::Perfect).are_distinct(),
        mapping::grade_keys(Grade::Good).are_distinct(),
        mapping::grade_keys(Grade::Bad).are_distinct(),
        mapping::grade_keys(Grade::Miss).are_distinct(),
{
    keys_are_distinct();
}

/// The keys of the configuration differ from one another.
pub proof fn keys_are_distinct()
    ensures
        forall|grade: Grade, other: Grade, key: Seq<char>|
            #[trigger] belongs_to(grade, key) && #[trigger] belongs_to(other, key) ==> grade
                == other,
        forall|grade: Grade|
            !(#[trigger] belongs_to(grade, "channel"@)),
        forall|grade: Grade|
            !(#[trigger] belongs_to(grade, "throttle_ms"@)),
        "channel"@ != "throttle_ms"@,
        forall|grade: Grade| (#[trigger] mapping::grade_keys(grade)).are_distinct(),
{
    reveal_strlit("channel");
    reveal_strlit("throttle_ms");
    reveal_strlit("perfect_enable");
    reveal_strlit("perfect_delta");
    reveal_strlit("perfect_strength");
    reveal_strlit("perfect_duration");
    reveal_strlit("perfect_preset");
    reveal_strlit("good_enable");
    reveal_strlit("good_delta");
    reveal_strlit("good_strength");
    reveal_strlit("good_duration");
    reveal_strlit("good_preset");
    reveal_strlit("bad_enable");
    reveal_strlit("bad_delta");
    reveal_strlit("bad_strength");
    reveal_strlit("bad_duration");
    reveal_strlit("bad_preset");
    reveal_strlit("miss_enable");
    reveal_strlit("miss_delta");
    reveal_strlit("miss_strength");
    reveal_strlit("miss_duration");
    reveal_strlit("miss_preset");
    assert("perfect_enable"@[0] == 'p');
    assert("perfect_delta"@[0] == 'p');
    assert("perfect_strength"@[0] == 'p');
    assert("perfect_duration"@[0] == 'p');
    assert("perfect_preset"@[0] == 'p');
    assert("good_enable"@[0] == 'g');
    assert("good_delta"@[0] == 'g');
    assert("good_strength"@[0] == 'g');
    assert("good_duration"@[0] == 'g');
    assert("good_preset"@[0] == 'g');
    assert("bad_enable"@[0] == 'b');
    assert("bad_delta"@[0] == 'b');
    assert("bad_strength"@[0] == 'b');
    assert("bad_duration"@[0] == 'b');
    assert("bad_preset"@[0] == 'b');
    assert("miss_enable"@[0] == 'm');
    assert("miss_delta"@[0] == 'm');
    assert("miss_strength"@[0] == 'm');
    assert("miss_duration"@[0] == 'm');
    assert("miss_preset"@[0] == 'm');
    assert("channel"@[0] == 'c');
    assert("throttle_ms"@[0] == 't');
    assert("perfect_enable"@[8] == 'e');
    assert("perfect_strength"@[8] == 's');
    assert("perfect_delta"@[8] == 'd');
    assert("perfect_duration"@[8] == 'd');
    assert("perfect_delta"@.len() != "perfect_duration"@.len());
    assert("perfect_preset"@[8] == 'p');
    assert("good_enable"@[5] == 'e');
    assert("good_strength"@[5] == 's');
    assert("good_delta"@[5] == 'd');
    assert("good_duration"@[5] == 'd');
    assert("good_delta"@.len() != "good_duration"@.len());
    assert("good_preset"@[5] == 'p');
    assert("bad_enable"@[4] == 'e');
    assert("bad_strength"@[4] == 's');
    assert("bad_delta"@[4] == 'd');
    assert("bad_duration"@[4] == 'd');
    assert("bad_delta"@.len() != "bad_duration"@.len());
    assert("bad_preset"@[4] == 'p');
    assert("miss_enable"@[5] == 'e');
    assert("miss_strength"@[5] == 's');
    assert("miss_delta"@[5] == 'd');
    assert("miss_duration"@[5] == 'd');
    assert("miss_delta"@.len() != "miss_duration"@.len());
    assert("miss_preset"@[5] == 'p');
}

/// The integer of 32 bits with a sign that agrees with an integer in its lower 32 bits.
pub open spec fn signed_32(n: int) -> int {
    let low = n % 0x1_0000_0000;
    if low < 0x8000_0000 {
        low
    } else {
        low - 0x1_0000_0000
    }
}

/// Cutting an integer to 32 bits keeps it where it fits, and else keeps its lower 32 bits.
proof fn cut_to_32_bits(n: i64, m: u64, s: u32)
    ensures
        (n as i32) as int == signed_32(n as int),
        (m as u32) as int == m % 0x1_0000_0000,
        (s as i32) as int == signed_32(s as int),
{
    assert((m as u32) == m % 0x1_0000_0000) by (bit_vector);
    let low: u32 = n as u32;
    assert(n as i32 == (n as u32) as i32) by (bit_vector);
    assert(n >= 0 ==> (n as u32) == n % 0x1_0000_0000) by (bit_vector);
    assert(n < 0 ==> ((n + 0x8000_0000_0000_0000) as u64) as u32 == n as u32) by (bit_vector);
    if n < 0 {
        let up: u64 = (n + 0x8000_0000_0000_0000) as u64;
        assert((up as u32) == up % 0x1_0000_0000) by (bit_vector);
        assert(up == n + 0x8000_0000_0000_0000);
    }
    assert(low == n % 0x1_0000_0000);
    assert(low < 0x8000_0000u32 ==> low as i32 == low) by (bit_vector);
    assert(low >= 0x8000_0000u32 ==> low as i32 == low - 0x1_0000_0000) by (bit_vector);
    assert(s < 0x8000_0000u32 ==> s as i32 == s) by (bit_vector);
    assert(s >= 0x8000_0000u32 ==> s as i32 == s - 0x1_0000_0000) by (bit_vector);
}

/// Each setting of the game becomes the parameter of the same grade and the same meaning, and
/// depends on no other setting. A strength counts by its lower 32 bits, so that every strength up
/// to `i32::MAX` counts as it is.
pub proof fn each_setting_becomes_its_parameter(cfg: Config)
    ensures
        mapping::mapping_of_config(cfg).channel == cfg.channel@,
        mapping::mapping_of_config(cfg).throttle_ms == cfg.throttle_ms,
        mapping::mapping_of_config(cfg).throttle_miss == cfg.throttle_miss,
        mapping::mapping_of_config(cfg).perfect.enable == cfg.perfect.enable,
        mapping::mapping_of_config(cfg).perfect.delta == signed_32(cfg.perfect.strength as int),
        mapping::mapping_of_config(cfg).perfect.duration == cfg.perfect.duration@,
        mapping::mapping_of_config(cfg).perfect.preset == cfg.perfect.preset@,
        mapping::mapping_of_config(cfg).good.enable == cfg.good.enable,
        mapping::mapping_of_config(cfg).good.delta == signed_32(cfg.good.strength as int),
        mapping::mapping_of_config(cfg).good.duration == cfg.good.duration@,
        mapping::mapping_of_config(cfg).good.preset == cfg.good.preset@,
        mapping::mapping_of_config(cfg).bad.enable == cfg.bad.enable,
        mapping::mapping_of_config(cfg).bad.delta == signed_32(cfg.bad.strength as int),
        mapping::mapping_of_config(cfg).bad.duration == cfg.bad.duration@,
        mapping::mapping_of_config(cfg).bad.preset == cfg.bad.preset@,
        mapping::mapping_of_config(cfg).miss.enable == cfg.miss.enable,
        mapping::mapping_of_config(cfg).miss.delta == signed_32(cfg.miss.strength as int),
        mapping::mapping_of_config(cfg).miss.duration == cfg.miss.duration@,
        mapping::mapping_of_config(cfg).miss.preset == cfg.miss.preset@,
{
    cut_to_32_bits(0, 0, cfg.perfect.strength);
    cut_to_32_bits(0, 0, cfg.good.strength);
    cut_to_32_bits(0, 0, cfg.bad.strength);
    cut_to_32_bits(0, 0, cfg.miss.strength);
}

/// A trigger by the settings of the game: a grade that is switched on sends one, with the strength,
/// the duration and the waveform of the setting of that grade, and one that is switched off sends
/// none.
pub proof fn triggers_follow_the_settings(cfg: Config)
    ensures
        ({
            let mapping = mapping::mapping_of_config(cfg);
            &&& cfg.perfect.enable ==> {
                let trigger = mapping.trigger(Grade::Perfect);
                &&& trigger is Some
                &&& trigger->0.member("delta_pct"@) == Some(
                    JsonModel::Number(NumberModel::Int(signed_32(cfg.perfect.strength as int))),
                )
                &&& trigger->0.member("duration_s"@) == Some(
                    JsonModel::Number(NumberModel::Float(cfg.perfect.duration@)),
                )
                &&& trigger->0.member("preset"@) == if cfg.perfect.preset@.len() > 0 {
                    Some(JsonModel::String(cfg.perfect.preset@))
                } else {
                    None
                }
                &&& trigger->0.member("label"@) == Some(JsonModel::String("Perfect"@))
            }
            &&& !cfg.perfect.enable ==> mapping.trigger(Grade::Perfect) is None
            &&& cfg.good.enable ==> {
                let trigger = mapping.trigger(Grade::Good);
                &&& trigger is Some
                &&& trigger->0.member("delta_pct"@) == Some(
                    JsonModel::Number(NumberModel::Int(signed_32(cfg.good.strength as int))),
                )
                &&& trigger->0.member("duration_s"@) == Some(
                    JsonModel::Number(NumberModel::Float(cfg.good.duration@)),
                )
                &&& trigger->0.member("preset"@) == if cfg.good.preset@.len() > 0 {
                    Some(JsonModel::String(cfg.good.preset@))
                } else {
                    None
                }
                &&& trigger->0.member("label"@) == Some(JsonModel::String("Good"@))
            }
            &&& !cfg.good.enable ==> mapping.trigger(Grade::Good) is None
            &&& cfg.bad.enable ==> {
                let trigger = mapping.trigger(Grade::Bad);
                &&& trigger is Some
                &&& trigger->0.member("delta_pct"@) == Some(
                    JsonModel::Number(NumberModel::Int(signed_32(cfg.bad.strength as int))),
                )
                &&& trigger->0.member("duration_s"@) == Some(
                    JsonModel::Number(NumberModel::Float(cfg.bad.duration@)),
                )
                &&& trigger->0.member("preset"@) == if cfg.bad.preset@.len() > 0 {
                    Some(JsonModel::String(cfg.bad.preset@))
                } else {
                    None
                }
                &&& trigger->0.member("label"@) == Some(JsonModel::String("Bad"@))
            }
            &&& !cfg.bad.enable ==> mapping.trigger(Grade::Bad) is None
            &&& cfg.miss.enable ==> {
                let trigger = mapping.trigger(Grade::Miss);
                &&& trigger is Some
                &&& trigger->0.member("delta_pct"@) == Some(
                    JsonModel::Number(NumberModel::Int(signed_32(cfg.miss.strength as int))),
                )
                &&& trigger->0.member("duration_s"@) == Some(
                    JsonModel::Number(NumberModel::Float(cfg.miss.duration@)),
                )
                &&& trigger->0.member("preset"@) == if cfg.miss.preset@.len() > 0 {
                    Some(JsonModel::String(cfg.miss.preset@))
                } else {
                    None
                }
                &&& trigger->0.member("label"@) == Some(JsonModel::String("Miss"@))
            }
            &&& !cfg.miss.enable ==> mapping.trigger(Grade::Miss) is None
        }),
{
    each_setting_becomes_its_parameter(cfg);
    trigger_keys_are_distinct();
}

/// Whether a message, if there is one, is the trigger of a grade with these parameters: there is
/// one exactly when the grade is enabled, and it has these members and no others.
pub open spec fn says(
    trigger: Option<JsonModel>,
    cfg: GradeCfgModel,
    channel: Seq<char>,
    label: Seq<char>,
) -> bool {
    &&& trigger is Some <==> cfg.enable
    &&& trigger matches Some(message) ==> {
        &&& message is Object
        &&& message.member("op"@) == Some(JsonModel::String("trigger"@))
        &&& message.member("action"@) == Some(
            JsonModel::String(
                if cfg.preset.len() > 0 {
                    "both"@
                } else {
                    "strength"@
                },
            ),
        )
        &&& message.member("delta_pct"@) == Some(
            JsonModel::Number(NumberModel::Int(cfg.delta as int)),
        )
        &&& message.member("strength_mode"@) == Some(JsonModel::String("rollback"@))
        &&& message.member("duration_s"@) == Some(
            JsonModel::Number(NumberModel::Float(cfg.duration)),
        )
        &&& message.member("channel"@) == Some(
            JsonModel::String(
                if channel.len() > 0 {
                    channel
                } else {
                    "both"@
                },
            ),
        )
        &&& message.member("label"@) == Some(JsonModel::String(label))
        &&& message.member("preset"@) == if cfg.preset.len() > 0 {
            Some(JsonModel::String(cfg.preset))
        } else {
            None
        }
        &&& message->Object_0.dom().subset_of(protocol_members())
    }
}

/// The trigger of each grade says what is set for that grade, under its own name.
pub proof fn each_trigger_says_what_is_set_for_its_grade(mapping: MappingModel)
    ensures
        says(mapping.trigger(Grade::Perfect), mapping.perfect, mapping.channel, "Perfect"@),
        says(mapping.trigger(Grade::Good), mapping.good, mapping.channel, "Good"@),
        says(mapping.trigger(Grade::Bad), mapping.bad, mapping.channel, "Bad"@),
        says(mapping.trigger(Grade::Miss), mapping.miss, mapping.channel, "Miss"@),
{
    trigger_keys_are_distinct();
}

/// Every key sets its own parameter to the value that is given for it, and nothing else. A strength
/// of 32 bits counts as it is.
pub proof fn each_key_sets_its_parameter(
    mapping: MappingModel,
    enable: bool,
    n: i32,
    text: Seq<char>,
)
    ensures
        ({
            let whole = JsonModel::Number(NumberModel::Int(n as int));
            &&& mapping.updated_one("perfect_enable"@, JsonModel::Bool(enable)) == MappingModel {
                perfect: GradeCfgModel { enable: enable, ..mapping.perfect },
                ..mapping
            }
            &&& mapping.updated_one("perfect_delta"@, JsonModel::Number(NumberModel::Int(n as int))) == MappingModel {
                perfect: GradeCfgModel { delta: n, ..mapping.perfect },
                ..mapping
            }
            &&& mapping.updated_one("perfect_strength"@, JsonModel::Number(NumberModel::Int(n as int))) == MappingModel {
                perfect: GradeCfgModel { delta: n, ..mapping.perfect },
                ..mapping
            }
            &&& mapping.updated_one("perfect_duration"@, JsonModel::Number(NumberModel::Float(text))) == MappingModel {
                perfect: GradeCfgModel { duration: text, ..mapping.perfect },
                ..mapping
            }
            &&& mapping.updated_one("perfect_preset"@, JsonModel::String(text)) == MappingModel {
                perfect: GradeCfgModel { preset: text, ..mapping.perfect },
                ..mapping
            }
            &&& mapping.updated_one("good_enable"@, JsonModel::Bool(enable)) == MappingModel {
                good: GradeCfgModel { enable: enable, ..mapping.good },
                ..mapping
            }
            &&& mapping.updated_one("good_delta"@, JsonModel::Number(NumberModel::Int(n as int))) == MappingModel {
                good: GradeCfgModel { delta: n, ..mapping.good },
                ..mapping
            }
            &&& mapping.updated_one("good_strength"@, JsonModel::Number(NumberModel::Int(n as int))) == MappingModel {
                good: GradeCfgModel { delta: n, ..mapping.good },
                ..mapping
            }
            &&& mapping.updated_one("good_duration"@, JsonModel::Number(NumberModel::Float(text))) == MappingModel {
                good: GradeCfgModel { duration: text, ..mapping.good },
                ..mapping
            }
            &&& mapping.updated_one("good_preset"@, JsonModel::String(text)) == MappingModel {
                good: GradeCfgModel { preset: text, ..mapping.good },
                ..mapping
            }
            &&& mapping.updated_one("bad_enable"@, JsonModel::Bool(enable)) == MappingModel {
                bad: GradeCfgModel { enable: enable, ..mapping.bad },
                ..mapping
            }
            &&& mapping.updated_one("bad_delta"@, JsonModel::Number(NumberModel::Int(n as int))) == MappingModel {
                bad: GradeCfgModel { delta: n, ..mapping.bad },
                ..mapping
            }
            &&& mapping.updated_one("bad_strength"@, JsonModel::Number(NumberModel::Int(n as int))) == MappingModel {
                bad: GradeCfgModel { delta: n, ..mapping.bad },
                ..mapping
            }
            &&& mapping.updated_one("bad_duration"@, JsonModel::Number(NumberModel::Float(text))) == MappingModel {
                bad: GradeCfgModel { duration: text, ..mapping.bad },
                ..mapping
            }
            &&& mapping.updated_one("bad_preset"@, JsonModel::String(text)) == MappingModel {
                bad: GradeCfgModel { preset: text, ..mapping.bad },
                ..mapping
            }
            &&& mapping.updated_one("miss_enable"@, JsonModel::Bool(enable)) == MappingModel {
                miss: GradeCfgModel { enable: enable, ..mapping.miss },
                ..mapping
            }
            &&& mapping.updated_one("miss_delta"@, JsonModel::Number(NumberModel::Int(n as int))) == MappingModel {
                miss: GradeCfgModel { delta: n, ..mapping.miss },
                ..mapping
            }
            &&& mapping.updated_one("miss_strength"@, JsonModel::Number(NumberModel::Int(n as int))) == MappingModel {
                miss: GradeCfgModel { delta: n, ..mapping.miss },
                ..mapping
            }
            &&& mapping.updated_one("miss_duration"@, JsonModel::Number(NumberModel::Float(text))) == MappingModel {
                miss: GradeCfgModel { duration: text, ..mapping.miss },
                ..mapping
            }
            &&& mapping.updated_one("miss_preset"@, JsonModel::String(text)) == MappingModel {
                miss: GradeCfgModel { preset: text, ..mapping.miss },
                ..mapping
            }
            &&& mapping.updated_one("perfect_duration"@, whole) == MappingModel {
                perfect: GradeCfgModel { duration: crate::text::integer_text(n as int), ..mapping.perfect },
                ..mapping
            }
            &&& mapping.updated_one("good_duration"@, whole) == MappingModel {
                good: GradeCfgModel { duration: crate::text::integer_text(n as int), ..mapping.good },
                ..mapping
            }
            &&& mapping.updated_one("bad_duration"@, whole) == MappingModel {
                bad: GradeCfgModel { duration: crate::text::integer_text(n as int), ..mapping.bad },
                ..mapping
            }
            &&& mapping.updated_one("miss_duration"@, whole) == MappingModel {
                miss: GradeCfgModel { duration: crate::text::integer_text(n as int), ..mapping.miss },
                ..mapping
            }
        }),
{
    keys_are_distinct();
    a_key_names_one_parameter("perfect_enable"@);
    a_key_names_one_parameter("perfect_delta"@);
    a_key_names_one_parameter("perfect_strength"@);
    a_key_names_one_parameter("perfect_duration"@);
    a_key_names_one_parameter("perfect_preset"@);
    a_key_names_one_parameter("good_enable"@);
    a_key_names_one_parameter("good_delta"@);
    a_key_names_one_parameter("good_strength"@);
    a_key_names_one_parameter("good_duration"@);
    a_key_names_one_parameter("good_preset"@);
    a_key_names_one_parameter("bad_enable"@);
    a_key_names_one_parameter("bad_delta"@);
    a_key_names_one_parameter("bad_strength"@);
    a_key_names_one_parameter("bad_duration"@);
    a_key_names_one_parameter("bad_preset"@);
    a_key_names_one_parameter("miss_enable"@);
    a_key_names_one_parameter("miss_delta"@);
    a_key_names_one_parameter("miss_strength"@);
    a_key_names_one_parameter("miss_duration"@);
    a_key_names_one_parameter("miss_preset"@);
}

/// The channel is set to any name that is not empty, and the interval to any number of
/// milliseconds that fits in 32 bits, as it is; a larger one counts by its lower 32 bits.
pub proof fn the_channel_and_the_interval_are_set(
    mapping: MappingModel,
    name: Seq<char>,
    n: int,
)
    ensures
        mapping.updated_one("channel"@, JsonModel::String(name)) == if name.len() > 0 {
            MappingModel { channel: name, ..mapping }
        } else {
            mapping
        },
        0 <= n <= u32::MAX ==> mapping.updated_one(
            "throttle_ms"@,
            JsonModel::Number(NumberModel::Int(n)),
        ) == (MappingModel { throttle_ms: n as u32, ..mapping }),
        0 <= n <= u64::MAX ==> mapping.updated_one(
            "throttle_ms"@,
            JsonModel::Number(NumberModel::Int(n)),
        ).throttle_ms == n % 0x1_0000_0000,
        n < 0 || n > u64::MAX ==> mapping.updated_one(
            "throttle_ms"@,
            JsonModel::Number(NumberModel::Int(n)),
        ) == mapping,
{
    a_key_names_one_parameter("channel"@);
    a_key_names_one_parameter("throttle_ms"@);
    if 0 <= n <= u64::MAX {
        cut_to_32_bits(0, n as u64, 0);
    }
}

/// A strength of 64 bits counts by its lower 32 bits, for every grade and under both of its keys,
/// and a larger one not at all.
pub proof fn a_large_strength_counts_by_its_lower_bits(
    mapping: MappingModel,
    n: int,
    key: Seq<char>,
)
    requires
        key == "perfect_delta"@
            || key == "perfect_strength"@
            || key == "good_delta"@
            || key == "good_strength"@
            || key == "bad_delta"@
            || key == "bad_strength"@
            || key == "miss_delta"@
            || key == "miss_strength"@,
    ensures
        ({
            let after = mapping.updated_one(key, JsonModel::Number(NumberModel::Int(n)));
            if i64::MIN <= n <= i64::MAX {
                &&& (key == "perfect_delta"@ || key == "perfect_strength"@) ==> after == (MappingModel {
                    perfect: GradeCfgModel { delta: signed_32(n) as i32, ..mapping.perfect },
                    ..mapping
                })
                &&& (key == "good_delta"@ || key == "good_strength"@) ==> after == (MappingModel {
                    good: GradeCfgModel { delta: signed_32(n) as i32, ..mapping.good },
                    ..mapping
                })
                &&& (key == "bad_delta"@ || key == "bad_strength"@) ==> after == (MappingModel {
                    bad: GradeCfgModel { delta: signed_32(n) as i32, ..mapping.bad },
                    ..mapping
                })
                &&& (key == "miss_delta"@ || key == "miss_strength"@) ==> after == (MappingModel {
                    miss: GradeCfgModel { delta: signed_32(n) as i32, ..mapping.miss },
                    ..mapping
                })
            } else {
                after == mapping
            }
        }),
{
    a_key_names_one_parameter(key);
    a_key_names_one_parameter("perfect_enable"@);
    a_key_names_one_parameter("perfect_delta"@);
    a_key_names_one_parameter("perfect_strength"@);
    a_key_names_one_parameter("perfect_duration"@);
    a_key_names_one_parameter("perfect_preset"@);
    a_key_names_one_parameter("good_enable"@);
    a_key_names_one_parameter("good_delta"@);
    a_key_names_one_parameter("good_strength"@);
    a_key_names_one_parameter("good_duration"@);
    a_key_names_one_parameter("good_preset"@);
    a_key_names_one_parameter("bad_enable"@);
    a_key_names_one_parameter("bad_delta"@);
    a_key_names_one_parameter("bad_strength"@);
    a_key_names_one_parameter("bad_duration"@);
    a_key_names_one_parameter("bad_preset"@);
    a_key_names_one_parameter("miss_enable"@);
    a_key_names_one_parameter("miss_delta"@);
    a_key_names_one_parameter("miss_strength"@);
    a_key_names_one_parameter("miss_duration"@);
    a_key_names_one_parameter("miss_preset"@);
    if i64::MIN <= n <= i64::MAX {
        cut_to_32_bits(n as i64, 0, 0);
    }
}

/// Whether a value is an integer.
pub open spec fn is_integer(value: JsonModel) -> bool {
    value matches JsonModel::Number(NumberModel::Int(_))
}

/// Whether a value is an integer of 64 bits.
pub open spec fn is_strength(value: JsonModel) -> bool {
    value matches JsonModel::Number(NumberModel::Int(n)) && i64::MIN <= n <= i64::MAX
}

/// A value that is not of the type of a parameter does not set it.
pub proof fn values_of_another_type_set_nothing(mapping: MappingModel, value: JsonModel)
    ensures
        !(value is String) ==> mapping.updated_one("channel"@, value) == mapping,
        !is_integer(value) ==> mapping.updated_one("throttle_ms"@, value) == mapping,
        !(value is Bool) ==> mapping.updated_one("perfect_enable"@, value) == mapping,
        !is_integer(value) ==> mapping.updated_one("perfect_delta"@, value) == mapping,
        !is_integer(value) ==> mapping.updated_one("perfect_strength"@, value) == mapping,
        !(value is Number) ==> mapping.updated_one("perfect_duration"@, value) == mapping,
        !(value is String) ==> mapping.updated_one("perfect_preset"@, value) == mapping,
        !(value is Bool) ==> mapping.updated_one("good_enable"@, value) == mapping,
        !is_integer(value) ==> mapping.updated_one("good_delta"@, value) == mapping,
        !is_integer(value) ==> mapping.updated_one("good_strength"@, value) == mapping,
        !(value is Number) ==> mapping.updated_one("good_duration"@, value) == mapping,
        !(value is String) ==> mapping.updated_one("good_preset"@, value) == mapping,
        !(value is Bool) ==> mapping.updated_one("bad_enable"@, value) == mapping,
        !is_integer(value) ==> mapping.updated_one("bad_delta"@, value) == mapping,
        !is_integer(value) ==> mapping.updated_one("bad_strength"@, value) == mapping,
        !(value is Number) ==> mapping.updated_one("bad_duration"@, value) == mapping,
        !(value is String) ==> mapping.updated_one("bad_preset"@, value) == mapping,
        !(value is Bool) ==> mapping.updated_one("miss_enable"@, value) == mapping,
        !is_integer(value) ==> mapping.updated_one("miss_delta"@, value) == mapping,
        !is_integer(value) ==> mapping.updated_one("miss_strength"@, value) == mapping,
        !(value is Number) ==> mapping.updated_one("miss_duration"@, value) == mapping,
        !(value is String) ==> mapping.updated_one("miss_preset"@, value) == mapping,
{
    keys_are_distinct();
    a_key_names_one_parameter("perfect_enable"@);
    a_key_names_one_parameter("perfect_delta"@);
    a_key_names_one_parameter("perfect_strength"@);
    a_key_names_one_parameter("perfect_duration"@);
    a_key_names_one_parameter("perfect_preset"@);
    a_key_names_one_parameter("good_enable"@);
    a_key_names_one_parameter("good_delta"@);
    a_key_names_one_parameter("good_strength"@);
    a_key_names_one_parameter("good_duration"@);
    a_key_names_one_parameter("good_preset"@);
    a_key_names_one_parameter("bad_enable"@);
    a_key_names_one_parameter("bad_delta"@);
    a_key_names_one_parameter("bad_strength"@);
    a_key_names_one_parameter("bad_duration"@);
    a_key_names_one_parameter("bad_preset"@);
    a_key_names_one_parameter("miss_enable"@);
    a_key_names_one_parameter("miss_delta"@);
    a_key_names_one_parameter("miss_strength"@);
    a_key_names_one_parameter("miss_duration"@);
    a_key_names_one_parameter("miss_preset"@);
    a_key_names_one_parameter("channel"@);
    a_key_names_one_parameter("throttle_ms"@);
}

/// Whether a key is one of the configuration.
pub open spec fn is_known(key: Seq<char>) -> bool {
    ||| key == "channel"@
    ||| key == "throttle_ms"@
    ||| key == "perfect_enable"@
    ||| key == "perfect_delta"@
    ||| key == "perfect_strength"@
    ||| key == "perfect_duration"@
    ||| key == "perfect_preset"@
    ||| key == "good_enable"@
    ||| key == "good_delta"@
    ||| key == "good_strength"@
    ||| key == "good_duration"@
    ||| key == "good_preset"@
    ||| key == "bad_enable"@
    ||| key == "bad_delta"@
    ||| key == "bad_strength"@
    ||| key == "bad_duration"@
    ||| key == "bad_preset"@
    ||| key == "miss_enable"@
    ||| key == "miss_delta"@
    ||| key == "miss_strength"@
    ||| key == "miss_duration"@
    ||| key == "miss_preset"@
}

/// A key that is not one of the configuration sets nothing, whatever is given for it.
pub proof fn unknown_keys_set_nothing(mapping: MappingModel, key: Seq<char>, value: JsonModel)
    requires
        !is_known(key),
    ensures
        mapping.updated_one(key, value) == mapping,
{
}

/// What is given for a key among others has the effect that it has alone: of each parameter a
/// configuration says what the change of that key would say.
pub proof fn a_configuration_sets_each_parameter(
    mapping: MappingModel,
    given: Map<Seq<char>, JsonModel>,
)
    ensures
        mapping.updated(given).throttle_miss == mapping.throttle_miss,
        mapping.updated(given).channel == if given.contains_key("channel"@) {
            mapping.updated_one("channel"@, given["channel"@]).channel
        } else {
            mapping.channel
        },
        mapping.updated(given).throttle_ms == if given.contains_key("throttle_ms"@) {
            mapping.updated_one("throttle_ms"@, given["throttle_ms"@]).throttle_ms
        } else {
            mapping.throttle_ms
        },
        mapping.updated(given).perfect.enable == if given.contains_key("perfect_enable"@) {
            mapping.updated_one("perfect_enable"@, given["perfect_enable"@]).perfect.enable
        } else {
            mapping.perfect.enable
        },
        mapping.updated(given).perfect.duration == if given.contains_key("perfect_duration"@) {
            mapping.updated_one("perfect_duration"@, given["perfect_duration"@]).perfect.duration
        } else {
            mapping.perfect.duration
        },
        mapping.updated(given).perfect.preset == if given.contains_key("perfect_preset"@) {
            mapping.updated_one("perfect_preset"@, given["perfect_preset"@]).perfect.preset
        } else {
            mapping.perfect.preset
        },
        mapping.updated(given).perfect.delta == if given.contains_key("perfect_strength"@)
            && is_strength(given["perfect_strength"@]) {
            mapping.updated_one("perfect_strength"@, given["perfect_strength"@]).perfect.delta
        } else if given.contains_key("perfect_delta"@) {
            mapping.updated_one("perfect_delta"@, given["perfect_delta"@]).perfect.delta
        } else {
            mapping.perfect.delta
        },
        mapping.updated(given).good.enable == if given.contains_key("good_enable"@) {
            mapping.updated_one("good_enable"@, given["good_enable"@]).good.enable
        } else {
            mapping.good.enable
        },
        mapping.updated(given).good.duration == if given.contains_key("good_duration"@) {
            mapping.updated_one("good_duration"@, given["good_duration"@]).good.duration
        } else {
            mapping.good.duration
        },
        mapping.updated(given).good.preset == if given.contains_key("good_preset"@) {
            mapping.updated_one("good_preset"@, given["good_preset"@]).good.preset
        } else {
            mapping.good.preset
        },
        mapping.updated(given).good.delta == if given.contains_key("good_strength"@)
            && is_strength(given["good_strength"@]) {
            mapping.updated_one("good_strength"@, given["good_strength"@]).good.delta
        } else if given.contains_key("good_delta"@) {
            mapping.updated_one("good_delta"@, given["good_delta"@]).good.delta
        } else {
            mapping.good.delta
        },
        mapping.updated(given).bad.enable == if given.contains_key("bad_enable"@) {
            mapping.updated_one("bad_enable"@, given["bad_enable"@]).bad.enable
        } else {
            mapping.bad.enable
        },
        mapping.updated(given).bad.duration == if given.contains_key("bad_duration"@) {
            mapping.updated_one("bad_duration"@, given["bad_duration"@]).bad.duration
        } else {
            mapping.bad.duration
        },
        mapping.updated(given).bad.preset == if given.contains_key("bad_preset"@) {
            mapping.updated_one("bad_preset"@, given["bad_preset"@]).bad.preset
        } else {
            mapping.bad.preset
        },
        mapping.updated(given).bad.delta == if given.contains_key("bad_strength"@)
            && is_strength(given["bad_strength"@]) {
            mapping.updated_one("bad_strength"@, given["bad_strength"@]).bad.delta
        } else if given.contains_key("bad_delta"@) {
            mapping.updated_one("bad_delta"@, given["bad_delta"@]).bad.delta
        } else {
            mapping.bad.delta
        },
        mapping.updated(given).miss.enable == if given.contains_key("miss_enable"@) {
            mapping.updated_one("miss_enable"@, given["miss_enable"@]).miss.enable
        } else {
            mapping.miss.enable
        },
        mapping.updated(given).miss.duration == if given.contains_key("miss_duration"@) {
            mapping.updated_one("miss_duration"@, given["miss_duration"@]).miss.duration
        } else {
            mapping.miss.duration
        },
        mapping.updated(given).miss.preset == if given.contains_key("miss_preset"@) {
            mapping.updated_one("miss_preset"@, given["miss_preset"@]).miss.preset
        } else {
            mapping.miss.preset
        },
        mapping.updated(given).miss.delta == if given.contains_key("miss_strength"@)
            && is_strength(given["miss_strength"@]) {
            mapping.updated_one("miss_strength"@, given["miss_strength"@]).miss.delta
        } else if given.contains_key("miss_delta"@) {
            mapping.updated_one("miss_delta"@, given["miss_delta"@]).miss.delta
        } else {
            mapping.miss.delta
        },
{
    keys_are_distinct();
    a_key_names_one_parameter("perfect_enable"@);
    a_key_names_one_parameter("perfect_delta"@);
    a_key_names_one_parameter("perfect_strength"@);
    a_key_names_one_parameter("perfect_duration"@);
    a_key_names_one_parameter("perfect_preset"@);
    a_key_names_one_parameter("good_enable"@);
    a_key_names_one_parameter("good_delta"@);
    a_key_names_one_parameter("good_strength"@);
    a_key_names_one_parameter("good_duration"@);
    a_key_names_one_parameter("good_preset"@);
    a_key_names_one_parameter("bad_enable"@);
    a_key_names_one_parameter("bad_delta"@);
    a_key_names_one_parameter("bad_strength"@);
    a_key_names_one_parameter("bad_duration"@);
    a_key_names_one_parameter("bad_preset"@);
    a_key_names_one_parameter("miss_enable"@);
    a_key_names_one_parameter("miss_delta"@);
    a_key_names_one_parameter("miss_strength"@);
    a_key_names_one_parameter("miss_duration"@);
    a_key_names_one_parameter("miss_preset"@);
    a_key_names_one_parameter("channel"@);
    a_key_names_one_parameter("throttle_ms"@);
}

/// The parameters of a mapping are what it holds.
pub proof fn a_mapping_is_what_it_holds(mapping: Mapping, cfg: GradeCfg)
    ensures
        mapping@.channel == mapping.channel@,
        mapping@.throttle_ms == mapping.throttle_ms,
        mapping@.throttle_miss == mapping.throttle_miss,
        mapping@.perfect == mapping.perfect@,
        mapping@.good == mapping.good@,
        mapping@.bad == mapping.bad@,
        mapping@.miss == mapping.miss@,
        cfg@.enable == cfg.enable,
        cfg@.delta == cfg.delta,
        cfg@.duration == cfg.duration@,
        cfg@.preset == cfg.preset@,
{
}

} // verus!
