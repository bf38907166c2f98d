//! The mapping from grades to triggers.
use crate::grade::Grade;
use crate::json::{Json, JsonModel, Members, NumberModel};
use crate::text;
use vstd::prelude::*;

pub mod laws;

verus! {

/// The settings of one grade, as the game keeps them.
#[derive(Clone, Debug)]
pub struct GradeSetting {
    pub enable: bool,
    /// Percent of the baseline.
    pub strength: u32,
    /// Seconds, in decimal.
    pub duration: String,
    /// The name of a waveform, or nothing.
    pub preset: String,
}

/// The settings of the game that concern the hub.
#[derive(Clone, Debug)]
pub struct Config {
    pub enable: bool,
    pub host: String,
    pub port: u16,
    pub token: String,
    /// Whether the mapping below holds against the configuration that the hub sends.
    pub use_phira_config: bool,
    pub channel: String,
    pub throttle_ms: u32,
    /// Whether misses are throttled like the other grades.
    pub throttle_miss: bool,
    pub perfect: GradeSetting,
    pub good: GradeSetting,
    pub bad: GradeSetting,
    pub miss: GradeSetting,
}

/// What a hit of one grade triggers.
#[derive(Debug)]
pub struct GradeCfg {
    pub enable: bool,
    /// Percent of the baseline by which the strength changes.
    pub delta: i32,
    /// Seconds, in decimal.
    pub duration: String,
    /// The name of a waveform, or nothing.
    pub preset: String,
}

/// What each grade triggers.
#[derive(Debug)]
pub struct Mapping {
    pub channel: String,
    pub throttle_ms: u32,
    pub throttle_miss: bool,
    pub perfect: GradeCfg,
    pub good: GradeCfg,
    pub bad: GradeCfg,
    pub miss: GradeCfg,
}

/// What a hit of one grade triggers.
#[verifier::ext_equal]
pub struct GradeCfgModel {
    pub enable: bool,
    pub delta: i32,
    pub duration: Seq<char>,
    pub preset: Seq<char>,
}

/// What each grade triggers.
#[verifier::ext_equal]
pub struct MappingModel {
    pub channel: Seq<char>,
    pub throttle_ms: u32,
    pub throttle_miss: bool,
    pub perfect: GradeCfgModel,
    pub good: GradeCfgModel,
    pub bad: GradeCfgModel,
    pub miss: GradeCfgModel,
}

impl View for GradeCfg {
    type V = GradeCfgModel;

    open spec fn view(&self) -> GradeCfgModel {
        GradeCfgModel {
            enable: self.enable,
            delta: self.delta,
            duration: self.duration@,
            preset: self.preset@,
        }
    }
}

impl View for Mapping {
    type V = MappingModel;

    open spec fn view(&self) -> MappingModel {
        MappingModel {
            channel: self.channel@,
            throttle_ms: self.throttle_ms,
            throttle_miss: self.throttle_miss,
            perfect: self.perfect@,
            good: self.good@,
            bad: self.bad@,
            miss: self.miss@,
        }
    }
}

/// The trigger parameters that the settings of one grade stand for.
pub open spec fn grade_of_setting(setting: GradeSetting) -> GradeCfgModel {
    GradeCfgModel {
        enable: setting.enable,
        delta: setting.strength as i32,
        duration: setting.duration@,
        preset: setting.preset@,
    }
}

/// The mapping that the settings of the game stand for.
pub open spec fn mapping_of_config(cfg: Config) -> MappingModel {
    MappingModel {
        channel: cfg.channel@,
        throttle_ms: cfg.throttle_ms,
        throttle_miss: cfg.throttle_miss,
        perfect: grade_of_setting(cfg.perfect),
        good: grade_of_setting(cfg.good),
        bad: grade_of_setting(cfg.bad),
        miss: grade_of_setting(cfg.miss),
    }
}

/// The parameters of a grade by these values.
pub open spec fn grade_parameters(
    enable: bool,
    delta: i32,
    duration: Seq<char>,
    preset: Seq<char>,
) -> GradeCfgModel {
    GradeCfgModel { enable, delta, duration, preset }
}

/// The mapping of a game in which nothing was set: only mistakes are felt.
pub open spec fn default_mapping() -> MappingModel {
    MappingModel {
        channel: "both"@,
        throttle_ms: 80,
        throttle_miss: false,
        perfect: grade_parameters(false, 10, "1.0"@, ""@),
        good: grade_parameters(false, 20, "1.0"@, ""@),
        bad: grade_parameters(true, 35, "1.0"@, "CS2-受伤"@),
        miss: grade_parameters(true, 60, "1.5"@, "CS2-受伤"@),
    }
}

/// The new value where there is one, else the old one.
pub open spec fn or_old<T>(new: Option<T>, old: T) -> T {
    match new {
        Some(value) => value,
        None => old,
    }
}

/// What is given for a key, where it is of the type that `read` reads; else the old value.
pub open spec fn given_or_old<T>(
    given: Map<Seq<char>, JsonModel>,
    key: Seq<char>,
    read: spec_fn(JsonModel) -> Option<T>,
    old: T,
) -> T {
    if given.contains_key(key) {
        or_old(read(given[key]), old)
    } else {
        old
    }
}

/// A channel: a string that is not empty.
pub open spec fn channel_name(value: JsonModel) -> Option<Seq<char>> {
    match value.string() {
        Some(name) => if name.len() > 0 {
            Some(name)
        } else {
            None
        },
        None => None,
    }
}

/// An interval in milliseconds: an integer that is not negative, in its lower 32 bits.
pub open spec fn interval(value: JsonModel) -> Option<u32> {
    match value.unsigned() {
        Some(n) => Some(n as u32),
        None => None,
    }
}

/// A strength in percent: an integer, in its lower 32 bits.
pub open spec fn percent(value: JsonModel) -> Option<i32> {
    match value.signed() {
        Some(n) => Some(n as i32),
        None => None,
    }
}

/// The keys under which the parameters of one grade are configured. The strength has two: on the
/// configuration page it is the grade's delta, in the settings of the game its strength.
pub struct GradeKeys {
    pub enable: Seq<char>,
    pub delta: Seq<char>,
    pub strength: Seq<char>,
    pub duration: Seq<char>,
    pub preset: Seq<char>,
}

impl GradeKeys {
    /// Whether no two of the keys are the same.
    pub open spec fn are_distinct(self) -> bool {
        &&& self.enable != self.delta
        &&& self.enable != self.strength
        &&& self.enable != self.duration
        &&& self.enable != self.preset
        &&& self.delta != self.strength
        &&& self.delta != self.duration
        &&& self.delta != self.preset
        &&& self.strength != self.duration
        &&& self.strength != self.preset
        &&& self.duration != self.preset
    }
}

/// The keys under which the parameters of a grade are configured.
pub open spec fn grade_keys(grade: Grade) -> GradeKeys {
    match grade {
        Grade::Perfect => GradeKeys {
            enable: "perfect_enable"@,
            delta: "perfect_delta"@,
            strength: "perfect_strength"@,
            duration: "perfect_duration"@,
            preset: "perfect_preset"@,
        },
        Grade::Good => GradeKeys {
            enable: "good_enable"@,
            delta: "good_delta"@,
            strength: "good_strength"@,
            duration: "good_duration"@,
            preset: "good_preset"@,
        },
        Grade::Bad => GradeKeys {
            enable: "bad_enable"@,
            delta: "bad_delta"@,
            strength: "bad_strength"@,
            duration: "bad_duration"@,
            preset: "bad_preset"@,
        },
        Grade::Miss => GradeKeys {
            enable: "miss_enable"@,
            delta: "miss_delta"@,
            strength: "miss_strength"@,
            duration: "miss_duration"@,
            preset: "miss_preset"@,
        },
    }
}

impl GradeCfgModel {
    /// The parameters after what is given under their keys. A strength counts before a delta.
    pub open spec fn updated(
        self,
        keys: GradeKeys,
        given: Map<Seq<char>, JsonModel>,
    ) -> GradeCfgModel {
        GradeCfgModel {
            enable: given_or_old(given, keys.enable, |v: JsonModel| v.boolean(), self.enable),
            delta: given_or_old(
                given,
                keys.strength,
                |v: JsonModel| percent(v),
                given_or_old(given, keys.delta, |v: JsonModel| percent(v), self.delta),
            ),
            duration: given_or_old(
                given,
                keys.duration,
                |v: JsonModel| v.number_text(),
                self.duration,
            ),
            preset: given_or_old(given, keys.preset, |v: JsonModel| v.string(), self.preset),
        }
    }
}

impl MappingModel {
    /// The parameters of a grade.
    pub open spec fn grade(self, grade: Grade) -> GradeCfgModel {
        match grade {
            Grade::Perfect => self.perfect,
            Grade::Good => self.good,
            Grade::Bad => self.bad,
            Grade::Miss => self.miss,
        }
    }

    /// The mapping after a configuration: every parameter that is given with a value of its type
    /// has that value, and all else stays.
    pub open spec fn updated(self, given: Map<Seq<char>, JsonModel>) -> MappingModel {
        MappingModel {
            channel: given_or_old(
                given,
                "channel"@,
                |v: JsonModel| channel_name(v),
                self.channel,
            ),
            throttle_ms: given_or_old(
                given,
                "throttle_ms"@,
                |v: JsonModel| interval(v),
                self.throttle_ms,
            ),
            throttle_miss: self.throttle_miss,
            perfect: self.perfect.updated(grade_keys(Grade::Perfect), given),
            good: self.good.updated(grade_keys(Grade::Good), given),
            bad: self.bad.updated(grade_keys(Grade::Bad), given),
            miss: self.miss.updated(grade_keys(Grade::Miss), given),
        }
    }

    /// The mapping after one configured parameter.
    pub open spec fn updated_one(self, key: Seq<char>, value: JsonModel) -> MappingModel {
        self.updated(Map::<Seq<char>, JsonModel>::empty().insert(key, value))
    }

    /// What a trigger does: with a waveform both, without one the strength alone.
    pub open spec fn action(self, grade: Grade) -> Seq<char> {
        if self.grade(grade).preset.len() == 0 {
            "strength"@
        } else {
            "both"@
        }
    }

    /// The channel on which triggers go out.
    pub open spec fn output_channel(self) -> Seq<char> {
        if self.channel.len() == 0 {
            "both"@
        } else {
            self.channel
        }
    }

    /// The members that every trigger has.
    pub open spec fn trigger_members(self, grade: Grade) -> Map<Seq<char>, JsonModel> {
        let cfg = self.grade(grade);
        map![
            "op"@ => JsonModel::String("trigger"@),
            "action"@ => JsonModel::String(self.action(grade)),
            "delta_pct"@ => JsonModel::Number(NumberModel::Int(cfg.delta as int)),
            "strength_mode"@ => JsonModel::String("rollback"@),
            "duration_s"@ => JsonModel::Number(NumberModel::Float(cfg.duration)),
            "channel"@ => JsonModel::String(self.output_channel()),
            "label"@ => JsonModel::String(grade.name()),
        ]
    }

    /// The message that a hit of a grade sends: none when the grade is disabled, and else a
    /// trigger, which names a waveform when the grade has one.
    pub open spec fn trigger(self, grade: Grade) -> Option<JsonModel> {
        let cfg = self.grade(grade);
        if !cfg.enable {
            None
        } else if cfg.preset.len() == 0 {
            Some(JsonModel::Object(self.trigger_members(grade)))
        } else {
            Some(
                JsonModel::Object(
                    self.trigger_members(grade).insert("preset"@, JsonModel::String(cfg.preset)),
                ),
            )
        }
    }
}

/// The text of the keys of one grade.
struct KeyTexts {
    enable: &'static str,
    delta: &'static str,
    strength: &'static str,
    duration: &'static str,
    preset: &'static str,
}

impl KeyTexts {
    spec fn model(self) -> GradeKeys {
        GradeKeys {
            enable: self.enable@,
            delta: self.delta@,
            strength: self.strength@,
            duration: self.duration@,
            preset: self.preset@,
        }
    }

    fn of_grade(grade: Grade) -> (r: KeyTexts)
        ensures
            r.model() == grade_keys(grade),
    {
        match grade {
            Grade::Perfect => KeyTexts {
                enable: "perfect_enable",
                delta: "perfect_delta",
                strength: "perfect_strength",
                duration: "perfect_duration",
                preset: "perfect_preset",
            },
            Grade::Good => KeyTexts {
                enable: "good_enable",
                delta: "good_delta",
                strength: "good_strength",
                duration: "good_duration",
                preset: "good_preset",
            },
            Grade::Bad => KeyTexts {
                enable: "bad_enable",
                delta: "bad_delta",
                strength: "bad_strength",
                duration: "bad_duration",
                preset: "bad_preset",
            },
            Grade::Miss => KeyTexts {
                enable: "miss_enable",
                delta: "miss_delta",
                strength: "miss_strength",
                duration: "miss_duration",
                preset: "miss_preset",
            },
        }
    }
}

impl GradeCfg {
    fn from_setting(setting: &GradeSetting) -> (r: GradeCfg)
        ensures
            r@ == grade_of_setting(*setting),
    {
        GradeCfg {
            enable: setting.enable,
            delta: #[verifier::truncate] (setting.strength as i32),
            duration: setting.duration.clone(),
            preset: setting.preset.clone(),
        }
    }

    fn set_enable(&mut self, value: &Json)
        ensures
            final(self)@ == (GradeCfgModel {
                enable: or_old(value@.boolean(), old(self)@.enable),
                ..old(self)@
            }),
    {
        if let Some(enable) = value.as_bool() {
            self.enable = enable;
        }
    }

    fn set_delta(&mut self, value: &Json)
        ensures
            final(self)@ == (GradeCfgModel {
                delta: or_old(percent(value@), old(self)@.delta),
                ..old(self)@
            }),
    {
        if let Some(strength) = value.as_i64() {
            self.delta = #[verifier::truncate] (strength as i32);
        }
    }

    fn set_duration(&mut self, value: &Json)
        ensures
            final(self)@ == (GradeCfgModel {
                duration: or_old(value@.number_text(), old(self)@.duration),
                ..old(self)@
            }),
    {
        if let Some(duration) = value.as_number_text() {
            self.duration = duration;
        }
    }

    fn set_preset(&mut self, value: &Json)
        ensures
            final(self)@ == (GradeCfgModel {
                preset: or_old(value@.string(), old(self)@.preset),
                ..old(self)@
            }),
    {
        if let Some(preset) = value.as_str() {
            self.preset = preset.to_owned();
        }
    }

    fn apply_one(&mut self, keys: KeyTexts, key: &str, value: &Json)
        ensures
            final(self)@ == old(self)@.updated(
                keys.model(),
                Map::<Seq<char>, JsonModel>::empty().insert(key@, value@),
            ),
    {
        if text::same_text(key, keys.enable) {
            self.set_enable(value);
        }
        if text::same_text(key, keys.delta) || text::same_text(key, keys.strength) {
            self.set_delta(value);
        }
        if text::same_text(key, keys.duration) {
            self.set_duration(value);
        }
        if text::same_text(key, keys.preset) {
            self.set_preset(value);
        }
    }

    fn apply_all(&mut self, keys: KeyTexts, given: &Members)
        ensures
            final(self)@ == old(self)@.updated(keys.model(), given@),
    {
        if let Some(value) = given.get(keys.enable) {
            self.set_enable(value);
        }
        if let Some(value) = given.get(keys.delta) {
            self.set_delta(value);
        }
        if let Some(value) = given.get(keys.strength) {
            self.set_delta(value);
        }
        if let Some(value) = given.get(keys.duration) {
            self.set_duration(value);
        }
        if let Some(value) = given.get(keys.preset) {
            self.set_preset(value);
        }
    }
}

impl Clone for GradeCfg {
    fn clone(&self) -> (r: Self)
        ensures
            r@ == self@,
    {
        GradeCfg {
            enable: self.enable,
            delta: self.delta,
            duration: self.duration.clone(),
            preset: self.preset.clone(),
        }
    }
}

impl Clone for Mapping {
    fn clone(&self) -> (r: Self)
        ensures
            r@ == self@,
    {
        Mapping {
            channel: self.channel.clone(),
            throttle_ms: self.throttle_ms,
            throttle_miss: self.throttle_miss,
            perfect: self.perfect.clone(),
            good: self.good.clone(),
            bad: self.bad.clone(),
            miss: self.miss.clone(),
        }
    }
}

fn grade_setting(enable: bool, strength: u32, duration: &str, preset: &str) -> (r: GradeSetting)
    ensures
        r.enable == enable,
        r.strength == strength,
        r.duration@ == duration@,
        r.preset@ == preset@,
{
    GradeSetting { enable, strength, duration: duration.to_owned(), preset: preset.to_owned() }
}

impl Default for Config {
    /// The settings of a game in which nothing was set: the hub is switched off, and it is the one
    /// of this machine; the mapping is the default one.
    fn default() -> (r: Self)
        ensures
            !r.enable,
            r.host@ == "127.0.0.1"@,
            r.port == 8765,
            r.token@ == ""@,
            !r.use_phira_config,
            mapping_of_config(r) == default_mapping(),
    {
        Config {
            enable: false,
            host: "127.0.0.1".to_owned(),
            port: 8765,
            token: "".to_owned(),
            use_phira_config: false,
            channel: "both".to_owned(),
            throttle_ms: 80,
            throttle_miss: false,
            perfect: grade_setting(false, 10, "1.0", ""),
            good: grade_setting(false, 20, "1.0", ""),
            bad: grade_setting(true, 35, "1.0", "CS2-受伤"),
            miss: grade_setting(true, 60, "1.5", "CS2-受伤"),
        }
    }
}

impl Default for Mapping {
    /// The mapping of a game in which nothing was set.
    fn default() -> (r: Self)
        ensures
            r@ == default_mapping(),
    {
        Mapping::from_config(&Config::default())
    }
}

impl Mapping {
    /// The mapping that the settings of the game stand for.
    pub fn from_config(cfg: &Config) -> (r: Mapping)
        ensures
            r@ == mapping_of_config(*cfg),
    {
        Mapping {
            channel: cfg.channel.clone(),
            throttle_ms: cfg.throttle_ms,
            throttle_miss: cfg.throttle_miss,
            perfect: GradeCfg::from_setting(&cfg.perfect),
            good: GradeCfg::from_setting(&cfg.good),
            bad: GradeCfg::from_setting(&cfg.bad),
            miss: GradeCfg::from_setting(&cfg.miss),
        }
    }

    /// The parameters of a grade.
    pub fn cfg(&self, grade: Grade) -> (r: &GradeCfg)
        ensures
            r@ == self@.grade(grade),
    {
        match grade {
            Grade::Perfect => &self.perfect,
            Grade::Good => &self.good,
            Grade::Bad => &self.bad,
            Grade::Miss => &self.miss,
        }
    }

    fn set_channel(&mut self, value: &Json)
        ensures
            final(self)@ == (MappingModel {
                channel: or_old(channel_name(value@), old(self)@.channel),
                ..old(self)@
            }),
    {
        if let Some(channel) = value.as_str() {
            if !channel.is_empty() {
                self.channel = channel.to_owned();
            }
        }
    }

    fn set_interval(&mut self, value: &Json)
        ensures
            final(self)@ == (MappingModel {
                throttle_ms: or_old(interval(value@), old(self)@.throttle_ms),
                ..old(self)@
            }),
    {
        if let Some(interval) = value.as_u64() {
            self.throttle_ms = #[verifier::truncate] (interval as u32);
        }
    }

    /// Takes over one configured parameter. A key that is unknown, or a value of another type
    /// than the parameter has, changes nothing.
    pub fn apply_one(&mut self, key: &str, value: &Json)
        ensures
            final(self)@ == old(self)@.updated_one(key@, value@),
    {
        if text::same_text(key, "channel") {
            self.set_channel(value);
        }
        if text::same_text(key, "throttle_ms") {
            self.set_interval(value);
        }
        self.miss.apply_one(KeyTexts::of_grade(Grade::Miss), key, value);
        self.bad.apply_one(KeyTexts::of_grade(Grade::Bad), key, value);
        self.good.apply_one(KeyTexts::of_grade(Grade::Good), key, value);
        self.perfect.apply_one(KeyTexts::of_grade(Grade::Perfect), key, value);
    }

    /// Takes over every parameter of a configuration.
    pub fn apply_all(&mut self, given: &Members)
        ensures
            final(self)@ == old(self)@.updated(given@),
    {
        if let Some(value) = given.get("channel") {
            self.set_channel(value);
        }
        if let Some(value) = given.get("throttle_ms") {
            self.set_interval(value);
        }
        self.miss.apply_all(KeyTexts::of_grade(Grade::Miss), given);
        self.bad.apply_all(KeyTexts::of_grade(Grade::Bad), given);
        self.good.apply_all(KeyTexts::of_grade(Grade::Good), given);
        self.perfect.apply_all(KeyTexts::of_grade(Grade::Perfect), given);
    }

    /// The message that a hit of a grade sends, if it sends one.
    pub fn trigger(&self, grade: Grade) -> (r: Option<Json>)
        ensures
            (match r {
                Some(message) => self@.trigger(grade) == Some(message@),
                None => self@.trigger(grade) is None,
            }),
    {
        let cfg = self.cfg(grade);
        if !cfg.enable {
            return None;
        }
        let action = if cfg.preset.as_str().is_empty() {
            "strength"
        } else {
            "both"
        };
        let channel = if self.channel.as_str().is_empty() {
            "both"
        } else {
            self.channel.as_str()
        };
        let members = Members::new().with("op", Json::text("trigger")).with(
            "action",
            Json::text(action),
        ).with("delta_pct", Json::integer(cfg.delta as i64)).with(
            "strength_mode",
            Json::text("rollback"),
        ).with("duration_s", Json::float(cfg.duration.as_str())).with(
            "channel",
            Json::text(channel),
        ).with("label", Json::text(grade.label()));
        if cfg.preset.as_str().is_empty() {
            Some(Json::Object(members))
        } else {
            Some(Json::Object(members.with("preset", Json::text(cfg.preset.as_str()))))
        }
    }
}

} // verus!
