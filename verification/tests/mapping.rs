use dghub::grade::Grade;
use dghub::json::Json;
use dghub::mapping::{Config, GradeSetting, Mapping};

fn setting(enable: bool, strength: u32, duration: &str, preset: &str) -> GradeSetting {
    GradeSetting { enable, strength, duration: duration.to_owned(), preset: preset.to_owned() }
}

fn config() -> Config {
    Config {
        enable: true,
        host: "127.0.0.1".to_owned(),
        port: 8765,
        token: String::new(),
        use_phira_config: false,
        channel: "both".to_owned(),
        throttle_ms: 80,
        throttle_miss: false,
        perfect: setting(false, 10, "1.0", ""),
        good: setting(false, 20, "1.0", ""),
        bad: setting(true, 35, "1.0", "CS2-受伤"),
        miss: setting(true, 60, "1.5", "CS2-受伤"),
    }
}

fn trigger_text(mapping: &Mapping, grade: Grade) -> Option<String> {
    mapping.trigger(grade).map(|message| message.to_text())
}

#[test]
fn default_triggers_punish_mistakes_only() {
    let mapping = Mapping::from_config(&config());
    assert_eq!(trigger_text(&mapping, Grade::Perfect), None);
    assert_eq!(trigger_text(&mapping, Grade::Good), None);
    assert_eq!(
        trigger_text(&mapping, Grade::Bad).unwrap(),
        "{\"action\":\"both\",\"channel\":\"both\",\"delta_pct\":35,\"duration_s\":1.0,\"label\":\"Bad\",\
         \"op\":\"trigger\",\"preset\":\"CS2-受伤\",\"strength_mode\":\"rollback\"}"
    );
    assert_eq!(
        trigger_text(&mapping, Grade::Miss).unwrap(),
        "{\"action\":\"both\",\"channel\":\"both\",\"delta_pct\":60,\"duration_s\":1.5,\"label\":\"Miss\",\
         \"op\":\"trigger\",\"preset\":\"CS2-受伤\",\"strength_mode\":\"rollback\"}"
    );
}

#[test]
fn without_a_waveform_only_the_strength_changes() {
    let mut cfg = config();
    cfg.good = setting(true, 20, "2", "");
    cfg.channel = String::new();
    let mapping = Mapping::from_config(&cfg);
    assert_eq!(
        trigger_text(&mapping, Grade::Good).unwrap(),
        "{\"action\":\"strength\",\"channel\":\"both\",\"delta_pct\":20,\"duration_s\":2.0,\"label\":\"Good\",\
         \"op\":\"trigger\",\"strength_mode\":\"rollback\"}"
    );
}

#[test]
fn settings_become_the_mapping() {
    let mut cfg = config();
    cfg.channel = "a".to_owned();
    cfg.throttle_ms = 7;
    cfg.throttle_miss = true;
    cfg.perfect = setting(true, u32::MAX, "0.5", "p");
    let mapping = Mapping::from_config(&cfg);
    assert_eq!(mapping.channel, "a");
    assert_eq!(mapping.throttle_ms, 7);
    assert!(mapping.throttle_miss);
    assert!(mapping.cfg(Grade::Perfect).enable);
    assert_eq!(mapping.cfg(Grade::Perfect).delta, -1);
    assert_eq!(mapping.cfg(Grade::Perfect).duration, "0.5");
    assert_eq!(mapping.cfg(Grade::Perfect).preset, "p");
    assert_eq!(mapping.cfg(Grade::Good).delta, 20);
    assert_eq!(mapping.cfg(Grade::Bad).delta, 35);
    assert_eq!(mapping.cfg(Grade::Miss).delta, 60);
}

#[test]
fn every_key_changes_its_parameter() {
    let mut mapping = Mapping::from_config(&config());
    let change = |mapping: &mut Mapping, key: &str, value: &str| {
        mapping.apply_one(key, &Json::parse(value).unwrap());
    };
    change(&mut mapping, "channel", "\"b\"");
    change(&mut mapping, "throttle_ms", "250");
    let grades =
        [("perfect", Grade::Perfect), ("good", Grade::Good), ("bad", Grade::Bad), ("miss", Grade::Miss)];
    for (i, (name, _)) in grades.iter().enumerate() {
        change(&mut mapping, &format!("{name}_enable"), "true");
        change(&mut mapping, &format!("{name}_strength"), &format!("{}", 10 * i as i64 - 5));
        change(&mut mapping, &format!("{name}_duration"), &format!("{i}.25"));
        change(&mut mapping, &format!("{name}_preset"), &format!("\"wave {i}\""));
    }
    assert_eq!(mapping.channel, "b");
    assert_eq!(mapping.throttle_ms, 250);
    for (i, (_, grade)) in grades.iter().enumerate() {
        let cfg = mapping.cfg(*grade);
        assert!(cfg.enable);
        assert_eq!(cfg.delta, 10 * i as i32 - 5);
        assert_eq!(cfg.duration, format!("{i}.25"));
        assert_eq!(cfg.preset, format!("wave {i}"));
    }
    change(&mut mapping, "bad_enable", "false");
    assert_eq!(trigger_text(&mapping, Grade::Bad), None);
    assert!(trigger_text(&mapping, Grade::Miss).is_some());
}

#[test]
fn values_of_another_type_change_nothing() {
    let mut mapping = Mapping::from_config(&config());
    let before = format!("{mapping:?}");
    for (key, value) in [
        ("channel", "\"\""),
        ("channel", "5"),
        ("throttle_ms", "-1"),
        ("throttle_ms", "1.0"),
        ("throttle_ms", "\"80\""),
        ("miss_enable", "1"),
        ("miss_enable", "\"true\""),
        ("miss_strength", "1.5"),
        ("miss_strength", "9223372036854775808"),
        ("miss_duration", "\"1.5\""),
        ("miss_duration", "null"),
        ("miss_preset", "null"),
        ("bad_preset", "[\"x\"]"),
    ] {
        mapping.apply_one(key, &Json::parse(value).unwrap());
        assert_eq!(format!("{mapping:?}"), before);
    }
}

#[test]
fn unknown_keys_change_nothing() {
    let mut mapping = Mapping::from_config(&config());
    let before = format!("{mapping:?}");
    for key in ["", "github_url", "Miss_enable", "miss_deltas", "miss", "throttle_miss"] {
        mapping.apply_one(key, &Json::Bool(false));
        mapping.apply_one(key, &Json::integer(1));
        mapping.apply_one(key, &Json::text("x"));
    }
    assert_eq!(format!("{mapping:?}"), before);
}

#[test]
fn large_integers_are_cut_to_their_lower_bits() {
    let mut mapping = Mapping::from_config(&config());
    mapping.apply_one("throttle_ms", &Json::parse("4294967301").unwrap());
    assert_eq!(mapping.throttle_ms, 5);
    mapping.apply_one("miss_strength", &Json::parse("4294967295").unwrap());
    assert_eq!(mapping.miss.delta, -1);
    mapping.apply_one("miss_strength", &Json::parse("-100").unwrap());
    assert_eq!(mapping.miss.delta, -100);
}

#[test]
fn an_empty_preset_is_taken_over() {
    let mut mapping = Mapping::from_config(&config());
    mapping.apply_one("miss_preset", &Json::text(""));
    let message = mapping.trigger(Grade::Miss).unwrap();
    assert_eq!(message.get_str("action"), Some("strength"));
    assert!(message.get("preset").is_none());
}

#[test]
fn a_whole_configuration_is_taken_over() {
    let mut mapping = Mapping::from_config(&config());
    let data = Json::parse(
        "{\"miss_strength\":80,\"good_enable\":true,\"channel\":\"a\",\"x\":1,\"bad_enable\":0}",
    )
    .unwrap();
    mapping.apply_all(data.as_object().unwrap());
    assert_eq!(mapping.miss.delta, 80);
    assert!(mapping.good.enable);
    assert_eq!(mapping.channel, "a");
    assert!(mapping.bad.enable);
    let once = format!("{mapping:?}");
    mapping.apply_all(data.as_object().unwrap());
    assert_eq!(format!("{mapping:?}"), once);
}

#[test]
fn the_later_change_stays_and_changes_commute() {
    let mut one = Mapping::from_config(&config());
    one.apply_one("miss_strength", &Json::integer(10));
    one.apply_one("miss_strength", &Json::integer(20));
    one.apply_one("miss_strength", &Json::text("30"));
    one.apply_one("bad_strength", &Json::integer(40));
    assert_eq!(one.miss.delta, 20);
    let mut other = Mapping::from_config(&config());
    other.apply_one("bad_strength", &Json::integer(40));
    other.apply_one("miss_strength", &Json::integer(20));
    assert_eq!(format!("{one:?}"), format!("{other:?}"));
}

#[test]
fn durations_are_sent_as_read() {
    let mut mapping = Mapping::from_config(&config());
    mapping.apply_one("miss_duration", &Json::parse("0.30").unwrap());
    assert!(trigger_text(&mapping, Grade::Miss).unwrap().contains("\"duration_s\":0.3,"));
    mapping.apply_one("miss_duration", &Json::parse("2").unwrap());
    assert!(trigger_text(&mapping, Grade::Miss).unwrap().contains("\"duration_s\":2.0,"));
    mapping.apply_one("miss_duration", &Json::parse("-7").unwrap());
    assert!(trigger_text(&mapping, Grade::Miss).unwrap().contains("\"duration_s\":-7.0,"));
}

#[test]
fn a_strength_goes_by_two_names() {
    for (name, grade) in
        [("perfect", Grade::Perfect), ("good", Grade::Good), ("bad", Grade::Bad), ("miss", Grade::Miss)]
    {
        let mut mapping = Mapping::from_config(&config());
        mapping.apply_one(&format!("{name}_delta"), &Json::integer(-12));
        assert_eq!(mapping.cfg(grade).delta, -12);
        mapping.apply_one(&format!("{name}_strength"), &Json::integer(13));
        assert_eq!(mapping.cfg(grade).delta, 13);
        mapping.apply_one(&format!("{name}_delta"), &Json::float("14.5"));
        assert_eq!(mapping.cfg(grade).delta, 13);
    }
    let mut mapping = Mapping::from_config(&config());
    let data = Json::parse("{\"miss_strength\":1,\"miss_delta\":2,\"bad_delta\":3}").unwrap();
    mapping.apply_all(data.as_object().unwrap());
    assert_eq!(mapping.miss.delta, 1);
    assert_eq!(mapping.bad.delta, 3);
}
