use dghub::grade::Grade;
use dghub::hello::hello_message;
use dghub::json::Json;
use dghub::mapping::{Config, GradeSetting, Mapping};

const GREETING: &str = r#"{
    "op": "hello",
    "token": "secret",
    "manifest": {
        "id": "phira",
        "name": "Phira 判定联动",
        "version": "0.6.7",
        "sdk": "1",
        "author": "phira",
        "description": "把 Phira 的 Perfect/Good/Bad/Miss 判定映射为电击触发。",
        "config_schema": [
            { "section": "通用", "fields": [
                { "key": "github_url", "type": "text", "label": "GitHub 链接", "default": "https://github.com/pingfanH/phigrab", "description": "仅展示，可复制" },
                { "key": "channel", "type": "channel", "label": "输出通道", "default": "both" },
                { "key": "throttle_ms", "type": "number", "label": "节流(ms)", "default": 80, "min": 0, "max": 1000, "description": "同一判定档在该间隔内多次命中只触发一次" }
            ]},
            { "section": "Bad", "fields": [
                { "key": "bad_enable", "type": "bool", "label": "Bad 触发", "default": true },
                { "key": "bad_delta", "type": "percent", "label": "Bad 强度", "default": 35 },
                { "key": "bad_duration", "type": "duration", "label": "Bad 时长", "default": 1.0 },
                { "key": "bad_preset", "type": "preset", "label": "Bad 波形", "default": "CS2-受伤" }
            ]},
            { "section": "Miss", "fields": [
                { "key": "miss_enable", "type": "bool", "label": "Miss 触发", "default": true },
                { "key": "miss_delta", "type": "percent", "label": "Miss 强度", "default": 60 },
                { "key": "miss_duration", "type": "duration", "label": "Miss 时长", "default": 1.5 },
                { "key": "miss_preset", "type": "preset", "label": "Miss 波形", "default": "CS2-受伤" }
            ]},
            { "section": "Perfect/Good", "fields": [
                { "key": "perfect_enable", "type": "bool", "label": "Perfect 触发", "default": false },
                { "key": "perfect_delta", "type": "percent", "label": "Perfect 强度", "default": 10 },
                { "key": "perfect_duration", "type": "duration", "label": "Perfect 时长", "default": 1.0 },
                { "key": "perfect_preset", "type": "preset", "label": "Perfect 波形", "default": "" },
                { "key": "good_enable", "type": "bool", "label": "Good 触发", "default": false },
                { "key": "good_delta", "type": "percent", "label": "Good 强度", "default": 20 },
                { "key": "good_duration", "type": "duration", "label": "Good 时长", "default": 1.0 },
                { "key": "good_preset", "type": "preset", "label": "Good 波形", "default": "" }
            ]}
        ]
    }
}"#;

#[test]
fn the_greeting_has_its_text() {
    let expected: serde_json::Value = serde_json::from_str(GREETING).unwrap();
    let greeting = hello_message("secret", "0.6.7").to_text();
    let written: serde_json::Value = serde_json::from_str(&greeting).unwrap();
    assert_eq!(written, expected);
    assert_eq!(greeting, expected.to_string());
}

#[test]
fn the_greeting_carries_token_and_version() {
    let greeting = hello_message("t\"k", "1.2.3");
    assert_eq!(greeting.get_str("op"), Some("hello"));
    assert_eq!(greeting.get_str("token"), Some("t\"k"));
    let manifest = greeting.get("manifest").unwrap();
    assert_eq!(manifest.get_str("version"), Some("1.2.3"));
    assert_eq!(manifest.get_str("id"), Some("phira"));
    assert_eq!(manifest.get_str("sdk"), Some("1"));
}

fn fields(greeting: &Json) -> Vec<(String, Json)> {
    let mut found = Vec::new();
    if let Some(Json::Array(sections)) = greeting.get("manifest").unwrap().get("config_schema") {
        for section in sections {
            if let Some(Json::Array(fields)) = section.get("fields") {
                for field in fields {
                    let key = field.get_str("key").unwrap().to_owned();
                    found.push((key, field.get("default").unwrap().clone()));
                }
            }
        }
    }
    found
}

fn other_mapping() -> Mapping {
    let setting = |enable: bool| GradeSetting {
        enable,
        strength: 1,
        duration: "9.5".to_owned(),
        preset: "other".to_owned(),
    };
    Mapping::from_config(&Config {
        channel: "a".to_owned(),
        throttle_ms: 1,
        perfect: setting(true),
        good: setting(true),
        bad: setting(false),
        miss: setting(false),
        ..Config::default()
    })
}

#[test]
fn the_page_names_strengths_by_their_delta() {
    let page = fields(&hello_message("abc", "1"));
    for (key, default) in [("bad_delta", 35), ("miss_delta", 60), ("perfect_delta", 10), ("good_delta", 20)] {
        let found: Vec<_> = page.iter().filter(|(k, _)| k == key).collect();
        assert_eq!(found.len(), 1);
        assert_eq!(found[0].1.as_i64(), Some(default));
    }
    assert!(page.iter().all(|(key, _)| !key.ends_with("_strength")));
}

#[test]
fn the_keys_of_the_page_differ() {
    let page = fields(&hello_message("", ""));
    let mut keys: Vec<&str> = page.iter().map(|(key, _)| key.as_str()).collect();
    assert_eq!(keys.len(), 19);
    keys.sort();
    keys.dedup();
    assert_eq!(keys.len(), 19);
}

#[test]
fn every_default_of_the_page_is_taken_over() {
    for (key, default) in fields(&hello_message("", "")) {
        let mut mapping = other_mapping();
        let before = format!("{mapping:?}");
        mapping.apply_one(&key, &default);
        assert_eq!(format!("{mapping:?}") == before, key == "github_url");
    }
}

#[test]
fn the_defaults_of_the_page_are_the_default_mapping() {
    let page = fields(&hello_message("", ""));
    let expected = format!("{:?}", Mapping::default());
    let mut forwards = other_mapping();
    for (key, default) in &page {
        forwards.apply_one(key, default);
    }
    assert_eq!(format!("{forwards:?}"), expected);
    let mut backwards = other_mapping();
    for (key, default) in page.iter().rev() {
        backwards.apply_one(key, default);
    }
    assert_eq!(format!("{backwards:?}"), expected);
}

#[test]
fn the_default_mapping_punishes_mistakes_only() {
    let mapping = Mapping::default();
    assert_eq!(mapping.channel, "both");
    assert_eq!(mapping.throttle_ms, 80);
    assert!(!mapping.throttle_miss);
    assert!(mapping.trigger(Grade::Perfect).is_none());
    assert!(mapping.trigger(Grade::Good).is_none());
    let bad = mapping.trigger(Grade::Bad).unwrap();
    assert_eq!(bad.get("delta_pct").unwrap().as_i64(), Some(35));
    assert_eq!(bad.get("duration_s").unwrap().as_number_text(), Some("1.0".to_owned()));
    assert_eq!(bad.get_str("preset"), Some("CS2-受伤"));
    let miss = mapping.trigger(Grade::Miss).unwrap();
    assert_eq!(miss.get("delta_pct").unwrap().as_i64(), Some(60));
    assert_eq!(miss.get("duration_s").unwrap().as_number_text(), Some("1.5".to_owned()));
    assert_eq!(miss.get_str("preset"), Some("CS2-受伤"));
    assert_eq!(mapping.perfect.delta, 10);
    assert_eq!(mapping.good.delta, 20);
}

#[test]
fn the_default_settings_are_switched_off() {
    let cfg = Config::default();
    assert!(!cfg.enable);
    assert_eq!(cfg.host, "127.0.0.1");
    assert_eq!(cfg.port, 8765);
    assert_eq!(cfg.token, "");
    assert!(!cfg.use_phira_config);
    assert_eq!(format!("{:?}", Mapping::from_config(&cfg)), format!("{:?}", Mapping::default()));
}
