use dghub::grade::Grade;
use dghub::json::Json;
use dghub::live::{LiveAction, LiveSession};
use dghub::mapping::{Config, GradeSetting, Mapping};

const MILLI: u64 = 1_000_000;

fn setting(enable: bool, strength: u32) -> GradeSetting {
    GradeSetting { enable, strength, duration: "1.0".to_owned(), preset: "wave".to_owned() }
}

fn config(throttle_ms: u32, throttle_miss: bool) -> Config {
    Config {
        enable: true,
        host: "127.0.0.1".to_owned(),
        port: 8765,
        token: String::new(),
        use_phira_config: false,
        channel: "both".to_owned(),
        throttle_ms,
        throttle_miss,
        perfect: setting(false, 10),
        good: setting(true, 20),
        bad: setting(true, 35),
        miss: setting(true, 60),
    }
}

fn session(throttle_ms: u32, throttle_miss: bool) -> LiveSession {
    LiveSession::new(Mapping::from_config(&config(throttle_ms, throttle_miss)), false)
}

fn sends(action: LiveAction) -> bool {
    matches!(action, LiveAction::Send(_))
}

fn delta(action: LiveAction) -> Option<i64> {
    match action {
        LiveAction::Send(message) => message.get("delta_pct").unwrap().as_i64(),
        _ => None,
    }
}

#[test]
fn hits_of_a_grade_are_spaced() {
    let mut live = session(80, false);
    assert!(sends(live.on_hit(Grade::Bad, 1000 * MILLI)));
    assert!(!sends(live.on_hit(Grade::Bad, 1000 * MILLI)));
    assert!(!sends(live.on_hit(Grade::Bad, 1080 * MILLI - 1)));
    assert!(sends(live.on_hit(Grade::Bad, 1080 * MILLI)));
    assert!(!sends(live.on_hit(Grade::Bad, 1150 * MILLI)));
    assert!(sends(live.on_hit(Grade::Bad, 1160 * MILLI)));
}

#[test]
fn a_hit_that_was_held_back_does_not_delay_the_next() {
    let mut live = session(100, false);
    assert!(sends(live.on_hit(Grade::Good, 0)));
    assert!(!sends(live.on_hit(Grade::Good, 99 * MILLI)));
    assert!(sends(live.on_hit(Grade::Good, 100 * MILLI)));
}

#[test]
fn grades_are_spaced_on_their_own() {
    let mut live = session(80, true);
    assert!(sends(live.on_hit(Grade::Bad, 5)));
    assert!(sends(live.on_hit(Grade::Good, 5)));
    assert!(sends(live.on_hit(Grade::Miss, 5)));
    assert!(!sends(live.on_hit(Grade::Bad, 6)));
    assert!(!sends(live.on_hit(Grade::Good, 6)));
    assert!(!sends(live.on_hit(Grade::Miss, 6)));
}

#[test]
fn misses_are_spaced_only_if_set() {
    let mut free = session(80, false);
    let mut spaced = session(80, true);
    for now in [10, 11, 12] {
        assert!(sends(free.on_hit(Grade::Miss, now)));
    }
    assert!(sends(spaced.on_hit(Grade::Miss, 10)));
    assert!(!sends(spaced.on_hit(Grade::Miss, 11)));
}

#[test]
fn without_spacing_every_hit_is_sent() {
    let mut live = session(0, true);
    for _ in 0..5 {
        assert!(sends(live.on_hit(Grade::Bad, 7)));
        assert!(sends(live.on_hit(Grade::Miss, 7)));
    }
}

#[test]
fn a_clock_that_goes_back_counts_as_no_time() {
    let mut live = session(80, false);
    assert!(sends(live.on_hit(Grade::Bad, 1000 * MILLI)));
    assert!(!sends(live.on_hit(Grade::Bad, 0)));
}

#[test]
fn a_disabled_grade_sends_nothing() {
    let mut live = session(0, false);
    assert!(matches!(live.on_hit(Grade::Perfect, 1), LiveAction::Wait));
}

#[test]
fn a_change_takes_effect_with_the_next_hit() {
    let mut live = session(0, false);
    assert_eq!(delta(live.on_hit(Grade::Miss, 1)), Some(60));
    let action =
        live.on_text("{\"op\":\"config_changed\",\"key\":\"miss_strength\",\"value\":90}");
    assert!(matches!(action, LiveAction::Wait));
    assert_eq!(delta(live.on_hit(Grade::Miss, 2)), Some(90));
    live.on_text("{\"op\":\"config\",\"data\":{\"miss_strength\":15,\"perfect_enable\":true}}");
    assert_eq!(delta(live.on_hit(Grade::Miss, 3)), Some(15));
    assert_eq!(delta(live.on_hit(Grade::Perfect, 4)), Some(10));
    live.on_text("{\"op\":\"config_changed\",\"key\":\"miss_enable\",\"value\":false}");
    assert_eq!(delta(live.on_hit(Grade::Miss, 5)), None);
}

#[test]
fn incomplete_changes_do_nothing() {
    let mut live = session(0, false);
    for text in [
        "{\"op\":\"config\"}",
        "{\"op\":\"config\",\"data\":5}",
        "{\"op\":\"config_changed\",\"key\":\"miss_strength\"}",
        "{\"op\":\"config_changed\",\"value\":90}",
        "{\"op\":\"config_changed\",\"key\":7,\"value\":90}",
        "{\"op\":7}",
        "{\"miss_strength\":90}",
        "[]",
        "not json",
        "{\"op\":\"device_info\",\"connected\":false}",
    ] {
        assert!(matches!(live.on_text(text), LiveAction::Wait));
    }
    assert_eq!(delta(live.on_hit(Grade::Miss, 1)), Some(60));
}

#[test]
fn own_settings_are_not_changed_by_the_hub() {
    let mut live = LiveSession::new(Mapping::from_config(&config(0, false)), true);
    live.on_text("{\"op\":\"config_changed\",\"key\":\"miss_strength\",\"value\":90}");
    live.on_text("{\"op\":\"config\",\"data\":{\"miss_strength\":15}}");
    assert_eq!(delta(live.on_hit(Grade::Miss, 1)), Some(60));
}

#[test]
fn a_ping_gets_its_pong() {
    let mut live = session(0, false);
    let pong = |action: LiveAction| match action {
        LiveAction::Send(message) => message.to_text(),
        _ => panic!("no pong"),
    };
    assert_eq!(pong(live.on_text("{\"op\":\"ping\"}")), "{\"op\":\"pong\"}");
    assert_eq!(
        pong(live.on_text("{\"op\":\"ping\",\"t\":1700000000.25}")),
        "{\"op\":\"pong\",\"t\":1700000000.25}"
    );
    assert_eq!(
        pong(live.on_text("{\"op\":\"ping\",\"t\":{\"b\":[1,null],\"a\":\"x\"},\"u\":1}")),
        "{\"op\":\"pong\",\"t\":{\"a\":\"x\",\"b\":[1,null]}}"
    );
}

#[test]
fn a_stop_ends_the_session() {
    let mut live = session(0, false);
    assert!(matches!(live.on_text("{\"op\":\"stop\"}"), LiveAction::Stop));
    assert!(matches!(live.on_message(&Json::text("stop")), LiveAction::Wait));
}

#[test]
fn the_spacing_in_force_at_the_later_hit_counts() {
    let mut live = session(80, false);
    let change = |live: &mut LiveSession, ms: u32| {
        live.on_text(&format!(
            "{{\"op\":\"config_changed\",\"key\":\"throttle_ms\",\"value\":{ms}}}"
        ));
    };
    assert!(sends(live.on_hit(Grade::Bad, 0)));
    change(&mut live, 200);
    assert!(!sends(live.on_hit(Grade::Bad, 199 * MILLI)));
    assert!(sends(live.on_hit(Grade::Bad, 200 * MILLI)));
    change(&mut live, 10);
    assert!(!sends(live.on_hit(Grade::Bad, 209 * MILLI)));
    assert!(sends(live.on_hit(Grade::Bad, 210 * MILLI)));
}
