use dghub::grade::Grade;
use dghub::hello::hello_message;
use dghub::hub::Endpoint;
use dghub::json::Json;
use dghub::mapping::{Config, GradeSetting, Mapping};
use dghub::run::{read_reply, Reply, Run, RunAction, RunError, RunEvent};

fn mapping() -> Mapping {
    let setting = |enable: bool, strength: u32| GradeSetting {
        enable,
        strength,
        duration: "1.5".to_owned(),
        preset: String::new(),
    };
    Mapping::from_config(&Config {
        enable: true,
        host: "h".to_owned(),
        port: 1,
        token: String::new(),
        use_phira_config: false,
        channel: "a".to_owned(),
        throttle_ms: 80,
        throttle_miss: false,
        perfect: setting(false, 10),
        good: setting(false, 20),
        bad: setting(true, 35),
        miss: setting(true, 60),
    })
}

fn attempt(token: Option<&str>) -> Run {
    let endpoint =
        Endpoint { host: "hub".to_owned(), port: 8000, token: token.map(|t| t.to_owned()) };
    Run::new(endpoint, mapping(), "1.0.0")
}

fn text(text: &str) -> RunEvent {
    RunEvent::Text(text.to_owned())
}

fn greeted() -> Run {
    let mut run = attempt(Some("tok"));
    run.step(RunEvent::Begin);
    run.step(RunEvent::Opened);
    assert!(matches!(run.step(RunEvent::Sent), RunAction::AwaitReply));
    run
}

fn live(use_phira_config: bool) -> Run {
    let mut run = greeted();
    let action = run.step(text("{\"op\":\"hello_ack\",\"accepted\":true}"));
    assert!(matches!(action, RunAction::Accepted));
    let action = run.step(RunEvent::GoLive { use_phira_config });
    assert!(matches!(action, RunAction::AwaitEvent));
    run
}

#[test]
fn a_set_token_opens_the_socket_at_once() {
    let mut run = attempt(Some("tok"));
    match run.step(RunEvent::Begin) {
        RunAction::Open { url } => assert_eq!(url, "ws://hub:8000/ws/plugin?token=tok"),
        action => panic!("{action:?}"),
    }
    match run.step(RunEvent::Opened) {
        RunAction::Send { text } => assert_eq!(text, hello_message("tok", "1.0.0").to_text()),
        action => panic!("{action:?}"),
    }
}

#[test]
fn without_a_token_one_is_fetched() {
    for token in [None, Some("")] {
        let mut run = attempt(token);
        match run.step(RunEvent::Begin) {
            RunAction::FetchToken { url } => {
                assert_eq!(url, "http://hub:8000/api/plugins/_session_token")
            }
            action => panic!("{action:?}"),
        }
        match run.step(RunEvent::TokenReply("{\"token\":\"abc\"}".to_owned())) {
            RunAction::Open { url } => assert_eq!(url, "ws://hub:8000/ws/plugin?token=abc"),
            action => panic!("{action:?}"),
        }
        match run.step(RunEvent::Opened) {
            RunAction::Send { text } => assert_eq!(text, hello_message("abc", "1.0.0").to_text()),
            action => panic!("{action:?}"),
        }
    }
}

#[test]
fn an_answer_is_awaited_through_other_messages() {
    let mut run = greeted();
    for event in [
        text("{\"op\":\"config\",\"data\":{}}"),
        text("{\"accepted\":true}"),
        text("[]"),
        RunEvent::OtherFrame,
        RunEvent::CloseFrame,
    ] {
        assert!(matches!(run.step(event), RunAction::AwaitReply));
    }
    let action = run.step(text("{\"op\":\"hello_ack\",\"accepted\":true}"));
    assert!(matches!(action, RunAction::Accepted));
}

fn error_of(action: RunAction) -> RunError {
    match action {
        RunAction::End(Err(error)) => error,
        action => panic!("{action:?}"),
    }
}

#[test]
fn a_rejection_ends_with_its_reason() {
    let cases = [
        ("{\"op\":\"hello_ack\",\"accepted\":false,\"reason\":\"bad token\"}", "bad token"),
        ("{\"op\":\"hello_ack\"}", "unknown"),
        ("{\"op\":\"hello_ack\",\"accepted\":1,\"reason\":7}", "unknown"),
        ("{\"op\":\"hello_ack\",\"accepted\":\"true\",\"reason\":\"\"}", ""),
    ];
    for (reply, reason) in cases {
        let mut run = greeted();
        let error = error_of(run.step(text(reply)));
        assert!(matches!(&error, RunError::Rejected(r) if r == reason));
        assert_eq!(error.message(), Some(format!("hello rejected: {reason}")));
        assert!(matches!(run.step(RunEvent::Begin), RunAction::Ignore));
    }
}

#[test]
fn an_answer_that_is_not_json_ends_the_attempt() {
    let error = error_of(greeted().step(text("hello_ack")));
    assert!(matches!(error, RunError::BadReply));
    assert_eq!(error.message(), None);
}

#[test]
fn an_early_end_of_the_stream_is_an_error() {
    let error = error_of(greeted().step(RunEvent::StreamEnded));
    assert!(matches!(error, RunError::ClosedEarly));
    assert_eq!(error.message(), Some("connection closed before hello_ack".to_owned()));
}

#[test]
fn failures_end_the_attempt_at_every_stage() {
    let mut fetching = attempt(None);
    fetching.step(RunEvent::Begin);
    let mut opening = attempt(Some("t"));
    opening.step(RunEvent::Begin);
    let mut greeting = attempt(Some("t"));
    greeting.step(RunEvent::Begin);
    greeting.step(RunEvent::Opened);
    for mut run in [fetching, opening, greeting, greeted(), live(false)] {
        let error = error_of(run.step(RunEvent::Failed));
        assert!(matches!(error, RunError::Io));
        assert_eq!(error.message(), None);
        assert!(matches!(run.step(RunEvent::Failed), RunAction::Ignore));
    }
}

#[test]
fn no_hit_is_sent_before_the_session() {
    let hit = || RunEvent::Hit { grade: Grade::Miss, now: 1 };
    let mut run = attempt(Some("t"));
    assert!(matches!(run.step(hit()), RunAction::Ignore));
    run.step(RunEvent::Begin);
    assert!(matches!(run.step(hit()), RunAction::Ignore));
    run.step(RunEvent::Opened);
    assert!(matches!(run.step(hit()), RunAction::Ignore));
    run.step(RunEvent::Sent);
    assert!(matches!(run.step(hit()), RunAction::Ignore));
    run.step(text("{\"op\":\"hello_ack\",\"accepted\":true}"));
    assert!(matches!(run.step(hit()), RunAction::Ignore));
    run.step(RunEvent::GoLive { use_phira_config: false });
    assert!(matches!(run.step(hit()), RunAction::Send { .. }));
}

#[test]
fn a_running_session_sends_triggers_and_pongs() {
    let mut run = live(false);
    match run.step(RunEvent::Hit { grade: Grade::Miss, now: 5 }) {
        RunAction::Send { text } => assert_eq!(
            text,
            "{\"action\":\"strength\",\"channel\":\"a\",\"delta_pct\":60,\"duration_s\":1.5,\
             \"label\":\"Miss\",\"op\":\"trigger\",\"strength_mode\":\"rollback\"}"
        ),
        action => panic!("{action:?}"),
    }
    assert!(matches!(run.step(RunEvent::Sent), RunAction::AwaitEvent));
    match run.step(text("{\"op\":\"ping\",\"t\":3}")) {
        RunAction::Send { text } => assert_eq!(text, "{\"op\":\"pong\",\"t\":3}"),
        action => panic!("{action:?}"),
    }
    assert!(matches!(run.step(text("garbage")), RunAction::AwaitEvent));
    assert!(matches!(run.step(RunEvent::OtherFrame), RunAction::AwaitEvent));
    let hit = RunEvent::Hit { grade: Grade::Good, now: 5 };
    assert!(matches!(run.step(hit), RunAction::AwaitEvent));
}

#[test]
fn the_hub_may_change_the_mapping_of_a_session() {
    let change = "{\"op\":\"config_changed\",\"key\":\"miss_enable\",\"value\":false}";
    let hit = || RunEvent::Hit { grade: Grade::Miss, now: 1 };
    let mut open = live(false);
    open.step(text(change));
    assert!(matches!(open.step(hit()), RunAction::AwaitEvent));
    let mut closed = live(true);
    closed.step(text(change));
    assert!(matches!(closed.step(hit()), RunAction::Send { .. }));
}

#[test]
fn a_session_ends_well() {
    for event in [text("{\"op\":\"stop\"}"), RunEvent::CloseFrame, RunEvent::StreamEnded] {
        let mut run = live(false);
        assert!(matches!(run.step(event), RunAction::End(Ok(()))));
        assert!(matches!(run.step(RunEvent::OtherFrame), RunAction::Ignore));
    }
}

#[test]
fn a_session_without_a_game_leaves() {
    let mut run = live(false);
    assert!(matches!(run.step(RunEvent::HitsEnded), RunAction::Leave));
    let hit = RunEvent::Hit { grade: Grade::Miss, now: 1 };
    assert!(matches!(run.step(hit), RunAction::Ignore));
}

#[test]
fn answers_to_the_greeting() {
    let reply = |text: &str| read_reply(&Json::parse(text).unwrap());
    assert!(matches!(reply("{\"op\":\"hello_ack\",\"accepted\":true}"), Reply::Accepted));
    assert!(matches!(reply("{\"op\":\"hello\"}"), Reply::Other));
    assert!(matches!(reply("5"), Reply::Other));
    assert!(matches!(reply("{\"op\":\"hello_ack\"}"), Reply::Rejected(r) if r == "unknown"));
}
