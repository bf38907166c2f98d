use dghub::hub::{
    connection_status, drain_events, request_reconnect, spawn_with_scan, start_from_config,
    DghubEvent, Endpoint, Hub, Reconnect, Start, Status,
};
use dghub::mapping::{Config, GradeSetting};
use dghub::supervisor::{Attempt, Supervisor, SupervisorAction};

fn config(strength: u32) -> Config {
    let setting = || GradeSetting {
        enable: true,
        strength,
        duration: "1.0".to_owned(),
        preset: String::new(),
    };
    Config {
        enable: true,
        host: "home".to_owned(),
        port: 8765,
        token: String::new(),
        use_phira_config: false,
        channel: "both".to_owned(),
        throttle_ms: 80,
        throttle_miss: false,
        perfect: setting(),
        good: setting(),
        bad: setting(),
        miss: setting(),
    }
}

fn task(token: Option<&str>, scan: bool) -> (Hub<()>, Supervisor) {
    let mut hub = Hub::new();
    let endpoint =
        Endpoint { host: "home".to_owned(), port: 8765, token: token.map(|t| t.to_owned()) };
    let task = spawn_with_scan(&mut hub, endpoint, (), scan, &config(1));
    let supervisor = Supervisor::new(task);
    let first = supervisor.attempt();
    assert_eq!(first.endpoint.host, "home");
    assert_eq!(first.endpoint.token, token.map(|t| t.to_owned()));
    assert_eq!(first.mapping.miss.delta, 1);
    (hub, supervisor)
}

fn attempt(action: SupervisorAction) -> Attempt {
    match action {
        SupervisorAction::Run(attempt) => attempt,
        action => panic!("{action:?}"),
    }
}

fn told(hub: &mut Hub<()>) -> Vec<String> {
    drain_events(hub)
        .iter()
        .map(|event| match event {
            DghubEvent::Scanning => "scanning".to_owned(),
            DghubEvent::Connected { host, port } => format!("connected {host}:{port}"),
            DghubEvent::Disconnected(reason) => format!("disconnected {reason}"),
            DghubEvent::ScanFailed => "scan failed".to_owned(),
        })
        .collect()
}

#[test]
fn a_connection_and_its_end_are_told() {
    let (mut hub, mut supervisor) = task(Some("t"), true);
    supervisor.on_accepted(&mut hub);
    assert_eq!(hub.status, Status::Connected);
    assert_eq!(told(&mut hub), vec!["connected home:8765"]);
    assert!(matches!(supervisor.on_run_ended(&mut hub, true), SupervisorAction::Finish));
    assert_eq!(told(&mut hub), vec!["disconnected 连接断开"]);
    assert_eq!(connection_status(&hub), 0);
}

#[test]
fn a_broken_connection_is_not_tried_again() {
    let (mut hub, mut supervisor) = task(Some("t"), true);
    supervisor.on_accepted(&mut hub);
    assert!(matches!(supervisor.on_run_ended(&mut hub, false), SupervisorAction::Finish));
    assert_eq!(told(&mut hub), vec!["connected home:8765", "disconnected 连接断开"]);
}

#[test]
fn a_failed_token_is_followed_by_the_hubs_own() {
    let (mut hub, mut supervisor) = task(Some("t"), false);
    let again = attempt(supervisor.on_run_ended(&mut hub, false));
    assert_eq!(again.endpoint.host, "home");
    assert_eq!(again.endpoint.port, 8765);
    assert_eq!(again.endpoint.token, None);
    supervisor.on_accepted(&mut hub);
    assert!(matches!(supervisor.on_run_ended(&mut hub, false), SupervisorAction::Finish));
    assert_eq!(told(&mut hub), vec!["connected home:8765", "disconnected 连接断开"]);
}

#[test]
fn without_a_scan_a_failure_is_silent() {
    let (mut hub, mut supervisor) = task(None, false);
    assert!(matches!(supervisor.on_run_ended(&mut hub, false), SupervisorAction::Finish));
    assert!(told(&mut hub).is_empty());
    assert_eq!(connection_status(&hub), 0);
}

#[test]
fn a_scan_that_finds_nothing_has_failed() {
    let (mut hub, mut supervisor) = task(None, true);
    assert!(matches!(supervisor.on_run_ended(&mut hub, false), SupervisorAction::Scan));
    assert_eq!(connection_status(&hub), 1);
    let action = supervisor.on_scan_ended(&mut hub, None, &config(2));
    assert!(matches!(action, SupervisorAction::Finish));
    assert_eq!(told(&mut hub), vec!["scanning", "scan failed"]);
    assert_eq!(connection_status(&hub), 0);
}

#[test]
fn a_found_hub_is_tried_with_the_token_and_then_without() {
    let (mut hub, mut supervisor) = task(Some("t"), true);
    attempt(supervisor.on_run_ended(&mut hub, false));
    assert!(matches!(supervisor.on_run_ended(&mut hub, false), SupervisorAction::Scan));
    let found = Some(("10.0.0.7".to_owned(), 8002));
    let second = attempt(supervisor.on_scan_ended(&mut hub, found, &config(2)));
    assert_eq!(second.endpoint.host, "10.0.0.7");
    assert_eq!(second.endpoint.port, 8002);
    assert_eq!(second.endpoint.token, Some("t".to_owned()));
    assert_eq!(second.mapping.miss.delta, 2);
    let session = hub.session.as_ref().unwrap();
    assert_eq!(session.endpoint.host, "10.0.0.7");
    assert_eq!(session.endpoint.port, 8002);
    let again = attempt(supervisor.on_run_ended(&mut hub, false));
    assert_eq!(again.endpoint.host, "10.0.0.7");
    assert_eq!(again.endpoint.token, None);
    assert_eq!(again.mapping.miss.delta, 2);
    assert!(matches!(supervisor.on_run_ended(&mut hub, false), SupervisorAction::Finish));
    assert_eq!(told(&mut hub), vec!["scanning", "scan failed"]);
}

#[test]
fn a_found_hub_that_accepts_is_told_with_its_place() {
    let (mut hub, mut supervisor) = task(None, true);
    supervisor.on_run_ended(&mut hub, false);
    let found = Some(("10.0.0.7".to_owned(), 8002));
    attempt(supervisor.on_scan_ended(&mut hub, found, &config(2)));
    supervisor.on_accepted(&mut hub);
    supervisor.on_accepted(&mut hub);
    assert!(matches!(supervisor.on_run_ended(&mut hub, true), SupervisorAction::Finish));
    assert_eq!(
        told(&mut hub),
        vec!["scanning", "connected 10.0.0.7:8002", "disconnected 连接断开"]
    );
}

#[test]
fn a_finished_task_ignores_everything() {
    let (mut hub, mut supervisor) = task(None, false);
    supervisor.on_run_ended(&mut hub, false);
    hub.status = Status::Connecting;
    supervisor.on_accepted(&mut hub);
    assert!(matches!(supervisor.on_run_ended(&mut hub, false), SupervisorAction::Ignore));
    let found = Some(("x".to_owned(), 1));
    let action = supervisor.on_scan_ended(&mut hub, found, &config(2));
    assert!(matches!(action, SupervisorAction::Ignore));
    assert!(told(&mut hub).is_empty());
    assert_eq!(hub.status, Status::Connecting);
}

fn restarted(hub: &mut Hub<()>) -> Supervisor {
    match request_reconnect(hub, &config(3)) {
        Reconnect::Restart(task) => Supervisor::new(task),
        answer => panic!("{answer:?}"),
    }
}

#[test]
fn the_end_of_a_replaced_task_leaves_the_status() {
    let (mut hub, mut first) = task(None, true);
    first.on_accepted(&mut hub);
    assert_eq!(connection_status(&hub), 2);
    let mut second = restarted(&mut hub);
    assert_eq!(connection_status(&hub), 1);
    assert!(matches!(first.on_run_ended(&mut hub, true), SupervisorAction::Finish));
    assert_eq!(connection_status(&hub), 1);
    assert!(matches!(start_from_config(&hub, &config(3)), Start::Running(_)));
    second.on_accepted(&mut hub);
    assert_eq!(connection_status(&hub), 2);
    assert!(matches!(second.on_run_ended(&mut hub, true), SupervisorAction::Finish));
    assert_eq!(connection_status(&hub), 0);
    assert_eq!(
        told(&mut hub),
        vec![
            "connected home:8765",
            "disconnected 连接断开",
            "connected home:8765",
            "disconnected 连接断开"
        ]
    );
}

#[test]
fn a_replaced_task_moves_no_session_and_sets_no_status() {
    let (mut hub, mut first) = task(None, true);
    assert!(matches!(first.on_run_ended(&mut hub, false), SupervisorAction::Scan));
    let mut second = restarted(&mut hub);
    let found = Some(("10.0.0.7".to_owned(), 8002));
    let attempt = attempt(first.on_scan_ended(&mut hub, found, &config(2)));
    assert_eq!(attempt.endpoint.host, "10.0.0.7");
    assert_eq!(hub.session.as_ref().unwrap().endpoint.host, "home");
    first.on_accepted(&mut hub);
    assert_eq!(connection_status(&hub), 1);
    second.on_accepted(&mut hub);
    first.on_run_ended(&mut hub, false);
    assert_eq!(connection_status(&hub), 2);
}

#[test]
fn a_new_session_replaces_the_task_of_the_one_before() {
    let (mut hub, mut first) = task(None, false);
    let endpoint = Endpoint { host: "new".to_owned(), port: 1, token: None };
    let task = spawn_with_scan(&mut hub, endpoint, (), false, &config(1));
    assert_eq!(task.number, hub.current);
    let mut second = Supervisor::new(task);
    first.on_run_ended(&mut hub, false);
    assert_eq!(connection_status(&hub), 1);
    second.on_run_ended(&mut hub, false);
    assert_eq!(connection_status(&hub), 0);
}

#[test]
fn numbers_of_tasks_begin_again() {
    let (mut hub, mut first) = task(None, false);
    hub.current = u64::MAX;
    let second = restarted(&mut hub);
    assert_eq!(hub.current, 0);
    assert_eq!(second.attempt().endpoint.host, "home");
    first.on_run_ended(&mut hub, false);
    assert_eq!(connection_status(&hub), 1);
}
